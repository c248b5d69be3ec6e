//! The link boundary: the address scheme that selects a transport, the
//! MTU fragmentation a transport driver applies to outbound units, and the
//! plain records describing discoverable Bluetooth endpoints.
//!
//! Physical connection establishment itself is the caller's: the functions
//! here only decide, on plain values, what the caller then performs.

use vstd::prelude::*;
use vstd::string::StrSliceExecFns;
use crate::bridge::chunks_bytes;

verus! {

/// A transport endpoint selected by a scheme-prefixed address string.
#[derive(Debug)]
pub enum LinkAddress {
    /// Inbound UDP: bind address and port, as text.
    Udp { bind: String },
    /// Serial port: device path and baud rate.
    Serial { path: String, baud: u32 },
}

/// Why an address string was rejected.
#[derive(Clone, Copy, PartialEq, Eq, Structural, Debug)]
pub enum AddressError {
    /// The address starts with no known scheme.
    UnknownScheme,
    /// A serial address carries no baud-rate separator after its path.
    MissingBaud,
    /// The baud-rate field is empty, non-numeric, or too large.
    InvalidBaud,
}

/// Whether `s` starts with the inbound-UDP scheme prefix.
pub open spec fn has_udp_prefix(s: Seq<char>) -> bool {
    &&& s.len() >= 6
    &&& s[0] == 'u'
    &&& s[1] == 'd'
    &&& s[2] == 'p'
    &&& s[3] == 'i'
    &&& s[4] == 'n'
    &&& s[5] == ':'
}

/// Whether `s` starts with the serial scheme prefix.
pub open spec fn has_serial_prefix(s: Seq<char>) -> bool {
    &&& s.len() >= 7
    &&& s[0] == 's'
    &&& s[1] == 'e'
    &&& s[2] == 'r'
    &&& s[3] == 'i'
    &&& s[4] == 'a'
    &&& s[5] == 'l'
    &&& s[6] == ':'
}

/// Index of the last occurrence of `c` in `s`, or -1.
pub open spec fn last_index_of(s: Seq<char>, c: char) -> int
    decreases s.len(),
{
    if s.len() == 0 {
        -1
    } else if s.last() == c {
        s.len() - 1
    } else {
        last_index_of(s.drop_last(), c)
    }
}

/// `last_index_of` finds the last occurrence: at its result the character
/// stands, and right of it the character does not occur.
pub proof fn lemma_last_index_of(s: Seq<char>, c: char)
    ensures
        -1 <= last_index_of(s, c) < s.len(),
        last_index_of(s, c) >= 0 ==> s[last_index_of(s, c)] == c,
        forall|j: int| last_index_of(s, c) < j < s.len() ==> s[j] != c,
    decreases s.len(),
{
    if s.len() > 0 {
        lemma_last_index_of(s.drop_last(), c);
        if s.last() != c {
            assert forall|j: int| last_index_of(s, c) < j < s.len() implies s[j] != c by {
                if j < s.len() - 1 {
                    assert(s.drop_last()[j] == s[j]);
                }
            };
        }
    }
}

/// Whether every character of `s` is a decimal digit.
pub open spec fn all_digits(s: Seq<char>) -> bool {
    forall|i: int| 0 <= i < s.len() ==> 48 <= (#[trigger] s[i]) as int <= 57
}

/// The number written in decimal by `s`.
pub open spec fn digits_value(s: Seq<char>) -> int
    decreases s.len(),
{
    if s.len() == 0 {
        0
    } else {
        digits_value(s.drop_last()) * 10 + (s.last() as int - 48)
    }
}

/// The decimal value of a digit string bounds the value of each of its
/// prefixes.
proof fn lemma_digits_value_prefix(s: Seq<char>, i: int)
    requires
        all_digits(s),
        0 <= i <= s.len(),
    ensures
        digits_value(s) >= digits_value(s.take(i)),
        digits_value(s) >= 0,
    decreases s.len() - i,
{
    if i == s.len() {
        assert(s.take(i) =~= s);
        lemma_digits_value_nonneg(s);
    } else {
        lemma_digits_value_prefix(s, i + 1);
        assert(s.take(i + 1).drop_last() =~= s.take(i));
        assert(s.take(i + 1).last() == s[i]);
        lemma_digits_value_nonneg(s.take(i));
    }
}

proof fn lemma_digits_value_nonneg(s: Seq<char>)
    requires
        all_digits(s),
    ensures
        digits_value(s) >= 0,
    decreases s.len(),
{
    if s.len() > 0 {
        assert(all_digits(s.drop_last())) by {
            assert(forall|i: int| 0 <= i < s.len() - 1 ==> s.drop_last()[i] == s[i]);
        };
        lemma_digits_value_nonneg(s.drop_last());
    }
}

/// What a well-formed serial address yields: the path between the scheme
/// and the last colon, and the baud digits after that colon.
pub open spec fn serial_parts_ok(s: Seq<char>, path: Seq<char>, baud: u32) -> bool {
    let k = last_index_of(s, ':');
    &&& k > 6
    &&& path == s.subrange(7, k)
    &&& all_digits(s.skip(k + 1))
    &&& s.skip(k + 1).len() > 0
    &&& baud as int == digits_value(s.skip(k + 1))
}

/// Parses a scheme-prefixed address selecting the transport kind:
/// `udpin:` followed by a bind address, or `serial:` followed by a device
/// path, a colon, and a decimal baud rate. Exactly the strings with a
/// known scheme and (for serial) a well-formed baud field are accepted.
pub fn parse_address(address: &str) -> (r: Result<LinkAddress, AddressError>)
    ensures
        r == Err::<LinkAddress, AddressError>(AddressError::UnknownScheme) <==> !has_udp_prefix(
            address@,
        ) && !has_serial_prefix(address@),
        has_udp_prefix(address@) ==> (r matches Ok(a) && a matches LinkAddress::Udp { bind }
            && bind@ == address@.skip(6)),
        has_serial_prefix(address@) ==> match r {
            Ok(a) => (a matches LinkAddress::Serial { path, baud } && serial_parts_ok(
                address@,
                path@,
                baud,
            )),
            Err(e) => {
                let k = last_index_of(address@, ':');
                &&& (e == AddressError::MissingBaud <==> k == 6)
                &&& (e == AddressError::InvalidBaud <==> k > 6 && !(all_digits(
                    address@.skip(k + 1),
                ) && address@.skip(k + 1).len() > 0 && digits_value(address@.skip(k + 1))
                    <= u32::MAX))
            },
        },
{
    let n = address.unicode_len();
    if n >= 6 && address.get_char(0) == 'u' && address.get_char(1) == 'd' && address.get_char(2)
        == 'p' && address.get_char(3) == 'i' && address.get_char(4) == 'n' && address.get_char(5)
        == ':' {
        let bind = address.substring_char(6, n).to_owned();
        proof {
            assert(bind@ =~= address@.skip(6));
        }
        return Ok(LinkAddress::Udp { bind });
    }
    if n >= 7 && address.get_char(0) == 's' && address.get_char(1) == 'e' && address.get_char(2)
        == 'r' && address.get_char(3) == 'i' && address.get_char(4) == 'a' && address.get_char(5)
        == 'l' && address.get_char(6) == ':' {
        proof {
            lemma_last_index_of(address@, ':');
        }
        // Find the last colon; it separates the path from the baud rate.
        let mut k: usize = n;
        let mut j: usize = n;
        while j > 7
            invariant
                7 <= j <= n,
                n == address@.len(),
                k == n || (j <= k < n && address@[k as int] == ':'),
                k == n ==> forall|m: int| j <= m < n ==> address@[m] != ':',
                k < n ==> forall|m: int| k < m < n ==> address@[m] != ':',
            decreases j,
        {
            j = j - 1;
            if address.get_char(j) == ':' && k == n {
                k = j;
            }
        }
        if k == n {
            // No colon after the scheme: the prefix colon is the last one.
            proof {
                assert(last_index_of(address@, ':') == 6) by {
                    assert(address@[6] == ':');
                    assert(forall|m: int| 6 < m < n ==> address@[m] != ':');
                }
            }
            return Err(AddressError::MissingBaud);
        }
        proof {
            assert(last_index_of(address@, ':') == k as int) by {
                assert(address@[k as int] == ':');
                assert(forall|m: int| k < m < n ==> address@[m] != ':');
            }
        }
        // Parse the baud digits after the last colon.
        let ghost digits = address@.skip(k as int + 1);
        if k + 1 == n {
            proof {
                assert(digits.len() == 0);
            }
            return Err(AddressError::InvalidBaud);
        }
        let mut value: u64 = 0;
        let mut i: usize = k + 1;
        while i < n
            invariant
                k + 1 <= i <= n,
                n == address@.len(),
                has_serial_prefix(address@),
                last_index_of(address@, ':') == k as int,
                6 < k < n,
                digits == address@.skip(k as int + 1),
                all_digits(digits.take(i - k - 1)),
                value == digits_value(digits.take(i - k - 1)),
                value <= u32::MAX,
            decreases n - i,
        {
            let c = address.get_char(i);
            if c < '0' || c > '9' {
                proof {
                    assert(digits[i - k - 1] == address@[i as int]);
                }
                return Err(AddressError::InvalidBaud);
            }
            let d: u64 = (c as u32 as u64) - 48;
            let next: u64 = value * 10 + d;
            i = i + 1;
            proof {
                let t = digits.take(i - k - 1);
                assert(t.drop_last() =~= digits.take(i - k - 2));
                assert(t.last() == address@[i - 1]);
            }
            if next > 0xFFFF_FFFF {
                proof {
                    assert(digits_value(digits.take(i - k - 1)) > u32::MAX);
                    if all_digits(digits) {
                        lemma_digits_value_prefix(digits, i - k - 1);
                    }
                }
                return Err(AddressError::InvalidBaud);
            }
            value = next;
        }
        proof {
            assert(digits.take(n - k - 1) =~= digits);
        }
        let path = address.substring_char(7, k).to_owned();
        return Ok(LinkAddress::Serial { path, baud: value as u32 });
    }
    Err(AddressError::UnknownScheme)
}

/// Splits one outbound unit into link-sized fragments: every fragment is
/// non-empty, none exceeds the MTU, and their concatenation is exactly the
/// unit — the fragmentation a size-limited link's driver performs before
/// physical transmission.
pub fn chunk_to_mtu(data: &Vec<u8>, mtu: usize) -> (r: Vec<Vec<u8>>)
    requires
        mtu >= 1,
    ensures
        chunks_bytes(r@) == data@,
        forall|i: int| 0 <= i < r@.len() ==> 1 <= (#[trigger] r@[i])@.len() <= mtu,
{
    let mut r: Vec<Vec<u8>> = Vec::new();
    let mut pos: usize = 0;
    proof {
        assert(chunks_bytes(r@) =~= data@.take(0));
    }
    while pos < data.len()
        invariant
            pos <= data@.len(),
            mtu >= 1,
            chunks_bytes(r@) == data@.take(pos as int),
            forall|i: int| 0 <= i < r@.len() ==> 1 <= (#[trigger] r@[i])@.len() <= mtu,
        decreases data@.len() - pos,
    {
        let remaining = data.len() - pos;
        let take = if remaining < mtu {
            remaining
        } else {
            mtu
        };
        let mut chunk: Vec<u8> = Vec::new();
        let mut j: usize = 0;
        while j < take
            invariant
                j <= take,
                pos + take <= data@.len(),
                pos + take <= usize::MAX,
                chunk@ == data@.subrange(pos as int, pos + j),
            decreases take - j,
        {
            chunk.push(data[pos + j]);
            j = j + 1;
            proof {
                assert(chunk@ =~= data@.subrange(pos as int, pos + j));
            }
        }
        let ghost pre = r@;
        r.push(chunk);
        proof {
            crate::bridge::lemma_chunks_bytes_push(pre, chunk);
            assert(chunks_bytes(r@) =~= data@.take(pos + take));
        }
        pos = pos + take;
    }
    proof {
        assert(data@.take(data@.len() as int) =~= data@);
    }
    r
}

/// A classic Bluetooth device already bonded with the host, as the
/// platform's enumeration reports it.
#[derive(Debug)]
pub struct BondedDevice {
    pub name: String,
    pub address: String,
}

/// A device found by discovery, of either Bluetooth kind.
#[derive(Debug)]
pub struct BluetoothDevice {
    pub name: String,
    pub address: String,
    /// The transport kind the device speaks, as reported by discovery.
    pub device_type: String,
}

/// Whether some listed device carries this address.
pub open spec fn has_address(ds: Seq<BluetoothDevice>, address: Seq<char>) -> bool {
    exists|i: int| 0 <= i < ds.len() && (#[trigger] ds[i]).address@ == address
}

/// Merges one discovered device into the list: a device whose address is
/// already listed is dropped (scans report devices repeatedly), and a
/// nameless device is listed under its address.
pub fn add_discovered(devices: &mut Vec<BluetoothDevice>, name: String, address: String,
    device_type: String)
    ensures
        has_address(old(devices)@, address@) ==> final(devices)@ == old(devices)@,
        !has_address(old(devices)@, address@) ==> {
            &&& final(devices)@.len() == old(devices)@.len() + 1
            &&& final(devices)@.drop_last() == old(devices)@
            &&& final(devices)@.last().address@ == address@
            &&& final(devices)@.last().device_type@ == device_type@
            &&& final(devices)@.last().name@ == (if name@.len() == 0 {
                address@
            } else {
                name@
            })
        },
{
    let mut i: usize = 0;
    while i < devices.len()
        invariant
            i <= devices@.len(),
            forall|j: int| 0 <= j < i ==> (#[trigger] devices@[j]).address@ != address@,
        decreases devices@.len() - i,
    {
        if devices[i].address == address {
            return ;
        }
        i = i + 1;
    }
    let display_name = if name.unicode_len() == 0 {
        address.clone()
    } else {
        name
    };
    let ghost pre = devices@;
    devices.push(BluetoothDevice { name: display_name, address, device_type });
    proof {
        assert(final(devices)@.drop_last() =~= pre);
    }
}

/// The transport kinds a link can be established over.
pub fn available_transports() -> (r: Vec<&'static str>)
    ensures
        r@.len() == 4,
        r@[0]@ == "udp"@,
        r@[1]@ == "serial"@,
        r@[2]@ == "bluetooth_ble"@,
        r@[3]@ == "bluetooth_spp"@,
{
    let mut r: Vec<&'static str> = Vec::new();
    r.push("udp");
    r.push("serial");
    r.push("bluetooth_ble");
    r.push("bluetooth_spp");
    r
}

} // verus!
