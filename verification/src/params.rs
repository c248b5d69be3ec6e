//! Parameter synchronisation: full download of the remote parameter list,
//! single writes with echo verification, and batched writes with one
//! independent result per item.
//!
//! The store maps case-sensitive parameter names to 32-bit values carried
//! as IEEE-754 bit patterns with a wire type tag; a name absent from the
//! store means "unknown", distinct from a name present with value zero.
//! Insertion order reflects the last full download and is kept, but is not
//! semantically significant.
//!
//! A written value is confirmed against the remote's echo with a fixed
//! tolerance measured in units in the last place of the 32-bit float
//! encoding, so confirmation is decided exactly, on bit patterns, without
//! floating-point arithmetic.

use vstd::prelude::*;

verus! {

/// Bounded number of resends of one outstanding parameter request.
pub const MAX_PARAM_RETRIES: u32 = 5;

/// Wire type tag of a 32-bit float parameter value.
pub const PARAM_TYPE_REAL32: u8 = 9;

/// Tolerance for echo confirmation, in units in the last place of the
/// 32-bit float encoding. Zero distance is exact bit equality; each unit
/// admits one adjacent representable value.
pub const WRITE_TOLERANCE_ULPS: u32 = 4;

/// One named parameter: its value's IEEE-754 bit pattern and type tag.
#[derive(Clone, Debug)]
pub struct Param {
    pub name: String,
    pub value_bits: u32,
    pub param_type: u8,
}

/// Order-preserving key of a 32-bit float bit pattern: maps the float
/// ordering (negative values below positive ones) onto the integer line,
/// so that the distance between two keys counts representable values.
pub open spec fn float_order_key(bits: u32) -> int {
    if bits >= 0x8000_0000 {
        0xFFFF_FFFF - bits
    } else {
        bits + 0x8000_0000
    }
}

/// Distance between two 32-bit float encodings in units in the last place.
pub open spec fn ulp_distance(a: u32, b: u32) -> int {
    if float_order_key(a) >= float_order_key(b) {
        float_order_key(a) - float_order_key(b)
    } else {
        float_order_key(b) - float_order_key(a)
    }
}

/// Whether an echoed value confirms a requested one: within the fixed
/// tolerance. Bit-identical values are always close.
pub open spec fn values_close(a: u32, b: u32) -> bool {
    ulp_distance(a, b) <= WRITE_TOLERANCE_ULPS
}

/// Decides `values_close` executably, in integer arithmetic.
pub fn values_close_exec(a: u32, b: u32) -> (r: bool)
    ensures
        r == values_close(a, b),
{
    let ka: u64 = if a >= 0x8000_0000 {
        0xFFFF_FFFFu64 - (a as u64)
    } else {
        (a as u64) + 0x8000_0000
    };
    let kb: u64 = if b >= 0x8000_0000 {
        0xFFFF_FFFFu64 - (b as u64)
    } else {
        (b as u64) + 0x8000_0000
    };
    let diff: u64 = if ka >= kb {
        ka - kb
    } else {
        kb - ka
    };
    diff <= WRITE_TOLERANCE_ULPS as u64
}

/// A value is always close to itself, whatever the tolerance: echo
/// confirmation never rejects a bit-identical echo.
pub proof fn lemma_identical_echo_confirms(bits: u32)
    ensures
        values_close(bits, bits),
{
}

/// Whether some entry of `s` carries the name `n`.
pub open spec fn contains_name(s: Seq<Param>, n: Seq<char>) -> bool {
    exists|i: int| 0 <= i < s.len() && (#[trigger] s[i]).name@ == n
}

/// All entry names are distinct.
pub open spec fn unique_names(s: Seq<Param>) -> bool {
    forall|i: int, j: int|
        0 <= i < j < s.len() ==> (#[trigger] s[i]).name@ != (#[trigger] s[j]).name@
}

/// The value bits and type tag stored under name `n`.
pub open spec fn entry_data(s: Seq<Param>, n: Seq<char>) -> (u32, u8) {
    let i = choose|i: int| 0 <= i < s.len() && (#[trigger] s[i]).name@ == n;
    (s[i].value_bits, s[i].param_type)
}

/// With unique names, the data stored under an entry's name is that
/// entry's data.
proof fn lemma_entry_data_at(s: Seq<Param>, i: int)
    requires
        unique_names(s),
        0 <= i < s.len(),
    ensures
        entry_data(s, s[i].name@) == (s[i].value_bits, s[i].param_type),
{
    let n = s[i].name@;
    let j = choose|j: int| 0 <= j < s.len() && (#[trigger] s[j]).name@ == n;
    assert(0 <= j < s.len() && s[j].name@ == n);
    if i < j {
        assert(s[i].name@ != s[j].name@);
    } else if j < i {
        assert(s[j].name@ != s[i].name@);
    }
}

/// Mapping from parameter name to `{value bits, type tag}`, with unique
/// names and the insertion order of the last full download.
pub struct ParamStore {
    entries: Vec<Param>,
}

impl ParamStore {
    /// The entries in insertion order.
    pub closed spec fn entries(self) -> Seq<Param> {
        self.entries@
    }

    /// Names are unique: one entry per parameter.
    pub closed spec fn wf(self) -> bool {
        unique_names(self.entries@)
    }

    /// The store as a mathematical map from name to value bits and type.
    pub open spec fn as_map(self) -> Map<Seq<char>, (u32, u8)> {
        Map::new(
            |n: Seq<char>| contains_name(self.entries(), n),
            |n: Seq<char>| entry_data(self.entries(), n),
        )
    }

    pub fn new() -> (r: ParamStore)
        ensures
            r.wf(),
            r.entries() == Seq::<Param>::empty(),
            r.as_map() == Map::<Seq<char>, (u32, u8)>::empty(),
    {
        let r = ParamStore { entries: Vec::new() };
        proof {
            assert(r.entries() =~= Seq::<Param>::empty());
            assert(r.as_map() =~= Map::<Seq<char>, (u32, u8)>::empty());
        }
        r
    }

    /// Number of known parameters.
    pub fn len(&self) -> (r: usize)
        ensures
            r == self.entries().len(),
    {
        self.entries.len()
    }

    /// The entry at a position of the insertion order.
    pub fn entry_at(&self, i: usize) -> (r: &Param)
        requires
            i < self.entries().len(),
        ensures
            *r == self.entries()[i as int],
    {
        &self.entries[i]
    }

    /// Looks a parameter up by name: returns its entry exactly when the
    /// name is known.
    pub fn get(&self, name: &String) -> (r: Option<&Param>)
        requires
            self.wf(),
        ensures
            match r {
                Some(p) => {
                    &&& self.as_map().dom().contains(name@)
                    &&& p.name@ == name@
                    &&& (p.value_bits, p.param_type) == self.as_map()[name@]
                },
                None => !self.as_map().dom().contains(name@),
            },
    {
        let mut i: usize = 0;
        while i < self.entries.len()
            invariant
                self.wf(),
                i <= self.entries().len(),
                forall|j: int| 0 <= j < i ==> (#[trigger] self.entries()[j]).name@ != name@,
            decreases self.entries().len() - i,
        {
            if self.entries[i].name == *name {
                proof {
                    lemma_entry_data_at(self.entries(), i as int);
                }
                return Some(&self.entries[i]);
            }
            i = i + 1;
        }
        None
    }

    /// Inserts or replaces the entry of `p.name`: afterwards the store maps
    /// that name to the new value, every other name to what it mapped to
    /// before, and the insertion order is kept (a new name goes to the
    /// end).
    pub fn upsert(&mut self, p: Param)
        requires
            old(self).wf(),
        ensures
            final(self).wf(),
            final(self).as_map() == old(self).as_map().insert(p.name@, (p.value_bits, p.param_type)),
            old(self).as_map().dom().contains(p.name@) ==> {
                &&& final(self).entries().len() == old(self).entries().len()
                &&& forall|i: int|
                    0 <= i < final(self).entries().len() ==> (#[trigger] final(self).entries()[i]).name@
                        == old(self).entries()[i].name@
            },
            !old(self).as_map().dom().contains(p.name@) ==> {
                &&& final(self).entries().len() == old(self).entries().len() + 1
                &&& (forall|i: int|
                    0 <= i < old(self).entries().len() ==> (#[trigger] final(self).entries()[i])
                        == old(self).entries()[i])
                &&& final(self).entries().last() == p
            },
    {
        let ghost pre = self.entries@;
        let ghost pn = p.name@;
        let ghost pdata = (p.value_bits, p.param_type);
        let mut i: usize = 0;
        while i < self.entries.len()
            invariant
                i <= self.entries@.len(),
                self.entries@ == pre,
                pn == p.name@,
                pdata == (p.value_bits, p.param_type),
                forall|j: int| 0 <= j < i ==> (#[trigger] pre[j]).name@ != pn,
                unique_names(pre),
                pre == old(self).entries(),
            decreases self.entries@.len() - i,
        {
            if self.entries[i].name == p.name {
                let ghost idx = i as int;
                self.entries[i] = p;
                proof {
                    let cur = self.entries@;
                    assert(cur =~= pre.update(idx, p));
                    assert(unique_names(cur)) by {
                        assert forall|a: int, b: int| 0 <= a < b < cur.len() implies (
                        #[trigger] cur[a]).name@ != (#[trigger] cur[b]).name@ by {
                            assert(pre[a].name@ != pre[b].name@);
                            assert(cur[a].name@ == if a == idx {
                                pn
                            } else {
                                pre[a].name@
                            });
                        };
                    };
                    assert forall|n: Seq<char>|
                        contains_name(cur, n) == (contains_name(pre, n) || n == pn) by {
                        if contains_name(cur, n) {
                            let k = choose|k: int| 0 <= k < cur.len() && (#[trigger] cur[k]).name@
                                == n;
                            if k == idx {
                                assert(n == pn);
                            } else {
                                assert(pre[k].name@ == n);
                            }
                        }
                        if contains_name(pre, n) {
                            let k = choose|k: int| 0 <= k < pre.len() && (#[trigger] pre[k]).name@
                                == n;
                            if k == idx {
                                assert(cur[idx].name@ == pn && pre[idx].name@ == pn);
                                assert(cur[k].name@ == n);
                            } else {
                                assert(cur[k].name@ == n);
                            }
                        }
                        if n == pn {
                            assert(cur[idx].name@ == n);
                        }
                    };
                    assert(self.as_map() =~= old(self).as_map().insert(pn, pdata)) by {
                        assert forall|n: Seq<char>| self.as_map().dom().contains(n) implies
                            self.as_map()[n] == old(self).as_map().insert(pn, pdata)[n] by {
                            if n == pn {
                                lemma_entry_data_at(cur, idx);
                            } else {
                                let k = choose|k: int|
                                    0 <= k < cur.len() && (#[trigger] cur[k]).name@ == n;
                                assert(k != idx);
                                assert(pre[k].name@ == n);
                                lemma_entry_data_at(cur, k);
                                lemma_entry_data_at(pre, k);
                            }
                        };
                    };
                }
                return ;
            }
            i = i + 1;
        }
        self.entries.push(p);
        proof {
            let cur = self.entries@;
            assert(cur =~= pre.push(p));
            assert(forall|j: int| 0 <= j < pre.len() ==> (#[trigger] pre[j]).name@ != pn);
            assert(unique_names(cur)) by {
                assert forall|a: int, b: int| 0 <= a < b < cur.len() implies (
                #[trigger] cur[a]).name@ != (#[trigger] cur[b]).name@ by {
                    if b < pre.len() {
                        assert(pre[a].name@ != pre[b].name@);
                    } else {
                        assert(cur[b].name@ == pn);
                        assert(cur[a].name@ == pre[a].name@);
                    }
                };
            };
            assert(!contains_name(pre, pn));
            assert forall|n: Seq<char>|
                contains_name(cur, n) == (contains_name(pre, n) || n == pn) by {
                if contains_name(cur, n) {
                    let k = choose|k: int| 0 <= k < cur.len() && (#[trigger] cur[k]).name@ == n;
                    if k == pre.len() {
                        assert(n == pn);
                    } else {
                        assert(pre[k].name@ == n);
                    }
                }
                if contains_name(pre, n) {
                    let k = choose|k: int| 0 <= k < pre.len() && (#[trigger] pre[k]).name@ == n;
                    assert(cur[k].name@ == n);
                }
                if n == pn {
                    assert(cur[pre.len() as int].name@ == n);
                }
            };
            assert(self.as_map() =~= old(self).as_map().insert(pn, pdata)) by {
                assert forall|n: Seq<char>| self.as_map().dom().contains(n) implies self.as_map()[n]
                    == old(self).as_map().insert(pn, pdata)[n] by {
                    if n == pn {
                        lemma_entry_data_at(cur, pre.len() as int);
                    } else {
                        let k = choose|k: int| 0 <= k < cur.len() && (#[trigger] cur[k]).name@
                            == n;
                        assert(k != pre.len());
                        assert(pre[k].name@ == n);
                        lemma_entry_data_at(cur, k);
                        lemma_entry_data_at(pre, k);
                    }
                };
            };
        }
    }
}

/// Writing one parameter touches nothing else: after the store update for
/// `name`, that name maps to the written value, and every other name maps
/// to exactly what it mapped to before — present before if and only if
/// present after. This is the map-level statement behind
/// `ParamStore::upsert`, whose contract produces precisely this `insert`.
pub proof fn lemma_store_write_isolated(
    m: Map<Seq<char>, (u32, u8)>,
    name: Seq<char>,
    v: (u32, u8),
    other: Seq<char>,
)
    requires
        other != name,
    ensures
        m.insert(name, v).dom().contains(name),
        m.insert(name, v)[name] == v,
        m.insert(name, v).dom().contains(other) == m.dom().contains(other),
        m.dom().contains(other) ==> m.insert(name, v)[other] == m[other],
{
}

/// Progress of a parameter download; the remote may refine `total`
/// mid-stream. A final value with `current != total` reports a partial
/// (but still usable) download.
#[derive(Clone, Copy, PartialEq, Eq, Structural, Debug)]
pub struct ParamProgress {
    pub current: u32,
    pub total: u32,
}

/// How a parameter download ended: all announced parameters arrived, or
/// the stream went quiet first and the store is possibly incomplete.
/// Both are successful ends; a partial store is reported, not fatal.
#[derive(Clone, Copy, PartialEq, Eq, Structural, Debug)]
pub enum DownloadEnd {
    Complete,
    Partial,
}

/// What the caller must transmit after a parameter-protocol step.
#[derive(Debug)]
pub enum ParamAction {
    /// Nothing to transmit; await the next message or timeout.
    Wait,
    /// Request the full parameter list.
    SendRequestList,
    /// Request that the remote set `name` to the value with these bits.
    SendParamSet { name: String, value_bits: u32 },
}

/// Full-download state machine: requests the list, accumulates incoming
/// parameter values (replacing duplicates by name), and terminates when
/// the announced count is reached or the stream goes quiet.
pub struct ParamDownload {
    store: ParamStore,
    expected: u32,
    outcome: Option<DownloadEnd>,
}

impl ParamDownload {
    /// The parameters accumulated so far.
    pub closed spec fn store(self) -> ParamStore {
        self.store
    }

    /// The remote's latest announced total.
    pub closed spec fn expected(self) -> u32 {
        self.expected
    }

    pub closed spec fn outcome(self) -> Option<DownloadEnd> {
        self.outcome
    }

    pub open spec fn in_flight(self) -> bool {
        self.outcome() is None
    }

    pub closed spec fn wf(self) -> bool {
        self.store.wf()
    }

    /// Progress as published per arriving parameter: `current` counts the
    /// distinct parameters held, `total` the remote's latest announced
    /// count — a final value with `current != total` reports a partial
    /// download.
    pub open spec fn spec_progress(self) -> ParamProgress {
        ParamProgress { current: self.store().entries().len() as u32, total: self.expected() }
    }

    /// Begins a full download by requesting the parameter list.
    pub fn start() -> (r: (ParamDownload, ParamAction))
        ensures
            r.0.wf(),
            r.0.in_flight(),
            r.0.store().entries() == Seq::<Param>::empty(),
            r.0.expected() == 0,
            r.1 is SendRequestList,
    {
        (
            ParamDownload { store: ParamStore::new(), expected: 0, outcome: None },
            ParamAction::SendRequestList,
        )
    }

    /// One parameter value arrived: store it (replacing any previous value
    /// of the same name), adopt the announced total, and complete once the
    /// store holds that many parameters.
    pub fn on_param(&mut self, p: Param, count: u16)
        requires
            old(self).wf(),
            old(self).in_flight(),
        ensures
            final(self).wf(),
            final(self).store().as_map() == old(self).store().as_map().insert(
                p.name@,
                (p.value_bits, p.param_type),
            ),
            final(self).expected() == count as u32,
            final(self).store().entries().len() >= count as int ==> final(self).outcome() == Some(
                DownloadEnd::Complete,
            ),
            final(self).store().entries().len() < count as int ==> final(self).in_flight(),
    {
        self.store.upsert(p);
        self.expected = count as u32;
        if self.store.len() >= count as usize {
            self.outcome = Some(DownloadEnd::Complete);
        }
    }

    /// The stream went quiet: terminate. Reaching the announced total is a
    /// complete download; anything less is reported partial — observable
    /// to the caller through the final progress, whose `current` then
    /// differs from `total`.
    pub fn on_quiet_timeout(&mut self)
        requires
            old(self).wf(),
            old(self).in_flight(),
        ensures
            final(self).wf(),
            final(self).store() == old(self).store(),
            final(self).expected() == old(self).expected(),
            final(self).store().entries().len() >= old(self).expected() as int ==> final(self).outcome() == Some(DownloadEnd::Complete),
            final(self).store().entries().len() < old(self).expected() as int ==> final(self).outcome() == Some(DownloadEnd::Partial),
    {
        if self.store.len() as u64 >= self.expected as u64 {
            self.outcome = Some(DownloadEnd::Complete);
        } else {
            self.outcome = Some(DownloadEnd::Partial);
        }
    }

    pub fn progress(&self) -> (r: ParamProgress)
        ensures
            r == self.spec_progress(),
    {
        ParamProgress { current: self.store.len() as u32, total: self.expected }
    }

    pub fn outcome_now(&self) -> (r: Option<DownloadEnd>)
        ensures
            r == self.outcome(),
    {
        self.outcome
    }

    /// Hands the accumulated store out once the download ended.
    pub fn into_store(self) -> (r: ParamStore)
        requires
            self.outcome() is Some,
        ensures
            r == self.store(),
            self.wf() ==> r.wf(),
    {
        self.store
    }
}

/// Why a single write failed.
#[derive(Clone, Copy, PartialEq, Eq, Structural, Debug)]
pub enum ParamWriteError {
    /// The remote echoed a value beyond the fixed tolerance; its bits are
    /// reported.
    ValueMismatch { confirmed_bits: u32 },
    /// The bounded resends elapsed without an echo.
    Timeout,
}

/// The remote's confirmation of one write.
#[derive(Clone, Copy, PartialEq, Eq, Structural, Debug)]
pub struct ParamConfirm {
    pub value_bits: u32,
    pub param_type: u8,
}

/// Single-write state machine: sends a set request and awaits the
/// confirmed value echoed back by the remote; fails if the echo differs
/// from the request beyond the fixed tolerance, or on timeout after
/// bounded resends.
pub struct ParamWrite {
    name: String,
    value_bits: u32,
    retries: u32,
    outcome: Option<Result<ParamConfirm, ParamWriteError>>,
}

impl ParamWrite {
    pub closed spec fn name(self) -> Seq<char> {
        self.name@
    }

    pub closed spec fn value_bits(self) -> u32 {
        self.value_bits
    }

    pub closed spec fn retries(self) -> u32 {
        self.retries
    }

    pub closed spec fn outcome(self) -> Option<Result<ParamConfirm, ParamWriteError>> {
        self.outcome
    }

    pub open spec fn in_flight(self) -> bool {
        self.outcome() is None
    }

    pub closed spec fn wf(self) -> bool {
        self.retries <= MAX_PARAM_RETRIES
    }

    /// Begins a write of `value_bits` under `name`.
    pub fn start(name: String, value_bits: u32) -> (r: (ParamWrite, ParamAction))
        ensures
            r.0.wf(),
            r.0.in_flight(),
            r.0.name() == name@,
            r.0.value_bits() == value_bits,
            r.0.retries() == 0,
            r.1 == (ParamAction::SendParamSet { name, value_bits }),
    {
        let sent_name = name.clone();
        (
            ParamWrite { name, value_bits, retries: 0, outcome: None },
            ParamAction::SendParamSet { name: sent_name, value_bits },
        )
    }

    /// A parameter value arrived: an echo of another name is unrelated
    /// traffic and ignored; an echo of this name confirms the write when
    /// it is within tolerance of the requested value and fails it
    /// otherwise.
    pub fn on_param_value(&mut self, name: &String, value_bits: u32, param_type: u8)
        requires
            old(self).wf(),
            old(self).in_flight(),
        ensures
            final(self).wf(),
            final(self).name() == old(self).name(),
            final(self).value_bits() == old(self).value_bits(),
            name@ != old(self).name() ==> *final(self) == *old(self),
            name@ == old(self).name() && values_close(value_bits, old(self).value_bits()) ==> final(self).outcome() == Some(
                Ok::<ParamConfirm, ParamWriteError>(ParamConfirm { value_bits, param_type }),
            ),
            name@ == old(self).name() && !values_close(value_bits, old(self).value_bits())
                ==> final(self).outcome() == Some(
                Err::<ParamConfirm, ParamWriteError>(
                    ParamWriteError::ValueMismatch { confirmed_bits: value_bits },
                ),
            ),
    {
        if self.name == *name {
            if values_close_exec(value_bits, self.value_bits) {
                self.outcome = Some(Ok(ParamConfirm { value_bits, param_type }));
            } else {
                self.outcome = Some(
                    Err(ParamWriteError::ValueMismatch { confirmed_bits: value_bits }),
                );
            }
        }
    }

    /// The fixed timeout elapsed: resend the set request a bounded number
    /// of times, then fail the write.
    pub fn on_timeout(&mut self) -> (a: ParamAction)
        requires
            old(self).wf(),
            old(self).in_flight(),
        ensures
            final(self).wf(),
            final(self).name() == old(self).name(),
            final(self).value_bits() == old(self).value_bits(),
            old(self).retries() < MAX_PARAM_RETRIES ==> {
                &&& final(self).in_flight()
                &&& final(self).retries() == old(self).retries() + 1
                &&& (a matches ParamAction::SendParamSet { name, value_bits } && name@ == old(
                    self,
                ).name() && value_bits == old(self).value_bits())
            },
            old(self).retries() >= MAX_PARAM_RETRIES ==> final(self).outcome() == Some(
                Err::<ParamConfirm, ParamWriteError>(ParamWriteError::Timeout),
            ) && a is Wait,
    {
        if self.retries < MAX_PARAM_RETRIES {
            self.retries = self.retries + 1;
            ParamAction::SendParamSet { name: self.name.clone(), value_bits: self.value_bits }
        } else {
            self.outcome = Some(Err(ParamWriteError::Timeout));
            ParamAction::Wait
        }
    }

    pub fn outcome_now(&self) -> (r: Option<Result<ParamConfirm, ParamWriteError>>)
        ensures
            r == self.outcome(),
    {
        self.outcome
    }
}

/// One item's result of a batch write, in request order.
#[derive(Debug)]
pub struct ParamWriteResult {
    pub name: String,
    pub requested_bits: u32,
    pub outcome: Result<ParamConfirm, ParamWriteError>,
}

/// Batch-write state machine: performs the writes sequentially per item
/// (the underlying connection serializes writes) and collects one result
/// per item in request order. A failure of one item never aborts the
/// remaining items — each outcome is independent and reported
/// individually.
pub struct ParamBatch {
    requests: Vec<(String, u32)>,
    results: Vec<ParamWriteResult>,
    retries: u32,
}

impl ParamBatch {
    /// The requested (name, value bits) pairs, in order.
    pub closed spec fn requests(self) -> Seq<(String, u32)> {
        self.requests@
    }

    /// The results collected so far: one per finished item, in request
    /// order.
    pub closed spec fn results(self) -> Seq<ParamWriteResult> {
        self.results@
    }

    pub closed spec fn retries(self) -> u32 {
        self.retries
    }

    /// All items are decided.
    pub open spec fn done(self) -> bool {
        self.results().len() == self.requests().len()
    }

    /// Results mirror requests: each finished item's result carries that
    /// item's name and requested value, in request order.
    pub closed spec fn wf(self) -> bool {
        &&& self.results@.len() <= self.requests@.len()
        &&& forall|i: int|
            0 <= i < self.results@.len() ==> (#[trigger] self.results@[i]).name@
                == self.requests@[i].0@ && self.results@[i].requested_bits == self.requests@[i].1
        &&& self.retries <= MAX_PARAM_RETRIES
    }

    /// The set request for the item now in flight.
    pub open spec fn current_action(self) -> ParamAction {
        if self.done() {
            ParamAction::Wait
        } else {
            ParamAction::SendParamSet {
                name: self.requests()[self.results().len() as int].0,
                value_bits: self.requests()[self.results().len() as int].1,
            }
        }
    }

    /// Begins a batch write; the returned action is the first item's set
    /// request (or nothing, for an empty batch).
    pub fn start(requests: Vec<(String, u32)>) -> (r: (ParamBatch, ParamAction))
        ensures
            r.0.wf(),
            r.0.requests() == requests@,
            r.0.results() == Seq::<ParamWriteResult>::empty(),
            r.0.retries() == 0,
            r.1 == r.0.current_action(),
    {
        let e = ParamBatch { requests, results: Vec::new(), retries: 0 };
        let a = e.next_action();
        proof {
            assert(e.results() =~= Seq::<ParamWriteResult>::empty());
        }
        (e, a)
    }

    /// The action to (re)transmit now.
    pub fn next_action(&self) -> (a: ParamAction)
        requires
            self.wf(),
        ensures
            a == self.current_action(),
    {
        if self.results.len() < self.requests.len() {
            let i = self.results.len();
            ParamAction::SendParamSet {
                name: self.requests[i].0.clone(),
                value_bits: self.requests[i].1,
            }
        } else {
            ParamAction::Wait
        }
    }

    /// A parameter value arrived: an echo of the current item's name
    /// decides that item (confirmed within tolerance, mismatch beyond it)
    /// and moves on to the next; anything else is unrelated traffic and
    /// ignored.
    pub fn on_param_value(&mut self, name: &String, value_bits: u32, param_type: u8) -> (a:
        ParamAction)
        requires
            old(self).wf(),
        ensures
            final(self).wf(),
            final(self).requests() == old(self).requests(),
            a == final(self).current_action(),
            old(self).done() ==> *final(self) == *old(self),
            !old(self).done() && name@ != old(self).requests()[old(self).results().len() as int].0@
                ==> *final(self) == *old(self),
            !old(self).done() && name@ == old(self).requests()[old(self).results().len() as int].0@
                ==> {
                &&& final(self).results().len() == old(self).results().len() + 1
                &&& final(self).results().drop_last() == old(self).results()
                &&& final(self).results().last().name@ == name@
                &&& final(self).results().last().requested_bits == old(self).requests()[old(
                    self,
                ).results().len() as int].1
                &&& (values_close(
                    value_bits,
                    old(self).requests()[old(self).results().len() as int].1,
                ) ==> final(self).results().last().outcome == Ok::<ParamConfirm, ParamWriteError>(
                    ParamConfirm { value_bits, param_type },
                ))
                &&& (!values_close(
                    value_bits,
                    old(self).requests()[old(self).results().len() as int].1,
                ) ==> final(self).results().last().outcome == Err::<ParamConfirm, ParamWriteError>(
                    ParamWriteError::ValueMismatch { confirmed_bits: value_bits },
                ))
                &&& final(self).retries() == 0
            },
    {
        if self.results.len() >= self.requests.len() {
            return self.next_action();
        }
        let i = self.results.len();
        if self.requests[i].0 == *name {
            let requested = self.requests[i].1;
            let outcome = if values_close_exec(value_bits, requested) {
                Ok(ParamConfirm { value_bits, param_type })
            } else {
                Err(ParamWriteError::ValueMismatch { confirmed_bits: value_bits })
            };
            let result = ParamWriteResult {
                name: self.requests[i].0.clone(),
                requested_bits: requested,
                outcome,
            };
            let ghost pre = self.results@;
            self.results.push(result);
            self.retries = 0;
            proof {
                assert(self.results@.drop_last() =~= pre);
            }
        }
        self.next_action()
    }

    /// The fixed timeout elapsed: resend the current item's request a
    /// bounded number of times, then record a timeout failure for that
    /// item alone and continue with the next one.
    pub fn on_timeout(&mut self) -> (a: ParamAction)
        requires
            old(self).wf(),
        ensures
            final(self).wf(),
            final(self).requests() == old(self).requests(),
            a == final(self).current_action(),
            old(self).done() ==> *final(self) == *old(self),
            !old(self).done() && old(self).retries() < MAX_PARAM_RETRIES ==> {
                &&& final(self).results() == old(self).results()
                &&& final(self).retries() == old(self).retries() + 1
            },
            !old(self).done() && old(self).retries() >= MAX_PARAM_RETRIES ==> {
                &&& final(self).results().len() == old(self).results().len() + 1
                &&& final(self).results().drop_last() == old(self).results()
                &&& final(self).results().last().outcome == Err::<ParamConfirm, ParamWriteError>(
                    ParamWriteError::Timeout,
                )
                &&& final(self).retries() == 0
            },
    {
        if self.results.len() >= self.requests.len() {
            return self.next_action();
        }
        if self.retries < MAX_PARAM_RETRIES {
            self.retries = self.retries + 1;
            return self.next_action();
        }
        let i = self.results.len();
        let result = ParamWriteResult {
            name: self.requests[i].0.clone(),
            requested_bits: self.requests[i].1,
            outcome: Err(ParamWriteError::Timeout),
        };
        let ghost pre = self.results@;
        self.results.push(result);
        self.retries = 0;
        proof {
            assert(self.results@.drop_last() =~= pre);
        }
        self.next_action()
    }

    pub fn is_done(&self) -> (r: bool)
        ensures
            r == self.done(),
    {
        self.results.len() == self.requests.len()
    }

    /// The per-item results once every item is decided: one per request,
    /// in request order, each carrying its item's name and requested
    /// value.
    pub fn into_results(self) -> (r: Vec<ParamWriteResult>)
        requires
            self.wf(),
            self.done(),
        ensures
            r@ == self.results(),
            r@.len() == self.requests().len(),
            forall|i: int|
                0 <= i < r@.len() ==> (#[trigger] r@[i]).name@ == self.requests()[i].0@
                    && r@[i].requested_bits == self.requests()[i].1,
    {
        self.results
    }
}

} // verus!
