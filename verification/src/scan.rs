//! The historical state-scan engine.
//!
//! A scan walks a block range `[origin, terminal)` at a fixed stride, reads
//! the storage slot's value at each sampled block, and records a change only
//! where the value differs from the last recorded one, so the result lists
//! transitions rather than samples. The engine is a step machine: the caller
//! asks which block to query next, performs the query, and hands the observed
//! value back. Interruption is cooperative — once signalled, no further block
//! is offered — and the accumulated change list is handed out exactly once,
//! by consuming the machine.

use vstd::prelude::*;
use vstd::string::StringExecFns;
use vstd::string::StrSliceExecFns;
use crate::codec::is_hex_char;

verus! {

/// A 256-bit storage slot identifier, held in its canonical `0x` hexadecimal
/// wire form: lower-case digits, no leading zero, at most 64 digits.
pub struct StorageSlot {
    hex: String,
}

/// One lower-case hexadecimal digit.
pub open spec fn is_lower_hex(c: char) -> bool {
    is_hex_char(c) && c != 'A' && c != 'B' && c != 'C' && c != 'D' && c != 'E' && c != 'F'
}

/// The canonical wire form of a 256-bit slot: `0x`, then one to 64 lower-case
/// hexadecimal digits with no leading zero (`0x0` stands for zero itself).
pub open spec fn canonical_slot_hex(s: Seq<char>) -> bool {
    &&& 2 < s.len() <= 66
    &&& s[0] == '0'
    &&& s[1] == 'x'
    &&& (forall|i: int| 2 <= i < s.len() ==> is_lower_hex(#[trigger] s[i]))
    &&& (s.len() > 3 ==> s[2] != '0')
}

impl View for StorageSlot {
    type V = Seq<char>;

    closed spec fn view(&self) -> Seq<char> {
        self.hex@
    }
}

impl StorageSlot {
    /// The slot is always held in canonical form.
    pub open spec fn wf(&self) -> bool {
        canonical_slot_hex(self@)
    }

    /// Validates and captures a slot identifier written in canonical
    /// `0x` hexadecimal form.
    pub fn from_hex(s: &str) -> (r: Result<StorageSlot, crate::codec::FormatError>)
        ensures
            r is Ok <==> canonical_slot_hex(s@),
            r is Ok ==> r.unwrap()@ == s@ && r.unwrap().wf(),
            r is Err ==> r == Err::<StorageSlot, crate::codec::FormatError>(
                crate::codec::FormatError::Malformed,
            ),
    {
        let len = s.unicode_len();
        if len <= 2 || len > 66 {
            return Err(crate::codec::FormatError::Malformed);
        }
        if s.get_char(0) != '0' || s.get_char(1) != 'x' {
            return Err(crate::codec::FormatError::Malformed);
        }
        if len > 3 && s.get_char(2) == '0' {
            return Err(crate::codec::FormatError::Malformed);
        }
        let mut i: usize = 2;
        while i < len
            invariant
                2 <= i <= len,
                len == s@.len(),
                forall|j: int| 2 <= j < i ==> is_lower_hex(#[trigger] s@[j]),
            decreases len - i,
        {
            let c = s.get_char(i);
            let ok = (('0' <= c && c <= '9') || ('a' <= c && c <= 'f'));
            if !ok {
                proof {
                    assert(!is_lower_hex(s@[i as int]));
                }
                return Err(crate::codec::FormatError::Malformed);
            }
            i += 1;
        }
        Ok(StorageSlot { hex: String::from_str(s) })
    }

    /// The slot in its wire form, as passed to `eth_getStorageAt`.
    pub fn as_hex(&self) -> (r: &str)
        ensures
            r@ == self@,
    {
        self.hex.as_str()
    }

    pub fn clone_slot(&self) -> (r: StorageSlot)
        ensures
            r@ == self@,
    {
        StorageSlot { hex: self.hex.clone() }
    }
}

/// One observed transition: the slot held `value` from `block_number` on.
pub struct StateChange {
    pub block_number: u64,
    pub value: String,
}

/// The ordered change log of one scan, bound to the contract address and
/// slot it was taken from.
pub struct StateChangeList {
    pub address: String,
    pub storage_slot: StorageSlot,
    pub state_changes: Vec<StateChange>,
}

/// No two adjacent entries hold the same value: the log lists transitions,
/// never a repeated sample.
pub open spec fn distinct_adjacent(cs: Seq<StateChange>) -> bool {
    forall|i: int| 0 <= i < cs.len() - 1 ==> #[trigger] cs[i].value@ != cs[i + 1].value@
}

/// Entries are strictly increasing by block number.
pub open spec fn strictly_increasing(cs: Seq<StateChange>) -> bool {
    forall|i: int, j: int| 0 <= i < j < cs.len() ==> #[trigger] cs[i].block_number
        < #[trigger] cs[j].block_number
}

impl StateChangeList {
    pub open spec fn wf(&self) -> bool {
        distinct_adjacent(self.state_changes@) && strictly_increasing(self.state_changes@)
    }
}

/// Why a scan failed.
#[derive(Debug, PartialEq, Eq)]
pub enum ScanError {
    /// The block range is invalid: the origin must lie below the terminal.
    Configuration,
    /// A query failed in transit; the scan aborts and nothing is written.
    Transport(String),
}

/// `a + b`, capped at the largest block number.
pub open spec fn sat_add64(a: u64, b: u64) -> u64 {
    if a + b > u64::MAX { u64::MAX } else { (a + b) as u64 }
}

/// The blocks a scan of `[current, terminal)` at `stride` samples, in query
/// order.
pub open spec fn sampled_blocks(current: u64, terminal: u64, stride: u64) -> Seq<u64>
    decreases (if current < terminal { terminal - current } else { 0 })
        when stride >= 1
{
    if current >= terminal {
        Seq::empty()
    } else {
        seq![current] + sampled_blocks(sat_add64(current, stride), terminal, stride)
    }
}

/// One historical scan in progress.
pub struct StateScan {
    pub list: StateChangeList,
    pub current: u64,
    pub terminal: u64,
    pub stride: u64,
    pub stopped: bool,
}

impl StateScan {
    pub open spec fn wf(&self) -> bool {
        &&& self.stride >= 1
        &&& self.list.wf()
        &&& (self.list.state_changes@.len() > 0 ==> self.list.state_changes@.last().block_number
            < self.current)
    }

    /// The block the next query must read, or `None` where the scan is over:
    /// past the terminal, or interrupted.
    pub open spec fn spec_next_query(&self) -> Option<u64> {
        if !self.stopped && self.current < self.terminal {
            Some(self.current)
        } else {
            None
        }
    }

    /// Opens a scan of `[origin_block, terminal_block)`.
    ///
    /// An origin at or above the terminal is a configuration error, found
    /// before any query is issued; on it no scan machine exists, so no block
    /// is ever offered for querying.
    pub fn new(
        address: String,
        storage_slot: StorageSlot,
        origin_block: u64,
        terminal_block: u64,
        sample_stride: u64,
    ) -> (r: Result<StateScan, ScanError>)
        requires
            sample_stride >= 1,
        ensures
            r is Err <==> origin_block >= terminal_block,
            r is Err ==> r == Err::<StateScan, ScanError>(ScanError::Configuration),
            r is Ok ==> ({
                let s = r.unwrap();
                &&& s.wf()
                &&& s.list.address == address
                &&& s.list.storage_slot == storage_slot
                &&& s.list.state_changes@.len() == 0
                &&& s.current == origin_block
                &&& s.terminal == terminal_block
                &&& s.stride == sample_stride
                &&& !s.stopped
            }),
    {
        if origin_block >= terminal_block {
            return Err(ScanError::Configuration);
        }
        Ok(
            StateScan {
                list: StateChangeList { address, storage_slot, state_changes: Vec::new() },
                current: origin_block,
                terminal: terminal_block,
                stride: sample_stride,
                stopped: false,
            },
        )
    }

    /// The block the next query must read, or `None` where the scan is over.
    pub fn next_query(&self) -> (r: Option<u64>)
        ensures
            r == self.spec_next_query(),
    {
        if !self.stopped && self.current < self.terminal {
            Some(self.current)
        } else {
            None
        }
    }

    /// Records the value observed at the block last offered by `next_query`,
    /// appending a change exactly where the value differs from the last
    /// recorded one, then advances to the next sampled block. Returns the
    /// block number where a transition was recorded.
    pub fn record(&mut self, value: String) -> (r: Option<u64>)
        requires
            old(self).wf(),
            old(self).spec_next_query() is Some,
        ensures
            final(self).wf(),
            final(self).terminal == old(self).terminal,
            final(self).stride == old(self).stride,
            final(self).stopped == old(self).stopped,
            final(self).list.address == old(self).list.address,
            final(self).list.storage_slot == old(self).list.storage_slot,
            final(self).current == sat_add64(old(self).current, old(self).stride),
            ({
                let cs = old(self).list.state_changes@;
                if cs.len() == 0 || cs.last().value@ != value@ {
                    final(self).list.state_changes@ == cs.push(
                        (StateChange { block_number: old(self).current, value }),
                    ) && r == Some(old(self).current)
                } else {
                    final(self).list.state_changes@ == cs && r is None
                }
            }),
            sampled_blocks(old(self).current, old(self).terminal, old(self).stride) == seq![
                old(self).current,
            ] + sampled_blocks(final(self).current, final(self).terminal, final(self).stride),
    {
        let block = self.current;
        let n = self.list.state_changes.len();
        let is_transition = if n == 0 {
            true
        } else {
            let same = self.list.state_changes[n - 1].value == value;
            !same
        };
        let r = if is_transition {
            self.list.state_changes.push(StateChange { block_number: block, value });
            proof {
                let prev = old(self).list.state_changes@;
                let cs = self.list.state_changes@;
                assert(cs == prev.push(StateChange { block_number: old(self).current, value }));
                assert(prev.len() > 0 ==> prev[prev.len() - 1].value@ != value@);
                assert forall|i: int| 0 <= i < cs.len() - 1 implies #[trigger] cs[i].value@ != cs[
                    i + 1
                ].value@ by {
                    if i < prev.len() - 1 {
                        assert(cs[i] == prev[i]);
                        assert(cs[i + 1] == prev[i + 1]);
                        assert(prev[i].value@ != prev[i + 1].value@);
                    } else {
                        assert(cs[i] == prev[prev.len() - 1]);
                        assert(cs[i + 1].value@ == value@);
                    }
                }
                assert forall|i: int, j: int| 0 <= i < j < cs.len() implies #[trigger] cs[
                    i
                ].block_number < #[trigger] cs[j].block_number by {
                    if j < prev.len() {
                        assert(cs[i] == prev[i] && cs[j] == prev[j]);
                    } else {
                        assert(cs[i] == prev[i]);
                        if i < prev.len() - 1 {
                            assert(prev[i].block_number < prev[prev.len() - 1].block_number);
                        }
                        assert(prev[prev.len() - 1].block_number < old(self).current);
                    }
                }
            }
            Some(block)
        } else {
            None
        };
        self.current = if self.stride > u64::MAX - self.current {
            u64::MAX
        } else {
            self.current + self.stride
        };
        r
    }

    /// Notes an operator interruption: the scan offers no further block, but
    /// what was recorded so far stays flushable.
    pub fn interrupt(&mut self)
        ensures
            *final(self) == (StateScan { stopped: true, ..*old(self) }),
            final(self).spec_next_query() is None,
    {
        self.stopped = true;
    }

    /// Hands the accumulated change list out, exactly once: the machine is
    /// consumed, so a scan is finalized a single time, interrupted or not.
    pub fn finish(self) -> (r: StateChangeList)
        requires
            self.wf(),
        ensures
            r == self.list,
            r.wf(),
    {
        self.list
    }
}

/// The exclusive upper bound of the scan: the caller's terminal block where
/// one was given, else the chain head resolved once at scan start.
pub fn resolve_terminal(terminal_block: Option<u64>, chain_head: u64) -> (r: u64)
    ensures
        r == (match terminal_block {
            Option::Some(t) => t,
            Option::None => chain_head,
        }),
{
    match terminal_block {
        Some(t) => t,
        None => chain_head,
    }
}

/// The stride between sampled blocks: every block by default; a caller who
/// asks for a larger stride trades accuracy for speed, since blocks between
/// samples are never observed.
pub fn resolve_stride(query_interval: Option<u64>) -> (r: u64)
    requires
        query_interval is Some ==> query_interval.unwrap() >= 1,
    ensures
        r == (match query_interval {
            Option::Some(s) => s,
            Option::None => 1u64,
        }),
        r >= 1,
{
    match query_interval {
        Some(s) => s,
        None => 1,
    }
}

/// Law: an interrupted scan issues no further query, whatever its state.
pub proof fn lemma_interrupt_halts(s: StateScan)
    requires
        s.stopped,
    ensures
        s.spec_next_query() is None,
{
}

/// Law: a scan of `[origin, terminal)` at stride `s` samples exactly
/// `ceil((terminal - origin) / s)` blocks, the `i`-th at `origin + i * s`.
pub proof fn lemma_sampled_blocks(origin: u64, terminal: u64, stride: u64)
    requires
        stride >= 1,
        origin < terminal,
    ensures
        sampled_blocks(origin, terminal, stride).len() == ((terminal - origin + stride - 1) / (
        stride as int)),
        forall|i: int| 0 <= i < sampled_blocks(origin, terminal, stride).len()
            ==> #[trigger] sampled_blocks(origin, terminal, stride)[i] == origin + i * stride,
    decreases terminal - origin,
{
    let s = sampled_blocks(origin, terminal, stride);
    let next = sat_add64(origin, stride);
    if next >= terminal {
        assert(sampled_blocks(next, terminal, stride) =~= Seq::<u64>::empty());
        assert(s =~= seq![origin]);
        assert((terminal - origin + stride - 1) / (stride as int) == 1) by (nonlinear_arith)
            requires
                stride >= 1,
                origin < terminal,
                terminal - origin <= stride,
        ;
        assert(s[0] == origin + 0 * stride);
    } else {
        lemma_sampled_blocks(next, terminal, stride);
        let rest = sampled_blocks(next, terminal, stride);
        assert(s =~= seq![origin] + rest);
        assert(next == origin + stride);
        assert(rest.len() == (terminal - next + stride - 1) / (stride as int));
        assert((terminal - origin + stride - 1) / (stride as int) == (terminal - next + stride - 1)
            / (stride as int) + 1) by (nonlinear_arith)
            requires
                stride >= 1,
                next == origin + stride,
                origin + stride < terminal,
        ;
        assert forall|i: int| 0 <= i < s.len() implies #[trigger] s[i] == origin + i * stride by {
            if i == 0 {
                assert(s[0] == origin + 0 * stride);
            } else {
                assert(s[i] == rest[i - 1]);
                assert(rest[i - 1] == next + (i - 1) * stride);
                assert(next + (i - 1) * stride == origin + i * stride) by (nonlinear_arith)
                    requires
                        next == origin + stride,
                ;
            }
        }
    }
}

} // verus!
