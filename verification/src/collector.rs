//! The collector: a switch and the hit counts of one execution context.
//!
//! A collector belongs to one execution context and is passed by
//! reference; nothing here is shared. A program that runs instrumented code
//! in several contexts gives each its own collector and merges what they
//! export.

use crate::data::probe_kind;
use crate::data::{recorded, CoverageData, ProbeHit};
use vstd::prelude::*;

verus! {

/// The hit counts of one execution context, and whether hits are counted.
#[derive(Debug)]
pub struct Collector {
    /// Whether hits are counted.
    pub enabled: bool,
    /// The hits counted so far.
    pub data: CoverageData,
}

impl Collector {
    /// A collector that is switched off and has counted nothing.
    pub fn new() -> (collector: Self)
        ensures
            !collector.enabled,
            collector.data.probe_hits@ == Map::<u64, ProbeHit>::empty(),
            collector.data.end_time == 0,
            collector.data.wf(),
    {
        Collector { enabled: false, data: CoverageData::new() }
    }
}

impl Default for Collector {
    fn default() -> (collector: Self)
        ensures
            !collector.enabled,
            collector.data.probe_hits@ == Map::<u64, ProbeHit>::empty(),
            collector.data.end_time == 0,
            collector.data.wf(),
    {
        Collector::new()
    }
}

/// `x` read as an unsigned number of 64 bits (two's complement).
pub open spec fn unsigned(x: i64) -> u64 {
    if x >= 0 {
        x as u64
    } else {
        (x + 0x1_0000_0000_0000_0000) as u64
    }
}

/// The probe id in an encoded hit: its lower 56 bits.
pub open spec fn encoded_id(encoded: i64) -> u64 {
    (unsigned(encoded) % 0x0100_0000_0000_0000) as u64
}

/// The probe kind in an encoded hit: its upper 8 bits.
pub open spec fn encoded_kind(encoded: i64) -> u8 {
    (unsigned(encoded) / 0x0100_0000_0000_0000) as u8
}

/// The lowest 8 bits of `kind`: what is left of a kind outside 0..=255.
pub open spec fn kind_byte(kind: i32) -> u8 {
    (kind as int % 256) as u8
}

/// Splits an encoded hit into probe id (lower 56 bits) and probe kind
/// (upper 8 bits).
pub fn decode(encoded: i64) -> (hit: (u64, u8))
    ensures
        hit.0 == encoded_id(encoded),
        hit.1 == encoded_kind(encoded),
{
    let bits = #[verifier::truncate]
    (encoded as u64);
    assert(encoded < 0 ==> bits == encoded + 0x1_0000_0000_0000_0000) by (bit_vector)
        requires
            bits == encoded as u64,
    ;
    let probe_id = bits & 0x00FF_FFFF_FFFF_FFFF;
    let kind = (bits >> 56) & 0xFF;
    assert(bits & 0x00FF_FFFF_FFFF_FFFF == bits % 0x0100_0000_0000_0000) by (bit_vector);
    assert((bits >> 56) & 0xFF == bits / 0x0100_0000_0000_0000) by (bit_vector);
    (probe_id, kind as u8)
}

/// Takes probe id and kind as instrumented code passes them when it sends
/// them apart: the id is read as unsigned, of the kind the lowest 8 bits
/// are kept.
pub fn decode_ex(probe_id: i64, kind: i32) -> (hit: (u64, u8))
    ensures
        hit.0 == unsigned(probe_id),
        hit.1 == kind_byte(kind),
{
    let id = #[verifier::truncate]
    (probe_id as u64);
    assert(probe_id < 0 ==> id == probe_id + 0x1_0000_0000_0000_0000) by (bit_vector)
        requires
            id == probe_id as u64,
    ;
    let byte = #[verifier::truncate]
    (kind as u8);
    assert(byte as int == kind as int % 256) by (bit_vector)
        requires
            byte == kind as u8,
    ;
    (id, byte)
}

/// Switches collection on.
pub fn enable(collector: &mut Collector)
    ensures
        final(collector).enabled,
        final(collector).data == old(collector).data,
{
    collector.enabled = true;
}

/// Switches collection off.
pub fn disable(collector: &mut Collector)
    ensures
        !final(collector).enabled,
        final(collector).data == old(collector).data,
{
    collector.enabled = false;
}

/// Whether collection is switched on.
pub fn is_enabled(collector: &Collector) -> (enabled: bool)
    ensures
        enabled == collector.enabled,
{
    collector.enabled
}

/// Drops the hits of this collector and starts a new collection now. The
/// switch stays as it is.
pub fn reset(collector: &mut Collector)
    ensures
        final(collector).enabled == old(collector).enabled,
        final(collector).data.probe_hits@ == Map::<u64, ProbeHit>::empty(),
        final(collector).data.end_time == 0,
        final(collector).data.wf(),
{
    collector.data.reset();
}

/// Drops the hits of this collector and starts a new collection at `now`.
/// The switch stays as it is.
pub fn reset_at(collector: &mut Collector, now: u64)
    ensures
        final(collector).enabled == old(collector).enabled,
        final(collector).data.probe_hits@ == Map::<u64, ProbeHit>::empty(),
        final(collector).data.start_time == now,
        final(collector).data.end_time == 0,
        final(collector).data.wf(),
{
    collector.data.reset_at(now);
}

/// Marks the end of the collection as `now` (or as its start, if `now`
/// lies before it) and hands out a copy of the data. The collector keeps
/// its hits and goes on counting.
pub fn export_coverage_at(collector: &mut Collector, now: u64) -> (data: CoverageData)
    ensures
        data.probe_hits@ == old(collector).data.probe_hits@,
        data.start_time == old(collector).data.start_time,
        data.end_time == if now < data.start_time {
            data.start_time
        } else {
            now
        },
        final(collector).enabled == old(collector).enabled,
        final(collector).data.probe_hits@ == data.probe_hits@,
        final(collector).data.start_time == data.start_time,
        final(collector).data.end_time == data.end_time,
        old(collector).data.wf() ==> data.wf() && final(collector).data.wf(),
{
    collector.data.finish_at(now);
    collector.data.clone()
}

/// Marks the end of the collection as now and hands out a copy of the
/// data. The collector keeps its hits and goes on counting.
pub fn export_coverage(collector: &mut Collector) -> (data: CoverageData)
    ensures
        data.probe_hits@ == old(collector).data.probe_hits@,
        data.start_time == old(collector).data.start_time,
        data.end_time >= data.start_time,
        final(collector).enabled == old(collector).enabled,
        final(collector).data.probe_hits@ == data.probe_hits@,
        final(collector).data.start_time == data.start_time,
        final(collector).data.end_time == data.end_time,
        old(collector).data.wf() ==> data.wf() && final(collector).data.wf(),
{
    collector.data.finish();
    collector.data.clone()
}

/// Counts one hit of a probe if collection is switched on; does nothing
/// if it is switched off.
pub fn record_hit(collector: &mut Collector, probe_id: u64, kind: u8)
    ensures
        final(collector).enabled == old(collector).enabled,
        old(collector).enabled ==> final(collector).data.probe_hits@ == recorded(
            old(collector).data.probe_hits@,
            probe_id,
            kind,
        ),
        old(collector).enabled ==> final(collector).data.start_time == old(
            collector,
        ).data.start_time && final(collector).data.end_time == old(collector).data.end_time,
        !old(collector).enabled ==> *final(collector) == *old(collector),
        old(collector).data.wf() ==> final(collector).data.wf(),
{
    if collector.enabled {
        collector.data.record_hit(probe_id, kind);
    }
}

/// Counts a hit that instrumented code sends as one number: the probe id
/// in the lower 56 bits, the kind in the upper 8.
pub fn hit(collector: &mut Collector, encoded: i64)
    ensures
        final(collector).enabled == old(collector).enabled,
        old(collector).enabled ==> final(collector).data.probe_hits@ == recorded(
            old(collector).data.probe_hits@,
            encoded_id(encoded),
            encoded_kind(encoded),
        ),
        old(collector).enabled ==> final(collector).data.start_time == old(
            collector,
        ).data.start_time && final(collector).data.end_time == old(collector).data.end_time,
        !old(collector).enabled ==> *final(collector) == *old(collector),
        old(collector).data.wf() ==> final(collector).data.wf(),
{
    let (probe_id, kind) = decode(encoded);
    record_hit(collector, probe_id, kind);
}

/// Counts a hit that instrumented code sends as probe id and kind.
pub fn hit_ex(collector: &mut Collector, probe_id: i64, kind: i32)
    ensures
        final(collector).enabled == old(collector).enabled,
        old(collector).enabled ==> final(collector).data.probe_hits@ == recorded(
            old(collector).data.probe_hits@,
            unsigned(probe_id),
            kind_byte(kind),
        ),
        old(collector).enabled ==> final(collector).data.start_time == old(
            collector,
        ).data.start_time && final(collector).data.end_time == old(collector).data.end_time,
        !old(collector).enabled ==> *final(collector) == *old(collector),
        old(collector).data.wf() ==> final(collector).data.wf(),
{
    let (id, byte) = decode_ex(probe_id, kind);
    record_hit(collector, id, byte);
}

/// Counts a hit of a line probe.
pub fn hit_line(collector: &mut Collector, probe_id: u64)
    ensures
        final(collector).enabled == old(collector).enabled,
        old(collector).enabled ==> final(collector).data.probe_hits@ == recorded(
            old(collector).data.probe_hits@,
            probe_id,
            probe_kind::LINE,
        ),
        old(collector).enabled ==> final(collector).data.start_time == old(
            collector,
        ).data.start_time && final(collector).data.end_time == old(collector).data.end_time,
        !old(collector).enabled ==> *final(collector) == *old(collector),
        old(collector).data.wf() ==> final(collector).data.wf(),
{
    record_hit(collector, probe_id, probe_kind::LINE);
}

/// Counts a hit of a function-entry probe.
pub fn hit_function(collector: &mut Collector, probe_id: u64)
    ensures
        final(collector).enabled == old(collector).enabled,
        old(collector).enabled ==> final(collector).data.probe_hits@ == recorded(
            old(collector).data.probe_hits@,
            probe_id,
            probe_kind::FUNCTION_ENTRY,
        ),
        old(collector).enabled ==> final(collector).data.start_time == old(
            collector,
        ).data.start_time && final(collector).data.end_time == old(collector).data.end_time,
        !old(collector).enabled ==> *final(collector) == *old(collector),
        old(collector).data.wf() ==> final(collector).data.wf(),
{
    record_hit(collector, probe_id, probe_kind::FUNCTION_ENTRY);
}

/// Counts a hit of a branch probe: of the true side if the branch was
/// taken, else of the false side.
pub fn hit_branch(collector: &mut Collector, probe_id: u64, taken: bool)
    ensures
        final(collector).enabled == old(collector).enabled,
        old(collector).enabled ==> final(collector).data.probe_hits@ == recorded(
            old(collector).data.probe_hits@,
            probe_id,
            if taken {
                probe_kind::BRANCH_TRUE
            } else {
                probe_kind::BRANCH_FALSE
            },
        ),
        old(collector).enabled ==> final(collector).data.start_time == old(
            collector,
        ).data.start_time && final(collector).data.end_time == old(collector).data.end_time,
        !old(collector).enabled ==> *final(collector) == *old(collector),
        old(collector).data.wf() ==> final(collector).data.wf(),
{
    let kind = if taken {
        probe_kind::BRANCH_TRUE
    } else {
        probe_kind::BRANCH_FALSE
    };
    record_hit(collector, probe_id, kind);
}

/// A scope in which collection is switched on. It remembers whether
/// collection was on when the scope began; at its end it switches
/// collection off only if it was off before, and never on.
#[derive(Debug)]
pub struct CoverageGuard {
    /// Whether collection was switched on when the scope began.
    pub was_enabled: bool,
}

impl CoverageGuard {
    /// Begins a scope: switches collection on.
    pub fn new(collector: &mut Collector) -> (guard: Self)
        ensures
            guard.was_enabled == old(collector).enabled,
            final(collector).enabled,
            final(collector).data == old(collector).data,
    {
        let was_enabled = is_enabled(collector);
        enable(collector);
        CoverageGuard { was_enabled }
    }

    /// Begins a scope with fresh data: drops the hits counted so far, then
    /// switches collection on.
    pub fn new_fresh(collector: &mut Collector) -> (guard: Self)
        ensures
            guard.was_enabled == old(collector).enabled,
            final(collector).enabled,
            final(collector).data.probe_hits@ == Map::<u64, ProbeHit>::empty(),
            final(collector).data.end_time == 0,
            final(collector).data.wf(),
    {
        reset(collector);
        CoverageGuard::new(collector)
    }

    /// Ends the scope: switches collection off if it was off when the
    /// scope began, and leaves it as it is otherwise.
    pub fn release(self, collector: &mut Collector)
        ensures
            final(collector).enabled == (self.was_enabled && old(collector).enabled),
            final(collector).data == old(collector).data,
    {
        if !self.was_enabled {
            disable(collector);
        }
    }
}

} // verus!
