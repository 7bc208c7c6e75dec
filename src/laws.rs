use vstd::prelude::*;

use crate::clock::LocalTime;
use crate::level::{DebugMode, Level};
use crate::logger::{
    ascending_below, bucket_of, emit_targets, emitted, flush_targets, flushed, holds_id,
    lemma_bucket, lemma_live, level_live, all_ids, write_failed, flush_failed, written_to, flushed_to,
    flushed_all, logged, Attempt, Delivery, HumanLogger, LoggerView,
};
use crate::paint::painted;
use crate::render::{level_style, level_word, line_text, RecordView};

verus! {

/// The sinks a record goes to are, as a set, the live sinks that accept its
/// level, and each of them only once.
proof fn lemma_targets(old: LoggerView, level: Level)
    requires
        old.enabled.len() == old.sinks.len(),
    ensures
        ascending_below(emit_targets(old, level), old.sinks.len() as int),
        forall|i: int|
            #[trigger] holds_id(emit_targets(old, level), i) <==> (0 <= i < old.sinks.len()
                && old.enabled[i] && old.sinks[i].accepted.contains(level)),
{
    let b = bucket_of(old.sinks, level);
    lemma_bucket(old.sinks, level);
    lemma_live(b, old.enabled, old.sinks.len() as int);
    assert forall|i: int|
        #[trigger] holds_id(emit_targets(old, level), i) <==> (0 <= i < old.sinks.len()
            && old.enabled[i] && old.sinks[i].accepted.contains(level)) by {
        if holds_id(b, i) {
            let k = choose|k: int| 0 <= k < b.len() && b[k] == i;
            assert(0 <= b[k] < old.sinks.len());
        }
    }
}

/// The writes of an emit, over the views alone.
proof fn lemma_reaches(
    old: LoggerView,
    new: LoggerView,
    r: RecordView,
    now: LocalTime,
    report: Seq<Delivery>,
)
    requires
        old.enabled.len() == old.sinks.len(),
        emitted(old, new, r, now, report),
    ensures
        forall|i: int|
            #[trigger] written_to(report, i) <==> (0 <= i < old.sinks.len() && old.enabled[i]
                && old.sinks[i].accepted.contains(r.level)),
        forall|j: int, k: int|
            0 <= j < k < report.len() ==> #[trigger] report[j].sink < #[trigger] report[k].sink,
{
    let t = emit_targets(old, r.level);
    lemma_targets(old, r.level);
    assert forall|i: int|
        #[trigger] written_to(report, i) <==> (0 <= i < old.sinks.len() && old.enabled[i]
            && old.sinks[i].accepted.contains(r.level)) by {
        if written_to(report, i) {
            let k = choose|k: int| 0 <= k < report.len() && report[k].sink == i;
            assert(report[k].sink == t[k]);
            assert(holds_id(t, i));
        }
        if 0 <= i < old.sinks.len() && old.enabled[i] && old.sinks[i].accepted.contains(r.level) {
            assert(holds_id(t, i));
            let k = choose|k: int| 0 <= k < t.len() && t[k] == i;
            assert(report[k].sink == t[k]);
        }
    }
    assert forall|j: int, k: int| 0 <= j < k < report.len() implies #[trigger] report[j].sink
        < #[trigger] report[k].sink by {
        assert(report[j].sink == t[j]);
        assert(report[k].sink == t[k]);
        assert(t[j] < t[k]);
    }
}

/// A sink whose write fails in an emit is switched off after it.
pub proof fn law_failed_write_switches_off(
    old: LoggerView,
    new: LoggerView,
    r: RecordView,
    now: LocalTime,
    report: Seq<Delivery>,
    k: int,
)
    requires
        old.enabled.len() == old.sinks.len(),
        emitted(old, new, r, now, report),
        0 <= k < report.len(),
        report[k].error is Some,
    ensures
        0 <= report[k].sink < new.enabled.len(),
        !new.enabled[report[k].sink as int],
{
    lemma_targets(old, r.level);
    let t = emit_targets(old, r.level);
    assert(report[k].sink == t[k]);
    assert(write_failed(report, report[k].sink as int));
}

/// A sink whose flush fails is switched off after it.
pub proof fn law_failed_flush_switches_off(
    old: LoggerView,
    new: LoggerView,
    report: Seq<Attempt>,
    k: int,
)
    requires
        old.enabled.len() == old.sinks.len(),
        flushed(old, new, report),
        0 <= k < report.len(),
        report[k].error is Some,
    ensures
        0 <= report[k].sink < new.enabled.len(),
        !new.enabled[report[k].sink as int],
{
    law_flush_reaches_each_live_sink_once(old, new, report);
    let i = report[k].sink as int;
    assert(flushed_to(report, i));
    assert(flush_failed(report, i));
}

/// Emitting a record writes to exactly the sinks that are on and accept its
/// level: every such sink gets one write, in order, and the destination of
/// every other sink is left as it was.
pub proof fn law_emit_reaches_exactly_live_accepting<W>(
    old: HumanLogger<W>,
    new: HumanLogger<W>,
    r: RecordView,
    now: LocalTime,
    report: Seq<Delivery>,
)
    requires
        old@.enabled.len() == old@.sinks.len(),
        logged(old, new, r, now, report),
    ensures
        forall|i: int|
            #[trigger] written_to(report, i) <==> (0 <= i < old@.sinks.len() && old@.enabled[i]
                && old@.sinks[i].accepted.contains(r.level)),
        forall|j: int, k: int|
            0 <= j < k < report.len() ==> #[trigger] report[j].sink < #[trigger] report[k].sink,
        forall|i: int|
            0 <= i < old@.sinks.len() && !(old@.enabled[i] && old@.sinks[i].accepted.contains(
                r.level,
            )) ==> #[trigger] new.destination(i) == old.destination(i),
{
    lemma_reaches(old@, new@, r, now, report);
    lemma_targets(old@, r.level);
}

/// A sink that accepts no level is never written to, whatever the record and
/// the mode: no write is reported and its destination is left as it was.
pub proof fn law_inert_sink_never_written<W>(
    old: HumanLogger<W>,
    new: HumanLogger<W>,
    r: RecordView,
    now: LocalTime,
    report: Seq<Delivery>,
    s: int,
)
    requires
        old@.enabled.len() == old@.sinks.len(),
        logged(old, new, r, now, report),
        0 <= s < old@.sinks.len(),
        old@.sinks[s].accepted == Set::<Level>::empty(),
    ensures
        forall|k: int| 0 <= k < report.len() ==> #[trigger] report[k].sink != s,
        new.destination(s) == old.destination(s),
{
    law_emit_reaches_exactly_live_accepting(old, new, r, now, report);
    assert forall|k: int| 0 <= k < report.len() implies #[trigger] report[k].sink != s by {
        if report[k].sink == s {
            assert(written_to(report, s));
        }
    }
    assert(!old@.sinks[s].accepted.contains(r.level));
}

/// A sink that is off stays off through an emit, and the emit neither writes
/// to it nor reports it.
pub proof fn law_off_sink_skipped_by_emit<W>(
    old: HumanLogger<W>,
    new: HumanLogger<W>,
    r: RecordView,
    now: LocalTime,
    report: Seq<Delivery>,
    s: int,
)
    requires
        old@.enabled.len() == old@.sinks.len(),
        logged(old, new, r, now, report),
        0 <= s < old@.sinks.len(),
        !old@.enabled[s],
    ensures
        !new@.enabled[s],
        forall|k: int| 0 <= k < report.len() ==> #[trigger] report[k].sink != s,
        new.destination(s) == old.destination(s),
{
    law_emit_reaches_exactly_live_accepting(old, new, r, now, report);
    assert forall|k: int| 0 <= k < report.len() implies #[trigger] report[k].sink != s by {
        if report[k].sink == s {
            assert(written_to(report, s));
        }
    }
}

/// A sink that is off stays off through a flush, and the flush neither
/// flushes its destination nor reports it.
pub proof fn law_off_sink_skipped_by_flush<W>(
    old: HumanLogger<W>,
    new: HumanLogger<W>,
    report: Seq<Attempt>,
    s: int,
)
    requires
        old@.enabled.len() == old@.sinks.len(),
        flushed_all(old, new, report),
        0 <= s < old@.sinks.len(),
        !old@.enabled[s],
    ensures
        !new@.enabled[s],
        forall|k: int| 0 <= k < report.len() ==> #[trigger] report[k].sink != s,
        new.destination(s) == old.destination(s),
{
    law_flush_reaches_each_live_sink_once(old@, new@, report);
    assert forall|k: int| 0 <= k < report.len() implies #[trigger] report[k].sink != s by {
        if report[k].sink == s {
            assert(flushed_to(report, s));
        }
    }
    let ids = all_ids(old@.sinks.len());
    assert(ascending_below(ids, old@.sinks.len() as int));
    lemma_live(ids, old@.enabled, old@.sinks.len() as int);
}

/// After a write to a sink fails, the next emit neither writes to that sink
/// nor reports it, so its failure is reported once.
pub proof fn law_failure_reported_once<W>(
    l0: HumanLogger<W>,
    l1: HumanLogger<W>,
    r1: RecordView,
    t1: LocalTime,
    rep1: Seq<Delivery>,
    k: int,
    l2: HumanLogger<W>,
    r2: RecordView,
    t2: LocalTime,
    rep2: Seq<Delivery>,
)
    requires
        l0@.enabled.len() == l0@.sinks.len(),
        logged(l0, l1, r1, t1, rep1),
        0 <= k < rep1.len(),
        rep1[k].error is Some,
        logged(l1, l2, r2, t2, rep2),
    ensures
        !l2@.enabled[rep1[k].sink as int],
        forall|j: int| 0 <= j < rep2.len() ==> #[trigger] rep2[j].sink != rep1[k].sink,
        l2.destination(rep1[k].sink as int) == l1.destination(rep1[k].sink as int),
{
    law_failed_write_switches_off(l0@, l1@, r1, t1, rep1, k);
    law_off_sink_skipped_by_emit(l1, l2, r2, t2, rep2, rep1[k].sink as int);
}

/// A flush reaches each live sink exactly once, however many buckets it is
/// in, and no sink that is off.
pub proof fn law_flush_reaches_each_live_sink_once(old: LoggerView, new: LoggerView, report: Seq<Attempt>)
    requires
        old.enabled.len() == old.sinks.len(),
        flushed(old, new, report),
    ensures
        forall|i: int|
            #[trigger] flushed_to(report, i) <==> (0 <= i < old.sinks.len() && old.enabled[i]),
        forall|j: int, k: int|
            0 <= j < k < report.len() ==> #[trigger] report[j].sink < #[trigger] report[k].sink,
{
    let n = old.sinks.len() as int;
    let ids = all_ids(old.sinks.len());
    let t = flush_targets(old);
    assert(ascending_below(ids, n));
    lemma_live(ids, old.enabled, n);
    assert forall|i: int|
        #[trigger] flushed_to(report, i) <==> (0 <= i < n && old.enabled[i]) by {
        if flushed_to(report, i) {
            let k = choose|k: int| 0 <= k < report.len() && report[k].sink == i;
            assert(report[k].sink == t[k]);
            assert(holds_id(t, i));
        }
        if 0 <= i < n && old.enabled[i] {
            assert(ids[i] == i);
            assert(holds_id(ids, i));
            assert(holds_id(t, i));
            let k = choose|k: int| 0 <= k < t.len() && t[k] == i;
            assert(report[k].sink == t[k]);
        }
    }
    assert forall|j: int, k: int| 0 <= j < k < report.len() implies #[trigger] report[j].sink
        < #[trigger] report[k].sink by {
        assert(report[j].sink == t[j]);
        assert(report[k].sink == t[k]);
        assert(t[j] < t[k]);
    }
}

/// A level is enabled exactly when some live sink accepts it; once every sink
/// that accepts it is off, it is not.
pub proof fn law_level_dead_when_accepting_sinks_off(v: LoggerView, level: Level)
    requires
        forall|i: int|
            0 <= i < v.sinks.len() && #[trigger] v.sinks[i].accepted.contains(level) ==> !v.enabled[i],
    ensures
        !level_live(v, level),
{
}

/// Where every write of an emit fails, the record's level is no longer
/// enabled afterwards, though it was before wherever the emit wrote at all.
pub proof fn law_level_dies_when_every_write_fails(
    old: LoggerView,
    new: LoggerView,
    r: RecordView,
    now: LocalTime,
    report: Seq<Delivery>,
)
    requires
        old.enabled.len() == old.sinks.len(),
        emitted(old, new, r, now, report),
        forall|k: int| 0 <= k < report.len() ==> (#[trigger] report[k]).error is Some,
    ensures
        !level_live(new, r.level),
        report.len() > 0 ==> level_live(old, r.level),
{
    lemma_reaches(old, new, r, now, report);
    assert forall|i: int|
        0 <= i < new.sinks.len() && #[trigger] new.sinks[i].accepted.contains(r.level) implies !new.enabled[i] by {
        if old.enabled[i] {
            assert(written_to(report, i));
            let k = choose|k: int| 0 <= k < report.len() && report[k].sink == i;
            assert(report[k].error is Some);
            assert(write_failed(report, i));
        }
    }
    if report.len() > 0 {
        let i = report[0].sink as int;
        assert(written_to(report, i));
        assert(0 <= i < old.sinks.len() && old.sinks[i].accepted.contains(r.level) && old.enabled[i]);
    }
}

/// Rendering is deterministic: equal levels, modes, records, colour settings
/// and clock readings give the same line.
pub proof fn law_render_deterministic(
    r1: RecordView,
    m1: DebugMode,
    c1: bool,
    t1: LocalTime,
    r2: RecordView,
    m2: DebugMode,
    c2: bool,
    t2: LocalTime,
)
    requires
        r1 == r2,
        m1 == m2,
        c1 == c2,
        t1 == t2,
    ensures
        line_text(r1, m1, c1, t1) == line_text(r2, m2, c2, t2),
{
}

/// The friendly layout reads no clock: it is the level word, `": "` and the
/// message, and without colour the word is plain.
pub proof fn law_friendly_line(r: RecordView, colour: bool, t1: LocalTime, t2: LocalTime)
    ensures
        line_text(r, DebugMode::HumanFriendly, colour, t1) == line_text(
            r,
            DebugMode::HumanFriendly,
            colour,
            t2,
        ),
        line_text(r, DebugMode::HumanFriendly, colour, t1) == painted(
            level_style(r.level),
            level_word(r.level),
            colour,
        ) + ": "@ + r.message,
        line_text(r, DebugMode::HumanFriendly, false, t1) == level_word(r.level) + ": "@ + r.message,
{
}

} // verus!
