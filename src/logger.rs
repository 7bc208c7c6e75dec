use vstd::prelude::*;

use crate::clock::LocalTime;
use crate::level::{colour_of, ColourChoice, DebugMode, Level};
use crate::render::{failure_notice, line_text, notice_text, render_line, Record, RecordView};

verus! {

/// A destination that a sink writes its lines to: a stream, a file, a buffer.
///
/// Either call may fail; the error is returned as text, and the logger then
/// switches the sink off for good.
pub trait Writable {
    /// Writes the whole text.
    fn write_text(&mut self, text: &str) -> Result<(), String>;

    /// Flushes what was written so far.
    fn flush(&mut self) -> Result<(), String>;
}

/// What a sink is, apart from its destination.
pub struct SinkView {
    pub label: Seq<char>,
    /// Whether lines for this sink are coloured.
    pub colour: bool,
    /// The levels this sink receives.
    pub accepted: Set<Level>,
}

/// A sink's label, resolved colour setting and accepted levels.
pub(crate) struct Sink {
    label: String,
    colour: bool,
    filter: Vec<Level>,
}

impl View for Sink {
    type V = SinkView;

    closed spec fn view(&self) -> SinkView {
        SinkView { label: self.label@, colour: self.colour, accepted: self.filter@.to_set() }
    }
}

impl Sink {
    /// Whether this sink accepts records of `level`.
    fn accepts(&self, level: Level) -> (r: bool)
        ensures
            r == self@.accepted.contains(level),
    {
        let mut i: usize = 0;
        while i < self.filter.len()
            invariant
                i <= self.filter.len(),
                forall|j: int| 0 <= j < i ==> self.filter@[j] != level,
            decreases self.filter.len() - i,
        {
            if self.filter[i] == level {
                return true;
            }
            i += 1;
        }
        false
    }
}

/// A destination, with a label, a resolved colour setting and the levels it
/// accepts.
pub struct LogWriter<W> {
    sink: Sink,
    writer: W,
}

impl<W> View for LogWriter<W> {
    type V = SinkView;

    closed spec fn view(&self) -> SinkView {
        self.sink@
    }
}

impl<W> LogWriter<W> {
    /// The destination this sink writes to.
    pub closed spec fn destination(&self) -> W {
        self.writer
    }

    /// A sink around `writer`. Its colour is resolved here, once: `Auto` gives
    /// colour only where `is_terminal` says that the destination is an
    /// interactive standard stream. Repeated levels in `filter` count once.
    pub fn new(writer: W, colour: ColourChoice, is_terminal: bool, filter: Vec<Level>, label: String) -> (r: Self)
        ensures
            r@ == (SinkView {
                label: label@,
                colour: colour_of(colour, is_terminal),
                accepted: filter@.to_set(),
            }),
            r.destination() == writer,
    {
        let colour = colour.resolve(is_terminal);
        LogWriter { sink: Sink { label, colour, filter }, writer }
    }

    /// The standard sink for standard output: it takes trace, debug and info
    /// records, with automatic colour.
    pub fn stdout(writer: W, is_terminal: bool) -> (r: Self)
        ensures
            r@ == (SinkView {
                label: "stdout"@,
                colour: is_terminal,
                accepted: set![Level::Trace, Level::Debug, Level::Info],
            }),
            r.destination() == writer,
    {
        let filter = vec![Level::Trace, Level::Debug, Level::Info];
        proof {
            assert(filter@.to_set() =~= set![Level::Trace, Level::Debug, Level::Info]) by {
                assert(filter@[0] == Level::Trace);
                assert(filter@[1] == Level::Debug);
                assert(filter@[2] == Level::Info);
            }
        }
        Self::new(writer, ColourChoice::Auto, is_terminal, filter, String::from_str("stdout"))
    }

    /// The standard sink for standard error: it takes warnings and errors,
    /// with automatic colour.
    pub fn stderr(writer: W, is_terminal: bool) -> (r: Self)
        ensures
            r@ == (SinkView {
                label: "stderr"@,
                colour: is_terminal,
                accepted: set![Level::Warn, Level::Error],
            }),
            r.destination() == writer,
    {
        let filter = vec![Level::Warn, Level::Error];
        proof {
            assert(filter@.to_set() =~= set![Level::Warn, Level::Error]) by {
                assert(filter@[0] == Level::Warn);
                assert(filter@[1] == Level::Error);
            }
        }
        Self::new(writer, ColourChoice::Auto, is_terminal, filter, String::from_str("stderr"))
    }

    /// The label of this sink.
    pub fn label(&self) -> (r: &str)
        ensures
            r@ == self@.label,
    {
        self.sink.label.as_str()
    }

    /// Whether this sink writes colour.
    pub fn colour(&self) -> (r: bool)
        ensures
            r == self@.colour,
    {
        self.sink.colour
    }

    /// Whether this sink accepts records of `level`.
    pub fn accepts(&self, level: Level) -> (r: bool)
        ensures
            r == self@.accepted.contains(level),
    {
        self.sink.accepts(level)
    }
}

/// The indices of the sinks that accept `level`, in the order of the sinks.
pub open spec fn bucket_of(sinks: Seq<SinkView>, level: Level) -> Seq<int>
    decreases sinks.len(),
{
    if sinks.len() == 0 {
        Seq::empty()
    } else {
        let rest = bucket_of(sinks.drop_last(), level);
        if sinks.last().accepted.contains(level) {
            rest.push(sinks.len() - 1)
        } else {
            rest
        }
    }
}

/// The indices of `ids` whose sink is switched on, in the same order.
pub open spec fn live_ids(ids: Seq<int>, enabled: Seq<bool>) -> Seq<int>
    decreases ids.len(),
{
    if ids.len() == 0 {
        Seq::empty()
    } else {
        let rest = live_ids(ids.drop_last(), enabled);
        if enabled[ids.last()] {
            rest.push(ids.last())
        } else {
            rest
        }
    }
}

/// The indices `0..n` in order.
pub open spec fn all_ids(n: nat) -> Seq<int> {
    Seq::new(n, |i: int| i)
}

/// A sequence of indices that are below `n` and strictly increasing.
pub open spec fn ascending_below(ids: Seq<int>, n: int) -> bool {
    &&& forall|k: int| 0 <= k < ids.len() ==> 0 <= #[trigger] ids[k] < n
    &&& forall|j: int, k: int| 0 <= j < k < ids.len() ==> ids[j] < ids[k]
}

/// Whether a sequence of indices holds `i`.
pub open spec fn holds_id(ids: Seq<int>, i: int) -> bool {
    exists|k: int| 0 <= k < ids.len() && ids[k] == i
}

/// The bucket of `level` holds exactly the sinks that accept it, each once,
/// in order.
pub proof fn lemma_bucket(sinks: Seq<SinkView>, level: Level)
    ensures
        ascending_below(bucket_of(sinks, level), sinks.len() as int),
        forall|i: int|
            0 <= i < sinks.len() ==> (holds_id(bucket_of(sinks, level), i) <==> sinks[i].accepted.contains(
                level,
            )),
    decreases sinks.len(),
{
    if sinks.len() > 0 {
        let rest = sinks.drop_last();
        lemma_bucket(rest, level);
        let b = bucket_of(sinks, level);
        let rb = bucket_of(rest, level);
        assert forall|i: int| 0 <= i < sinks.len() implies (holds_id(b, i)
            <==> sinks[i].accepted.contains(level)) by {
            if i < sinks.len() - 1 {
                assert(rest[i] == sinks[i]);
                if holds_id(rb, i) {
                    let k = choose|k: int| 0 <= k < rb.len() && rb[k] == i;
                    assert(b[k] == i);
                }
                if holds_id(b, i) {
                    let k = choose|k: int| 0 <= k < b.len() && b[k] == i;
                    assert(k < rb.len());
                    assert(rb[k] == i);
                }
            } else {
                if sinks.last().accepted.contains(level) {
                    assert(b[b.len() - 1] == i);
                } else {
                    if holds_id(b, i) {
                        let k = choose|k: int| 0 <= k < b.len() && b[k] == i;
                        assert(rb[k] == i);
                    }
                }
            }
        }
    }
}

/// The live part of a sequence of indices holds exactly its members whose
/// sink is on, and keeps their order.
pub proof fn lemma_live(ids: Seq<int>, enabled: Seq<bool>, n: int)
    requires
        ascending_below(ids, n),
        enabled.len() == n,
    ensures
        ascending_below(live_ids(ids, enabled), n),
        forall|i: int| #[trigger]
            holds_id(live_ids(ids, enabled), i) <==> holds_id(ids, i) && enabled[i],
    decreases ids.len(),
{
    if ids.len() > 0 {
        let rest = ids.drop_last();
        assert(ascending_below(rest, n));
        lemma_live(rest, enabled, n);
        let l = live_ids(ids, enabled);
        let rl = live_ids(rest, enabled);
        let last = ids.last();
        assert forall|k: int| 0 <= k < rl.len() implies rl[k] < last by {
            assert(holds_id(rl, rl[k]));
            let j = choose|j: int| 0 <= j < rest.len() && rest[j] == rl[k];
            assert(ids[j] == rest[j]);
        }
        assert forall|i: int| #[trigger] holds_id(l, i) <==> holds_id(ids, i) && enabled[i] by {
            if holds_id(l, i) {
                let k = choose|k: int| 0 <= k < l.len() && l[k] == i;
                if k < rl.len() {
                    assert(rl[k] == i);
                    assert(holds_id(rl, i));
                    let j = choose|j: int| 0 <= j < rest.len() && rest[j] == i;
                    assert(ids[j] == i);
                } else {
                    assert(ids[ids.len() - 1] == i);
                }
            }
            if holds_id(ids, i) && enabled[i] {
                let j = choose|j: int| 0 <= j < ids.len() && ids[j] == i;
                if j < ids.len() - 1 {
                    assert(rest[j] == i);
                    assert(holds_id(rl, i));
                    let k = choose|k: int| 0 <= k < rl.len() && rl[k] == i;
                    assert(l[k] == i);
                } else {
                    assert(l[l.len() - 1] == i);
                }
            }
        }
    }
}

/// What a logger is: its sinks, which of them are still switched on, and its mode.
pub struct LoggerView {
    pub sinks: Seq<SinkView>,
    pub enabled: Seq<bool>,
    pub mode: DebugMode,
}

/// Whether some sink that is still on accepts `level`.
pub open spec fn level_live(v: LoggerView, level: Level) -> bool {
    exists|i: int| 0 <= i < v.sinks.len() && v.sinks[i].accepted.contains(level) && v.enabled[i]
}

/// The sinks, in order, that a record of `level` goes to.
pub open spec fn emit_targets(v: LoggerView, level: Level) -> Seq<int> {
    live_ids(bucket_of(v.sinks, level), v.enabled)
}

/// The sinks, in order, that a flush reaches.
pub open spec fn flush_targets(v: LoggerView) -> Seq<int> {
    live_ids(all_ids(v.sinks.len()), v.enabled)
}

/// A vector of sink indices that holds, in order, the indices of a bucket.
pub open spec fn stores_ids(v: Seq<usize>, ids: Seq<int>) -> bool {
    &&& v.len() == ids.len()
    &&& forall|k: int| 0 <= k < v.len() ==> v[k] as int == #[trigger] ids[k]
}

/// One line written to a sink, and the error its destination gave, if any.
pub struct Delivery {
    pub sink: usize,
    pub line: String,
    pub error: Option<String>,
}

/// One flush of a sink, and the error its destination gave, if any.
pub struct Attempt {
    pub sink: usize,
    pub error: Option<String>,
}

/// Whether a report holds a write to sink `i`.
pub open spec fn written_to(report: Seq<Delivery>, i: int) -> bool {
    exists|k: int| 0 <= k < report.len() && report[k].sink == i
}

/// Whether a report holds a flush of sink `i`.
pub open spec fn flushed_to(report: Seq<Attempt>, i: int) -> bool {
    exists|k: int| 0 <= k < report.len() && report[k].sink == i
}

/// Whether the write to sink `i` failed in a report.
pub open spec fn write_failed(report: Seq<Delivery>, i: int) -> bool {
    exists|k: int| 0 <= k < report.len() && report[k].sink == i && report[k].error is Some
}

/// Whether the flush of sink `i` failed in a report.
pub open spec fn flush_failed(report: Seq<Attempt>, i: int) -> bool {
    exists|k: int| 0 <= k < report.len() && report[k].sink == i && report[k].error is Some
}

/// What emitting a record does: each live sink that accepts the record's
/// level, in bucket order, gets the record's line for its colour setting
/// and a newline; a sink whose write fails is switched off, and nothing else
/// changes.
pub open spec fn emitted(
    old: LoggerView,
    new: LoggerView,
    r: RecordView,
    now: LocalTime,
    report: Seq<Delivery>,
) -> bool {
    let targets = emit_targets(old, r.level);
    &&& new.sinks == old.sinks
    &&& new.mode == old.mode
    &&& new.enabled.len() == old.enabled.len()
    &&& report.len() == targets.len()
    &&& forall|k: int|
        0 <= k < report.len() ==> (#[trigger] report[k]).sink == targets[k] && report[k].line@
            == line_text(r, old.mode, old.sinks[targets[k]].colour, now) + "\n"@
    &&& forall|i: int|
        0 <= i < old.enabled.len() ==> #[trigger] new.enabled[i] == (old.enabled[i]
            && !write_failed(report, i))
}

/// What a flush does: each live sink is flushed once, in order; a sink whose
/// flush fails is switched off, and nothing else changes.
pub open spec fn flushed(old: LoggerView, new: LoggerView, report: Seq<Attempt>) -> bool {
    let targets = flush_targets(old);
    &&& new.sinks == old.sinks
    &&& new.mode == old.mode
    &&& new.enabled.len() == old.enabled.len()
    &&& report.len() == targets.len()
    &&& forall|k: int| 0 <= k < report.len() ==> (#[trigger] report[k]).sink == targets[k]
    &&& forall|i: int|
        0 <= i < old.enabled.len() ==> #[trigger] new.enabled[i] == (old.enabled[i]
            && !flush_failed(report, i))
}

/// Adding one write to a report adds at most its own sink to the failed ones.
proof fn lemma_push_delivery(report: Seq<Delivery>, d: Delivery)
    ensures
        forall|x: int|
            #[trigger] write_failed(report.push(d), x) <==> (write_failed(report, x) || (x
                == d.sink && d.error is Some)),
{
    let r2 = report.push(d);
    assert forall|x: int|
        #[trigger] write_failed(r2, x) <==> (write_failed(report, x) || (x == d.sink
            && d.error is Some)) by {
        if write_failed(report, x) {
            let k = choose|k: int|
                0 <= k < report.len() && report[k].sink == x && report[k].error is Some;
            assert(r2[k] == report[k]);
        }
        if x == d.sink && d.error is Some {
            assert(r2[report.len() as int] == d);
        }
        if write_failed(r2, x) {
            let k = choose|k: int| 0 <= k < r2.len() && r2[k].sink == x && r2[k].error is Some;
            if k < report.len() {
                assert(report[k] == r2[k]);
            }
        }
    }
}

/// Adding one flush to a report adds at most its own sink to the failed ones.
proof fn lemma_push_attempt(report: Seq<Attempt>, a: Attempt)
    ensures
        forall|x: int|
            #[trigger] flush_failed(report.push(a), x) <==> (flush_failed(report, x) || (x
                == a.sink && a.error is Some)),
{
    let r2 = report.push(a);
    assert forall|x: int|
        #[trigger] flush_failed(r2, x) <==> (flush_failed(report, x) || (x == a.sink
            && a.error is Some)) by {
        if flush_failed(report, x) {
            let k = choose|k: int|
                0 <= k < report.len() && report[k].sink == x && report[k].error is Some;
            assert(r2[k] == report[k]);
        }
        if x == a.sink && a.error is Some {
            assert(r2[report.len() as int] == a);
        }
        if flush_failed(r2, x) {
            let k = choose|k: int| 0 <= k < r2.len() && r2[k].sink == x && r2[k].error is Some;
            if k < report.len() {
                assert(report[k] == r2[k]);
            }
        }
    }
}

/// Pushing an index adds it, and only it, to what a sequence holds.
proof fn lemma_holds_push(ids: Seq<int>, v: int)
    ensures
        forall|x: int| #[trigger] holds_id(ids.push(v), x) <==> (holds_id(ids, x) || x == v),
{
    assert forall|x: int| #[trigger] holds_id(ids.push(v), x) <==> (holds_id(ids, x) || x == v) by {
        if holds_id(ids, x) {
            let k = choose|k: int| 0 <= k < ids.len() && ids[k] == x;
            assert(ids.push(v)[k] == x);
        }
        if x == v {
            assert(ids.push(v)[ids.len() as int] == v);
        }
        if holds_id(ids.push(v), x) {
            let k = choose|k: int| 0 <= k < ids.push(v).len() && ids.push(v)[k] == x;
            if k < ids.len() {
                assert(ids[k] == x);
            }
        }
    }
}

/// An index of an ascending sequence is not among the entries before it.
proof fn lemma_not_before(ids: Seq<int>, k: int, n: int)
    requires
        ascending_below(ids, n),
        0 <= k < ids.len(),
    ensures
        !holds_id(ids.take(k), ids[k]),
{
    if holds_id(ids.take(k), ids[k]) {
        let j = choose|j: int| 0 <= j < ids.take(k).len() && ids.take(k)[j] == ids[k];
        assert(ids[j] < ids[k]);
    }
}

/// The first `k + 1` indices hold, for the live part, what the first `k` do,
/// and the `k`-th index where its sink is on.
proof fn lemma_live_step(ids: Seq<int>, enabled: Seq<bool>, k: int)
    requires
        0 <= k < ids.len(),
    ensures
        live_ids(ids.take(k + 1), enabled) == (if enabled[ids[k]] {
            live_ids(ids.take(k), enabled).push(ids[k])
        } else {
            live_ids(ids.take(k), enabled)
        }),
{
    assert(ids.take(k + 1).drop_last() =~= ids.take(k));
}

/// A logger that writes each record to the live sinks that accept its level.
pub struct HumanLogger<W> {
    sinks: Vec<Sink>,
    writers: Vec<W>,
    enabled: Vec<bool>,
    error_writers: Vec<usize>,
    warn_writers: Vec<usize>,
    info_writers: Vec<usize>,
    debug_writers: Vec<usize>,
    trace_writers: Vec<usize>,
    debug: DebugMode,
}

impl<W> View for HumanLogger<W> {
    type V = LoggerView;

    closed spec fn view(&self) -> LoggerView {
        LoggerView {
            sinks: self.sinks@.map_values(|s: Sink| s@),
            enabled: self.enabled@,
            mode: self.debug,
        }
    }
}

impl<W> HumanLogger<W> {
    spec fn bucket_field(&self, level: Level) -> Vec<usize> {
        match level {
            Level::Error => self.error_writers,
            Level::Warn => self.warn_writers,
            Level::Info => self.info_writers,
            Level::Debug => self.debug_writers,
            Level::Trace => self.trace_writers,
        }
    }

    /// The logger is well formed: one flag and one destination per sink, and
    /// each level's bucket holds exactly the sinks that accept that level.
    pub closed spec fn wf(&self) -> bool {
        &&& self.enabled@.len() == self.sinks@.len()
        &&& self.writers@.len() == self.sinks@.len()
        &&& forall|level: Level|
            stores_ids(#[trigger] self.bucket_field(level)@, bucket_of(self@.sinks, level))
    }

    /// The destination of sink `i`.
    pub closed spec fn destination(&self, i: int) -> W {
        self.writers@[i]
    }

    fn bucket(&self, level: Level) -> (r: &Vec<usize>)
        ensures
            r == self.bucket_field(level),
    {
        match level {
            Level::Error => &self.error_writers,
            Level::Warn => &self.warn_writers,
            Level::Info => &self.info_writers,
            Level::Debug => &self.debug_writers,
            Level::Trace => &self.trace_writers,
        }
    }
}

/// Whether `new` keeps the destination of each sink that `ids` does not hold.
pub open spec fn keeps_others<W>(old: HumanLogger<W>, new: HumanLogger<W>, ids: Seq<int>) -> bool {
    forall|i: int|
        0 <= i < old@.sinks.len() && !holds_id(ids, i) ==> #[trigger] new.destination(i)
            == old.destination(i)
}

/// What `log` does to a logger: what `emitted` says, and the destination of
/// every sink it does not write to stays as it was.
pub open spec fn logged<W>(
    old: HumanLogger<W>,
    new: HumanLogger<W>,
    r: RecordView,
    now: LocalTime,
    report: Seq<Delivery>,
) -> bool {
    &&& emitted(old@, new@, r, now, report)
    &&& keeps_others(old, new, emit_targets(old@, r.level))
}

/// What `flush` does to a logger: what `flushed` says, and the destination of
/// every sink that is off stays as it was.
pub open spec fn flushed_all<W>(old: HumanLogger<W>, new: HumanLogger<W>, report: Seq<Attempt>) -> bool {
    &&& flushed(old@, new@, report)
    &&& keeps_others(old, new, flush_targets(old@))
}

/// Adds sink `i` to the bucket of `level` where it accepts that level.
fn file_sink(
    bucket: &mut Vec<usize>,
    sink: &Sink,
    i: usize,
    level: Level,
    Ghost(sinks): Ghost<Seq<SinkView>>,
)
    requires
        i < sinks.len(),
        sinks[i as int] == sink@,
        stores_ids(old(bucket)@, bucket_of(sinks.take(i as int), level)),
    ensures
        stores_ids(final(bucket)@, bucket_of(sinks.take(i + 1), level)),
{
    assert(sinks.take(i + 1).drop_last() =~= sinks.take(i as int));
    if sink.accepts(level) {
        bucket.push(i);
    }
}

impl<W: Writable> HumanLogger<W> {
    /// A logger over the given sinks, all switched on, in the given mode. A
    /// sink that accepts several levels is shared by their buckets; one that
    /// accepts none is kept, and only flushed.
    pub fn new(writers: Vec<LogWriter<W>>, debug: DebugMode) -> (r: Self)
        ensures
            r@.sinks == writers@.map_values(|w: LogWriter<W>| w@),
            r@.enabled == Seq::new(writers@.len(), |i: int| true),
            r@.mode == debug,
            r.wf(),
            forall|i: int|
                0 <= i < writers@.len() ==> r.destination(i) == #[trigger] writers@[i].destination(),
    {
        let ghost given = writers@;
        let ghost views = writers@.map_values(|w: LogWriter<W>| w@);
        let n = writers.len();
        let mut rest = writers;
        let mut sinks: Vec<Sink> = Vec::new();
        let mut dests: Vec<W> = Vec::new();
        let mut error_writers: Vec<usize> = Vec::new();
        let mut warn_writers: Vec<usize> = Vec::new();
        let mut info_writers: Vec<usize> = Vec::new();
        let mut debug_writers: Vec<usize> = Vec::new();
        let mut trace_writers: Vec<usize> = Vec::new();
        let mut enabled: Vec<bool> = Vec::new();
        let mut i: usize = 0;
        while i < n
            invariant
                i <= n,
                n == given.len(),
                views == given.map_values(|w: LogWriter<W>| w@),
                rest@ == given.skip(i as int),
                sinks@.map_values(|s: Sink| s@) == views.take(i as int),
                dests@.len() == i,
                forall|j: int| 0 <= j < i ==> dests@[j] == #[trigger] given[j].destination(),
                enabled@ == Seq::new(i as nat, |j: int| true),
                stores_ids(error_writers@, bucket_of(views.take(i as int), Level::Error)),
                stores_ids(warn_writers@, bucket_of(views.take(i as int), Level::Warn)),
                stores_ids(info_writers@, bucket_of(views.take(i as int), Level::Info)),
                stores_ids(debug_writers@, bucket_of(views.take(i as int), Level::Debug)),
                stores_ids(trace_writers@, bucket_of(views.take(i as int), Level::Trace)),
            decreases n - i,
        {
            let w = rest.remove(0);
            assert(w == given[i as int]);
            let LogWriter { sink, writer } = w;
            file_sink(&mut error_writers, &sink, i, Level::Error, Ghost(views));
            file_sink(&mut warn_writers, &sink, i, Level::Warn, Ghost(views));
            file_sink(&mut info_writers, &sink, i, Level::Info, Ghost(views));
            file_sink(&mut debug_writers, &sink, i, Level::Debug, Ghost(views));
            file_sink(&mut trace_writers, &sink, i, Level::Trace, Ghost(views));
            sinks.push(sink);
            dests.push(writer);
            enabled.push(true);
            assert(enabled@ =~= Seq::new((i + 1) as nat, |j: int| true));
            assert(sinks@.map_values(|s: Sink| s@) =~= views.take(i + 1));
            assert(rest@ =~= given.skip(i + 1));
            i += 1;
        }
        assert(views.take(n as int) =~= views);
        HumanLogger {
            sinks,
            writers: dests,
            enabled,
            error_writers,
            warn_writers,
            info_writers,
            debug_writers,
            trace_writers,
            debug,
        }
    }

    /// A logger for the terminal: trace, debug and info records go to the
    /// standard output sink, warnings and errors to the standard error sink,
    /// both with automatic colour.
    pub fn terminal(
        out: W,
        out_is_terminal: bool,
        err: W,
        err_is_terminal: bool,
        mode: DebugMode,
    ) -> (r: Self)
        ensures
            r@.sinks == seq![
                SinkView {
                    label: "stdout"@,
                    colour: out_is_terminal,
                    accepted: set![Level::Trace, Level::Debug, Level::Info],
                },
                SinkView {
                    label: "stderr"@,
                    colour: err_is_terminal,
                    accepted: set![Level::Warn, Level::Error],
                },
            ],
            r@.enabled == seq![true, true],
            r@.mode == mode,
            r.wf(),
            r.destination(0) == out,
            r.destination(1) == err,
    {
        let writers = vec![
            LogWriter::stdout(out, out_is_terminal),
            LogWriter::stderr(err, err_is_terminal),
        ];
        let r = Self::new(writers, mode);
        assert(r@.sinks =~= seq![writers@[0]@, writers@[1]@]);
        assert(r@.enabled =~= seq![true, true]);
        r
    }

    /// Whether a record of `level` would reach any sink: some sink that is
    /// still on accepts it. This is asked anew on each call, as sinks can
    /// switch off.
    pub fn enabled(&self, level: Level) -> (r: bool)
        requires
            self.wf(),
        ensures
            r == level_live(self@, level),
    {
        proof {
            lemma_bucket(self@.sinks, level);
        }
        let ids = self.bucket(level);
        let ghost b = bucket_of(self@.sinks, level);
        let mut k: usize = 0;
        while k < ids.len()
            invariant
                k <= ids.len(),
                stores_ids(ids@, b),
                b == bucket_of(self@.sinks, level),
                self.enabled@.len() == self@.sinks.len(),
                ascending_below(b, self@.sinks.len() as int),
                forall|i: int|
                    0 <= i < self@.sinks.len() ==> (holds_id(b, i) <==> self@.sinks[i].accepted.contains(
                        level,
                    )),
                forall|j: int| 0 <= j < k ==> !self.enabled@[#[trigger] b[j]],
            decreases ids.len() - k,
        {
            let i = ids[k];
            assert(b[k as int] == i as int);
            if self.enabled[i] {
                proof {
                    assert(holds_id(b, i as int));
                    assert(self@.sinks[i as int].accepted.contains(level) && self@.enabled[i as int]);
                }
                return true;
            }
            k += 1;
        }
        proof {
            if level_live(self@, level) {
                let i = choose|i: int|
                    0 <= i < self@.sinks.len() && self@.sinks[i].accepted.contains(level)
                        && self@.enabled[i];
                assert(holds_id(b, i));
            }
        }
        false
    }
    /// The mode this logger prints in.
    pub fn mode(&self) -> (r: DebugMode)
        ensures
            r == self@.mode,
    {
        self.debug
    }

    /// The number of sinks.
    pub fn sink_count(&self) -> (r: usize)
        requires
            self.wf(),
        ensures
            r == self@.sinks.len(),
            r == self@.enabled.len(),
    {
        self.sinks.len()
    }

    /// Whether sink `i` is still switched on.
    pub fn is_live(&self, i: usize) -> (r: bool)
        requires
            self.wf(),
            i < self@.sinks.len(),
        ensures
            r == self@.enabled[i as int],
    {
        self.enabled[i]
    }

    /// The label of sink `i`.
    pub fn label(&self, i: usize) -> (r: &str)
        requires
            self.wf(),
            i < self@.sinks.len(),
        ensures
            r@ == self@.sinks[i as int].label,
    {
        self.sinks[i].label.as_str()
    }

    /// The destination of sink `i`.
    pub fn writer(&self, i: usize) -> (r: &W)
        requires
            self.wf(),
            i < self@.sinks.len(),
        ensures
            *r == self.destination(i as int),
    {
        &self.writers[i]
    }

    /// The diagnostic for a failure of sink `i` (a write, or a flush where
    /// `flushing` holds), with the warning word coloured where `colour` holds.
    pub fn notice(&self, i: usize, error: &str, flushing: bool, colour: bool) -> (r: String)
        requires
            self.wf(),
            i < self@.sinks.len(),
        ensures
            r@ == notice_text(self@.sinks[i as int].label, error@, flushing, colour),
    {
        failure_notice(self.sinks[i].label.as_str(), error, flushing, colour)
    }

    /// Emits a record, with `now` as the reading of the local clock (which the
    /// friendly mode does not print): it is rendered and written to each live
    /// sink that accepts its level, in order. A sink whose write fails is
    /// switched off for good; the others go on. No other sink's destination is
    /// touched. The report lists each write, with its line and its error.
    pub fn log(&mut self, record: &Record, now: &LocalTime) -> (report: Vec<Delivery>)
        requires
            old(self).wf(),
            now.valid(),
        ensures
            final(self).wf(),
            logged(*old(self), *final(self), record@, *now, report@),
    {
        proof {
            lemma_bucket(self@.sinks, record.level);
        }

        let level = record.level;
        let ghost old_v = self@;
        let ghost oe = old_v.enabled;
        let ghost b = bucket_of(old_v.sinks, level);
        let ghost n = old_v.sinks.len() as int;
        let mut report: Vec<Delivery> = Vec::new();
        let count = self.bucket(level).len();
        let mut k: usize = 0;
        while k < count
            invariant
                k <= count,
                count == b.len(),
                now.valid(),
                level == record.level,
                b == bucket_of(old_v.sinks, level),
                ascending_below(b, n),
                n == old_v.sinks.len(),
                oe == old_v.enabled,
                oe.len() == n,
                self@.sinks == old_v.sinks,
                self@.mode == old_v.mode,
                self.enabled@.len() == n,
                self.writers@.len() == n,
                stores_ids(self.bucket_field(level)@, b),
                self.error_writers == old(self).error_writers,
                self.warn_writers == old(self).warn_writers,
                self.info_writers == old(self).info_writers,
                self.debug_writers == old(self).debug_writers,
                self.trace_writers == old(self).trace_writers,
                self.sinks == old(self).sinks,
                forall|x: int|
                    0 <= x < n && !holds_id(live_ids(b.take(k as int), oe), x) ==> #[trigger] self.writers@[x]
                        == old(self).writers@[x],
                report@.len() == live_ids(b.take(k as int), oe).len(),
                forall|j: int|
                    0 <= j < report@.len() ==> (#[trigger] report@[j]).sink == live_ids(
                        b.take(k as int),
                        oe,
                    )[j] && report@[j].line@ == line_text(
                        record@,
                        old_v.mode,
                        old_v.sinks[report@[j].sink as int].colour,
                        *now,
                    ) + "\n"@,
                forall|i: int|
                    0 <= i < n ==> #[trigger] self.enabled@[i] == (oe[i] && !write_failed(
                        report@,
                        i,
                    )),
            decreases count - k,
        {
            let i = self.bucket(level)[k];
            let ghost tk = live_ids(b.take(k as int), oe);
            proof {
                    assert(b[k as int] == i as int);
                lemma_live(b.take(k as int), oe, n);
                lemma_not_before(b, k as int, n);
                lemma_live_step(b, oe, k as int);
                if write_failed(report@, i as int) {
                    let j = choose|j: int|
                        0 <= j < report@.len() && report@[j].sink == i && report@[j].error is Some;
                    assert(tk[j] == i);
                    assert(holds_id(tk, i as int));
                }
            }
            if self.enabled[i] {
                let mut line = render_line(record, self.debug, self.sinks[i].colour, now);
                line.append("\n");
                let result = self.writers[i].write_text(line.as_str());
                let d = match result {
                    Ok(()) => Delivery { sink: i, line, error: None },
                    Err(e) => {
                        self.enabled.set(i, false);
                        Delivery { sink: i, line, error: Some(e) }
                    },
                };
                proof {
                    lemma_push_delivery(report@, d);
                }
                report.push(d);
            }
            proof {
                lemma_holds_push(tk, i as int);
                let tk1 = live_ids(b.take(k + 1), oe);
                assert forall|x: int|
                    0 <= x < n && !holds_id(tk1, x) implies #[trigger] self.writers@[x]
                        == old(self).writers@[x] by {
                    assert(!holds_id(tk, x));
                }
            }
            k += 1;
        }
        proof {
            assert(b.take(count as int) =~= b);
            assert forall|l: Level|
                stores_ids(#[trigger] self.bucket_field(l)@, bucket_of(self@.sinks, l)) by {
                match l {
                    Level::Error => {},
                    Level::Warn => {},
                    Level::Info => {},
                    Level::Debug => {},
                    Level::Trace => {},
                }
                assert(self.bucket_field(l) == old(self).bucket_field(l));
            }
        }
        report
    }

    /// Whether this logger's lines carry a timestamp, so that a caller of
    /// `log` reads the clock: only the friendly mode prints none.
    pub fn needs_clock(&self) -> (r: bool)
        ensures
            r == (self@.mode != DebugMode::HumanFriendly),
    {
        match self.debug {
            DebugMode::HumanFriendly => false,
            _ => true,
        }
    }

    /// Flushes each live sink once, in order, however many buckets it is in. A
    /// sink whose flush fails is switched off for good; the others go on.
    pub fn flush(&mut self) -> (report: Vec<Attempt>)
        requires
            old(self).wf(),
        ensures
            final(self).wf(),
            flushed_all(*old(self), *final(self), report@),
    {
        let ghost old_v = self@;
        let ghost oe = old_v.enabled;
        let ghost n = old_v.sinks.len() as int;
        let ghost ids = all_ids(old_v.sinks.len());
        let count = self.writers.len();
        let mut report: Vec<Attempt> = Vec::new();
        let mut i: usize = 0;
        while i < count
            invariant
                i <= count,
                count == n,
                ids == all_ids(old_v.sinks.len()),
                ascending_below(ids, n),
                n == old_v.sinks.len(),
                oe == old_v.enabled,
                oe.len() == n,
                self@.sinks == old_v.sinks,
                self@.mode == old_v.mode,
                self.enabled@.len() == n,
                self.writers@.len() == n,
                self.error_writers == old(self).error_writers,
                self.warn_writers == old(self).warn_writers,
                self.info_writers == old(self).info_writers,
                self.debug_writers == old(self).debug_writers,
                self.trace_writers == old(self).trace_writers,
                self.sinks == old(self).sinks,
                forall|x: int|
                    0 <= x < n && !holds_id(live_ids(ids.take(i as int), oe), x) ==> #[trigger] self.writers@[x]
                        == old(self).writers@[x],
                report@.len() == live_ids(ids.take(i as int), oe).len(),
                forall|j: int|
                    0 <= j < report@.len() ==> (#[trigger] report@[j]).sink == live_ids(
                        ids.take(i as int),
                        oe,
                    )[j],
                forall|x: int|
                    0 <= x < n ==> #[trigger] self.enabled@[x] == (oe[x] && !flush_failed(
                        report@,
                        x,
                    )),
            decreases count - i,
        {
            let ghost tk = live_ids(ids.take(i as int), oe);
            proof {
                assert(ids[i as int] == i as int);
                lemma_live(ids.take(i as int), oe, n);
                lemma_not_before(ids, i as int, n);
                lemma_live_step(ids, oe, i as int);
                if flush_failed(report@, i as int) {
                    let j = choose|j: int|
                        0 <= j < report@.len() && report@[j].sink == i && report@[j].error is Some;
                    assert(tk[j] == i);
                    assert(holds_id(tk, i as int));
                }
            }
            if self.enabled[i] {
                let result = self.writers[i].flush();
                let a = match result {
                    Ok(()) => Attempt { sink: i, error: None },
                    Err(e) => {
                        self.enabled.set(i, false);
                        Attempt { sink: i, error: Some(e) }
                    },
                };
                proof {
                    lemma_push_attempt(report@, a);
                }
                report.push(a);
            }
            proof {
                lemma_holds_push(tk, i as int);
                let tk1 = live_ids(ids.take(i + 1), oe);
                assert forall|x: int|
                    0 <= x < n && !holds_id(tk1, x) implies #[trigger] self.writers@[x]
                        == old(self).writers@[x] by {
                    assert(!holds_id(tk, x));
                }
            }
            i += 1;
        }
        proof {
            assert(ids.take(count as int) =~= ids);
            assert forall|l: Level|
                stores_ids(#[trigger] self.bucket_field(l)@, bucket_of(self@.sinks, l)) by {
                match l {
                    Level::Error => {},
                    Level::Warn => {},
                    Level::Info => {},
                    Level::Debug => {},
                    Level::Trace => {},
                }
                assert(self.bucket_field(l) == old(self).bucket_field(l));
            }
        }
        report
    }
}

} // verus!
