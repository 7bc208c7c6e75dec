//! A log-record router and formatter with a terse, user-friendly mode and
//! two more detailed developer modes.
//!
//! Records are dispatched to every live sink whose accepted levels hold the
//! record's level, rendered according to the logger's mode and the sink's
//! colour setting. A sink whose destination fails is switched off for good,
//! and the failure is reported once.

mod clock;
mod laws;
mod level;
mod logger;
mod paint;
mod render;

pub use clock::{rfc3339_stamp, second_stamp, LocalTime, EARLIEST_SECS, LATEST_SECS};
pub use laws::{
    law_emit_reaches_exactly_live_accepting, law_failed_flush_switches_off,
    law_failed_write_switches_off, law_failure_reported_once, law_flush_reaches_each_live_sink_once,
    law_friendly_line, law_inert_sink_never_written, law_level_dead_when_accepting_sinks_off,
    law_level_dies_when_every_write_fails, law_off_sink_skipped_by_emit,
    law_off_sink_skipped_by_flush, law_render_deterministic,
};
pub use level::{colour_of, mode_of_count, threshold_of, ColourChoice, DebugMode, Level};
pub use logger::{
    all_ids, ascending_below, bucket_of, emit_targets, emitted, flush_failed, flush_targets,
    flushed, flushed_to, holds_id, lemma_bucket, lemma_live, level_live, live_ids, stores_ids, keeps_others, logged, flushed_all,
    write_failed, written_to, Attempt, Delivery, HumanLogger, LogWriter, LoggerView, SinkView,
    Writable,
};
pub use paint::{painted, styled};
pub use render::{
    decimal, digit_text, failure_notice, level_style, level_word, line_text, location_note,
    module_note, notice_text, render_line, text_of, Record, RecordView,
};
