//! The three notifications of the instrumentation framework: a span was
//! created, a span was closed, an event happened. Each ends in at most one
//! complete record, handed back as one buffer for one write.

use crate::clock::{format_rfc3339, now_utc, rfc3339_text, unix_nanos, unix_timestamp_nanos};
use crate::layer::{owned, BunyanFormattingLayer};
use crate::metadata::{Event, Span, Type};
use crate::schema::{event_bytes, span_bytes, Settings};
use crate::timer::{elapsed_millis, SpanTimer};
use vstd::prelude::*;

verus! {

/// What a buffer holds, where there is one.
pub open spec fn bytes_of(buffer: Option<Vec<u8>>) -> Option<Seq<u8>> {
    match buffer {
        Some(b) => Some(b@),
        None => None,
    }
}

/// The milliseconds that a span has lived at `now`: counted from its
/// creation where the timer knows it, and zero otherwise.
pub open spec fn lifetime(timer: Map<u64, i128>, id: u64, now: i128) -> u64 {
    if timer.contains_key(id) {
        elapsed_millis(timer[id], now)
    } else {
        0
    }
}

/// What the creation of a span at the moment `now` leaves: the timer with
/// the span's creation noted, and the record of the span's start. There is
/// no record where the moment has no RFC 3339 text or `serde_json` fails.
pub open spec fn span_created(
    cfg: Settings,
    timer: Map<u64, i128>,
    span: Span,
    now: time::OffsetDateTime,
) -> (Map<u64, i128>, Option<Seq<u8>>) {
    (
        timer.insert(span.id, unix_nanos(now)),
        match rfc3339_text(now) {
            Some(time) => span_bytes(cfg, span, Type::EnterSpan, time, 0),
            None => None,
        },
    )
}

/// What the closing of a span at the moment `now` leaves: the timer without
/// the span, and the record of the span's exit with the time it has lived.
/// There is no record where the moment has no RFC 3339 text or `serde_json`
/// fails.
pub open spec fn span_closed(
    cfg: Settings,
    timer: Map<u64, i128>,
    span: Span,
    now: time::OffsetDateTime,
) -> (Map<u64, i128>, Option<Seq<u8>>) {
    (
        timer.remove(span.id),
        match rfc3339_text(now) {
            Some(time) => span_bytes(
                cfg,
                span,
                Type::ExitSpan,
                time,
                lifetime(timer, span.id, unix_nanos(now)),
            ),
            None => None,
        },
    )
}

/// The record of an event that happens at the moment `now`. There is no
/// record where the moment has no RFC 3339 text or `serde_json` fails.
pub open spec fn event_happened(
    cfg: Settings,
    event: Event,
    current_span: Option<Span>,
    now: time::OffsetDateTime,
) -> Option<Seq<u8>> {
    match rfc3339_text(now) {
        Some(time) => event_bytes(cfg, event, current_span, time),
        None => None,
    }
}

impl BunyanFormattingLayer {
    /// Handles the creation of a span at a given moment: notes the moment in
    /// the timer and returns the record of the span's start, or nothing
    /// where the record cannot be written.
    pub fn on_new_span_at(
        &self,
        timer: &mut SpanTimer,
        span: &Span,
        now: time::OffsetDateTime,
    ) -> (r: Option<Vec<u8>>)
        ensures
            (final(timer)@, bytes_of(r)) == span_created(self@, old(timer)@, *span, now),
    {
        timer.start(span.id, unix_timestamp_nanos(now));
        match format_rfc3339(now) {
            Ok(time) => match self.serialize_span(span, Type::EnterSpan, time.as_str(), 0) {
                Ok(buffer) => Some(buffer),
                Err(_) => None,
            },
            Err(_) => None,
        }
    }

    /// Handles the closing of a span at a given moment: takes the span out
    /// of the timer and returns the record of the span's exit, with the
    /// milliseconds since its creation, or nothing where the record cannot
    /// be written.
    pub fn on_close_at(
        &self,
        timer: &mut SpanTimer,
        span: &Span,
        now: time::OffsetDateTime,
    ) -> (r: Option<Vec<u8>>)
        ensures
            (final(timer)@, bytes_of(r)) == span_closed(self@, old(timer)@, *span, now),
    {
        let elapsed = timer.finish(span.id, unix_timestamp_nanos(now));
        match format_rfc3339(now) {
            Ok(time) => match self.serialize_span(span, Type::ExitSpan, time.as_str(), elapsed) {
                Ok(buffer) => Some(buffer),
                Err(_) => None,
            },
            Err(_) => None,
        }
    }

    /// Handles an event at a given moment: returns the record of the event,
    /// or nothing where the record cannot be written.
    pub fn on_event_at(
        &self,
        event: &Event,
        current_span: Option<&Span>,
        now: time::OffsetDateTime,
    ) -> (r: Option<Vec<u8>>)
        ensures
            bytes_of(r) == event_happened(self@, *event, owned(current_span), now),
    {
        match format_rfc3339(now) {
            Ok(time) => match self.serialize_event(event, current_span, time.as_str()) {
                Ok(buffer) => Some(buffer),
                Err(_) => None,
            },
            Err(_) => None,
        }
    }

    /// Handles the creation of a span now. Whatever the clock says, the
    /// outcome is that of `on_new_span_at` for some moment.
    pub fn on_new_span(&self, timer: &mut SpanTimer, span: &Span) -> (r: Option<Vec<u8>>)
        ensures
            exists|now: time::OffsetDateTime|
                (final(timer)@, bytes_of(r)) == #[trigger] span_created(
                    self@,
                    old(timer)@,
                    *span,
                    now,
                ),
    {
        let now = now_utc();
        self.on_new_span_at(timer, span, now)
    }

    /// Handles the closing of a span now. Whatever the clock says, the
    /// outcome is that of `on_close_at` for some moment.
    pub fn on_close(&self, timer: &mut SpanTimer, span: &Span) -> (r: Option<Vec<u8>>)
        ensures
            exists|now: time::OffsetDateTime|
                (final(timer)@, bytes_of(r)) == #[trigger] span_closed(
                    self@,
                    old(timer)@,
                    *span,
                    now,
                ),
    {
        let now = now_utc();
        self.on_close_at(timer, span, now)
    }

    /// Handles an event now. Whatever the clock says, the outcome is that of
    /// `on_event_at` for some moment.
    pub fn on_event(&self, event: &Event, current_span: Option<&Span>) -> (r: Option<Vec<u8>>)
        ensures
            exists|now: time::OffsetDateTime|
                bytes_of(r) == #[trigger] event_happened(self@, *event, owned(current_span), now),
    {
        let now = now_utc();
        self.on_event_at(event, current_span, now)
    }
}

} // verus!
