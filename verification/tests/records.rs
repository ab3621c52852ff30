use serde_json::Value;
use time::OffsetDateTime;
use tracing_bunyan_formatter::json::{frame_entry, frame_object};
use tracing_bunyan_formatter::message::{
    event_plain_text, format_event_message, format_span_context, format_span_id, prefix_message,
    span_context,
};
use tracing_bunyan_formatter::metadata::to_bunyan_level;
use tracing_bunyan_formatter::record::{encode_field, encode_field_value};
use tracing_bunyan_formatter::skip::is_required_field;
use tracing_bunyan_formatter::text::{decimal_string, str_eq};
use tracing_bunyan_formatter::timer::elapsed_between;
use tracing_bunyan_formatter::{
    BunyanFormattingLayer, Event, Field, FieldStore, FieldValue, FormatError, Level, Metadata,
    Record, Span, SpanTimer, Type,
};

fn moment(seconds: i64) -> OffsetDateTime {
    OffsetDateTime::from_unix_timestamp(seconds).unwrap()
}

fn moment_nanos(nanos: i128) -> OffsetDateTime {
    OffsetDateTime::from_unix_timestamp_nanos(nanos).unwrap()
}

fn store_of(fields: &[(&str, Value)]) -> FieldStore {
    let mut store = FieldStore::new();
    for (key, value) in fields {
        store.insert(key.to_string(), value.clone());
    }
    store
}

fn layer_with(default_fields: &[(&str, Value)]) -> BunyanFormattingLayer {
    BunyanFormattingLayer::with_identity(
        "test".to_string(),
        7,
        "host".to_string(),
        store_of(default_fields),
    )
}

fn plain_metadata(name: &str, level: Level) -> Metadata {
    Metadata {
        name: name.to_string(),
        level,
        target: "app".to_string(),
        file: None,
        line: None,
    }
}

fn span_of(id: u64, parent_id: Option<u64>, name: &str, fields: &[(&str, Value)]) -> Span {
    Span {
        id,
        parent_id,
        metadata: plain_metadata(name, Level::Debug),
        fields: store_of(fields),
    }
}

fn event_of(fields: &[(&str, Value)]) -> Event {
    Event {
        metadata: plain_metadata("event", Level::Info),
        fields: store_of(fields),
    }
}

fn line_of(record: Option<Vec<u8>>) -> String {
    String::from_utf8(record.expect("a record")).unwrap()
}

fn parsed(record: Option<Vec<u8>>) -> Value {
    serde_json::from_str(&line_of(record)).unwrap()
}

fn occurrences(text: &str, part: &str) -> usize {
    text.matches(part).count()
}

#[test]
fn an_event_record_is_one_exact_line() {
    let layer = layer_with(&[("custom_field", Value::from("custom_value"))]);
    let event = Event {
        metadata: Metadata {
            name: "event".to_string(),
            level: Level::Info,
            target: "app".to_string(),
            file: Some("src/main.rs".to_string()),
            line: Some(12),
        },
        fields: store_of(&[("message", Value::from("hello")), ("n", Value::from(5))]),
    };
    let line = line_of(layer.on_event_at(&event, None, moment(1_600_000_000)));
    assert_eq!(
        line,
        "{\"v\":0,\"name\":\"test\",\"msg\":\"hello\",\"level\":30,\"hostname\":\"host\",\
         \"pid\":7,\"time\":\"2020-09-13T12:26:40Z\",\"target\":\"app\",\"line\":12,\
         \"file\":\"src/main.rs\",\"custom_field\":\"custom_value\",\"n\":5}\n"
    );
}

#[test]
fn a_span_is_written_at_its_start_and_at_its_exit() {
    let layer = layer_with(&[]);
    let mut timer = SpanTimer::new();
    let span = span_of(1, None, "shaving_yaks", &[("a", Value::from(2))]);

    let start = line_of(layer.on_new_span_at(&mut timer, &span, moment(1_600_000_000)));
    assert_eq!(
        start,
        "{\"v\":0,\"name\":\"test\",\"msg\":\"[SHAVING_YAKS - START]\",\"level\":20,\
         \"hostname\":\"host\",\"pid\":7,\"time\":\"2020-09-13T12:26:40Z\",\"target\":\"app\",\
         \"line\":null,\"file\":null,\"a\":2}\n"
    );

    let end = line_of(layer.on_close_at(
        &mut timer,
        &span,
        moment_nanos(1_600_000_001_500_000_000),
    ));
    assert_eq!(
        end,
        "{\"v\":0,\"name\":\"test\",\"msg\":\"[SHAVING_YAKS - END]\",\"level\":20,\
         \"hostname\":\"host\",\"pid\":7,\"time\":\"2020-09-13T12:26:41.5Z\",\"target\":\"app\",\
         \"line\":null,\"file\":null,\"a\":2,\"elapsed_milliseconds\":1500}\n"
    );
}

#[test]
fn a_span_that_was_never_noted_has_lived_zero_milliseconds() {
    let layer = layer_with(&[]);
    let mut timer = SpanTimer::new();
    let span = span_of(9, None, "lost", &[]);
    let record = parsed(layer.on_close_at(&mut timer, &span, moment(1_600_000_000)));
    assert_eq!(record.get("elapsed_milliseconds"), Some(&Value::from(0)));
}

#[test]
fn the_entry_of_a_span_is_spent_when_the_span_closes() {
    let layer = layer_with(&[]);
    let mut timer = SpanTimer::new();
    let span = span_of(3, None, "once", &[]);
    layer.on_new_span_at(&mut timer, &span, moment(100));
    let first = parsed(layer.on_close_at(&mut timer, &span, moment(102)));
    assert_eq!(first.get("elapsed_milliseconds"), Some(&Value::from(2000)));
    let second = parsed(layer.on_close_at(&mut timer, &span, moment(105)));
    assert_eq!(second.get("elapsed_milliseconds"), Some(&Value::from(0)));
}

#[test]
fn elapsed_time_is_in_whole_milliseconds_and_never_negative() {
    assert_eq!(elapsed_between(0, 0), 0);
    assert_eq!(elapsed_between(0, 999_999), 0);
    assert_eq!(elapsed_between(0, 1_000_000), 1);
    assert_eq!(elapsed_between(5, 2_500_005), 2);
    assert_eq!(elapsed_between(10, 3), 0);
    assert_eq!(elapsed_between(-2_000_000, 1_000_000), 3);
    assert_eq!(elapsed_between(i128::MIN, i128::MAX), u64::MAX);
    assert_eq!(elapsed_between(0, i128::MAX), u64::MAX);
    assert_eq!(
        elapsed_between(0, (u64::MAX as i128) * 1_000_000),
        u64::MAX
    );
    assert_eq!(
        elapsed_between(0, (u64::MAX as i128) * 1_000_000 - 1),
        u64::MAX - 1
    );
}

#[test]
fn the_timer_counts_from_the_latest_creation() {
    let mut timer = SpanTimer::new();
    timer.start(1, 0);
    timer.start(1, 4_000_000);
    timer.start(2, 1_000_000);
    assert_eq!(timer.finish(1, 10_000_000), 6);
    assert_eq!(timer.finish(2, 10_000_000), 9);
    assert_eq!(timer.finish(2, 10_000_000), 0);
}

#[test]
fn a_moment_without_rfc_3339_text_gives_no_record() {
    let layer = layer_with(&[]);
    let mut timer = SpanTimer::new();
    let span = span_of(1, None, "old", &[]);
    let event = event_of(&[("message", Value::from("hello"))]);
    // A year before the year zero cannot be written as RFC 3339.
    let ancient = moment(-62_200_000_000);
    assert!(ancient.year() < 0);
    assert!(layer.on_event_at(&event, None, ancient).is_none());
    assert!(layer.on_new_span_at(&mut timer, &span, ancient).is_none());
    // The creation is noted all the same.
    let end = parsed(layer.on_close_at(&mut timer, &span, moment(0)));
    assert_eq!(
        end.get("elapsed_milliseconds"),
        Some(&Value::from(62_200_000_000_000u64))
    );
    assert!(layer.on_close_at(&mut timer, &span, ancient).is_none());
}

#[test]
fn the_clock_gives_a_time_in_utc() {
    let layer = layer_with(&[]);
    let event = event_of(&[("message", Value::from("now"))]);
    let record = parsed(layer.on_event(&event, None));
    let time = record.get("time").unwrap().as_str().unwrap();
    let moment =
        OffsetDateTime::parse(time, &time::format_description::well_known::Rfc3339).unwrap();
    assert!(moment.offset().is_utc());
    assert!(moment.year() >= 2024);
}

#[test]
fn the_host_name_is_looked_up_once_and_written_as_a_string() {
    let layer = BunyanFormattingLayer::new("test".to_string(), 7);
    let event = event_of(&[("message", Value::from("here"))]);
    let first = parsed(layer.on_event_at(&event, None, moment(0)));
    let second = parsed(layer.on_event_at(&event, None, moment(1)));
    assert!(first.get("hostname").unwrap().is_string());
    assert_eq!(first.get("hostname"), second.get("hostname"));
    assert_eq!(first.get("pid"), Some(&Value::from(7)));
    assert_eq!(first.get("v"), Some(&Value::from(0)));
    assert_eq!(first.get("name"), Some(&Value::from("test")));
}

#[test]
fn levels_have_their_bunyan_numbers() {
    assert_eq!(to_bunyan_level(&Level::Trace), 10);
    assert_eq!(to_bunyan_level(&Level::Debug), 20);
    assert_eq!(to_bunyan_level(&Level::Info), 30);
    assert_eq!(to_bunyan_level(&Level::Warn), 40);
    assert_eq!(to_bunyan_level(&Level::Error), 50);
}

#[test]
fn record_types_have_their_tags() {
    assert_eq!(Type::EnterSpan.to_string(), "START");
    assert_eq!(Type::ExitSpan.to_string(), "END");
    assert_eq!(Type::Event.to_string(), "EVENT");
    assert_eq!(Type::ExitSpan.as_str(), "END");
}

#[test]
fn numbers_are_written_in_decimal() {
    assert_eq!(decimal_string(0), "0");
    assert_eq!(decimal_string(9), "9");
    assert_eq!(decimal_string(10), "10");
    assert_eq!(decimal_string(1500), "1500");
    assert_eq!(decimal_string(u64::MAX), "18446744073709551615");
}

#[test]
fn strings_are_compared_by_their_characters() {
    assert!(str_eq("", ""));
    assert!(str_eq("message", "message"));
    assert!(!str_eq("message", "messagE"));
    assert!(!str_eq("msg", "message"));
    assert!(str_eq("h\u{e9}llo", "h\u{e9}llo"));
    assert!(!str_eq("h\u{e9}llo", "hello"));
}

#[test]
fn span_ids_are_formatted_consistently() {
    assert_eq!(format_span_id(0), "span-0");
    assert_eq!(format_span_id(17), "span-17");
    assert_eq!(format_span_id(u64::MAX), "span-18446744073709551615");
    assert_ne!(format_span_id(1), format_span_id(10));
}

#[test]
fn the_span_context_has_the_name_in_capitals() {
    assert_eq!(
        format_span_context("an_interesting_span", Type::EnterSpan),
        "[AN_INTERESTING_SPAN - START]"
    );
    assert_eq!(format_span_context("inner shaving", Type::ExitSpan), "[INNER SHAVING - END]");
    assert_eq!(format_span_context("stra\u{df}e", Type::Event), "[STRASSE - EVENT]");
    assert_eq!(span_context("as given", Type::Event), "[as given - EVENT]");
}

#[test]
fn an_event_message_is_prefixed_with_the_current_span() {
    assert_eq!(prefix_message(None, "My event message"), "My event message");
    assert_eq!(
        prefix_message(Some("[AN_INTERESTING_SPAN - EVENT]"), "My event message"),
        "[AN_INTERESTING_SPAN - EVENT] My event message"
    );

    let span = span_of(1, None, "an_interesting_span", &[]);
    let event = event_of(&[("message", Value::from("My event message"))]);
    assert_eq!(
        format_event_message(Some(&span), &event, false),
        "[AN_INTERESTING_SPAN - EVENT] My event message"
    );
    assert_eq!(format_event_message(None, &event, false), "My event message");
    assert_eq!(format_event_message(Some(&span), &event, true), "My event message");
}

#[test]
fn an_event_without_a_message_string_speaks_with_its_target() {
    assert_eq!(event_plain_text(&event_of(&[])), "app");
    assert_eq!(event_plain_text(&event_of(&[("message", Value::from(3))])), "app");
    assert_eq!(event_plain_text(&event_of(&[("message", Value::Null)])), "app");
    assert_eq!(event_plain_text(&event_of(&[("message", Value::from("said"))])), "said");
    assert_eq!(event_plain_text(&event_of(&[("message", Value::from(""))])), "");

    let layer = layer_with(&[]);
    let event = event_of(&[("message", Value::from(3))]);
    let record = parsed(layer.on_event_at(&event, None, moment(0)));
    assert_eq!(record.get("msg"), Some(&Value::from("app")));
    assert!(record.get("message").is_none());
}

#[test]
fn the_span_type_takes_the_place_of_the_bracketed_message() {
    let layer = layer_with(&[]).serialize_span_type(true);
    let mut timer = SpanTimer::new();
    let span = span_of(1, None, "shaving_yaks", &[]);

    let start = parsed(layer.on_new_span_at(&mut timer, &span, moment(0)));
    assert_eq!(start.get("msg"), Some(&Value::from("shaving_yaks")));
    assert_eq!(start.get("span_type"), Some(&Value::from("START")));

    let event = event_of(&[("message", Value::from("inside"))]);
    let inside = parsed(layer.on_event_at(&event, Some(&span), moment(0)));
    assert_eq!(inside.get("msg"), Some(&Value::from("inside")));
    assert!(inside.get("span_type").is_none());

    let end = parsed(layer.on_close_at(&mut timer, &span, moment(0)));
    assert_eq!(end.get("msg"), Some(&Value::from("shaving_yaks")));
    assert_eq!(end.get("span_type"), Some(&Value::from("END")));
    assert!(end.get("elapsed_milliseconds").is_some());

    let plain = parsed(layer_with(&[]).on_new_span_at(&mut timer, &span, moment(0)));
    assert!(plain.get("span_type").is_none());
}

#[test]
fn span_ids_follow_the_span_tree() {
    let layer = layer_with(&[]).serialize_span_id(true);
    let mut timer = SpanTimer::new();
    let root = span_of(1, None, "root", &[]);
    let child = span_of(2, Some(1), "child", &[]);
    let event = event_of(&[("message", Value::from("here"))]);

    let outside = parsed(layer.on_event_at(&event, None, moment(0)));
    assert!(outside.get("span_id").is_none());
    assert!(outside.get("parent_span_id").is_none());

    let in_root = parsed(layer.on_event_at(&event, Some(&root), moment(0)));
    assert_eq!(in_root.get("span_id"), Some(&Value::from("span-1")));
    assert!(in_root.get("parent_span_id").is_none());

    let in_child = parsed(layer.on_event_at(&event, Some(&child), moment(0)));
    assert_eq!(in_child.get("span_id"), Some(&Value::from("span-2")));
    assert_eq!(in_child.get("parent_span_id"), in_root.get("span_id"));

    let start = line_of(layer.on_new_span_at(&mut timer, &child, moment(0)));
    assert!(start.contains("\"file\":null,\"parent_span_id\":\"span-1\",\"span_id\":\"span-2\""));

    let silent = parsed(layer_with(&[]).on_event_at(&event, Some(&child), moment(0)));
    assert!(silent.get("span_id").is_none());
    assert!(silent.get("parent_span_id").is_none());
}

#[test]
fn default_fields_cannot_take_the_place_of_core_fields() {
    let layer = layer_with(&[
        ("level", Value::from("loud")),
        ("msg", Value::from("mine")),
        ("v", Value::from(9)),
        ("kept", Value::from(true)),
    ]);
    let event = event_of(&[
        ("message", Value::from("hello")),
        ("pid", Value::from(1)),
        ("time", Value::from("never")),
    ]);
    let span = span_of(
        1,
        None,
        "s",
        &[("hostname", Value::from("other")), ("name", Value::from("other"))],
    );
    let line = line_of(layer.on_event_at(&event, Some(&span), moment(1_600_000_000)));
    assert_eq!(
        line,
        "{\"v\":0,\"name\":\"test\",\"msg\":\"[S - EVENT] hello\",\"level\":30,\
         \"hostname\":\"host\",\"pid\":7,\"time\":\"2020-09-13T12:26:40Z\",\"target\":\"app\",\
         \"line\":null,\"file\":null,\"kept\":true}\n"
    );
}

#[test]
fn the_name_message_is_set_aside_on_events_only() {
    let layer = layer_with(&[("message", Value::from("default"))]);
    let mut timer = SpanTimer::new();
    let span = span_of(1, None, "s", &[("message", Value::from("of the span"))]);
    let bare = span_of(2, None, "bare", &[]);

    let event = parsed(layer.on_event_at(&event_of(&[]), None, moment(0)));
    assert!(event.get("message").is_none());

    let inside = parsed(layer.on_event_at(&event_of(&[]), Some(&span), moment(0)));
    assert_eq!(inside.get("message"), Some(&Value::from("of the span")));

    let start = parsed(layer.on_new_span_at(&mut timer, &bare, moment(0)));
    assert_eq!(start.get("message"), Some(&Value::from("default")));
}

#[test]
fn a_later_source_gives_the_value_and_no_key_is_written_twice() {
    let layer = layer_with(&[
        ("target", Value::from("from the defaults")),
        ("shared", Value::from("default")),
        ("plain", Value::from("default")),
    ]);
    let mut timer = SpanTimer::new();
    let span = span_of(
        1,
        None,
        "s",
        &[
            ("shared", Value::from("span")),
            ("elapsed_milliseconds", Value::from("captured")),
        ],
    );
    let event = event_of(&[("message", Value::from("m")), ("shared", Value::from("event"))]);

    let line = line_of(layer.on_event_at(&event, Some(&span), moment(1_600_000_000)));
    assert_eq!(
        line,
        "{\"v\":0,\"name\":\"test\",\"msg\":\"[S - EVENT] m\",\"level\":30,\"hostname\":\"host\",\
         \"pid\":7,\"time\":\"2020-09-13T12:26:40Z\",\"target\":\"from the defaults\",\
         \"line\":null,\"file\":null,\"shared\":\"span\",\"plain\":\"default\",\
         \"elapsed_milliseconds\":\"captured\"}\n"
    );
    assert_eq!(occurrences(&line, "\"shared\":"), 1);
    assert_eq!(occurrences(&line, "\"target\":"), 1);

    layer.on_new_span_at(&mut timer, &span, moment(10));
    let end = line_of(layer.on_close_at(&mut timer, &span, moment(13)));
    assert_eq!(occurrences(&end, "\"elapsed_milliseconds\":"), 1);
    assert!(end.contains("\"elapsed_milliseconds\":3000"));
}

#[test]
fn skipped_fields_are_left_out_whatever_gives_them() {
    let layer = layer_with(&[("skipped", Value::from(1)), ("kept", Value::from(2))])
        .serialize_span_id(true)
        .serialize_span_type(true)
        .skip_fields(vec![
            "skipped".to_string(),
            "target".to_string(),
            "line".to_string(),
            "file".to_string(),
            "span_id".to_string(),
            "span_type".to_string(),
            "elapsed_milliseconds".to_string(),
            "skipped".to_string(),
        ])
        .unwrap();
    assert!(layer.skips("skipped"));
    assert!(layer.skips("file"));
    assert!(!layer.skips("kept"));
    assert!(!layer.skips("level"));

    let mut timer = SpanTimer::new();
    let span = span_of(2, Some(1), "s", &[("skipped", Value::from(3))]);
    let event = event_of(&[("message", Value::from("m")), ("skipped", Value::from(4))]);
    let start = line_of(layer.on_new_span_at(&mut timer, &span, moment(1_600_000_000)));
    assert_eq!(
        start,
        "{\"v\":0,\"name\":\"test\",\"msg\":\"s\",\"level\":20,\"hostname\":\"host\",\"pid\":7,\
         \"time\":\"2020-09-13T12:26:40Z\",\"parent_span_id\":\"span-1\",\"kept\":2}\n"
    );
    let end = line_of(layer.on_close_at(&mut timer, &span, moment(1_600_000_000)));
    assert_eq!(end, start);
    let inside = line_of(layer.on_event_at(&event, Some(&span), moment(1_600_000_000)));
    assert_eq!(
        inside,
        "{\"v\":0,\"name\":\"test\",\"msg\":\"m\",\"level\":30,\"hostname\":\"host\",\"pid\":7,\
         \"time\":\"2020-09-13T12:26:40Z\",\"parent_span_id\":\"span-1\",\"kept\":2}\n"
    );
}

#[test]
fn every_core_field_is_refused_as_a_skipped_field() {
    for name in ["v", "level", "name", "hostname", "pid", "time", "msg"] {
        assert!(is_required_field(name));
        let result = layer_with(&[]).skip_fields(vec!["target".to_string(), name.to_string()]);
        match result {
            Err(err) => assert_eq!(
                err.to_string(),
                format!(
                    "{} is a core field in the bunyan log format, it can't be skipped",
                    name
                )
            ),
            Ok(_) => panic!("skipping core fields shouldn't work"),
        }
    }
    for name in ["target", "line", "file", "message", "span_id", "Level", "", "vv"] {
        assert!(!is_required_field(name));
        assert!(layer_with(&[]).skip_fields(vec![name.to_string()]).is_ok());
    }
}

#[test]
fn the_error_names_the_first_core_field_of_the_list() {
    let result = layer_with(&[]).skip_fields(vec![
        "line".to_string(),
        "pid".to_string(),
        "level".to_string(),
    ]);
    match result {
        Err(err) => assert_eq!(
            err.to_string(),
            "pid is a core field in the bunyan log format, it can't be skipped"
        ),
        Ok(_) => panic!("skipping core fields shouldn't work"),
    }
}

#[test]
fn skipping_nothing_changes_nothing() {
    let layer = layer_with(&[]).skip_fields(Vec::new()).unwrap();
    assert!(!layer.skips("target"));
    let layer = layer.skip_fields(vec!["target".to_string()]).unwrap();
    let layer = layer.skip_fields(vec!["line".to_string()]).unwrap();
    assert!(layer.skips("target"));
    assert!(layer.skips("line"));
    assert!(!layer.skips("file"));
}

#[test]
fn span_fields_reach_events_unless_switched_off() {
    let span = span_of(1, None, "s", &[("a", Value::from(2))]);
    let event = event_of(&[("message", Value::from("m"))]);

    let with = parsed(layer_with(&[]).on_event_at(&event, Some(&span), moment(0)));
    assert_eq!(with.get("a"), Some(&Value::from(2)));

    let without = parsed(
        layer_with(&[])
            .serialize_span_fields(false)
            .on_event_at(&event, Some(&span), moment(0)),
    );
    assert!(without.get("a").is_none());

    let mut timer = SpanTimer::new();
    let start = parsed(
        layer_with(&[])
            .serialize_span_fields(false)
            .on_new_span_at(&mut timer, &span, moment(0)),
    );
    assert_eq!(start.get("a"), Some(&Value::from(2)));
}

#[test]
fn a_child_store_starts_from_the_fields_of_its_parent() {
    let parent = store_of(&[("a", Value::from(2)), ("b", Value::from("kept"))]);
    let mut child = parent.duplicate();
    child.insert("b".to_string(), Value::from(3));
    child.insert("c".to_string(), Value::from(true));

    assert_eq!(parent.len(), 2);
    assert_eq!(parent.get("b"), Some(&Value::from("kept")));
    assert_eq!(child.len(), 3);
    assert_eq!(child.key_at(0), "a");
    assert_eq!(child.key_at(1), "b");
    assert_eq!(child.key_at(2), "c");
    assert_eq!(child.value_at(0), &Value::from(2));
    assert_eq!(child.value_at(1), &Value::from(3));
    assert_eq!(child.get("c"), Some(&Value::from(true)));
    assert_eq!(child.get("d"), None);

    let span = Span {
        id: 2,
        parent_id: Some(1),
        metadata: plain_metadata("child", Level::Debug),
        fields: child,
    };
    let event = event_of(&[("message", Value::from("m"))]);
    let record = parsed(layer_with(&[]).on_event_at(&event, Some(&span), moment(0)));
    assert_eq!(record.get("a"), Some(&Value::from(2)));
    assert_eq!(record.get("b"), Some(&Value::from(3)));
}

#[test]
fn a_store_holds_each_name_once() {
    let mut store = FieldStore::new();
    assert_eq!(store.len(), 0);
    assert_eq!(store.get("a"), None);
    store.insert("a".to_string(), Value::from(1));
    store.insert("b".to_string(), Value::from(2));
    store.insert("a".to_string(), Value::from(3));
    assert_eq!(store.len(), 2);
    assert_eq!(store.key_at(0), "a");
    assert_eq!(store.value_at(0), &Value::from(3));
    assert_eq!(store.key_at(1), "b");
    assert_eq!(store.get("a"), Some(&Value::from(3)));
}

#[test]
fn a_record_is_an_ordered_mapping() {
    let number = Value::from(0.5);
    let mut record = Record::new();
    assert_eq!(record.len(), 0);
    assert_eq!(record.to_line().unwrap(), "{}\n");

    record.insert("a".to_string(), FieldValue::Unsigned(1));
    record.insert("b".to_string(), FieldValue::Null);
    record.insert("c".to_string(), FieldValue::Json(&number));
    record.insert("a".to_string(), FieldValue::Text("again".to_string()));
    assert_eq!(record.len(), 3);
    assert_eq!(record.key_at(0), "a");
    assert_eq!(record.key_at(2), "c");
    assert!(matches!(record.value_at(1), FieldValue::Null));
    assert!(matches!(record.get("a"), Some(FieldValue::Text(text)) if text == "again"));
    assert!(matches!(record.get("c"), Some(FieldValue::Json(value)) if **value == number));
    assert!(record.get("d").is_none());
    assert_eq!(record.to_line().unwrap(), "{\"a\":\"again\",\"b\":null,\"c\":0.5}\n");
}

#[test]
fn keys_and_strings_are_written_as_json_string_literals() {
    let mut record = Record::new();
    record.insert(
        "a \"quoted\" key".to_string(),
        FieldValue::Text("line\nbreak \\ and \u{1} and \u{e9}".to_string()),
    );
    let line = record.to_line().unwrap();
    assert_eq!(
        line,
        "{\"a \\\"quoted\\\" key\":\"line\\nbreak \\\\ and \\u0001 and \u{e9}\"}\n"
    );
    let back: Value = serde_json::from_str(&line).unwrap();
    assert_eq!(
        back.get("a \"quoted\" key"),
        Some(&Value::from("line\nbreak \\ and \u{1} and \u{e9}"))
    );
}

#[test]
fn field_values_have_their_json_text() {
    let list = Value::Array(vec![Value::from(1), Value::Null, Value::from("x")]);
    let text = |value: &FieldValue| -> String {
        match encode_field_value(value) {
            Ok(text) => text,
            Err(FormatError::Json(e)) => panic!("no text: {}", e),
        }
    };
    assert_eq!(text(&FieldValue::Null), "null");
    assert_eq!(text(&FieldValue::Unsigned(0)), "0");
    assert_eq!(text(&FieldValue::Unsigned(u64::MAX)), "18446744073709551615");
    assert_eq!(text(&FieldValue::Text("a\"b".to_string())), "\"a\\\"b\"");
    assert_eq!(text(&FieldValue::Json(&list)), "[1,null,\"x\"]");
    assert_eq!(text(&FieldValue::Json(&Value::from(-3))), "-3");
    assert_eq!(text(&FieldValue::Json(&Value::from(true))), "true");

    let field = Field {
        key: "k".to_string(),
        value: FieldValue::Json(&list),
    };
    assert_eq!(encode_field(&field).unwrap(), "\"k\":[1,null,\"x\"]");
}

#[test]
fn entries_are_framed_into_one_object() {
    assert_eq!(frame_entry("\"k\"", "1"), "\"k\":1");
    assert_eq!(frame_object(&Vec::new()), "{}");
    assert_eq!(frame_object(&vec!["\"a\":1".to_string()]), "{\"a\":1}");
    assert_eq!(
        frame_object(&vec!["\"a\":1".to_string(), "\"b\":null".to_string(), String::new()]),
        "{\"a\":1,\"b\":null,}"
    );
}

#[test]
fn the_records_of_one_run_tell_the_whole_story() {
    let layer = layer_with(&[])
        .skip_fields(vec!["skipped".to_string()])
        .unwrap();
    let mut timer = SpanTimer::new();
    let mut lines: Vec<Value> = Vec::new();

    let outer = span_of(1, None, "shaving_yaks", &[("a", Value::from(2))]);
    lines.push(parsed(layer.on_new_span(&mut timer, &outer)));
    let first = event_of(&[("message", Value::from("pre-shaving yaks"))]);
    lines.push(parsed(layer.on_event(&first, Some(&outer))));

    let mut inner_fields = outer.fields.duplicate();
    inner_fields.insert("b".to_string(), Value::from(3));
    inner_fields.insert("skipped".to_string(), Value::from(false));
    let inner = Span {
        id: 2,
        parent_id: Some(1),
        metadata: plain_metadata("inner shaving", Level::Debug),
        fields: inner_fields,
    };
    lines.push(parsed(layer.on_new_span(&mut timer, &inner)));
    let second = event_of(&[("message", Value::from("shaving yaks"))]);
    lines.push(parsed(layer.on_event(&second, Some(&inner))));
    lines.push(parsed(layer.on_close(&mut timer, &inner)));
    lines.push(parsed(layer.on_close(&mut timer, &outer)));

    let message = |line: &Value| line.get("msg").and_then(Value::as_str).unwrap().to_string();
    assert_eq!(message(&lines[0]), "[SHAVING_YAKS - START]");
    assert_eq!(message(&lines[1]), "[SHAVING_YAKS - EVENT] pre-shaving yaks");
    assert_eq!(message(&lines[2]), "[INNER SHAVING - START]");
    assert_eq!(lines[2].get("a"), Some(&Value::from(2)));
    assert!(message(&lines[3]).contains("shaving yaks"));
    assert_eq!(lines[3].get("a"), Some(&Value::from(2)));
    assert_eq!(lines[3].get("b"), Some(&Value::from(3)));
    assert_eq!(message(&lines[4]), "[INNER SHAVING - END]");
    assert_eq!(message(&lines[5]), "[SHAVING_YAKS - END]");
    for line in &lines[4..] {
        assert!(message(line).ends_with("END]"));
        assert!(line.get("elapsed_milliseconds").unwrap().is_u64());
    }
    for line in &lines {
        assert!(line.get("skipped").is_none());
        let level = line.get("level").and_then(Value::as_u64).unwrap();
        assert!([10, 20, 30, 40, 50].contains(&level));
        assert_eq!(line.get("name"), Some(&Value::from("test")));
    }
}

#[test]
fn the_fields_of_an_ancestor_reach_events_at_any_depth() {
    let root = store_of(&[("of_the_root", Value::from(1)), ("shared", Value::from("root"))]);
    let mut child = root.duplicate();
    child.insert("of_the_child".to_string(), Value::from(2));
    child.insert("shared".to_string(), Value::from("child"));
    let mut grandchild = child.duplicate();
    grandchild.insert("of_the_grandchild".to_string(), Value::from(3));

    let span = Span {
        id: 3,
        parent_id: Some(2),
        metadata: plain_metadata("grandchild", Level::Debug),
        fields: grandchild,
    };
    let event = event_of(&[("message", Value::from("deep"))]);
    let record = parsed(layer_with(&[]).on_event_at(&event, Some(&span), moment(0)));
    assert_eq!(record.get("of_the_root"), Some(&Value::from(1)));
    assert_eq!(record.get("of_the_child"), Some(&Value::from(2)));
    assert_eq!(record.get("of_the_grandchild"), Some(&Value::from(3)));
    assert_eq!(record.get("shared"), Some(&Value::from("child")));
}
