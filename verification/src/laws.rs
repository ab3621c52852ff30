//! What holds of every record that the layer writes.

use crate::fields::{descended, lemma_descended_keeps_keys};
use crate::message::span_id_text;
use crate::metadata::{bunyan_level, Event, Level, Metadata, Span, Type};
use crate::record::{
    distinct_keys, has_key, last_value, lemma_has_key_concat, lemma_last_value,
    lemma_last_value_concat, lemma_lookup, lemma_merge, lemma_merge_lookup, lookup, merge,
    FieldModel, ValueModel,
};
use crate::schema::{
    allowed, allowed_fields, core_fields, elapsed_fields, event_candidates, event_record_fields,
    field, file_value, inherited_fields, kept, lemma_core_fields, line_value, source_fields,
    span_candidates, span_id_fields, span_record_fields, span_type_fields, Settings,
};
use crate::skip::{is_reserved, BUNYAN_VERSION, HOSTNAME, LEVEL, MESSAGE, NAME, PID, TIME};
use crate::text::{decimal, lemma_decimal_injective};
use vstd::prelude::*;

verus! {

/// A field that the formatter supplies is there under its key alone, and
/// only unless the key is skipped.
pub proof fn lemma_kept(skip: Set<Seq<char>>, key: Seq<char>, value: ValueModel)
    ensures
        forall|k: Seq<char>|
            #![trigger has_key(kept(skip, key, value), k)]
            has_key(kept(skip, key, value), k) <==> (k == key && !skip.contains(key)),
        forall|k: Seq<char>|
            #![trigger last_value(kept(skip, key, value), k)]
            last_value(kept(skip, key, value), k) == if k == key && !skip.contains(key) {
                Some(value)
            } else {
                None
            },
{
    let fields = kept(skip, key, value);
    if !skip.contains(key) {
        assert(fields[0].key == key);
        assert(fields.drop_last() =~= Seq::<FieldModel>::empty());
    }
    assert forall|k: Seq<char>|
        last_value(fields, k) == if k == key && !skip.contains(key) {
            Some(value)
        } else {
            None
        } by {
        if !skip.contains(key) {
            assert(last_value(fields.drop_last(), k) is None);
        }
    }
}

/// Of a store, exactly the fields with an allowed key are written, each with
/// the value that the store gives it last.
pub proof fn lemma_allowed_fields(skip: Set<Seq<char>>, fields: Seq<FieldModel>, drop_message: bool)
    ensures
        forall|k: Seq<char>|
            #![trigger has_key(allowed_fields(skip, fields, drop_message), k)]
            has_key(allowed_fields(skip, fields, drop_message), k) <==> (has_key(fields, k)
                && allowed(skip, k, drop_message)),
        forall|k: Seq<char>|
            #![trigger last_value(allowed_fields(skip, fields, drop_message), k)]
            last_value(allowed_fields(skip, fields, drop_message), k) == if allowed(
                skip,
                k,
                drop_message,
            ) {
                last_value(fields, k)
            } else {
                None
            },
    decreases fields.len(),
{
    let out = allowed_fields(skip, fields, drop_message);
    if fields.len() != 0 {
        let front = fields.drop_last();
        let last = fields.last();
        let rest = allowed_fields(skip, front, drop_message);
        lemma_allowed_fields(skip, front, drop_message);
        assert forall|k: Seq<char>|
            has_key(out, k) <==> (has_key(fields, k) && allowed(skip, k, drop_message)) by {
            assert(fields =~= front + seq![last]);
            lemma_has_key_concat(front, seq![last], k);
            assert(seq![last][0] == last);
            if allowed(skip, last.key, drop_message) {
                assert(out =~= rest + seq![last]);
                lemma_has_key_concat(rest, seq![last], k);
            }
        }
        assert forall|k: Seq<char>|
            last_value(out, k) == if allowed(skip, k, drop_message) {
                last_value(fields, k)
            } else {
                None
            } by {
            if allowed(skip, last.key, drop_message) {
                assert(out.drop_last() =~= rest);
                assert(out.last() == last);
            }
        }
    } else {
        assert forall|k: Seq<char>| !has_key(fields, k) by {}
    }
}

/// The names of the fields that the formatter supplies besides the core
/// fields are no names of core fields, and differ from each other.
pub proof fn lemma_supplied_names()
    ensures
        !is_reserved("target"@),
        !is_reserved("line"@),
        !is_reserved("file"@),
        !is_reserved("span_type"@),
        !is_reserved("parent_span_id"@),
        !is_reserved("span_id"@),
        !is_reserved("elapsed_milliseconds"@),
        !is_reserved("message"@),
        "span_id"@ != "parent_span_id"@,
        "target"@ != "span_id"@ && "line"@ != "span_id"@ && "file"@ != "span_id"@,
        "target"@ != "parent_span_id"@ && "line"@ != "parent_span_id"@ && "file"@
            != "parent_span_id"@,
{
    reveal_strlit("v");
    reveal_strlit("level");
    reveal_strlit("name");
    reveal_strlit("hostname");
    reveal_strlit("pid");
    reveal_strlit("time");
    reveal_strlit("msg");
    reveal_strlit("target");
    reveal_strlit("line");
    reveal_strlit("file");
    reveal_strlit("span_type");
    reveal_strlit("parent_span_id");
    reveal_strlit("span_id");
    reveal_strlit("elapsed_milliseconds");
    reveal_strlit("message");
    assert(BUNYAN_VERSION@.len() == 1);
    assert(LEVEL@.len() == 5);
    assert(NAME@.len() == 4 && NAME@[0] == 'n');
    assert(HOSTNAME@.len() == 8);
    assert(PID@.len() == 3);
    assert(TIME@.len() == 4 && TIME@[0] == 't');
    assert(MESSAGE@.len() == 3);
    assert("target"@.len() == 6);
    assert("line"@.len() == 4 && "line"@[0] == 'l');
    assert("file"@.len() == 4 && "file"@[0] == 'f');
    assert("span_type"@.len() == 9);
    assert("parent_span_id"@.len() == 14);
    assert("span_id"@.len() == 7);
    assert("elapsed_milliseconds"@.len() == 20);
    assert("message"@.len() == 7);
}

/// A name of a field that the formatter supplies besides the core fields is
/// no name of a core field.
pub proof fn lemma_supplied_key(key: Seq<char>)
    requires
        key == "target"@ || key == "line"@ || key == "file"@ || key == "span_type"@ || key
            == "parent_span_id"@ || key == "span_id"@ || key == "elapsed_milliseconds"@ || key
            == "message"@,
    ensures
        !is_reserved(key),
{
    lemma_supplied_names();
    if key == "target"@ {
        assert(!is_reserved("target"@));
    } else if key == "line"@ {
        assert(!is_reserved("line"@));
    } else if key == "file"@ {
        assert(!is_reserved("file"@));
    } else if key == "span_type"@ {
        assert(!is_reserved("span_type"@));
    } else if key == "parent_span_id"@ {
        assert(!is_reserved("parent_span_id"@));
    } else if key == "span_id"@ {
        assert(!is_reserved("span_id"@));
    } else if key == "elapsed_milliseconds"@ {
        assert(!is_reserved("elapsed_milliseconds"@));
    } else {
        assert(!is_reserved("message"@));
    }
}

/// The keys of the source fields.
pub proof fn lemma_source_fields(skip: Set<Seq<char>>, metadata: Metadata)
    ensures
        forall|k: Seq<char>|
            #![trigger has_key(source_fields(skip, metadata), k)]
            has_key(source_fields(skip, metadata), k) <==> ((k == "target"@ || k == "line"@ || k
                == "file"@) && !skip.contains(k)),
{
    let a = kept(skip, "target"@, ValueModel::Text(metadata.target@));
    let b = kept(skip, "line"@, line_value(metadata.line));
    let c = kept(skip, "file"@, file_value(metadata.file));
    lemma_kept(skip, "target"@, ValueModel::Text(metadata.target@));
    lemma_kept(skip, "line"@, line_value(metadata.line));
    lemma_kept(skip, "file"@, file_value(metadata.file));
    assert forall|k: Seq<char>|
        has_key(source_fields(skip, metadata), k) <==> ((k == "target"@ || k == "line"@ || k
            == "file"@) && !skip.contains(k)) by {
        lemma_has_key_concat(a, b, k);
        lemma_has_key_concat(a + b, c, k);
    }
}

/// The keys and values of the span id fields.
pub proof fn lemma_span_id_fields(cfg: Settings, span: Option<Span>)
    ensures
        forall|k: Seq<char>|
            #![trigger has_key(span_id_fields(cfg, span), k)]
            has_key(span_id_fields(cfg, span), k) <==> (cfg.serialize_span_id && span is Some
                && !cfg.skip_fields.contains(k) && (k == "span_id"@ || (k == "parent_span_id"@
                && span->0.parent_id is Some))),
        forall|k: Seq<char>|
            #![trigger last_value(span_id_fields(cfg, span), k)]
            has_key(span_id_fields(cfg, span), k) ==> last_value(span_id_fields(cfg, span), k)
                == Some(
                ValueModel::Text(
                    span_id_text(
                        if k == "span_id"@ {
                            span->0.id
                        } else {
                            span->0.parent_id->0
                        },
                    ),
                ),
            ),
{
    lemma_supplied_names();
    if cfg.serialize_span_id && span is Some {
        let skip = cfg.skip_fields;
        let own = kept(skip, "span_id"@, ValueModel::Text(span_id_text(span->0.id)));
        lemma_kept(skip, "span_id"@, ValueModel::Text(span_id_text(span->0.id)));
        let up = match span->0.parent_id {
            Some(parent) => kept(skip, "parent_span_id"@, ValueModel::Text(span_id_text(parent))),
            None => Seq::empty(),
        };
        if span->0.parent_id is Some {
            lemma_kept(
                skip,
                "parent_span_id"@,
                ValueModel::Text(span_id_text(span->0.parent_id->0)),
            );
        }
        assert forall|k: Seq<char>|
            has_key(span_id_fields(cfg, span), k) <==> (!skip.contains(k) && (k == "span_id"@ || (k
                == "parent_span_id"@ && span->0.parent_id is Some))) by {
            lemma_has_key_concat(up, own, k);
        }
        assert forall|k: Seq<char>| has_key(span_id_fields(cfg, span), k) implies last_value(
            span_id_fields(cfg, span),
            k,
        ) == Some(
            ValueModel::Text(
                span_id_text(
                    if k == "span_id"@ {
                        span->0.id
                    } else {
                        span->0.parent_id->0
                    },
                ),
            ),
        ) by {
            lemma_last_value_concat(up, own, k);
            lemma_last_value(up, k);
            lemma_last_value(own, k);
        }
    } else {
        assert forall|k: Seq<char>| !has_key(span_id_fields(cfg, span), k) by {}
    }
}

/// Nothing that a span record holds besides the core fields bears the name
/// of a core field or a skipped name.
pub proof fn lemma_span_candidates(cfg: Settings, span: Span, ty: Type, elapsed: u64)
    ensures
        forall|k: Seq<char>|
            #![trigger has_key(span_candidates(cfg, span, ty, elapsed), k)]
            has_key(span_candidates(cfg, span, ty, elapsed), k) ==> !is_reserved(k)
                && !cfg.skip_fields.contains(k),
{
    let skip = cfg.skip_fields;
    let s = source_fields(skip, span.metadata);
    let t = span_type_fields(cfg, ty);
    let i = span_id_fields(cfg, Some(span));
    let d = allowed_fields(skip, cfg.default_fields, false);
    let f = allowed_fields(skip, span.fields@, false);
    let e = elapsed_fields(skip, ty, elapsed);
    lemma_supplied_names();
    lemma_source_fields(skip, span.metadata);
    lemma_kept(skip, "span_type"@, ValueModel::Text(ty.tag()));
    lemma_span_id_fields(cfg, Some(span));
    lemma_allowed_fields(skip, cfg.default_fields, false);
    lemma_allowed_fields(skip, span.fields@, false);
    lemma_kept(skip, "elapsed_milliseconds"@, ValueModel::Unsigned(elapsed));
    assert forall|k: Seq<char>| #![trigger has_key(span_candidates(cfg, span, ty, elapsed), k)]
        has_key(span_candidates(cfg, span, ty, elapsed), k) implies !is_reserved(k)
        && !skip.contains(k) by {
        lemma_has_key_concat(s, t, k);
        lemma_has_key_concat(s + t, i, k);
        lemma_has_key_concat(s + t + i, d, k);
        lemma_has_key_concat(s + t + i + d, f, k);
        lemma_has_key_concat(s + t + i + d + f, e, k);
        assert(!has_key(Seq::<FieldModel>::empty(), k));
        if has_key(s, k) || has_key(t, k) || has_key(i, k) || has_key(e, k) {
            lemma_supplied_key(k);
        }
    }
}

/// Nothing that an event record holds besides the core fields bears the
/// name of a core field or a skipped name.
pub proof fn lemma_event_candidates(cfg: Settings, event: Event, current_span: Option<Span>)
    ensures
        forall|k: Seq<char>|
            #![trigger has_key(event_candidates(cfg, event, current_span), k)]
            has_key(event_candidates(cfg, event, current_span), k) ==> !is_reserved(k)
                && !cfg.skip_fields.contains(k),
{
    let skip = cfg.skip_fields;
    let s = source_fields(skip, event.metadata);
    let i = span_id_fields(cfg, current_span);
    let d = allowed_fields(skip, cfg.default_fields, true);
    let f = allowed_fields(skip, event.fields@, true);
    let h = inherited_fields(cfg, current_span);
    lemma_supplied_names();
    lemma_source_fields(skip, event.metadata);
    lemma_span_id_fields(cfg, current_span);
    lemma_allowed_fields(skip, cfg.default_fields, true);
    lemma_allowed_fields(skip, event.fields@, true);
    if current_span is Some {
        lemma_allowed_fields(skip, current_span->0.fields@, false);
    }
    assert forall|k: Seq<char>| #![trigger has_key(event_candidates(cfg, event, current_span), k)]
        has_key(event_candidates(cfg, event, current_span), k) implies !is_reserved(k)
        && !skip.contains(k) by {
        lemma_has_key_concat(s, i, k);
        lemma_has_key_concat(s + i, d, k);
        lemma_has_key_concat(s + i + d, f, k);
        lemma_has_key_concat(s + i + d + f, h, k);
        assert(!has_key(Seq::<FieldModel>::empty(), k));
        if has_key(s, k) || has_key(i, k) {
            lemma_supplied_key(k);
        }
    }
}

/// Merging fields without core names into the core fields leaves the core
/// fields where they are: the record starts with them, and no two of its
/// fields share a key.
pub proof fn lemma_core_fields_lead(
    cfg: Settings,
    message: Seq<char>,
    level: Level,
    time: Seq<char>,
    extra: Seq<FieldModel>,
)
    requires
        forall|k: Seq<char>| #![trigger has_key(extra, k)] has_key(extra, k) ==> !is_reserved(k),
    ensures
        distinct_keys(merge(core_fields(cfg, message, level, time), extra)),
        merge(core_fields(cfg, message, level, time), extra).len() >= 7,
        merge(core_fields(cfg, message, level, time), extra).take(7) == core_fields(
            cfg,
            message,
            level,
            time,
        ),
{
    let core = core_fields(cfg, message, level, time);
    let record = merge(core, extra);
    lemma_core_fields(cfg, message, level, time);
    lemma_merge(core, extra);
    assert forall|i: int| 0 <= i < 7 implies record[i] == core[i] by {
        assert(has_key(core, core[i].key));
        assert(is_reserved(core[i].key));
        assert(!has_key(extra, core[i].key));
    }
    assert(record.take(7) =~= core);
}

/// The first field of every record is the version of the format, which is
/// always 0.
pub proof fn law_records_carry_version_zero(
    cfg: Settings,
    message: Seq<char>,
    level: Level,
    time: Seq<char>,
)
    requires
        cfg.well_formed(),
    ensures
        core_fields(cfg, message, level, time)[0] == field(
            BUNYAN_VERSION@,
            ValueModel::Unsigned(0),
        ),
{
}

/// Every span record starts with the seven core fields, in their order:
/// the version, the configured name, the message, the level as one of 10,
/// 20, 30, 40 and 50, the host name, the process id and the time. No two
/// fields of the record share a key.
pub proof fn law_span_record_has_core_fields(
    cfg: Settings,
    span: Span,
    ty: Type,
    message: Seq<char>,
    time: Seq<char>,
    elapsed: u64,
)
    ensures
        distinct_keys(span_record_fields(cfg, span, ty, message, time, elapsed)),
        span_record_fields(cfg, span, ty, message, time, elapsed).len() >= 7,
        span_record_fields(cfg, span, ty, message, time, elapsed).take(7) == core_fields(
            cfg,
            message,
            span.metadata.level,
            time,
        ),
        core_fields(cfg, message, span.metadata.level, time)[1].value == ValueModel::Text(cfg.name),
        core_fields(cfg, message, span.metadata.level, time)[3].value == ValueModel::Unsigned(
            bunyan_level(span.metadata.level) as u64,
        ),
        bunyan_level(span.metadata.level) == 10 || bunyan_level(span.metadata.level) == 20
            || bunyan_level(span.metadata.level) == 30 || bunyan_level(span.metadata.level) == 40
            || bunyan_level(span.metadata.level) == 50,
{
    lemma_span_candidates(cfg, span, ty, elapsed);
    lemma_core_fields_lead(
        cfg,
        message,
        span.metadata.level,
        time,
        span_candidates(cfg, span, ty, elapsed),
    );
}

/// Every event record starts with the seven core fields, in their order:
/// the version, the configured name, the message, the level as one of 10,
/// 20, 30, 40 and 50, the host name, the process id and the time. No two
/// fields of the record share a key.
pub proof fn law_event_record_has_core_fields(
    cfg: Settings,
    event: Event,
    current_span: Option<Span>,
    message: Seq<char>,
    time: Seq<char>,
)
    ensures
        distinct_keys(event_record_fields(cfg, event, current_span, message, time)),
        event_record_fields(cfg, event, current_span, message, time).len() >= 7,
        event_record_fields(cfg, event, current_span, message, time).take(7) == core_fields(
            cfg,
            message,
            event.metadata.level,
            time,
        ),
        core_fields(cfg, message, event.metadata.level, time)[1].value == ValueModel::Text(
            cfg.name,
        ),
        core_fields(cfg, message, event.metadata.level, time)[3].value == ValueModel::Unsigned(
            bunyan_level(event.metadata.level) as u64,
        ),
        bunyan_level(event.metadata.level) == 10 || bunyan_level(event.metadata.level) == 20
            || bunyan_level(event.metadata.level) == 30 || bunyan_level(event.metadata.level) == 40
            || bunyan_level(event.metadata.level) == 50,
{
    lemma_event_candidates(cfg, event, current_span);
    lemma_core_fields_lead(
        cfg,
        message,
        event.metadata.level,
        time,
        event_candidates(cfg, event, current_span),
    );
}

/// The later of two values: the second where there is one, else the first.
pub open spec fn later(first: Option<ValueModel>, second: Option<ValueModel>) -> Option<
    ValueModel,
> {
    if second is Some {
        second
    } else {
        first
    }
}

/// In what a span record holds besides the core fields, a key has the value
/// of the last part that gives it one: the source, the span type, the span
/// ids, the default fields, the captured fields, the elapsed time.
pub proof fn lemma_span_candidates_value(
    cfg: Settings,
    span: Span,
    ty: Type,
    elapsed: u64,
    key: Seq<char>,
)
    ensures
        last_value(span_candidates(cfg, span, ty, elapsed), key) == later(
            later(
                later(
                    later(
                        later(
                            last_value(source_fields(cfg.skip_fields, span.metadata), key),
                            last_value(span_type_fields(cfg, ty), key),
                        ),
                        last_value(span_id_fields(cfg, Some(span)), key),
                    ),
                    last_value(allowed_fields(cfg.skip_fields, cfg.default_fields, false), key),
                ),
                last_value(allowed_fields(cfg.skip_fields, span.fields@, false), key),
            ),
            last_value(elapsed_fields(cfg.skip_fields, ty, elapsed), key),
        ),
{
    let skip = cfg.skip_fields;
    let s = source_fields(skip, span.metadata);
    let t = span_type_fields(cfg, ty);
    let i = span_id_fields(cfg, Some(span));
    let d = allowed_fields(skip, cfg.default_fields, false);
    let f = allowed_fields(skip, span.fields@, false);
    let e = elapsed_fields(skip, ty, elapsed);
    lemma_last_value_concat(s, t, key);
    lemma_last_value_concat(s + t, i, key);
    lemma_last_value_concat(s + t + i, d, key);
    lemma_last_value_concat(s + t + i + d, f, key);
    lemma_last_value_concat(s + t + i + d + f, e, key);
}

/// In what an event record holds besides the core fields, a key has the
/// value of the last part that gives it one: the source, the span ids, the
/// default fields, the event's own fields, the fields of the current span.
pub proof fn lemma_event_candidates_value(
    cfg: Settings,
    event: Event,
    current_span: Option<Span>,
    key: Seq<char>,
)
    ensures
        last_value(event_candidates(cfg, event, current_span), key) == later(
            later(
                later(
                    later(
                        last_value(source_fields(cfg.skip_fields, event.metadata), key),
                        last_value(span_id_fields(cfg, current_span), key),
                    ),
                    last_value(allowed_fields(cfg.skip_fields, cfg.default_fields, true), key),
                ),
                last_value(allowed_fields(cfg.skip_fields, event.fields@, true), key),
            ),
            last_value(inherited_fields(cfg, current_span), key),
        ),
{
    let skip = cfg.skip_fields;
    let s = source_fields(skip, event.metadata);
    let i = span_id_fields(cfg, current_span);
    let d = allowed_fields(skip, cfg.default_fields, true);
    let f = allowed_fields(skip, event.fields@, true);
    let h = inherited_fields(cfg, current_span);
    lemma_last_value_concat(s, i, key);
    lemma_last_value_concat(s + i, d, key);
    lemma_last_value_concat(s + i + d, f, key);
    lemma_last_value_concat(s + i + d + f, h, key);
}

/// No span record has a field under a skipped key.
pub proof fn law_span_record_leaves_out_skipped_fields(
    cfg: Settings,
    span: Span,
    ty: Type,
    message: Seq<char>,
    time: Seq<char>,
    elapsed: u64,
    key: Seq<char>,
)
    requires
        cfg.well_formed(),
        cfg.skip_fields.contains(key),
    ensures
        !has_key(span_record_fields(cfg, span, ty, message, time, elapsed), key),
{
    lemma_span_candidates(cfg, span, ty, elapsed);
    lemma_core_fields(cfg, message, span.metadata.level, time);
    lemma_merge(
        core_fields(cfg, message, span.metadata.level, time),
        span_candidates(cfg, span, ty, elapsed),
    );
}

/// No event record has a field under a skipped key.
pub proof fn law_event_record_leaves_out_skipped_fields(
    cfg: Settings,
    event: Event,
    current_span: Option<Span>,
    message: Seq<char>,
    time: Seq<char>,
    key: Seq<char>,
)
    requires
        cfg.well_formed(),
        cfg.skip_fields.contains(key),
    ensures
        !has_key(event_record_fields(cfg, event, current_span, message, time), key),
{
    lemma_event_candidates(cfg, event, current_span);
    lemma_core_fields(cfg, message, event.metadata.level, time);
    lemma_merge(
        core_fields(cfg, message, event.metadata.level, time),
        event_candidates(cfg, event, current_span),
    );
}

/// Every span record has a field under each key of the default fields that
/// is neither the name of a core field nor skipped.
pub proof fn law_span_record_holds_default_fields(
    cfg: Settings,
    span: Span,
    ty: Type,
    message: Seq<char>,
    time: Seq<char>,
    elapsed: u64,
    key: Seq<char>,
)
    requires
        has_key(cfg.default_fields, key),
        !is_reserved(key),
        !cfg.skip_fields.contains(key),
    ensures
        has_key(span_record_fields(cfg, span, ty, message, time, elapsed), key),
{
    let candidates = span_candidates(cfg, span, ty, elapsed);
    lemma_allowed_fields(cfg.skip_fields, cfg.default_fields, false);
    lemma_last_value(allowed_fields(cfg.skip_fields, cfg.default_fields, false), key);
    lemma_span_candidates_value(cfg, span, ty, elapsed, key);
    lemma_last_value(candidates, key);
    lemma_merge(core_fields(cfg, message, span.metadata.level, time), candidates);
}

/// Every event record has a field under each key of the default fields that
/// is neither the name of a core field nor skipped, nor `message`, the name
/// that is set aside for the event's text.
pub proof fn law_event_record_holds_default_fields(
    cfg: Settings,
    event: Event,
    current_span: Option<Span>,
    message: Seq<char>,
    time: Seq<char>,
    key: Seq<char>,
)
    requires
        has_key(cfg.default_fields, key),
        !is_reserved(key),
        !cfg.skip_fields.contains(key),
        key != "message"@,
    ensures
        has_key(event_record_fields(cfg, event, current_span, message, time), key),
{
    let candidates = event_candidates(cfg, event, current_span);
    lemma_allowed_fields(cfg.skip_fields, cfg.default_fields, true);
    lemma_last_value(allowed_fields(cfg.skip_fields, cfg.default_fields, true), key);
    lemma_event_candidates_value(cfg, event, current_span, key);
    lemma_last_value(candidates, key);
    lemma_merge(core_fields(cfg, message, event.metadata.level, time), candidates);
}

/// A field of a span is found on every event that happens while a
/// descendant of the span is the current span: the event's record has a
/// field under the key, provided the layer writes span fields into events
/// and the key is neither the name of a core field nor skipped.
pub proof fn law_parent_fields_reach_events(
    cfg: Settings,
    event: Event,
    span: Span,
    ancestor_fields: Seq<FieldModel>,
    generations: Seq<Seq<FieldModel>>,
    message: Seq<char>,
    time: Seq<char>,
    key: Seq<char>,
)
    requires
        span.fields@ == descended(ancestor_fields, generations),
        has_key(ancestor_fields, key),
        cfg.serialize_span_fields,
        !is_reserved(key),
        !cfg.skip_fields.contains(key),
    ensures
        has_key(event_record_fields(cfg, event, Some(span), message, time), key),
{
    let candidates = event_candidates(cfg, event, Some(span));
    lemma_descended_keeps_keys(ancestor_fields, generations, key);
    lemma_allowed_fields(cfg.skip_fields, span.fields@, false);
    lemma_last_value(inherited_fields(cfg, Some(span)), key);
    lemma_event_candidates_value(cfg, event, Some(span), key);
    lemma_last_value(candidates, key);
    lemma_merge(core_fields(cfg, message, event.metadata.level, time), candidates);
}

/// No store gives a value under the key: not the default fields, not the
/// event's own fields, not the fields of the current span.
pub open spec fn left_to_the_layer(
    cfg: Settings,
    event: Event,
    current_span: Option<Span>,
    key: Seq<char>,
) -> bool {
    &&& !has_key(cfg.default_fields, key)
    &&& !has_key(event.fields@, key)
    &&& current_span is Some ==> !has_key(current_span->0.fields@, key)
}

/// Where the layer writes span ids, and the two names are neither skipped
/// nor used by a store: the record of an event outside every span has
/// neither `span_id` nor `parent_span_id`; the record of an event in a span
/// has the span's id as `span_id`; and it has `parent_span_id` exactly when
/// the span has a parent, with the id that the parent's own events carry as
/// `span_id`.
pub proof fn law_span_ids_on_events(
    cfg: Settings,
    event: Event,
    current_span: Option<Span>,
    message: Seq<char>,
    time: Seq<char>,
)
    requires
        cfg.serialize_span_id,
        !cfg.skip_fields.contains("span_id"@),
        !cfg.skip_fields.contains("parent_span_id"@),
        left_to_the_layer(cfg, event, current_span, "span_id"@),
        left_to_the_layer(cfg, event, current_span, "parent_span_id"@),
    ensures
        lookup(event_record_fields(cfg, event, current_span, message, time), "span_id"@)
            == match current_span {
            Some(span) => Some(ValueModel::Text(span_id_text(span.id))),
            None => None,
        },
        lookup(event_record_fields(cfg, event, current_span, message, time), "parent_span_id"@)
            == match current_span {
            Some(span) => match span.parent_id {
                Some(parent) => Some(ValueModel::Text(span_id_text(parent))),
                None => None,
            },
            None => None,
        },
{
    let skip = cfg.skip_fields;
    let core = core_fields(cfg, message, event.metadata.level, time);
    let candidates = event_candidates(cfg, event, current_span);
    lemma_supplied_names();
    lemma_core_fields(cfg, message, event.metadata.level, time);
    lemma_source_fields(skip, event.metadata);
    lemma_span_id_fields(cfg, current_span);
    lemma_allowed_fields(skip, cfg.default_fields, true);
    lemma_allowed_fields(skip, event.fields@, true);
    if current_span is Some {
        lemma_allowed_fields(skip, current_span->0.fields@, false);
    }
    let id = "span_id"@;
    let up = "parent_span_id"@;
    lemma_event_candidates_value(cfg, event, current_span, id);
    lemma_event_candidates_value(cfg, event, current_span, up);
    lemma_last_value(source_fields(skip, event.metadata), id);
    lemma_last_value(source_fields(skip, event.metadata), up);
    lemma_last_value(span_id_fields(cfg, current_span), id);
    lemma_last_value(span_id_fields(cfg, current_span), up);
    lemma_last_value(inherited_fields(cfg, current_span), id);
    lemma_last_value(inherited_fields(cfg, current_span), up);
    lemma_last_value(cfg.default_fields, id);
    lemma_last_value(cfg.default_fields, up);
    lemma_last_value(event.fields@, id);
    lemma_last_value(event.fields@, up);
    assert(!has_key(Seq::<FieldModel>::empty(), id));
    assert(!has_key(Seq::<FieldModel>::empty(), up));
    lemma_merge_lookup(core, candidates, id);
    lemma_merge_lookup(core, candidates, up);
    lemma_lookup(core, id);
    lemma_lookup(core, up);
    lemma_supplied_key(id);
    lemma_supplied_key(up);
}

/// Two distinct spans never get the same `span_id`.
pub proof fn law_span_ids_are_distinct(a: u64, b: u64)
    requires
        a != b,
    ensures
        span_id_text(a) != span_id_text(b),
{
    if span_id_text(a) == span_id_text(b) {
        let prefix = "span-"@;
        let x = decimal(a as nat);
        let y = decimal(b as nat);
        assert((prefix + x).subrange(prefix.len() as int, (prefix + x).len() as int) =~= x);
        assert((prefix + y).subrange(prefix.len() as int, (prefix + y).len() as int) =~= y);
        lemma_decimal_injective(a as nat, b as nat);
    }
}

/// The record of a span's exit has the elapsed time under
/// `elapsed_milliseconds`, unless that name is skipped.
pub proof fn law_exit_record_carries_elapsed_time(
    cfg: Settings,
    span: Span,
    message: Seq<char>,
    time: Seq<char>,
    elapsed: u64,
)
    requires
        !cfg.skip_fields.contains("elapsed_milliseconds"@),
    ensures
        lookup(
            span_record_fields(cfg, span, Type::ExitSpan, message, time, elapsed),
            "elapsed_milliseconds"@,
        ) == Some(ValueModel::Unsigned(elapsed)),
{
    let key = "elapsed_milliseconds"@;
    lemma_kept(cfg.skip_fields, key, ValueModel::Unsigned(elapsed));
    lemma_span_candidates_value(cfg, span, Type::ExitSpan, elapsed, key);
    lemma_merge_lookup(
        core_fields(cfg, message, span.metadata.level, time),
        span_candidates(cfg, span, Type::ExitSpan, elapsed),
        key,
    );
}

} // verus!
