//! What a record holds: the fields of a span record and of an event record,
//! in the order in which they are written.

use crate::message::{event_message_text, span_context_text, span_id_text, uppercase};
use crate::metadata::{bunyan_level, Event, Level, Metadata, Span, Type};
use crate::record::{
    distinct_keys, has_key, lemma_upsert_absent, merge, record_line, upsert, FieldModel,
    ValueModel,
};
use crate::skip::{is_reserved, BUNYAN_VERSION, HOSTNAME, LEVEL, MESSAGE, NAME, PID, TIME};
use vstd::prelude::*;
use vstd::utf8::encode_utf8;

verus! {

/// What a layer is configured with.
pub struct Settings {
    pub name: Seq<char>,
    pub pid: u32,
    pub hostname: Seq<char>,
    pub bunyan_version: u8,
    pub default_fields: Seq<FieldModel>,
    pub skip_fields: Set<Seq<char>>,
    pub serialize_span_fields: bool,
    pub serialize_span_id: bool,
    pub serialize_span_type: bool,
}

/// The settings of a layer that was just made: version 0, nothing skipped,
/// span fields on events, no span ids, no span type.
pub open spec fn initial_settings(
    name: Seq<char>,
    pid: u32,
    hostname: Seq<char>,
    default_fields: Seq<FieldModel>,
) -> Settings {
    Settings {
        name,
        pid,
        hostname,
        bunyan_version: 0,
        default_fields,
        skip_fields: Set::empty(),
        serialize_span_fields: true,
        serialize_span_id: false,
        serialize_span_type: false,
    }
}

impl Settings {
    /// What holds of the settings of every layer: the version of the format
    /// is 0, no core field is skipped, and no two default fields share a
    /// key.
    pub open spec fn well_formed(self) -> bool {
        &&& self.bunyan_version == 0
        &&& forall|key: Seq<char>| is_reserved(key) ==> !self.skip_fields.contains(key)
        &&& distinct_keys(self.default_fields)
    }
}

/// A field, from its key and its value.
pub open spec fn field(key: Seq<char>, value: ValueModel) -> FieldModel {
    FieldModel { key, value }
}

/// The seven core fields of the Bunyan format, in the order in which every
/// record starts with them.
pub open spec fn core_fields(
    cfg: Settings,
    message: Seq<char>,
    level: Level,
    time: Seq<char>,
) -> Seq<FieldModel> {
    seq![
        field(BUNYAN_VERSION@, ValueModel::Unsigned(cfg.bunyan_version as u64)),
        field(NAME@, ValueModel::Text(cfg.name)),
        field(MESSAGE@, ValueModel::Text(message)),
        field(LEVEL@, ValueModel::Unsigned(bunyan_level(level) as u64)),
        field(HOSTNAME@, ValueModel::Text(cfg.hostname)),
        field(PID@, ValueModel::Unsigned(cfg.pid as u64)),
        field(TIME@, ValueModel::Text(time)),
    ]
}

/// A field that the formatter itself supplies: it is written unless its key
/// is skipped.
pub open spec fn kept(skip: Set<Seq<char>>, key: Seq<char>, value: ValueModel) -> Seq<FieldModel> {
    if skip.contains(key) {
        Seq::empty()
    } else {
        seq![field(key, value)]
    }
}

/// Whether a default or captured field is written: not under the name of a
/// core field, not when skipped, and not as `message` where that name is
/// set aside for the event's text.
pub open spec fn allowed(skip: Set<Seq<char>>, key: Seq<char>, drop_message: bool) -> bool {
    !is_reserved(key) && !skip.contains(key) && !(drop_message && key == "message"@)
}

/// The fields of a store that are written, in the store's order.
pub open spec fn allowed_fields(
    skip: Set<Seq<char>>,
    fields: Seq<FieldModel>,
    drop_message: bool,
) -> Seq<FieldModel>
    decreases fields.len(),
{
    if fields.len() == 0 {
        Seq::empty()
    } else if allowed(skip, fields.last().key, drop_message) {
        allowed_fields(skip, fields.drop_last(), drop_message).push(fields.last())
    } else {
        allowed_fields(skip, fields.drop_last(), drop_message)
    }
}

/// The value of the `line` field.
pub open spec fn line_value(line: Option<u32>) -> ValueModel {
    match line {
        Some(n) => ValueModel::Unsigned(n as u64),
        None => ValueModel::Null,
    }
}

/// The value of the `file` field.
pub open spec fn file_value(file: Option<String>) -> ValueModel {
    match file {
        Some(f) => ValueModel::Text(f@),
        None => ValueModel::Null,
    }
}

/// Where the record comes from: `target`, `line`, `file`.
pub open spec fn source_fields(skip: Set<Seq<char>>, metadata: Metadata) -> Seq<FieldModel> {
    kept(skip, "target"@, ValueModel::Text(metadata.target@)) + kept(
        skip,
        "line"@,
        line_value(metadata.line),
    ) + kept(skip, "file"@, file_value(metadata.file))
}

/// The `span_type` field of a span record, where the layer writes one.
pub open spec fn span_type_fields(cfg: Settings, ty: Type) -> Seq<FieldModel> {
    if cfg.serialize_span_type {
        kept(cfg.skip_fields, "span_type"@, ValueModel::Text(ty.tag()))
    } else {
        Seq::empty()
    }
}

/// The `parent_span_id` and `span_id` fields, where the layer writes them
/// and there is a span: the first only for a span that has a parent.
pub open spec fn span_id_fields(cfg: Settings, span: Option<Span>) -> Seq<FieldModel> {
    if cfg.serialize_span_id && span is Some {
        (match span->0.parent_id {
            Some(parent) => kept(
                cfg.skip_fields,
                "parent_span_id"@,
                ValueModel::Text(span_id_text(parent)),
            ),
            None => Seq::empty(),
        }) + kept(cfg.skip_fields, "span_id"@, ValueModel::Text(span_id_text(span->0.id)))
    } else {
        Seq::empty()
    }
}

/// The `elapsed_milliseconds` field, which only the record of a span's exit
/// has.
pub open spec fn elapsed_fields(skip: Set<Seq<char>>, ty: Type, elapsed: u64) -> Seq<FieldModel> {
    if ty is ExitSpan {
        kept(skip, "elapsed_milliseconds"@, ValueModel::Unsigned(elapsed))
    } else {
        Seq::empty()
    }
}

/// The message of a span record: the span's name as it is where the layer
/// writes the span type, and else the name in capitals with the type, in
/// brackets.
pub open spec fn span_message(cfg: Settings, name: Seq<char>, ty: Type) -> Seq<char> {
    if cfg.serialize_span_type {
        name
    } else {
        span_context_text(uppercase(name), ty)
    }
}

/// What a span record holds besides the core fields, in order: the source,
/// the span type, the span ids, the default fields, the span's captured
/// fields, the elapsed time.
pub open spec fn span_candidates(cfg: Settings, span: Span, ty: Type, elapsed: u64) -> Seq<
    FieldModel,
> {
    source_fields(cfg.skip_fields, span.metadata) + span_type_fields(cfg, ty) + span_id_fields(
        cfg,
        Some(span),
    ) + allowed_fields(cfg.skip_fields, cfg.default_fields, false) + allowed_fields(
        cfg.skip_fields,
        span.fields@,
        false,
    ) + elapsed_fields(cfg.skip_fields, ty, elapsed)
}

/// The fields of a span record: the core fields, and merged into them what
/// else the record holds. Where two sources give the same key, the later
/// one gives the value.
pub open spec fn span_record_fields(
    cfg: Settings,
    span: Span,
    ty: Type,
    message: Seq<char>,
    time: Seq<char>,
    elapsed: u64,
) -> Seq<FieldModel> {
    merge(
        core_fields(cfg, message, span.metadata.level, time),
        span_candidates(cfg, span, ty, elapsed),
    )
}

/// The captured fields of the current span that an event record takes over.
pub open spec fn inherited_fields(cfg: Settings, current_span: Option<Span>) -> Seq<FieldModel> {
    if cfg.serialize_span_fields && current_span is Some {
        allowed_fields(cfg.skip_fields, current_span->0.fields@, false)
    } else {
        Seq::empty()
    }
}

/// What an event record holds besides the core fields, in order: the
/// source, the span ids, the default fields, the event's own fields, the
/// fields of the current span.
pub open spec fn event_candidates(cfg: Settings, event: Event, current_span: Option<Span>) -> Seq<
    FieldModel,
> {
    source_fields(cfg.skip_fields, event.metadata) + span_id_fields(cfg, current_span)
        + allowed_fields(cfg.skip_fields, cfg.default_fields, true) + allowed_fields(
        cfg.skip_fields,
        event.fields@,
        true,
    ) + inherited_fields(cfg, current_span)
}

/// The fields of an event record: the core fields, and merged into them
/// what else the record holds.
pub open spec fn event_record_fields(
    cfg: Settings,
    event: Event,
    current_span: Option<Span>,
    message: Seq<char>,
    time: Seq<char>,
) -> Seq<FieldModel> {
    merge(
        core_fields(cfg, message, event.metadata.level, time),
        event_candidates(cfg, event, current_span),
    )
}

/// The name of the current span, if there is one.
pub open spec fn span_name(current_span: Option<Span>) -> Option<Seq<char>> {
    match current_span {
        Some(span) => Some(span.metadata.name@),
        None => None,
    }
}

/// The message of an event record.
pub open spec fn event_message(cfg: Settings, event: Event, current_span: Option<Span>) -> Seq<
    char,
> {
    event_message_text(
        span_name(current_span),
        event.fields@,
        event.metadata.target@,
        cfg.serialize_span_type,
    )
}

/// The text as UTF-8 bytes, where there is a text.
pub open spec fn utf8_bytes(text: Option<Seq<char>>) -> Option<Seq<u8>> {
    match text {
        Some(t) => Some(encode_utf8(t)),
        None => None,
    }
}

/// The bytes of a span record: its fields as one line of JSON, with the
/// message that the layer derives from the span's name. `None` where
/// `serde_json` fails on a key or a value.
pub open spec fn span_bytes(
    cfg: Settings,
    span: Span,
    ty: Type,
    time: Seq<char>,
    elapsed: u64,
) -> Option<Seq<u8>> {
    utf8_bytes(
        record_line(
            span_record_fields(
                cfg,
                span,
                ty,
                span_message(cfg, span.metadata.name@, ty),
                time,
                elapsed,
            ),
        ),
    )
}

/// The bytes of an event record: its fields as one line of JSON, with the
/// message that the layer derives from the event and the current span.
/// `None` where `serde_json` fails on a key or a value.
pub open spec fn event_bytes(
    cfg: Settings,
    event: Event,
    current_span: Option<Span>,
    time: Seq<char>,
) -> Option<Seq<u8>> {
    utf8_bytes(
        record_line(
            event_record_fields(
                cfg,
                event,
                current_span,
                event_message(cfg, event, current_span),
                time,
            ),
        ),
    )
}

/// Merging one more field in is putting it into what was merged before.
pub proof fn lemma_merge_push(base: Seq<FieldModel>, extra: Seq<FieldModel>, last: FieldModel)
    ensures
        merge(base, extra.push(last)) == upsert(merge(base, extra), last),
        merge(base, extra + seq![last]) == upsert(merge(base, extra), last),
{
    assert(extra.push(last).drop_last() =~= extra);
    assert(extra + seq![last] =~= extra.push(last));
}

/// Merging two lists one after the other is merging their concatenation.
pub proof fn lemma_merge_concat(base: Seq<FieldModel>, a: Seq<FieldModel>, b: Seq<FieldModel>)
    ensures
        merge(base, a + b) == merge(merge(base, a), b),
    decreases b.len(),
{
    if b.len() == 0 {
        assert(a + b =~= a);
    } else {
        lemma_merge_concat(base, a, b.drop_last());
        assert((a + b).drop_last() =~= a + b.drop_last());
        assert((a + b).last() == b.last());
    }
}

/// Merging fields with distinct keys into nothing gives those fields.
pub proof fn lemma_merge_distinct(fields: Seq<FieldModel>)
    requires
        distinct_keys(fields),
    ensures
        merge(Seq::empty(), fields) == fields,
    decreases fields.len(),
{
    if fields.len() != 0 {
        let front = fields.drop_last();
        assert forall|i: int, j: int| 0 <= i < j < front.len() implies (#[trigger] front[i]).key
            != (#[trigger] front[j]).key by {
            assert(fields[i].key != fields[j].key);
        }
        lemma_merge_distinct(front);
        assert(!has_key(front, fields.last().key)) by {
            if has_key(front, fields.last().key) {
                let i = choose|i: int|
                    0 <= i < front.len() && (#[trigger] front[i]).key == fields.last().key;
                assert(fields[i].key != fields[fields.len() - 1].key);
            }
        }
        lemma_upsert_absent(front, fields.last());
        assert(front.push(fields.last()) =~= fields);
    }
}

/// The core fields are seven, their keys are the seven reserved names, and
/// no two of them share a key.
pub proof fn lemma_core_fields(cfg: Settings, message: Seq<char>, level: Level, time: Seq<char>)
    ensures
        core_fields(cfg, message, level, time).len() == 7,
        distinct_keys(core_fields(cfg, message, level, time)),
        forall|key: Seq<char>|
            #![trigger has_key(core_fields(cfg, message, level, time), key)]
            has_key(core_fields(cfg, message, level, time), key) <==> is_reserved(key),
{
    reveal_strlit("v");
    reveal_strlit("level");
    reveal_strlit("name");
    reveal_strlit("hostname");
    reveal_strlit("pid");
    reveal_strlit("time");
    reveal_strlit("msg");
    let core = core_fields(cfg, message, level, time);
    assert(core[0].key == BUNYAN_VERSION@);
    assert(core[1].key == NAME@);
    assert(core[2].key == MESSAGE@);
    assert(core[3].key == LEVEL@);
    assert(core[4].key == HOSTNAME@);
    assert(core[5].key == PID@);
    assert(core[6].key == TIME@);
    assert(BUNYAN_VERSION@.len() == 1);
    assert(NAME@.len() == 4);
    assert(MESSAGE@.len() == 3);
    assert(LEVEL@.len() == 5);
    assert(HOSTNAME@.len() == 8);
    assert(PID@.len() == 3);
    assert(TIME@.len() == 4);
    assert(NAME@[0] == 'n');
    assert(TIME@[0] == 't');
    assert(MESSAGE@[0] == 'm');
    assert(PID@[0] == 'p');
}

} // verus!
