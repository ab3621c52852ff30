//! The formatting layer: its configuration, and the records it writes for
//! spans and events.

use crate::error::FormatError;
use crate::fields::FieldStore;
use crate::message::{format_event_message, format_span_context, format_span_id, span_id_text};
use crate::metadata::{to_bunyan_level, Event, Level, Metadata, Span, Type};
use crate::record::{merge, FieldModel, FieldValue, Record, ValueModel};
use crate::schema::{
    allowed_fields, core_fields, elapsed_fields, event_bytes, event_record_fields, field,
    inherited_fields, initial_settings, kept, lemma_core_fields, lemma_merge_concat,
    lemma_merge_distinct, lemma_merge_push, source_fields, span_bytes, span_id_fields,
    span_record_fields, span_type_fields, Settings,
};
use crate::skip::{
    is_required_field, is_reserved, skip_set_contains, skip_set_insert, skip_set_new,
    skipped_names, SkipFieldError, BUNYAN_VERSION, HOSTNAME, LEVEL, MESSAGE, NAME, PID, TIME,
};
use crate::text::str_eq;
use vstd::prelude::*;
use vstd::string::*;

verus! {

/// The names of a list, as a set.
pub open spec fn names_of(fields: Seq<String>) -> Set<Seq<char>> {
    Set::new(
        |name: Seq<char>| exists|i: int| 0 <= i < fields.len() && (#[trigger] fields[i])@ == name,
    )
}

/// The index of the first core field in a list of names, or the length of
/// the list where it names none.
pub open spec fn first_reserved(fields: Seq<String>) -> int
    decreases fields.len(),
{
    if fields.len() == 0 {
        0
    } else if is_reserved(fields[0]@) {
        0
    } else {
        1 + first_reserved(fields.drop_first())
    }
}

/// `first_reserved` is the least index of a core field.
pub proof fn lemma_first_reserved(fields: Seq<String>)
    ensures
        0 <= first_reserved(fields) <= fields.len(),
        forall|j: int| 0 <= j < first_reserved(fields) ==> !is_reserved((#[trigger] fields[j])@),
        first_reserved(fields) < fields.len() ==> is_reserved(fields[first_reserved(fields)]@),
    decreases fields.len(),
{
    if fields.len() != 0 && !is_reserved(fields[0]@) {
        let rest = fields.drop_first();
        lemma_first_reserved(rest);
        assert forall|j: int| 0 <= j < first_reserved(fields) implies !is_reserved(
            (#[trigger] fields[j])@,
        ) by {
            if j > 0 {
                assert(fields[j] == rest[j - 1]);
            }
        }
        if first_reserved(fields) < fields.len() {
            assert(fields[first_reserved(fields)] == rest[first_reserved(rest)]);
        }
    }
}

/// Calls `gethostname::gethostname`, which asks the operating system for the
/// name of this host, and turns the answer into a string, lossily where it
/// is not valid UTF-8. Nothing is known of the name. The call takes no
/// argument; it panics where the operating system refuses to tell the name.
#[verifier::external_body]
pub(crate) fn host_name() -> String {
    gethostname::gethostname().to_string_lossy().into_owned()
}

/// This layer is exclusively concerned with formatting information using the
/// Bunyan format. It relies on an upstream collaborator to capture the fields
/// attached to each span.
#[derive(Debug)]
pub struct BunyanFormattingLayer {
    pid: u32,
    hostname: String,
    bunyan_version: u8,
    name: String,
    default_fields: FieldStore,
    skip_fields: ahash::HashSet<String>,
    serialize_span_fields: bool,
    serialize_span_id: bool,
    serialize_span_type: bool,
}

impl View for BunyanFormattingLayer {
    type V = Settings;

    closed spec fn view(&self) -> Settings {
        Settings {
            name: self.name@,
            pid: self.pid,
            hostname: self.hostname@,
            bunyan_version: self.bunyan_version,
            default_fields: self.default_fields@,
            skip_fields: skipped_names(self.skip_fields),
            serialize_span_fields: self.serialize_span_fields,
            serialize_span_id: self.serialize_span_id,
            serialize_span_type: self.serialize_span_type,
        }
    }
}

impl BunyanFormattingLayer {
    #[verifier::type_invariant]
    spec fn settings_stay_well_formed(&self) -> bool {
        self@.well_formed()
    }

    /// Create a new `BunyanFormattingLayer`.
    ///
    /// You have to specify a `name`, which will be attached to all formatted
    /// records according to the Bunyan format, and the process id `pid`.
    /// The host name is looked up here, once.
    pub fn new(name: String, pid: u32) -> (r: Self)
        ensures
            r@ == initial_settings(name@, pid, r@.hostname, Seq::empty()),
            r@.well_formed(),
    {
        Self::with_default_fields(name, pid, FieldStore::new())
    }

    /// Add default fields to all formatted records.
    pub fn with_default_fields(name: String, pid: u32, default_fields: FieldStore) -> (r: Self)
        ensures
            r@ == initial_settings(name@, pid, r@.hostname, default_fields@),
            r@.well_formed(),
    {
        Self::with_identity(name, pid, host_name(), default_fields)
    }

    /// Create a layer for a process whose host name is already known.
    pub fn with_identity(
        name: String,
        pid: u32,
        hostname: String,
        default_fields: FieldStore,
    ) -> (r: Self)
        ensures
            r@ == initial_settings(name@, pid, hostname@, default_fields@),
            r@.well_formed(),
    {
        proof {
            use_type_invariant(&default_fields);
        }
        BunyanFormattingLayer {
            pid,
            hostname,
            bunyan_version: 0,
            name,
            default_fields,
            skip_fields: skip_set_new(),
            serialize_span_fields: true,
            serialize_span_id: false,
            serialize_span_type: false,
        }
    }

    /// Whether to serialize span fields to events.
    pub fn serialize_span_fields(self, value: bool) -> (r: Self)
        ensures
            r@ == (Settings { serialize_span_fields: value, ..self@ }),
            r@.well_formed(),
    {
        proof {
            use_type_invariant(&self);
        }
        let mut layer = self;
        layer.serialize_span_fields = value;
        layer
    }

    /// Whether to serialize `span_id` and `parent_span_id` field if
    /// available.
    pub fn serialize_span_id(self, value: bool) -> (r: Self)
        ensures
            r@ == (Settings { serialize_span_id: value, ..self@ }),
            r@.well_formed(),
    {
        proof {
            use_type_invariant(&self);
        }
        let mut layer = self;
        layer.serialize_span_id = value;
        layer
    }

    /// Whether to serialize event `span_type` field.
    /// When set to true no custom msg format is used.
    pub fn serialize_span_type(self, value: bool) -> (r: Self)
        ensures
            r@ == (Settings { serialize_span_type: value, ..self@ }),
            r@.well_formed(),
    {
        proof {
            use_type_invariant(&self);
        }
        let mut layer = self;
        layer.serialize_span_type = value;
        layer
    }

    /// Add fields to skip when formatting with this layer.
    ///
    /// It returns an error if you try to skip a required core Bunyan field
    /// (e.g. `name`): the error names the first such field of the list.
    /// You can skip optional core Bunyan fields (e.g. `line`, `file`,
    /// `target`).
    pub fn skip_fields(self, fields: Vec<String>) -> (r: Result<Self, SkipFieldError>)
        ensures
            match r {
                Ok(layer) => {
                    &&& first_reserved(fields@) == fields@.len()
                    &&& layer@ == (Settings {
                        skip_fields: self@.skip_fields.union(names_of(fields@)),
                        ..self@
                    })
                    &&& layer@.well_formed()
                },
                Err(e) => {
                    &&& first_reserved(fields@) < fields@.len()
                    &&& e.field() == fields@[first_reserved(fields@)]@
                },
            },
    {
        proof {
            use_type_invariant(&self);
            lemma_first_reserved(fields@);
        }
        let mut layer = self;
        let ghost before = layer@;
        let mut skipped: ahash::HashSet<String> = skip_set_new();
        std::mem::swap(&mut layer.skip_fields, &mut skipped);
        let mut i: usize = 0;
        while i < fields.len()
            invariant
                i <= fields@.len(),
                i <= first_reserved(fields@) <= fields@.len(),
                forall|j: int|
                    0 <= j < first_reserved(fields@) ==> !is_reserved((#[trigger] fields@[j])@),
                first_reserved(fields@) < fields@.len() ==> is_reserved(
                    fields@[first_reserved(fields@)]@,
                ),
                skipped_names(skipped) == before.skip_fields.union(
                    names_of(fields@.take(i as int)),
                ),
            decreases fields@.len() - i,
        {
            let field = fields[i].clone();
            if is_required_field(field.as_str()) {
                return Err(SkipFieldError::new(field));
            }
            skip_set_insert(&mut skipped, field);
            proof {
                let grown = fields@.take(i + 1);
                let small = fields@.take(i as int);
                assert(grown[i as int] == fields@[i as int]);
                assert forall|name: Seq<char>|
                    names_of(grown).contains(name) <==> (names_of(small).contains(name) || name
                        == fields@[i as int]@) by {
                    if names_of(grown).contains(name) {
                        let j = choose|j: int|
                            0 <= j < grown.len() && (#[trigger] grown[j])@ == name;
                        if j < i {
                            assert(small[j]@ == name);
                        }
                    }
                    if names_of(small).contains(name) {
                        let j = choose|j: int|
                            0 <= j < small.len() && (#[trigger] small[j])@ == name;
                        assert(grown[j]@ == name);
                    }
                }
                assert(skipped_names(skipped) =~= before.skip_fields.union(names_of(grown)));
            }
            i += 1;
        }
        proof {
            assert(fields@.take(i as int) =~= fields@);
            assert forall|key: Seq<char>| is_reserved(key) implies !skipped_names(skipped).contains(
                key,
            ) by {
                if names_of(fields@).contains(key) {
                    let j = choose|j: int|
                        0 <= j < fields@.len() && (#[trigger] fields@[j])@ == key;
                    assert(!is_reserved(fields@[j]@));
                }
            }
        }
        layer.skip_fields = skipped;
        Ok(layer)
    }

    /// Tells whether the layer leaves the field out of its records. It never
    /// does so for a core field: the settings of a layer are well formed.
    pub fn skips(&self, key: &str) -> (r: bool)
        ensures
            r == self@.skip_fields.contains(key@),
            self@.well_formed(),
    {
        proof {
            use_type_invariant(self);
        }
        skip_set_contains(&self.skip_fields, key)
    }

    /// Writes the seven core fields of the Bunyan format into a record, with
    /// the message and the time of the record.
    pub fn serialize_bunyan_core_fields<'a>(
        &self,
        record: &mut Record<'a>,
        message: &str,
        level: &Level,
        time: &str,
    )
        ensures
            final(record)@ == merge(old(record)@, core_fields(self@, message@, *level, time@)),
    {
        let ghost base = record@;
        let ghost core = core_fields(self@, message@, *level, time@);
        record.insert(
            String::from_str(BUNYAN_VERSION),
            FieldValue::Unsigned(self.bunyan_version as u64),
        );
        proof {
            lemma_merge_push(base, Seq::empty(), core[0]);
        }
        record.insert(String::from_str(NAME), FieldValue::Text(self.name.clone()));
        proof {
            lemma_merge_push(base, core.take(1), core[1]);
            assert(core.take(1).push(core[1]) =~= core.take(2));
            assert(Seq::<FieldModel>::empty().push(core[0]) =~= core.take(1));
        }
        record.insert(String::from_str(MESSAGE), FieldValue::Text(String::from_str(message)));
        proof {
            lemma_merge_push(base, core.take(2), core[2]);
            assert(core.take(2).push(core[2]) =~= core.take(3));
        }
        record.insert(
            String::from_str(LEVEL),
            FieldValue::Unsigned(to_bunyan_level(level) as u64),
        );
        proof {
            lemma_merge_push(base, core.take(3), core[3]);
            assert(core.take(3).push(core[3]) =~= core.take(4));
        }
        record.insert(String::from_str(HOSTNAME), FieldValue::Text(self.hostname.clone()));
        proof {
            lemma_merge_push(base, core.take(4), core[4]);
            assert(core.take(4).push(core[4]) =~= core.take(5));
        }
        record.insert(String::from_str(PID), FieldValue::Unsigned(self.pid as u64));
        proof {
            lemma_merge_push(base, core.take(5), core[5]);
            assert(core.take(5).push(core[5]) =~= core.take(6));
        }
        record.insert(String::from_str(TIME), FieldValue::Text(String::from_str(time)));
        proof {
            lemma_merge_push(base, core.take(6), core[6]);
            assert(core.take(6).push(core[6]) =~= core);
        }
    }

    /// Writes a field into a record, unless the field is skipped.
    pub fn serialize_field<'a>(&self, record: &mut Record<'a>, key: &str, value: FieldValue<'a>)
        ensures
            final(record)@ == merge(old(record)@, kept(self@.skip_fields, key@, value@)),
    {
        let ghost base = record@;
        if !skip_set_contains(&self.skip_fields, key) {
            proof {
                lemma_merge_push(base, Seq::empty(), field(key@, value@));
                assert(Seq::<FieldModel>::empty().push(field(key@, value@)) =~= kept(
                    self@.skip_fields,
                    key@,
                    value@,
                ));
            }
            record.insert(String::from_str(key), value);
        }
    }

    /// Writes the fields of a store into a record: those that are not
    /// skipped and do not bear the name of a core field, nor the name
    /// `message` where `drop_message` is set.
    fn serialize_store<'a>(
        &self,
        record: &mut Record<'a>,
        store: &'a FieldStore,
        drop_message: bool,
    )
        ensures
            final(record)@ == merge(
                old(record)@,
                allowed_fields(self@.skip_fields, store@, drop_message),
            ),
    {
        let ghost base = record@;
        let ghost skip = self@.skip_fields;
        let n = store.len();
        let mut i: usize = 0;
        while i < n
            invariant
                i <= n,
                n == store@.len(),
                skip == self@.skip_fields,
                record@ == merge(base, allowed_fields(skip, store@.take(i as int), drop_message)),
            decreases n - i,
        {
            let key = store.key_at(i);
            let value = store.value_at(i);
            proof {
                let grown = store@.take(i + 1);
                assert(grown.drop_last() =~= store@.take(i as int));
                assert(grown.last() == store@[i as int]);
                assert(store@[i as int] == field(key@, ValueModel::Json(*value)));
                lemma_merge_push(
                    base,
                    allowed_fields(skip, store@.take(i as int), drop_message),
                    store@[i as int],
                );
            }
            if !is_required_field(key) && !(drop_message && str_eq(key, "message"))
                && !skip_set_contains(&self.skip_fields, key) {
                record.insert(String::from_str(key), FieldValue::Json(value));
            }
            i += 1;
        }
        assert(store@.take(n as int) =~= store@);
    }

    /// Writes where a record comes from: `target`, `line` and `file`.
    fn serialize_source<'a>(&self, record: &mut Record<'a>, metadata: &Metadata)
        ensures
            final(record)@ == merge(old(record)@, source_fields(self@.skip_fields, *metadata)),
    {
        let ghost base = record@;
        let ghost skip = self@.skip_fields;
        self.serialize_field(record, "target", FieldValue::Text(metadata.target.clone()));
        let line = match metadata.line {
            Some(n) => FieldValue::Unsigned(n as u64),
            None => FieldValue::Null,
        };
        self.serialize_field(record, "line", line);
        let file = match &metadata.file {
            Some(f) => FieldValue::Text(f.clone()),
            None => FieldValue::Null,
        };
        self.serialize_field(record, "file", file);
        proof {
            let a = kept(skip, "target"@, ValueModel::Text(metadata.target@));
            let b = kept(skip, "line"@, line@);
            let c = kept(skip, "file"@, file@);
            lemma_merge_concat(base, a, b);
            lemma_merge_concat(base, a + b, c);
        }
    }

    /// Writes the ids of the current span and of its parent, where the layer
    /// writes span ids and there is a current span.
    fn serialize_span_ids<'a>(&self, record: &mut Record<'a>, span: Option<&Span>)
        ensures
            final(record)@ == merge(old(record)@, span_id_fields(self@, owned(span))),
    {
        let ghost base = record@;
        let ghost skip = self@.skip_fields;
        if self.serialize_span_id {
            if let Some(span) = span {
                if let Some(parent) = span.parent_id {
                    self.serialize_field(
                        record,
                        "parent_span_id",
                        FieldValue::Text(format_span_id(parent)),
                    );
                }
                let ghost of_parent = match span.parent_id {
                    Some(parent) => kept(
                        skip,
                        "parent_span_id"@,
                        ValueModel::Text(span_id_text(parent)),
                    ),
                    None => Seq::empty(),
                };
                self.serialize_field(record, "span_id", FieldValue::Text(format_span_id(span.id)));
                proof {
                    lemma_merge_concat(
                        base,
                        of_parent,
                        kept(skip, "span_id"@, ValueModel::Text(span_id_text(span.id))),
                    );
                }
            }
        }
    }

    /// Builds the record of a span: the core fields with the given message
    /// and time, and merged into them the source, the span type, the span
    /// ids, the default fields, the span's captured fields and, for an exit,
    /// the elapsed time.
    pub fn span_record<'a>(
        &'a self,
        span: &'a Span,
        ty: Type,
        message: &str,
        time: &str,
        elapsed_milliseconds: u64,
    ) -> (r: Record<'a>)
        ensures
            r@ == span_record_fields(self@, *span, ty, message@, time@, elapsed_milliseconds),
    {
        let ghost cfg = self@;
        let ghost skip = cfg.skip_fields;
        let ghost core = core_fields(cfg, message@, span.metadata.level, time@);
        let mut record = Record::new();
        self.serialize_bunyan_core_fields(&mut record, message, &span.metadata.level, time);
        proof {
            lemma_core_fields(cfg, message@, span.metadata.level, time@);
            lemma_merge_distinct(core);
        }
        self.serialize_source(&mut record, &span.metadata);
        let ghost c1 = source_fields(skip, span.metadata);
        if self.serialize_span_type {
            self.serialize_field(&mut record, "span_type", FieldValue::Text(ty.to_string()));
        }
        let ghost c2 = c1 + span_type_fields(cfg, ty);
        proof {
            lemma_merge_concat(core, c1, span_type_fields(cfg, ty));
        }
        self.serialize_span_ids(&mut record, Some(span));
        let ghost c3 = c2 + span_id_fields(cfg, Some(*span));
        proof {
            lemma_merge_concat(core, c2, span_id_fields(cfg, Some(*span)));
        }
        self.serialize_store(&mut record, &self.default_fields, false);
        let ghost c4 = c3 + allowed_fields(skip, cfg.default_fields, false);
        proof {
            lemma_merge_concat(core, c3, allowed_fields(skip, cfg.default_fields, false));
        }
        self.serialize_store(&mut record, &span.fields, false);
        let ghost c5 = c4 + allowed_fields(skip, span.fields@, false);
        proof {
            lemma_merge_concat(core, c4, allowed_fields(skip, span.fields@, false));
        }
        if let Type::ExitSpan = ty {
            self.serialize_field(
                &mut record,
                "elapsed_milliseconds",
                FieldValue::Unsigned(elapsed_milliseconds),
            );
        }
        proof {
            lemma_merge_concat(core, c5, elapsed_fields(skip, ty, elapsed_milliseconds));
        }
        record
    }

    /// Builds the record of an event: the core fields with the given message
    /// and time, and merged into them the source, the span ids, the default
    /// fields, the event's own fields and the fields of the current span.
    pub fn event_record<'a>(
        &'a self,
        event: &'a Event,
        current_span: Option<&'a Span>,
        message: &str,
        time: &str,
    ) -> (r: Record<'a>)
        ensures
            r@ == event_record_fields(self@, *event, owned(current_span), message@, time@),
    {
        let ghost cfg = self@;
        let ghost skip = cfg.skip_fields;
        let ghost core = core_fields(cfg, message@, event.metadata.level, time@);
        let mut record = Record::new();
        self.serialize_bunyan_core_fields(&mut record, message, &event.metadata.level, time);
        proof {
            lemma_core_fields(cfg, message@, event.metadata.level, time@);
            lemma_merge_distinct(core);
        }
        self.serialize_source(&mut record, &event.metadata);
        let ghost c1 = source_fields(skip, event.metadata);
        self.serialize_span_ids(&mut record, current_span);
        let ghost c2 = c1 + span_id_fields(cfg, owned(current_span));
        proof {
            lemma_merge_concat(core, c1, span_id_fields(cfg, owned(current_span)));
        }
        self.serialize_store(&mut record, &self.default_fields, true);
        let ghost c3 = c2 + allowed_fields(skip, cfg.default_fields, true);
        proof {
            lemma_merge_concat(core, c2, allowed_fields(skip, cfg.default_fields, true));
        }
        self.serialize_store(&mut record, &event.fields, true);
        let ghost c4 = c3 + allowed_fields(skip, event.fields@, true);
        proof {
            lemma_merge_concat(core, c3, allowed_fields(skip, event.fields@, true));
        }
        if self.serialize_span_fields {
            if let Some(span) = current_span {
                self.serialize_store(&mut record, &span.fields, false);
            }
        }
        proof {
            lemma_merge_concat(core, c4, inherited_fields(cfg, owned(current_span)));
        }
        record
    }

    /// Given a span, it serialises it to an in-memory buffer (vector of
    /// bytes): one line of JSON. It fails exactly where `serde_json` fails
    /// on a key or a value of the record.
    pub fn serialize_span(
        &self,
        span: &Span,
        ty: Type,
        time: &str,
        elapsed_milliseconds: u64,
    ) -> (r: Result<Vec<u8>, FormatError>)
        ensures
            match r {
                Ok(buffer) => span_bytes(self@, *span, ty, time@, elapsed_milliseconds) == Some(
                    buffer@,
                ),
                Err(_) => span_bytes(self@, *span, ty, time@, elapsed_milliseconds) is None,
            },
    {
        let message = if self.serialize_span_type {
            span.metadata.name.clone()
        } else {
            format_span_context(span.metadata.name.as_str(), ty)
        };
        let record = self.span_record(span, ty, message.as_str(), time, elapsed_milliseconds);
        match record.to_line() {
            Ok(line) => Ok(line.as_str().as_bytes_vec()),
            Err(e) => Err(e),
        }
    }

    /// Given an event and the span it happened in, if any, it serialises the
    /// event to an in-memory buffer: one line of JSON. It fails exactly
    /// where `serde_json` fails on a key or a value of the record.
    pub fn serialize_event(&self, event: &Event, current_span: Option<&Span>, time: &str) -> (r:
        Result<Vec<u8>, FormatError>)
        ensures
            match r {
                Ok(buffer) => event_bytes(self@, *event, owned(current_span), time@) == Some(
                    buffer@,
                ),
                Err(_) => event_bytes(self@, *event, owned(current_span), time@) is None,
            },
    {
        let message = format_event_message(current_span, event, self.serialize_span_type);
        let record = self.event_record(event, current_span, message.as_str(), time);
        match record.to_line() {
            Ok(line) => Ok(line.as_str().as_bytes_vec()),
            Err(e) => Err(e),
        }
    }
}

/// The span behind an optional reference.
pub open spec fn owned(span: Option<&Span>) -> Option<Span> {
    match span {
        Some(s) => Some(*s),
        None => None,
    }
}

} // verus!
