//! The record: an ordered mapping from keys to values, and its JSON line.

use crate::error::FormatError;
use crate::json::{
    encode_str, encode_value, entry_text, frame_entry, frame_object, json_string_text,
    json_value_text, object_text, texts,
};
use crate::text::{decimal, decimal_string, str_eq};
use vstd::prelude::*;
use vstd::string::*;

verus! {

/// The value of one field of a record.
#[derive(Debug)]
pub enum FieldValue<'a> {
    /// JSON `null`.
    Null,
    /// A non-negative whole number.
    Unsigned(u64),
    /// A string.
    Text(String),
    /// A captured JSON value, borrowed from the store that holds it.
    Json(&'a serde_json::Value),
}

/// One field of a record.
#[derive(Debug)]
pub struct Field<'a> {
    pub key: String,
    pub value: FieldValue<'a>,
}

/// What a field's value is.
pub enum ValueModel {
    Null,
    Unsigned(u64),
    Text(Seq<char>),
    Json(serde_json::Value),
}

/// What a field is.
pub struct FieldModel {
    pub key: Seq<char>,
    pub value: ValueModel,
}

impl<'a> View for FieldValue<'a> {
    type V = ValueModel;

    open spec fn view(&self) -> ValueModel {
        match *self {
            FieldValue::Null => ValueModel::Null,
            FieldValue::Unsigned(n) => ValueModel::Unsigned(n),
            FieldValue::Text(s) => ValueModel::Text(s@),
            FieldValue::Json(v) => ValueModel::Json(*v),
        }
    }
}

impl<'a> View for Field<'a> {
    type V = FieldModel;

    open spec fn view(&self) -> FieldModel {
        FieldModel { key: self.key@, value: self.value@ }
    }
}

/// Some field of `fields` has the key.
pub open spec fn has_key(fields: Seq<FieldModel>, key: Seq<char>) -> bool {
    exists|i: int| 0 <= i < fields.len() && (#[trigger] fields[i]).key == key
}

/// No two fields share a key.
pub open spec fn distinct_keys(fields: Seq<FieldModel>) -> bool {
    forall|i: int, j: int|
        0 <= i < j < fields.len() ==> (#[trigger] fields[i]).key != (#[trigger] fields[j]).key
}

/// The value of the first field with the key, if there is one.
pub open spec fn lookup(fields: Seq<FieldModel>, key: Seq<char>) -> Option<ValueModel>
    decreases fields.len(),
{
    if fields.len() == 0 {
        None
    } else if fields[0].key == key {
        Some(fields[0].value)
    } else {
        lookup(fields.drop_first(), key)
    }
}

/// `fields` with `field` put in: in place of the first field with the same
/// key, or at the end where no field has that key.
pub open spec fn upsert(fields: Seq<FieldModel>, field: FieldModel) -> Seq<FieldModel>
    decreases fields.len(),
{
    if fields.len() == 0 {
        seq![field]
    } else if fields[0].key == field.key {
        seq![field] + fields.drop_first()
    } else {
        seq![fields[0]] + upsert(fields.drop_first(), field)
    }
}

/// `base` with every field of `extra` put in, in order.
pub open spec fn merge(base: Seq<FieldModel>, extra: Seq<FieldModel>) -> Seq<FieldModel>
    decreases extra.len(),
{
    if extra.len() == 0 {
        base
    } else {
        upsert(merge(base, extra.drop_last()), extra.last())
    }
}

/// The value of the last field with the key, if there is one.
pub open spec fn last_value(fields: Seq<FieldModel>, key: Seq<char>) -> Option<ValueModel>
    decreases fields.len(),
{
    if fields.len() == 0 {
        None
    } else if fields.last().key == key {
        Some(fields.last().value)
    } else {
        last_value(fields.drop_last(), key)
    }
}

/// Putting a field in adds one to the length where the key is new, and
/// keeps the length otherwise.
pub proof fn lemma_upsert_len(fields: Seq<FieldModel>, field: FieldModel)
    ensures
        upsert(fields, field).len() == if has_key(fields, field.key) {
            fields.len()
        } else {
            fields.len() + 1
        },
    decreases fields.len(),
{
    if fields.len() == 0 {
    } else if fields[0].key == field.key {
        assert(fields[0].key == field.key);
    } else {
        let rest = fields.drop_first();
        lemma_upsert_len(rest, field);
        if has_key(fields, field.key) {
            let i = choose|i: int| 0 <= i < fields.len() && (#[trigger] fields[i]).key == field.key;
            assert(rest[i - 1].key == field.key);
        }
        if has_key(rest, field.key) {
            let i = choose|i: int| 0 <= i < rest.len() && (#[trigger] rest[i]).key == field.key;
            assert(fields[i + 1].key == field.key);
        }
    }
}

/// Where the first field with the key stands at `at`, putting a field in
/// replaces that one.
pub proof fn lemma_upsert_present(fields: Seq<FieldModel>, field: FieldModel, at: int)
    requires
        0 <= at < fields.len(),
        fields[at].key == field.key,
        forall|j: int| 0 <= j < at ==> (#[trigger] fields[j]).key != field.key,
    ensures
        upsert(fields, field) == fields.update(at, field),
    decreases fields.len(),
{
    if at == 0 {
        assert(upsert(fields, field) =~= fields.update(at, field));
    } else {
        let rest = fields.drop_first();
        assert(fields[0].key != field.key);
        assert forall|j: int| 0 <= j < at - 1 implies (#[trigger] rest[j]).key != field.key by {
            assert(fields[j + 1].key != field.key);
        }
        lemma_upsert_present(rest, field, at - 1);
        assert(upsert(fields, field) =~= fields.update(at, field));
    }
}

/// Where no field has the key, putting a field in appends it.
pub proof fn lemma_upsert_absent(fields: Seq<FieldModel>, field: FieldModel)
    requires
        !has_key(fields, field.key),
    ensures
        upsert(fields, field) == fields.push(field),
    decreases fields.len(),
{
    if fields.len() == 0 {
        assert(upsert(fields, field) =~= fields.push(field));
    } else {
        let rest = fields.drop_first();
        assert(fields[0].key != field.key);
        assert(!has_key(rest, field.key)) by {
            if has_key(rest, field.key) {
                let i = choose|i: int| 0 <= i < rest.len() && (#[trigger] rest[i]).key == field.key;
                assert(fields[i + 1].key == field.key);
            }
        }
        lemma_upsert_absent(rest, field);
        assert(upsert(fields, field) =~= fields.push(field));
    }
}

/// The first index at which `fields` holds the key, or its length.
pub open spec fn first_index(fields: Seq<FieldModel>, key: Seq<char>) -> int
    decreases fields.len(),
{
    if fields.len() == 0 {
        0
    } else if fields[0].key == key {
        0
    } else {
        1 + first_index(fields.drop_first(), key)
    }
}

/// `first_index` is the least index with the key; it is the length exactly
/// when no field has the key.
pub proof fn lemma_first_index(fields: Seq<FieldModel>, key: Seq<char>)
    ensures
        0 <= first_index(fields, key) <= fields.len(),
        forall|j: int| 0 <= j < first_index(fields, key) ==> (#[trigger] fields[j]).key != key,
        first_index(fields, key) < fields.len() ==> fields[first_index(fields, key)].key == key,
        first_index(fields, key) < fields.len() <==> has_key(fields, key),
        lookup(fields, key) == if first_index(fields, key) < fields.len() {
            Some(fields[first_index(fields, key)].value)
        } else {
            None
        },
    decreases fields.len(),
{
    if fields.len() == 0 {
    } else if fields[0].key == key {
        assert(fields[0].key == key);
    } else {
        let rest = fields.drop_first();
        lemma_first_index(rest, key);
        let at = first_index(rest, key);
        assert forall|j: int| 0 <= j < at + 1 implies (#[trigger] fields[j]).key != key by {
            if j > 0 {
                assert(rest[j - 1].key != key);
            }
        }
        if at < rest.len() {
            assert(fields[at + 1] == rest[at]);
            assert(fields[at + 1].key == key);
        }
        if has_key(fields, key) {
            let i = choose|i: int| 0 <= i < fields.len() && (#[trigger] fields[i]).key == key;
            assert(rest[i - 1].key == key);
        }
    }
}

/// Putting a field in adds its key and no other, keeps every other field's
/// value, and keeps the keys distinct.
pub proof fn lemma_upsert(fields: Seq<FieldModel>, field: FieldModel)
    ensures
        forall|k: Seq<char>|
            #![trigger has_key(upsert(fields, field), k)]
            has_key(upsert(fields, field), k) <==> (k == field.key || has_key(fields, k)),
        forall|k: Seq<char>|
            #![trigger lookup(upsert(fields, field), k)]
            lookup(upsert(fields, field), k) == if k == field.key {
                Some(field.value)
            } else {
                lookup(fields, k)
            },
        distinct_keys(fields) ==> distinct_keys(upsert(fields, field)),
        forall|i: int|
            0 <= i < fields.len() && (#[trigger] fields[i]).key != field.key ==> upsert(
                fields,
                field,
            )[i] == fields[i],
{
    let at = first_index(fields, field.key);
    let out = upsert(fields, field);
    lemma_first_index(fields, field.key);
    if at < fields.len() {
        lemma_upsert_present(fields, field, at);
    } else {
        lemma_upsert_absent(fields, field);
    }
    assert(out[at] == field);
    assert forall|k: Seq<char>| has_key(out, k) <==> (k == field.key || has_key(fields, k)) by {
        if has_key(out, k) && k != field.key {
            let i = choose|i: int| 0 <= i < out.len() && (#[trigger] out[i]).key == k;
            assert(fields[i].key == k);
        }
        if has_key(fields, k) && k != field.key {
            let i = choose|i: int| 0 <= i < fields.len() && (#[trigger] fields[i]).key == k;
            assert(out[i].key == k);
        }
        if k == field.key {
            assert(out[at].key == k);
        }
    }
    assert forall|k: Seq<char>|
        lookup(out, k) == if k == field.key {
            Some(field.value)
        } else {
            lookup(fields, k)
        } by {
        lemma_first_index(out, k);
        lemma_first_index(fields, k);
        let a = first_index(out, k);
        let b = first_index(fields, k);
        if k == field.key {
            if a < at {
                assert(out[a].key == k);
                assert(fields[a].key != k);
            }
            if at < a {
                assert(out[at].key == k);
            }
        } else {
            if a < out.len() {
                assert(out[a].key == k);
                assert(fields[a].key == k);
                if b < a {
                    assert(fields[b].key == k);
                    assert(out[b].key == k);
                }
            }
            if b < fields.len() {
                assert(fields[b].key == k);
                assert(out[b].key == k);
                if a < b {
                    assert(out[a].key == k);
                    assert(fields[a].key == k);
                }
            }
        }
    }
    if distinct_keys(fields) {
        assert forall|i: int, j: int| 0 <= i < j < out.len() implies (#[trigger] out[i]).key != (
        #[trigger] out[j]).key by {
            if i != at && j != at {
                assert(fields[i].key != fields[j].key);
            } else if i == at {
                if at < fields.len() {
                    assert(fields[at].key != fields[j].key);
                }
            } else {
                assert(fields[i].key != field.key);
            }
        }
    }
}

/// Merging keeps the keys distinct, holds exactly the keys of both sides,
/// and gives each key the value of its last field in `extra`, or else the
/// value it had in `base`.
pub proof fn lemma_merge(base: Seq<FieldModel>, extra: Seq<FieldModel>)
    ensures
        distinct_keys(base) ==> distinct_keys(merge(base, extra)),
        forall|k: Seq<char>|
            #![trigger has_key(merge(base, extra), k)]
            has_key(merge(base, extra), k) <==> (has_key(base, k) || has_key(extra, k)),
        forall|k: Seq<char>|
            #![trigger lookup(merge(base, extra), k)]
            !has_key(extra, k) ==> lookup(merge(base, extra), k) == lookup(base, k),
        forall|i: int|
            0 <= i < base.len() && !has_key(extra, (#[trigger] base[i]).key) ==> i < merge(
                base,
                extra,
            ).len() && merge(base, extra)[i] == base[i],
        merge(base, extra).len() >= base.len(),
    decreases extra.len(),
{
    if extra.len() == 0 {
    } else {
        let front = extra.drop_last();
        let last = extra.last();
        let mid = merge(base, front);
        lemma_merge(base, front);
        lemma_upsert(mid, last);
        lemma_upsert_len(mid, last);
        assert forall|k: Seq<char>|
            has_key(merge(base, extra), k) <==> (has_key(base, k) || has_key(extra, k)) by {
            if has_key(extra, k) {
                let i = choose|i: int| 0 <= i < extra.len() && (#[trigger] extra[i]).key == k;
                if i < front.len() {
                    assert(front[i].key == k);
                }
            }
            if has_key(front, k) {
                let i = choose|i: int| 0 <= i < front.len() && (#[trigger] front[i]).key == k;
                assert(extra[i].key == k);
            }
            if k == last.key {
                assert(extra[extra.len() - 1].key == k);
            }
        }
        assert forall|k: Seq<char>| !has_key(extra, k) implies lookup(merge(base, extra), k)
            == lookup(base, k) by {
            assert(extra[extra.len() - 1].key != k);
            if has_key(front, k) {
                let i = choose|i: int| 0 <= i < front.len() && (#[trigger] front[i]).key == k;
                assert(extra[i].key == k);
            }
        }
        assert forall|i: int|
            0 <= i < base.len() && !has_key(extra, (#[trigger] base[i]).key) implies i < merge(
            base,
            extra,
        ).len() && merge(base, extra)[i] == base[i] by {
            let k = base[i].key;
            assert(extra[extra.len() - 1].key != k);
            if has_key(front, k) {
                let j = choose|j: int| 0 <= j < front.len() && (#[trigger] front[j]).key == k;
                assert(extra[j].key == k);
            }
            assert(mid[i] == base[i]);
        }
    }
}

/// A list has a last value for a key exactly when it has the key.
pub proof fn lemma_last_value(fields: Seq<FieldModel>, key: Seq<char>)
    ensures
        last_value(fields, key) is Some <==> has_key(fields, key),
    decreases fields.len(),
{
    if fields.len() != 0 {
        let front = fields.drop_last();
        lemma_last_value(front, key);
        if fields.last().key == key {
            assert(fields[fields.len() - 1].key == key);
        } else {
            if has_key(fields, key) {
                let i = choose|i: int| 0 <= i < fields.len() && (#[trigger] fields[i]).key == key;
                assert(front[i].key == key);
            }
            if has_key(front, key) {
                let i = choose|i: int| 0 <= i < front.len() && (#[trigger] front[i]).key == key;
                assert(fields[i].key == key);
            }
        }
    }
}

/// The last value for a key in a concatenation is the last one in the
/// second part, or else the last one in the first part.
pub proof fn lemma_last_value_concat(a: Seq<FieldModel>, b: Seq<FieldModel>, key: Seq<char>)
    ensures
        last_value(a + b, key) == if last_value(b, key) is Some {
            last_value(b, key)
        } else {
            last_value(a, key)
        },
    decreases b.len(),
{
    if b.len() == 0 {
        assert(a + b =~= a);
    } else {
        assert((a + b).drop_last() =~= a + b.drop_last());
        assert((a + b).last() == b.last());
        lemma_last_value_concat(a, b.drop_last(), key);
    }
}

/// A concatenation has a key exactly when one of its parts has it.
pub proof fn lemma_has_key_concat(a: Seq<FieldModel>, b: Seq<FieldModel>, key: Seq<char>)
    ensures
        has_key(a + b, key) <==> (has_key(a, key) || has_key(b, key)),
{
    if has_key(a, key) {
        let i = choose|i: int| 0 <= i < a.len() && (#[trigger] a[i]).key == key;
        assert((a + b)[i].key == key);
    }
    if has_key(b, key) {
        let i = choose|i: int| 0 <= i < b.len() && (#[trigger] b[i]).key == key;
        assert((a + b)[a.len() + i].key == key);
    }
    if has_key(a + b, key) {
        let i = choose|i: int| 0 <= i < (a + b).len() && (#[trigger] (a + b)[i]).key == key;
        if i < a.len() {
            assert(a[i].key == key);
        } else {
            assert(b[i - a.len()].key == key);
        }
    }
}

/// After a merge, a key has the value of its last field in `extra`, or else
/// the value that it had in `base`.
pub proof fn lemma_merge_lookup(base: Seq<FieldModel>, extra: Seq<FieldModel>, key: Seq<char>)
    ensures
        lookup(merge(base, extra), key) == if last_value(extra, key) is Some {
            last_value(extra, key)
        } else {
            lookup(base, key)
        },
    decreases extra.len(),
{
    if extra.len() != 0 {
        lemma_merge_lookup(base, extra.drop_last(), key);
        lemma_upsert(merge(base, extra.drop_last()), extra.last());
    }
}

/// A list has a value under a key exactly when it has the key.
pub proof fn lemma_lookup(fields: Seq<FieldModel>, key: Seq<char>)
    ensures
        lookup(fields, key) is Some <==> has_key(fields, key),
{
    lemma_first_index(fields, key);
}

/// The JSON text of a value: `null`, a decimal numeral, or what `serde_json`
/// writes for a string or a captured value. `None` where `serde_json` fails.
pub open spec fn value_text(value: ValueModel) -> Option<Seq<char>> {
    match value {
        ValueModel::Null => Some("null"@),
        ValueModel::Unsigned(n) => Some(decimal(n as nat)),
        ValueModel::Text(s) => json_string_text(s),
        ValueModel::Json(v) => json_value_text(v),
    }
}

/// The JSON text of a field: its key as a string literal, a colon, its
/// value. `None` where either has no text.
pub open spec fn field_text(field: FieldModel) -> Option<Seq<char>> {
    if json_string_text(field.key) is Some && value_text(field.value) is Some {
        Some(entry_text(json_string_text(field.key)->0, value_text(field.value)->0))
    } else {
        None
    }
}

/// Every field has a JSON text.
pub open spec fn encodable(fields: Seq<FieldModel>) -> bool {
    forall|i: int| 0 <= i < fields.len() ==> field_text(#[trigger] fields[i]) is Some
}

/// The JSON texts of the fields, in order.
pub open spec fn field_texts(fields: Seq<FieldModel>) -> Seq<Seq<char>> {
    Seq::new(fields.len(), |i: int| field_text(fields[i])->0)
}

/// The line of a record: one compact JSON object with the fields in order,
/// then a line feed. `None` where some field has no text.
pub open spec fn record_line(fields: Seq<FieldModel>) -> Option<Seq<char>> {
    if encodable(fields) {
        Some(object_text(field_texts(fields)) + "\n"@)
    } else {
        None
    }
}

/// Writes a value as JSON text.
pub fn encode_field_value(value: &FieldValue) -> (r: Result<String, FormatError>)
    ensures
        match r {
            Ok(s) => value_text(value@) == Some(s@),
            Err(_) => value_text(value@) is None,
        },
{
    match value {
        FieldValue::Null => Ok(String::from_str("null")),
        FieldValue::Unsigned(n) => Ok(decimal_string(*n)),
        FieldValue::Text(s) => match encode_str(s.as_str()) {
            Ok(text) => Ok(text),
            Err(e) => Err(FormatError::Json(e)),
        },
        FieldValue::Json(v) => match encode_value(v) {
            Ok(text) => Ok(text),
            Err(e) => Err(FormatError::Json(e)),
        },
    }
}

/// Writes a field as one entry of a JSON object.
pub fn encode_field(field: &Field) -> (r: Result<String, FormatError>)
    ensures
        match r {
            Ok(s) => field_text(field@) == Some(s@),
            Err(_) => field_text(field@) is None,
        },
{
    let key = match encode_str(field.key.as_str()) {
        Ok(text) => text,
        Err(e) => {
            return Err(FormatError::Json(e));
        },
    };
    let value = match encode_field_value(&field.value) {
        Ok(text) => text,
        Err(e) => {
            return Err(e);
        },
    };
    Ok(frame_entry(key.as_str(), value.as_str()))
}

/// What a list of fields is.
pub open spec fn models(fields: Seq<Field>) -> Seq<FieldModel> {
    Seq::new(fields.len(), |i: int| fields[i]@)
}

/// An ordered mapping from keys to values. No two of its fields share a key.
#[derive(Debug)]
pub struct Record<'a> {
    fields: Vec<Field<'a>>,
}

impl<'a> View for Record<'a> {
    type V = Seq<FieldModel>;

    closed spec fn view(&self) -> Seq<FieldModel> {
        models(self.fields@)
    }
}

impl<'a> Record<'a> {
    #[verifier::type_invariant]
    pub open spec fn keys_stay_distinct(&self) -> bool {
        distinct_keys(self@)
    }

    /// The record without fields.
    pub fn new() -> (r: Self)
        ensures
            r@ == Seq::<FieldModel>::empty(),
    {
        let r = Record { fields: Vec::new() };
        assert(r@ =~= Seq::<FieldModel>::empty());
        r
    }

    /// The number of fields, which all have different keys.
    pub fn len(&self) -> (n: usize)
        ensures
            n == self@.len(),
            distinct_keys(self@),
    {
        proof {
            use_type_invariant(self);
        }
        self.fields.len()
    }

    /// The key of the field at `index`.
    pub fn key_at(&self, index: usize) -> (r: &str)
        requires
            index < self@.len(),
        ensures
            r@ == self@[index as int].key,
    {
        self.fields[index].key.as_str()
    }

    /// The value of the field at `index`.
    pub fn value_at(&self, index: usize) -> (r: &FieldValue<'a>)
        requires
            index < self@.len(),
        ensures
            r@ == self@[index as int].value,
    {
        &self.fields[index].value
    }

    /// The index of the first field with the key, or the length.
    fn position(&self, key: &str) -> (at: usize)
        ensures
            at == first_index(self@, key@),
    {
        let mut i: usize = 0;
        while i < self.fields.len()
            invariant
                i <= self.fields@.len(),
                forall|j: int| 0 <= j < i ==> (#[trigger] self@[j]).key != key@,
            decreases self.fields@.len() - i,
        {
            if str_eq(self.fields[i].key.as_str(), key) {
                proof {
                    lemma_first_index(self@, key@);
                    let at = first_index(self@, key@);
                    assert(self@[i as int].key == key@);
                    if at < i {
                        assert(self@[at].key != key@);
                    }
                }
                return i;
            }
            i += 1;
        }
        proof {
            lemma_first_index(self@, key@);
            let at = first_index(self@, key@);
            if at < self@.len() {
                assert(self@[at].key != key@);
            }
        }
        i
    }

    /// The value under the key, if the record has the key.
    pub fn get(&self, key: &str) -> (r: Option<&FieldValue<'a>>)
        ensures
            r is Some <==> has_key(self@, key@),
            match r {
                Some(v) => lookup(self@, key@) == Some(v@),
                None => lookup(self@, key@) is None,
            },
    {
        let at = self.position(key);
        proof {
            lemma_first_index(self@, key@);
        }
        if at < self.fields.len() {
            Some(&self.fields[at].value)
        } else {
            None
        }
    }

    /// Writes the record as one line of JSON. It fails exactly where
    /// `serde_json` fails on a key or a value; nothing is then returned.
    pub fn to_line(&self) -> (r: Result<String, FormatError>)
        ensures
            match r {
                Ok(s) => record_line(self@) == Some(s@),
                Err(_) => record_line(self@) is None,
            },
    {
        let mut entries: Vec<String> = Vec::new();
        let mut i: usize = 0;
        while i < self.fields.len()
            invariant
                i <= self.fields@.len(),
                entries@.len() == i,
                forall|j: int| 0 <= j < i ==> field_text(#[trigger] self@[j]) == Some(entries@[j]@),
            decreases self.fields@.len() - i,
        {
            match encode_field(&self.fields[i]) {
                Ok(text) => {
                    entries.push(text);
                },
                Err(e) => {
                    assert(field_text(self@[i as int]) is None);
                    return Err(e);
                },
            }
            i += 1;
        }
        assert(encodable(self@));
        assert(texts(entries@) =~= field_texts(self@));
        let mut line = frame_object(&entries);
        line.append("\n");
        Ok(line)
    }

    /// Puts a field in: in place of the field with the same key, or at the
    /// end where the key is new.
    pub fn insert(&mut self, key: String, value: FieldValue<'a>)
        ensures
            final(self)@ == upsert(old(self)@, FieldModel { key: key@, value: value@ }),
            distinct_keys(final(self)@),
    {
        proof {
            use_type_invariant(&*self);
        }
        let ghost before = self@;
        let ghost field = FieldModel { key: key@, value: value@ };
        let at = self.position(key.as_str());
        proof {
            lemma_first_index(before, key@);
            lemma_upsert(before, field);
            if at < before.len() {
                lemma_upsert_present(before, field, at as int);
            } else {
                lemma_upsert_absent(before, field);
            }
        }
        let mut fields: Vec<Field<'a>> = Vec::new();
        std::mem::swap(&mut self.fields, &mut fields);
        if at < fields.len() {
            fields.set(at, Field { key, value });
        } else {
            fields.push(Field { key, value });
        }
        assert(models(fields@) =~= upsert(before, field));
        self.fields = fields;
    }
}

} // verus!
