//! The field store: the captured fields of one span or one event.

use crate::json::clone_value;
use crate::record::{
    distinct_keys, first_index, has_key, lemma_first_index, lemma_merge, lemma_upsert,
    lemma_upsert_absent, lemma_upsert_present, lookup, merge, upsert, FieldModel, ValueModel,
};
use crate::text::str_eq;
use vstd::prelude::*;

verus! {

/// What a list of captured entries is, in contracts: one field for each,
/// with the JSON value as it was captured.
pub open spec fn captured(entries: Seq<(String, serde_json::Value)>) -> Seq<FieldModel> {
    Seq::new(
        entries.len(),
        |i: int| FieldModel { key: entries[i].0@, value: ValueModel::Json(entries[i].1) },
    )
}

/// The fields of a span that lies some generations below another: the
/// fields of the ancestor, and merged into them the own fields of each
/// generation in turn, the outermost first. It is what a store holds that
/// started as a duplicate of its parent's store at each generation.
pub open spec fn descended(ancestor: Seq<FieldModel>, generations: Seq<Seq<FieldModel>>) -> Seq<
    FieldModel,
>
    decreases generations.len(),
{
    if generations.len() == 0 {
        ancestor
    } else {
        merge(descended(ancestor, generations.drop_last()), generations.last())
    }
}

/// A descendant has a field under every key of its ancestor.
pub proof fn lemma_descended_keeps_keys(
    ancestor: Seq<FieldModel>,
    generations: Seq<Seq<FieldModel>>,
    key: Seq<char>,
)
    requires
        has_key(ancestor, key),
    ensures
        has_key(descended(ancestor, generations), key),
    decreases generations.len(),
{
    if generations.len() != 0 {
        lemma_descended_keeps_keys(ancestor, generations.drop_last(), key);
        lemma_merge(descended(ancestor, generations.drop_last()), generations.last());
    }
}

/// A bag of captured field values, keyed by name. It keeps the order in which
/// the names first came, and holds each name once.
#[derive(Debug)]
pub struct FieldStore {
    entries: Vec<(String, serde_json::Value)>,
}

impl View for FieldStore {
    type V = Seq<FieldModel>;

    closed spec fn view(&self) -> Seq<FieldModel> {
        captured(self.entries@)
    }
}

impl FieldStore {
    #[verifier::type_invariant]
    pub open spec fn names_stay_distinct(&self) -> bool {
        distinct_keys(self@)
    }

    /// The store without entries.
    pub fn new() -> (r: Self)
        ensures
            r@ == Seq::<FieldModel>::empty(),
    {
        let r = FieldStore { entries: Vec::new() };
        assert(r@ =~= Seq::<FieldModel>::empty());
        r
    }

    /// The number of entries, which all have different names and a captured
    /// JSON value each.
    pub fn len(&self) -> (n: usize)
        ensures
            n == self@.len(),
            distinct_keys(self@),
            forall|i: int| 0 <= i < self@.len() ==> (#[trigger] self@[i]).value is Json,
    {
        proof {
            use_type_invariant(self);
        }
        self.entries.len()
    }

    /// The name of the entry at `index`.
    pub fn key_at(&self, index: usize) -> (r: &str)
        requires
            index < self@.len(),
        ensures
            r@ == self@[index as int].key,
    {
        self.entries[index].0.as_str()
    }

    /// The value of the entry at `index`.
    pub fn value_at(&self, index: usize) -> (r: &serde_json::Value)
        requires
            index < self@.len(),
        ensures
            self@[index as int].value == ValueModel::Json(*r),
    {
        &self.entries[index].1
    }

    /// The index of the first entry with the name, or the length.
    fn position(&self, key: &str) -> (at: usize)
        ensures
            at == first_index(self@, key@),
    {
        let mut i: usize = 0;
        while i < self.entries.len()
            invariant
                i <= self.entries@.len(),
                forall|j: int| 0 <= j < i ==> (#[trigger] self@[j]).key != key@,
            decreases self.entries@.len() - i,
        {
            if str_eq(self.entries[i].0.as_str(), key) {
                proof {
                    lemma_first_index(self@, key@);
                    let at = first_index(self@, key@);
                    assert(self@[i as int].key == key@);
                    if at < i {
                        assert(self@[at].key != key@);
                    }
                }
                return i;
            }
            i += 1;
        }
        proof {
            lemma_first_index(self@, key@);
            let at = first_index(self@, key@);
            if at < self@.len() {
                assert(self@[at].key != key@);
            }
        }
        i
    }

    /// The value under the name, if the store has the name.
    pub fn get(&self, key: &str) -> (r: Option<&serde_json::Value>)
        ensures
            r is Some <==> has_key(self@, key@),
            match r {
                Some(v) => lookup(self@, key@) == Some(ValueModel::Json(*v)),
                None => lookup(self@, key@) is None,
            },
    {
        let at = self.position(key);
        proof {
            lemma_first_index(self@, key@);
        }
        if at < self.entries.len() {
            Some(&self.entries[at].1)
        } else {
            None
        }
    }

    /// Records a value under a name: in place of the value that the name had,
    /// or as a new entry at the end.
    pub fn insert(&mut self, key: String, value: serde_json::Value)
        ensures
            final(self)@ == upsert(
                old(self)@,
                FieldModel { key: key@, value: ValueModel::Json(value) },
            ),
            distinct_keys(final(self)@),
    {
        proof {
            use_type_invariant(&*self);
        }
        let ghost before = self@;
        let ghost field = FieldModel { key: key@, value: ValueModel::Json(value) };
        let at = self.position(key.as_str());
        proof {
            lemma_first_index(before, key@);
            lemma_upsert(before, field);
            if at < before.len() {
                lemma_upsert_present(before, field, at as int);
            } else {
                lemma_upsert_absent(before, field);
            }
        }
        let mut entries: Vec<(String, serde_json::Value)> = Vec::new();
        std::mem::swap(&mut self.entries, &mut entries);
        if at < entries.len() {
            entries.set(at, (key, value));
        } else {
            entries.push((key, value));
        }
        assert(captured(entries@) =~= upsert(before, field));
        self.entries = entries;
    }

    /// A store with the same entries: what a child span starts from, so that
    /// the fields of its parent are found on it too.
    pub fn duplicate(&self) -> (r: Self)
        ensures
            r@ == self@,
    {
        proof {
            use_type_invariant(self);
        }
        let mut entries: Vec<(String, serde_json::Value)> = Vec::new();
        let mut i: usize = 0;
        while i < self.entries.len()
            invariant
                i <= self.entries@.len(),
                entries@.len() == i,
                forall|j: int|
                    0 <= j < i ==> (#[trigger] entries@[j]).0@ == self.entries@[j].0@
                        && entries@[j].1 == self.entries@[j].1,
            decreases self.entries@.len() - i,
        {
            let key = self.entries[i].0.clone();
            let value = clone_value(&self.entries[i].1);
            entries.push((key, value));
            i += 1;
        }
        assert(captured(entries@) =~= self@);
        FieldStore { entries }
    }
}

} // verus!
