//! The field names that every record carries, and the set of names that a
//! caller has asked to leave out.

use crate::text::str_eq;
use ahash::HashSetExt;
use vstd::prelude::*;
use vstd::string::*;

verus! {

/// Keys for core fields of the Bunyan format.
pub const BUNYAN_VERSION: &'static str = "v";

pub const LEVEL: &'static str = "level";

pub const NAME: &'static str = "name";

pub const HOSTNAME: &'static str = "hostname";

pub const PID: &'static str = "pid";

pub const TIME: &'static str = "time";

pub const MESSAGE: &'static str = "msg";

/// The name is one of the seven core fields of the Bunyan format.
pub open spec fn is_reserved(key: Seq<char>) -> bool {
    key == BUNYAN_VERSION@ || key == LEVEL@ || key == NAME@ || key == HOSTNAME@ || key == PID@
        || key == TIME@ || key == MESSAGE@
}

/// Tells whether the name is one of the seven core fields.
pub fn is_required_field(key: &str) -> (r: bool)
    ensures
        r == is_reserved(key@),
{
    str_eq(key, BUNYAN_VERSION) || str_eq(key, LEVEL) || str_eq(key, NAME) || str_eq(key, HOSTNAME)
        || str_eq(key, PID) || str_eq(key, TIME) || str_eq(key, MESSAGE)
}

/// This error will be returned in `BunyanFormattingLayer::skip_fields` if
/// trying to skip a core field.
#[non_exhaustive]
#[derive(Debug)]
pub struct SkipFieldError(String);

impl SkipFieldError {
    /// The core field that the caller tried to skip.
    pub closed spec fn field(&self) -> Seq<char> {
        self.0@
    }

    /// The error for an attempt to skip `field`.
    pub(crate) fn new(field: String) -> (r: Self)
        ensures
            r.field() == field@,
    {
        SkipFieldError(field)
    }

    /// The message of the error, which names the field.
    pub fn to_string(&self) -> (r: String)
        ensures
            r@ == self.field() + " is a core field in the bunyan log format, it can't be skipped"@,
    {
        let mut out = self.0.clone();
        out.append(" is a core field in the bunyan log format, it can't be skipped");
        out
    }
}

/// `ahash::RandomState`, the hasher of the skip set.
#[verifier::external_type_specification]
#[verifier::external_body]
pub struct ExRandomState(ahash::RandomState);

/// The names that a skip set holds.
pub uninterp spec fn skipped_names(set: ahash::HashSet<String>) -> Set<Seq<char>>;

/// Calls `ahash::HashSetExt::new`, which makes an empty set.
#[verifier::external_body]
pub(crate) fn skip_set_new() -> (r: ahash::HashSet<String>)
    ensures
        skipped_names(r) == Set::<Seq<char>>::empty(),
{
    ahash::HashSet::new()
}

/// Calls `HashSet::insert` on a skip set: afterwards the set holds the name
/// besides what it held, whether or not it held the name before.
#[verifier::external_body]
pub(crate) fn skip_set_insert(set: &mut ahash::HashSet<String>, name: String)
    ensures
        skipped_names(*final(set)) == skipped_names(*old(set)).insert(name@),
{
    set.insert(name);
}

/// Calls `HashSet::contains` on a skip set.
#[verifier::external_body]
pub(crate) fn skip_set_contains(set: &ahash::HashSet<String>, name: &str) -> (r: bool)
    ensures
        r == skipped_names(*set).contains(name@),
{
    set.contains(name)
}

} // verus!
