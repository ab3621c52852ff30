//! What the instrumentation framework tells of a span or an event.

use crate::fields::FieldStore;
use vstd::prelude::*;
use vstd::string::*;

verus! {

/// The severity of a span or an event.
#[derive(Copy, Clone, Debug, PartialEq, Eq)]
pub enum Level {
    Trace,
    Debug,
    Info,
    Warn,
    Error,
}

/// The Bunyan number of a severity.
pub open spec fn bunyan_level(level: Level) -> u16 {
    match level {
        Level::Trace => 10,
        Level::Debug => 20,
        Level::Info => 30,
        Level::Warn => 40,
        Level::Error => 50,
    }
}

/// Converts a severity to Bunyan's levels.
pub fn to_bunyan_level(level: &Level) -> (r: u16)
    ensures
        r == bunyan_level(*level),
        r == 10 || r == 20 || r == 30 || r == 40 || r == 50,
{
    match level {
        Level::Error => 50,
        Level::Warn => 40,
        Level::Info => 30,
        Level::Debug => 20,
        Level::Trace => 10,
    }
}

/// The type of record we are dealing with: entering a span, exiting a span,
/// an event.
#[derive(Copy, Clone, Debug)]
pub enum Type {
    EnterSpan,
    ExitSpan,
    Event,
}

impl Type {
    /// The word that stands for the type in a record.
    pub open spec fn tag(self) -> Seq<char> {
        match self {
            Type::EnterSpan => "START"@,
            Type::ExitSpan => "END"@,
            Type::Event => "EVENT"@,
        }
    }

    /// The word that stands for the type in a record.
    pub fn as_str(&self) -> (r: &'static str)
        ensures
            r@ == self.tag(),
    {
        match self {
            Type::EnterSpan => "START",
            Type::ExitSpan => "END",
            Type::Event => "EVENT",
        }
    }

    /// The word that stands for the type in a record, as an owned string.
    pub fn to_string(&self) -> (r: String)
        ensures
            r@ == self.tag(),
    {
        String::from_str(self.as_str())
    }
}

/// Where a span or an event comes from, and how severe it is.
#[derive(Debug)]
pub struct Metadata {
    pub name: String,
    pub level: Level,
    pub target: String,
    pub file: Option<String>,
    pub line: Option<u32>,
}

/// A span as the formatter sees it: its identity, the identity of its parent
/// if it has one, its metadata and the fields captured for it.
#[derive(Debug)]
pub struct Span {
    pub id: u64,
    pub parent_id: Option<u64>,
    pub metadata: Metadata,
    pub fields: FieldStore,
}

/// An event as the formatter sees it: its metadata and its own fields.
#[derive(Debug)]
pub struct Event {
    pub metadata: Metadata,
    pub fields: FieldStore,
}

} // verus!
