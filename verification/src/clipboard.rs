//! What a synchronized clipboard carries.
//!
//! The clipboard synchronizer itself — polling the OS clipboard and
//! shipping changes — runs outside the core. The content it carries and
//! the change records it passes around are modeled here.

use vstd::prelude::*;
use crate::text::str_eq;

verus! {

/// Clipboard content; only text travels today.
#[derive(Debug, Clone)]
pub enum ClipboardContent {
    /// Plain UTF-8 text.
    Text(String),
}

impl PartialEq for ClipboardContent {
    fn eq(&self, other: &Self) -> (r: bool) {
        match (self, other) {
            (ClipboardContent::Text(a), ClipboardContent::Text(b)) => str_eq(
                a.as_str(),
                b.as_str(),
            ),
        }
    }
}

impl vstd::std_specs::cmp::PartialEqSpecImpl for ClipboardContent {
    open spec fn obeys_eq_spec() -> bool {
        true
    }

    open spec fn eq_spec(&self, other: &Self) -> bool {
        self.spec_text() == other.spec_text()
    }
}

impl Eq for ClipboardContent {}

impl ClipboardContent {
    /// The carried text.
    pub open spec fn spec_text(&self) -> Seq<char> {
        match self {
            ClipboardContent::Text(s) => s@,
        }
    }

    /// The content as text; always present while only text travels.
    pub fn as_text(&self) -> (r: Option<&str>)
        ensures
            match r {
                Some(s) => s@ == self.spec_text(),
                None => false,
            },
    {
        match self {
            ClipboardContent::Text(s) => Some(s.as_str()),
        }
    }

    /// Whether there is nothing in it.
    pub fn is_empty(&self) -> (r: bool)
        ensures
            r == (self.spec_text().len() == 0),
    {
        match self {
            ClipboardContent::Text(s) => s.as_str().is_empty(),
        }
    }
}

/// One observed clipboard change: what it now holds, when it was seen
/// (milliseconds on the observer's clock), and which machine it came
/// from — none for a local change.
#[derive(Debug, Clone)]
pub struct ClipboardChange {
    pub content: ClipboardContent,
    pub timestamp_ms: u64,
    pub source: Option<String>,
}

} // verus!
