//! Media classes of nodes.

use vstd::prelude::*;
use crate::text::same_text;

verus! {

/// The media class that a node announces, such as `Audio/Sink`.
#[derive(Clone, Debug, PartialEq, Eq)]
pub struct MediaClass {
    name: String,
}

impl View for MediaClass {
    type V = Seq<char>;

    closed spec fn view(&self) -> Seq<char> {
        self.name@
    }
}

impl MediaClass {
    /// Whether a class spelled `name` takes audio in: a sink, or a duplex
    /// node.
    pub open spec fn names_sink(name: Seq<char>) -> bool {
        name == "Audio/Sink"@ || name == "Audio/Duplex"@
    }

    /// Whether a class spelled `name` gives audio out: a source, a virtual
    /// source, or a duplex node.
    pub open spec fn names_source(name: Seq<char>) -> bool {
        name == "Audio/Source"@ || name == "Audio/Source/Virtual"@ || name == "Audio/Duplex"@
    }

    /// The media class spelled `name`.
    pub fn from(name: &str) -> (class: MediaClass)
        ensures
            class@ == name@,
    {
        MediaClass { name: name.to_owned() }
    }

    /// The spelling of this class.
    pub fn as_str(&self) -> (name: &str)
        ensures
            name@ == self@,
    {
        self.name.as_str()
    }

    /// Whether this is the class of a sink.
    pub fn is_sink(&self) -> (r: bool)
        ensures
            r == Self::names_sink(self@),
    {
        let name = self.name.as_str();
        same_text(name, "Audio/Sink") || same_text(name, "Audio/Duplex")
    }

    /// Whether this is the class of a source.
    pub fn is_source(&self) -> (r: bool)
        ensures
            r == Self::names_source(self@),
    {
        let name = self.name.as_str();
        same_text(name, "Audio/Source") || same_text(name, "Audio/Source/Virtual") || same_text(
            name,
            "Audio/Duplex",
        )
    }
}

} // verus!
