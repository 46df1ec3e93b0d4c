//! What can be wrong with the text of a template.

use vstd::prelude::*;

verus! {

/// Why a template or a placeholder could not be parsed. Each variant holds
/// the offending text.
#[derive(Clone, Debug, PartialEq, Eq)]
pub enum ParseError {
    /// A `{` that no `}` follows; holds the text from that brace to the end.
    Unclosed(String),
    /// A placeholder without the `:` between kind and property; holds the
    /// placeholder's text.
    MissingSeparator(String),
    /// A placeholder whose kind is none of `device`, `node`, `client`; holds
    /// the kind.
    UnknownKind(String),
    /// A placeholder whose kind has no property of that name; holds the
    /// property.
    UnknownProperty(String),
}

/// The mathematical form of a [`ParseError`].
pub enum ParseErrorView {
    Unclosed(Seq<char>),
    MissingSeparator(Seq<char>),
    UnknownKind(Seq<char>),
    UnknownProperty(Seq<char>),
}

/// The sentence that reports an error: what is wrong, and the offending
/// text.
pub open spec fn message_text(e: ParseErrorView) -> Seq<char> {
    match e {
        ParseErrorView::Unclosed(s) => "placeholder is not closed: "@ + s,
        ParseErrorView::MissingSeparator(s) => "placeholder has no kind: "@ + s,
        ParseErrorView::UnknownKind(s) => "unknown kind: "@ + s,
        ParseErrorView::UnknownProperty(s) => "unknown property: "@ + s,
    }
}

impl ParseError {
    /// Reports the error in words.
    pub fn message(&self) -> (out: String)
        ensures
            out@ == message_text(self@),
    {
        let mut out = String::new();
        match self {
            ParseError::Unclosed(s) => {
                out.append("placeholder is not closed: ");
                out.append(s.as_str());
            },
            ParseError::MissingSeparator(s) => {
                out.append("placeholder has no kind: ");
                out.append(s.as_str());
            },
            ParseError::UnknownKind(s) => {
                out.append("unknown kind: ");
                out.append(s.as_str());
            },
            ParseError::UnknownProperty(s) => {
                out.append("unknown property: ");
                out.append(s.as_str());
            },
        }
        assert(out@ =~= message_text(self@));
        out
    }
}

impl View for ParseError {
    type V = ParseErrorView;

    open spec fn view(&self) -> ParseErrorView {
        match self {
            ParseError::Unclosed(s) => ParseErrorView::Unclosed(s@),
            ParseError::MissingSeparator(s) => ParseErrorView::MissingSeparator(s@),
            ParseError::UnknownKind(s) => ParseErrorView::UnknownKind(s@),
            ParseError::UnknownProperty(s) => ParseErrorView::UnknownProperty(s@),
        }
    }
}

} // verus!
