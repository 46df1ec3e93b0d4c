//! Tags: the properties that a template can refer to.

use vstd::prelude::*;
use crate::config::error::{ParseError, ParseErrorView};
use crate::text::{chars_of, find_char, spells};

verus! {

/// A property of a client.
#[derive(Clone, Copy, Debug, PartialEq, Eq, PartialOrd, Ord, Structural, Hash)]
pub enum ClientTag {
    ApplicationName,
    ApplicationProcessBinary,
}

/// A property of a device.
#[derive(Clone, Copy, Debug, PartialEq, Eq, PartialOrd, Ord, Structural, Hash)]
pub enum DeviceTag {
    DeviceDescription,
    DeviceName,
    DeviceNick,
}

/// A property of a node.
#[derive(Clone, Copy, Debug, PartialEq, Eq, PartialOrd, Ord, Structural, Hash)]
pub enum NodeTag {
    MediaName,
    NodeDescription,
    NodeName,
    NodeNick,
}

/// One property of one kind of object.
///
/// Tags are ordered as their textual forms are; the variants, here and in
/// the three enums of properties, are declared in that order.
#[derive(Clone, Copy, Debug, PartialEq, Eq, Ord, Structural, Hash)]
pub enum Tag {
    Client(ClientTag),
    Device(DeviceTag),
    Node(NodeTag),
}

/// Whether `kind` is the name of a kind of object.
pub open spec fn is_kind(kind: Seq<char>) -> bool {
    kind == "device"@ || kind == "node"@ || kind == "client"@
}

/// The table of properties: the tag that `property` names within `kind`.
pub open spec fn tag_named(kind: Seq<char>, property: Seq<char>) -> Option<Tag> {
    if kind == "device"@ {
        if property == "device.name"@ {
            Some(Tag::Device(DeviceTag::DeviceName))
        } else if property == "device.nick"@ {
            Some(Tag::Device(DeviceTag::DeviceNick))
        } else if property == "device.description"@ {
            Some(Tag::Device(DeviceTag::DeviceDescription))
        } else {
            None
        }
    } else if kind == "node"@ {
        if property == "node.name"@ {
            Some(Tag::Node(NodeTag::NodeName))
        } else if property == "node.nick"@ {
            Some(Tag::Node(NodeTag::NodeNick))
        } else if property == "node.description"@ {
            Some(Tag::Node(NodeTag::NodeDescription))
        } else if property == "media.name"@ {
            Some(Tag::Node(NodeTag::MediaName))
        } else {
            None
        }
    } else if kind == "client"@ {
        if property == "application.name"@ {
            Some(Tag::Client(ClientTag::ApplicationName))
        } else if property == "application.process.binary"@ {
            Some(Tag::Client(ClientTag::ApplicationProcessBinary))
        } else {
            None
        }
    } else {
        None
    }
}

/// What the text between the braces of a placeholder means: the text up to
/// its first `:` is the kind, the rest is the property.
pub open spec fn parse_tag_spec(body: Seq<char>) -> Result<Tag, ParseErrorView> {
    match body.index_of_first(':') {
        None => Err(ParseErrorView::MissingSeparator(body)),
        Some(i) => {
            let kind = body.subrange(0, i);
            let property = body.subrange(i + 1, body.len() as int);
            if !is_kind(kind) {
                Err(ParseErrorView::UnknownKind(kind))
            } else {
                match tag_named(kind, property) {
                    Some(tag) => Ok(tag),
                    None => Err(ParseErrorView::UnknownProperty(property)),
                }
            }
        },
    }
}

impl Tag {
    /// The name of the kind of object that the tag belongs to.
    pub open spec fn kind_text(self) -> Seq<char> {
        match self {
            Tag::Device(_) => "device"@,
            Tag::Node(_) => "node"@,
            Tag::Client(_) => "client"@,
        }
    }

    /// The name of the property within its kind.
    pub open spec fn property_text(self) -> Seq<char> {
        match self {
            Tag::Device(DeviceTag::DeviceName) => "device.name"@,
            Tag::Device(DeviceTag::DeviceNick) => "device.nick"@,
            Tag::Device(DeviceTag::DeviceDescription) => "device.description"@,
            Tag::Node(NodeTag::NodeName) => "node.name"@,
            Tag::Node(NodeTag::NodeNick) => "node.nick"@,
            Tag::Node(NodeTag::NodeDescription) => "node.description"@,
            Tag::Node(NodeTag::MediaName) => "media.name"@,
            Tag::Client(ClientTag::ApplicationName) => "application.name"@,
            Tag::Client(ClientTag::ApplicationProcessBinary) => "application.process.binary"@,
        }
    }

    /// The textual form of the tag: kind, `:`, property.
    pub open spec fn text(self) -> Seq<char> {
        self.kind_text() + seq![':'] + self.property_text()
    }

    /// The name of the tag's kind.
    pub fn kind_name(&self) -> (name: &'static str)
        ensures
            name@ == self.kind_text(),
    {
        match self {
            Tag::Device(_) => "device",
            Tag::Node(_) => "node",
            Tag::Client(_) => "client",
        }
    }

    /// The name of the tag's property.
    pub fn property_name(&self) -> (name: &'static str)
        ensures
            name@ == self.property_text(),
    {
        match self {
            Tag::Device(DeviceTag::DeviceName) => "device.name",
            Tag::Device(DeviceTag::DeviceNick) => "device.nick",
            Tag::Device(DeviceTag::DeviceDescription) => "device.description",
            Tag::Node(NodeTag::NodeName) => "node.name",
            Tag::Node(NodeTag::NodeNick) => "node.nick",
            Tag::Node(NodeTag::NodeDescription) => "node.description",
            Tag::Node(NodeTag::MediaName) => "media.name",
            Tag::Client(ClientTag::ApplicationName) => "application.name",
            Tag::Client(ClientTag::ApplicationProcessBinary) => "application.process.binary",
        }
    }

    /// Writes the tag in its textual form.
    pub fn to_text(&self) -> (out: String)
        ensures
            out@ == self.text(),
    {
        let mut out = String::new();
        out.append(self.kind_name());
        out.append(":");
        out.append(self.property_name());
        proof {
            reveal_strlit(":");
            assert(":"@ =~= seq![':']);
            assert(out@ =~= self.text());
        }
        out
    }

    /// Reads the tag written in `chars[from..to]`.
    pub(crate) fn parse_chars(source: &str, chars: &Vec<char>, from: usize, to: usize) -> (r: Result<
        Tag,
        ParseError,
    >)
        requires
            chars@ == source@,
            from <= to <= chars@.len(),
        ensures
            result_view(r) == parse_tag_spec(
                chars@.subrange(from as int, to as int),
            ),
    {
        let ghost body = chars@.subrange(from as int, to as int);
        match find_char(chars, from, to, ':') {
            None => Err(
                ParseError::MissingSeparator(source.substring_char(from, to).to_owned()),
            ),
            Some(k) => {
                let mid: usize = from + k;
                assert(body.subrange(0, k as int) =~= chars@.subrange(from as int, mid as int));
                assert(body.subrange(k + 1, body.len() as int) =~= chars@.subrange(
                    mid + 1,
                    to as int,
                ));
                let rest: usize = mid + 1;
                if spells(chars, from, mid, "device") {
                    if spells(chars, rest, to, "device.name") {
                        Ok(Tag::Device(DeviceTag::DeviceName))
                    } else if spells(chars, rest, to, "device.nick") {
                        Ok(Tag::Device(DeviceTag::DeviceNick))
                    } else if spells(chars, rest, to, "device.description") {
                        Ok(Tag::Device(DeviceTag::DeviceDescription))
                    } else {
                        Err(ParseError::UnknownProperty(source.substring_char(rest, to).to_owned()))
                    }
                } else if spells(chars, from, mid, "node") {
                    if spells(chars, rest, to, "node.name") {
                        Ok(Tag::Node(NodeTag::NodeName))
                    } else if spells(chars, rest, to, "node.nick") {
                        Ok(Tag::Node(NodeTag::NodeNick))
                    } else if spells(chars, rest, to, "node.description") {
                        Ok(Tag::Node(NodeTag::NodeDescription))
                    } else if spells(chars, rest, to, "media.name") {
                        Ok(Tag::Node(NodeTag::MediaName))
                    } else {
                        Err(ParseError::UnknownProperty(source.substring_char(rest, to).to_owned()))
                    }
                } else if spells(chars, from, mid, "client") {
                    if spells(chars, rest, to, "application.name") {
                        Ok(Tag::Client(ClientTag::ApplicationName))
                    } else if spells(chars, rest, to, "application.process.binary") {
                        Ok(Tag::Client(ClientTag::ApplicationProcessBinary))
                    } else {
                        Err(ParseError::UnknownProperty(source.substring_char(rest, to).to_owned()))
                    }
                } else {
                    Err(ParseError::UnknownKind(source.substring_char(from, mid).to_owned()))
                }
            },
        }
    }

    /// Reads a tag from its textual form, such as `node:node.name`.
    pub fn parse(source: &str) -> (r: Result<Tag, ParseError>)
        ensures
            result_view(r) == parse_tag_spec(source@),
    {
        let chars = chars_of(source);
        let n: usize = chars.len();
        assert(chars@.subrange(0, n as int) =~= source@);
        Tag::parse_chars(source, &chars, 0, n)
    }
}

/// In `kind`, `:`, `property` the first `:` is the one written between the
/// two, as long as `kind` holds none.
pub proof fn lemma_separator(kind: Seq<char>, property: Seq<char>)
    requires
        !kind.contains(':'),
    ensures
        ({
            let joined = kind + seq![':'] + property;
            &&& joined.index_of_first(':') == Some(kind.len() as int)
            &&& joined.subrange(0, kind.len() as int) == kind
            &&& joined.subrange(kind.len() as int + 1, joined.len() as int) == property
        }),
{
    let joined = kind + seq![':'] + property;
    let n = kind.len() as int;
    joined.index_of_first_ensures(':');
    assert(joined[n] == ':');
    assert(joined.contains(':'));
    let found = joined.index_of_first(':').unwrap();
    if found < n {
        assert(kind[found] == ':');
        assert(kind.contains(':'));
    }
    assert(joined.subrange(0, n) =~= kind);
    assert(joined.subrange(n + 1, joined.len() as int) =~= property);
}

/// The names of the three kinds are distinct and hold neither `:` nor `}`.
pub proof fn lemma_kind_names()
    ensures
        "device"@ != "node"@,
        "device"@ != "client"@,
        "node"@ != "client"@,
        forall|kind: Seq<char>| #[trigger] is_kind(kind) ==> !kind.contains(':') && !kind.contains('}'),
{
    reveal_strlit("device");
    reveal_strlit("node");
    reveal_strlit("client");
    assert("device"@.len() == 6 && "node"@.len() == 4);
    assert("client"@[0] == 'c' && "device"@[0] == 'd');
}

/// The names of the properties of one kind are distinct, and none holds a
/// `}`.
pub proof fn lemma_property_names()
    ensures
        "device.name"@ != "device.nick"@,
        "device.name"@ != "device.description"@,
        "device.nick"@ != "device.description"@,
        "node.name"@ != "node.nick"@,
        "node.name"@ != "node.description"@,
        "node.name"@ != "media.name"@,
        "node.nick"@ != "node.description"@,
        "node.nick"@ != "media.name"@,
        "node.description"@ != "media.name"@,
        "application.name"@ != "application.process.binary"@,
        forall|tag: Tag| !(#[trigger] tag.property_text()).contains('}'),
{
    reveal_strlit("device.name");
    reveal_strlit("device.nick");
    reveal_strlit("device.description");
    reveal_strlit("node.name");
    reveal_strlit("node.nick");
    reveal_strlit("node.description");
    reveal_strlit("media.name");
    reveal_strlit("application.name");
    reveal_strlit("application.process.binary");
    assert("device.name"@[8] == 'a' && "device.nick"@[8] == 'i');
    assert("node.name"@[6] == 'a' && "node.nick"@[6] == 'i');
    assert("node.name"@[0] == 'n' && "media.name"@[0] == 'm');
    assert("node.nick"@[0] == 'n');
    assert("application.name"@.len() == 16 && "application.process.binary"@.len() == 26);
}

impl Tag {
    /// Writing a tag and reading it again gives the tag back. The text of a
    /// tag holds no `}`.
    pub proof fn lemma_text_parses(self)
        ensures
            parse_tag_spec(self.text()) == Ok::<Tag, ParseErrorView>(self),
            !self.text().contains('}'),
    {
        lemma_kind_names();
        lemma_property_names();
        assert(is_kind(self.kind_text()));
        lemma_separator(self.kind_text(), self.property_text());
        assert(tag_named(self.kind_text(), self.property_text()) == Some(self));
        let text = self.text();
        if text.contains('}') {
            let i = choose|i: int| 0 <= i < text.len() && text[i] == '}';
            let n = self.kind_text().len() as int;
            if i < n {
                assert(self.kind_text()[i] == '}');
                assert(self.kind_text().contains('}'));
            } else if i > n {
                assert(self.property_text()[i - n - 1] == '}');
                assert(self.property_text().contains('}'));
            }
        }
    }

    /// Only the text of a tag is read as that tag.
    pub proof fn lemma_parsed_text(body: Seq<char>, tag: Tag)
        requires
            parse_tag_spec(body) == Ok::<Tag, ParseErrorView>(tag),
        ensures
            body == tag.text(),
    {
        body.index_of_first_ensures(':');
        let i = body.index_of_first(':').unwrap();
        assert(body =~= body.subrange(0, i) + seq![':'] + body.subrange(
            i + 1,
            body.len() as int,
        ));
    }
}

/// Views the outcome of parsing a tag.
pub open spec fn result_view(r: Result<Tag, ParseError>) -> Result<Tag, ParseErrorView> {
    match r {
        Ok(tag) => Ok(tag),
        Err(e) => Err(e@),
    }
}

} // verus!
