//! The order of tags: that of their textual forms.

use core::cmp::Ordering;
use vstd::prelude::*;
use vstd::std_specs::cmp::PartialOrdSpecImpl;
use crate::config::tag::{ClientTag, DeviceTag, NodeTag, Tag};
use crate::text::{
    lemma_precedes_after_prefix, lemma_precedes_asymmetric, lemma_precedes_irreflexive,
    precedes_at, text_precedes,
};

verus! {

/// The names of the kinds, in their order.
pub proof fn lemma_kind_order()
    ensures
        forall|a: Seq<char>, b: Seq<char>| #[trigger]
            text_precedes("client"@ + a, "device"@ + b),
        forall|a: Seq<char>, b: Seq<char>| #[trigger] text_precedes("device"@ + a, "node"@ + b),
        forall|a: Seq<char>, b: Seq<char>| #[trigger] text_precedes("client"@ + a, "node"@ + b),
{
    reveal_strlit("client");
    reveal_strlit("device");
    reveal_strlit("node");
    assert forall|a: Seq<char>, b: Seq<char>| #[trigger]
        text_precedes("client"@ + a, "device"@ + b) by {
        assert(("client"@ + a).take(0) =~= ("device"@ + b).take(0));
        assert(precedes_at("client"@ + a, "device"@ + b, 0));
    }
    assert forall|a: Seq<char>, b: Seq<char>| #[trigger]
        text_precedes("device"@ + a, "node"@ + b) by {
        assert(("device"@ + a).take(0) =~= ("node"@ + b).take(0));
        assert(precedes_at("device"@ + a, "node"@ + b, 0));
    }
    assert forall|a: Seq<char>, b: Seq<char>| #[trigger]
        text_precedes("client"@ + a, "node"@ + b) by {
        assert(("client"@ + a).take(0) =~= ("node"@ + b).take(0));
        assert(precedes_at("client"@ + a, "node"@ + b, 0));
    }
}

/// The names of the properties of a device, in their order.
pub proof fn lemma_device_property_order()
    ensures
        text_precedes("device.description"@, "device.name"@),
        text_precedes("device.description"@, "device.nick"@),
        text_precedes("device.name"@, "device.nick"@),
{
    reveal_strlit("device.description");
    reveal_strlit("device.name");
    reveal_strlit("device.nick");
    assert("device.description"@.take(7) =~= "device.name"@.take(7));
    assert(precedes_at("device.description"@, "device.name"@, 7));
    assert("device.description"@.take(7) =~= "device.nick"@.take(7));
    assert(precedes_at("device.description"@, "device.nick"@, 7));
    assert("device.name"@.take(8) =~= "device.nick"@.take(8));
    assert(precedes_at("device.name"@, "device.nick"@, 8));
}

/// The names of the properties of a node, in their order.
pub proof fn lemma_node_property_order()
    ensures
        text_precedes("media.name"@, "node.description"@),
        text_precedes("media.name"@, "node.name"@),
        text_precedes("media.name"@, "node.nick"@),
        text_precedes("node.description"@, "node.name"@),
        text_precedes("node.description"@, "node.nick"@),
        text_precedes("node.name"@, "node.nick"@),
{
    reveal_strlit("media.name");
    reveal_strlit("node.description");
    reveal_strlit("node.name");
    reveal_strlit("node.nick");
    assert("media.name"@.take(0) =~= "node.description"@.take(0));
    assert(precedes_at("media.name"@, "node.description"@, 0));
    assert("media.name"@.take(0) =~= "node.name"@.take(0));
    assert(precedes_at("media.name"@, "node.name"@, 0));
    assert("media.name"@.take(0) =~= "node.nick"@.take(0));
    assert(precedes_at("media.name"@, "node.nick"@, 0));
    assert("node.description"@.take(5) =~= "node.name"@.take(5));
    assert(precedes_at("node.description"@, "node.name"@, 5));
    assert("node.description"@.take(5) =~= "node.nick"@.take(5));
    assert(precedes_at("node.description"@, "node.nick"@, 5));
    assert("node.name"@.take(6) =~= "node.nick"@.take(6));
    assert(precedes_at("node.name"@, "node.nick"@, 6));
}

/// The names of the properties of a client, in their order.
pub proof fn lemma_client_property_order()
    ensures
        text_precedes("application.name"@, "application.process.binary"@),
{
    reveal_strlit("application.name");
    reveal_strlit("application.process.binary");
    assert("application.name"@.take(12) =~= "application.process.binary"@.take(12));
    assert(precedes_at("application.name"@, "application.process.binary"@, 12));
}

impl Tag {
    /// The place of the tag among all tags, in the order of their texts.
    pub open spec fn rank(self) -> int {
        match self {
            Tag::Client(ClientTag::ApplicationName) => 0,
            Tag::Client(ClientTag::ApplicationProcessBinary) => 1,
            Tag::Device(DeviceTag::DeviceDescription) => 2,
            Tag::Device(DeviceTag::DeviceName) => 3,
            Tag::Device(DeviceTag::DeviceNick) => 4,
            Tag::Node(NodeTag::MediaName) => 5,
            Tag::Node(NodeTag::NodeDescription) => 6,
            Tag::Node(NodeTag::NodeName) => 7,
            Tag::Node(NodeTag::NodeNick) => 8,
        }
    }

    /// The place of the tag among all tags, in the order of their texts.
    pub fn position(&self) -> (place: u8)
        ensures
            place == self.rank(),
    {
        match self {
            Tag::Client(ClientTag::ApplicationName) => 0,
            Tag::Client(ClientTag::ApplicationProcessBinary) => 1,
            Tag::Device(DeviceTag::DeviceDescription) => 2,
            Tag::Device(DeviceTag::DeviceName) => 3,
            Tag::Device(DeviceTag::DeviceNick) => 4,
            Tag::Node(NodeTag::MediaName) => 5,
            Tag::Node(NodeTag::NodeDescription) => 6,
            Tag::Node(NodeTag::NodeName) => 7,
            Tag::Node(NodeTag::NodeNick) => 8,
        }
    }

    /// A tag of lower rank has the text that comes first.
    pub proof fn lemma_lower_rank_precedes(self, other: Tag)
        requires
            self.rank() < other.rank(),
        ensures
            text_precedes(self.text(), other.text()),
    {
        let colon = seq![':'];
        assert(self.text() =~= self.kind_text() + (colon + self.property_text()));
        assert(other.text() =~= other.kind_text() + (colon + other.property_text()));
        let same_kind = (self is Client && other is Client) || (self is Device && other is Device)
            || (self is Node && other is Node);
        if same_kind {
            lemma_device_property_order();
            lemma_node_property_order();
            lemma_client_property_order();
            lemma_precedes_after_prefix(colon, self.property_text(), other.property_text());
            lemma_precedes_after_prefix(
                self.kind_text(),
                colon + self.property_text(),
                colon + other.property_text(),
            );
        } else {
            lemma_kind_order();
        }
    }

    /// The tags are ranked in the order of their texts.
    pub proof fn lemma_rank_is_textual(self, other: Tag)
        ensures
            self.rank() < other.rank() <==> text_precedes(self.text(), other.text()),
            self.rank() == other.rank() <==> self == other,
    {
        if self.rank() < other.rank() {
            self.lemma_lower_rank_precedes(other);
        } else if other.rank() < self.rank() {
            other.lemma_lower_rank_precedes(self);
            lemma_precedes_asymmetric(other.text(), self.text());
        } else {
            lemma_precedes_irreflexive(self.text());
        }
    }
}

impl PartialOrdSpecImpl for Tag {
    open spec fn obeys_partial_cmp_spec() -> bool {
        true
    }

    /// Tags compare as their texts do.
    open spec fn partial_cmp_spec(&self, other: &Tag) -> Option<Ordering> {
        if text_precedes(self.text(), other.text()) {
            Some(Ordering::Less)
        } else if text_precedes(other.text(), self.text()) {
            Some(Ordering::Greater)
        } else {
            Some(Ordering::Equal)
        }
    }
}

impl PartialOrd for Tag {
    fn partial_cmp(&self, other: &Tag) -> (r: Option<Ordering>) {
        proof {
            self.lemma_rank_is_textual(*other);
            other.lemma_rank_is_textual(*self);
        }
        let mine: u8 = self.position();
        let theirs: u8 = other.position();
        if mine < theirs {
            Some(Ordering::Less)
        } else if theirs < mine {
            Some(Ordering::Greater)
        } else {
            Some(Ordering::Equal)
        }
    }
}

} // verus!
