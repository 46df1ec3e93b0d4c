//! Resolving the display name of an object.
//!
//! The name of an object is looked for in three places, in this order: the
//! templates of the first override rule that applies to it, or else the
//! default templates of its category; and, when none of those templates
//! renders, the object's own name.

use vstd::prelude::*;
use crate::config::name_template::{
    answers, canonical, render_spec, source_text, NameTemplate, SegmentView,
};
use crate::config::tag::{ClientTag, DeviceTag, NodeTag, Tag};
use crate::config::{NameOverride, Names, OverrideType};
use crate::media_class::MediaClass;
use crate::state::{Client, Device, Node, State};
use crate::text::{opt_owned_text, opt_text};

verus! {

/// The values that `resolver` gives to the tags within `state`.
pub open spec fn values_of<T: TagResolver + ?Sized>(resolver: &T, state: &State) -> spec_fn(
    Tag,
) -> Option<Seq<char>> {
    |tag: Tag| resolver.tag_value(state, tag)
}

/// Whether `rule` applies to an object of `category` whose tags have the
/// given values: the category is one of the rule's, and the rule's tag has
/// exactly the rule's value.
pub open spec fn applies(
    rule: NameOverride,
    category: OverrideType,
    values: spec_fn(Tag) -> Option<Seq<char>>,
) -> bool {
    rule.types@.contains(category) && values(rule.property) == Some(rule.value@)
}

/// Whether `rules[i]` applies and no rule before it does.
pub open spec fn is_first_applicable(
    rules: Seq<NameOverride>,
    category: OverrideType,
    values: spec_fn(Tag) -> Option<Seq<char>>,
    i: int,
) -> bool {
    &&& 0 <= i < rules.len()
    &&& applies(rules[i], category, values)
    &&& forall|j: int| 0 <= j < i ==> !applies(#[trigger] rules[j], category, values)
}

/// The position of the first rule that applies, if any does.
pub open spec fn first_applicable(
    rules: Seq<NameOverride>,
    category: OverrideType,
    values: spec_fn(Tag) -> Option<Seq<char>>,
) -> Option<int> {
    if exists|i: int| is_first_applicable(rules, category, values, i) {
        Some(choose|i: int| is_first_applicable(rules, category, values, i))
    } else {
        None
    }
}

/// The text of the first template in `templates` that renders, if any does.
pub open spec fn first_rendered(
    templates: Seq<NameTemplate>,
    values: spec_fn(Tag) -> Option<Seq<char>>,
) -> Option<Seq<char>>
    decreases templates.len(),
{
    if templates.len() == 0 {
        None
    } else {
        match render_spec(templates[0]@, values) {
            Some(text) => Some(text),
            None => first_rendered(templates.drop_first(), values),
        }
    }
}

/// An object that can say what value it gives to a tag.
pub trait TagResolver {
    /// The value of `tag` as seen from this object, if it has one.
    spec fn tag_value(&self, state: &State, tag: Tag) -> Option<Seq<char>>;

    /// Looks up the value of `tag` as seen from this object.
    fn resolve_tag<'a>(&'a self, state: &'a State, tag: Tag) -> (found: Option<&'a String>)
        ensures
            opt_text(found) == self.tag_value(state, tag),
    ;
}

/// An object that can be given a display name.
pub trait NameResolver: TagResolver {
    /// The category under which the object is named, as it is now.
    spec fn category(&self) -> OverrideType;

    /// The object's own name, if it is known.
    spec fn own_name(&self) -> Option<Seq<char>>;

    /// The name to use when no template renders.
    fn fallback(&self) -> (name: Option<&String>)
        ensures
            opt_text(name) == self.own_name(),
    ;

    /// The templates to try for this object: those of the first override
    /// that applies, or else the defaults of the object's category.
    fn templates<'a>(&self, state: &State, names: &'a Names) -> (list: &'a Vec<NameTemplate>)
        ensures
            *list == names.templates_for(self.category(), values_of(self, state)),
    ;

    /// The templates of the first rule in `overrides` that applies to this
    /// object when it is named as `override_type`.
    fn name_override<'a>(
        &self,
        state: &State,
        overrides: &'a [NameOverride],
        override_type: OverrideType,
    ) -> (found: Option<&'a Vec<NameTemplate>>)
        ensures
            match first_applicable(overrides@, override_type, values_of(self, state)) {
                Some(i) => found == Some(&overrides@[i].templates),
                None => found.is_none(),
            },
    {
        let ghost values = values_of(self, state);
        let mut i: usize = 0;
        while i < overrides.len()
            invariant
                i <= overrides@.len(),
                values == values_of(self, state),
                forall|j: int| 0 <= j < i ==> !applies(#[trigger] overrides@[j], override_type, values),
            decreases overrides@.len() - i,
        {
            let rule = &overrides[i];
            if has_type(&rule.types, override_type) {
                let value = self.resolve_tag(state, rule.property);
                let same = match value {
                    Some(text) => *text == rule.value,
                    None => false,
                };
                if same {
                    proof {
                        lemma_first_applicable_unique(overrides@, override_type, values, i as int);
                    }
                    return Some(&rule.templates);
                }
            }
            i += 1;
        }
        None
    }
}

/// Whether `wanted` is among `types`.
pub fn has_type(types: &Vec<OverrideType>, wanted: OverrideType) -> (r: bool)
    ensures
        r == types@.contains(wanted),
{
    let mut i: usize = 0;
    while i < types.len()
        invariant
            i <= types@.len(),
            forall|j: int| 0 <= j < i ==> types@[j] != wanted,
        decreases types@.len() - i,
    {
        if types[i] == wanted {
            return true;
        }
        i += 1;
    }
    false
}

/// At most one rule is the first that applies.
pub proof fn lemma_first_applicable_unique(
    rules: Seq<NameOverride>,
    category: OverrideType,
    values: spec_fn(Tag) -> Option<Seq<char>>,
    i: int,
)
    requires
        is_first_applicable(rules, category, values, i),
    ensures
        first_applicable(rules, category, values) == Some(i),
{
    let found = choose|k: int| is_first_applicable(rules, category, values, k);
    if found < i {
        assert(!applies(rules[found], category, values));
    } else if i < found {
        assert(!applies(rules[i], category, values));
    }
}

/// The first template that renders wins: when `templates[k]` renders and
/// none before it does, its text is the text of the list.
pub proof fn lemma_first_success_wins(
    templates: Seq<NameTemplate>,
    values: spec_fn(Tag) -> Option<Seq<char>>,
    k: int,
)
    requires
        0 <= k < templates.len(),
        forall|j: int| 0 <= j < k ==> render_spec((#[trigger] templates[j])@, values).is_none(),
        render_spec(templates[k]@, values).is_some(),
    ensures
        first_rendered(templates, values) == render_spec(templates[k]@, values),
    decreases k,
{
    if k > 0 {
        let rest = templates.drop_first();
        assert(render_spec(templates[0]@, values).is_none());
        assert forall|j: int| 0 <= j < k - 1 implies render_spec(
            (#[trigger] rest[j])@,
            values,
        ).is_none() by {
            assert(rest[j] == templates[j + 1]);
        }
        assert(rest[k - 1] == templates[k]);
        lemma_first_success_wins(rest, values, k - 1);
    }
}

/// A list in which no template renders gives no text. The empty list is
/// such a list.
pub proof fn lemma_no_success(
    templates: Seq<NameTemplate>,
    values: spec_fn(Tag) -> Option<Seq<char>>,
)
    requires
        forall|j: int|
            0 <= j < templates.len() ==> render_spec((#[trigger] templates[j])@, values).is_none(),
    ensures
        first_rendered(templates, values).is_none(),
    decreases templates.len(),
{
    if templates.len() > 0 {
        let rest = templates.drop_first();
        assert(render_spec(templates[0]@, values).is_none());
        assert forall|j: int| 0 <= j < rest.len() implies render_spec(
            (#[trigger] rest[j])@,
            values,
        ).is_none() by {
            assert(rest[j] == templates[j + 1]);
        }
        lemma_no_success(rest, values);
    }
}

impl TagResolver for Device {
    /// A device has the values of its own properties, and none for the tags
    /// of nodes and clients.
    open spec fn tag_value(&self, state: &State, tag: Tag) -> Option<Seq<char>> {
        match tag {
            Tag::Device(DeviceTag::DeviceName) => opt_owned_text(self.name),
            Tag::Device(DeviceTag::DeviceNick) => opt_owned_text(self.nick),
            Tag::Device(DeviceTag::DeviceDescription) => opt_owned_text(self.description),
            Tag::Node(_) => None,
            Tag::Client(_) => None,
        }
    }

    fn resolve_tag<'a>(&'a self, state: &'a State, tag: Tag) -> (found: Option<&'a String>) {
        match tag {
            Tag::Device(DeviceTag::DeviceName) => self.name.as_ref(),
            Tag::Device(DeviceTag::DeviceNick) => self.nick.as_ref(),
            Tag::Device(DeviceTag::DeviceDescription) => self.description.as_ref(),
            Tag::Node(_) => None,
            Tag::Client(_) => None,
        }
    }
}

impl NameResolver for Device {
    open spec fn category(&self) -> OverrideType {
        OverrideType::Device
    }

    open spec fn own_name(&self) -> Option<Seq<char>> {
        opt_owned_text(self.name)
    }

    fn fallback(&self) -> (name: Option<&String>) {
        self.name.as_ref()
    }

    fn templates<'a>(&self, state: &State, names: &'a Names) -> (list: &'a Vec<NameTemplate>) {
        self.name_override(state, names.overrides.as_slice(), OverrideType::Device).unwrap_or(
            &names.device,
        )
    }
}

impl TagResolver for Client {
    /// A client has the values of its own properties, and none for the tags
    /// of devices and nodes.
    open spec fn tag_value(&self, state: &State, tag: Tag) -> Option<Seq<char>> {
        match tag {
            Tag::Client(ClientTag::ApplicationName) => opt_owned_text(self.application_name),
            Tag::Client(ClientTag::ApplicationProcessBinary) => opt_owned_text(
                self.application_process_binary,
            ),
            Tag::Node(_) => None,
            Tag::Device(_) => None,
        }
    }

    fn resolve_tag<'a>(&'a self, state: &'a State, tag: Tag) -> (found: Option<&'a String>) {
        match tag {
            Tag::Client(ClientTag::ApplicationName) => self.application_name.as_ref(),
            Tag::Client(ClientTag::ApplicationProcessBinary) => {
                self.application_process_binary.as_ref()
            },
            Tag::Node(_) => None,
            Tag::Device(_) => None,
        }
    }
}

impl TagResolver for Node {
    /// A node has the values of its own properties. For the tags of devices
    /// it has what its linked device has, and for the tags of clients what
    /// its linked client has; without a link, or with a link that leads to
    /// nothing in `state`, it has none.
    open spec fn tag_value(&self, state: &State, tag: Tag) -> Option<Seq<char>> {
        match tag {
            Tag::Node(NodeTag::NodeName) => opt_owned_text(self.name),
            Tag::Node(NodeTag::NodeNick) => opt_owned_text(self.nick),
            Tag::Node(NodeTag::NodeDescription) => opt_owned_text(self.description),
            Tag::Node(NodeTag::MediaName) => opt_owned_text(self.media_name),
            Tag::Device(_) => match self.device_id {
                Some(id) => match state.device_at(id) {
                    Some(device) => device.tag_value(state, tag),
                    None => None,
                },
                None => None,
            },
            Tag::Client(_) => match self.client_id {
                Some(id) => match state.client_at(id) {
                    Some(client) => client.tag_value(state, tag),
                    None => None,
                },
                None => None,
            },
        }
    }

    fn resolve_tag<'a>(&'a self, state: &'a State, tag: Tag) -> (found: Option<&'a String>) {
        match tag {
            Tag::Node(NodeTag::NodeName) => self.name.as_ref(),
            Tag::Node(NodeTag::NodeNick) => self.nick.as_ref(),
            Tag::Node(NodeTag::NodeDescription) => self.description.as_ref(),
            Tag::Node(NodeTag::MediaName) => self.media_name.as_ref(),
            Tag::Device(_) => {
                let device = state.device(self.device_id?)?;
                device.resolve_tag(state, tag)
            },
            Tag::Client(_) => {
                let client = state.client(self.client_id?)?;
                client.resolve_tag(state, tag)
            },
        }
    }
}

impl Node {
    /// A node without a link to a device has no value for any tag of a
    /// device, and one without a link to a client none for any tag of a
    /// client.
    pub proof fn lemma_unlinked_has_no_value(&self, state: &State, tag: Tag)
        requires
            (tag is Device && self.device_id.is_none()) || (tag is Client
                && self.client_id.is_none()),
        ensures
            self.tag_value(state, tag).is_none(),
    {
    }

    /// A node that is linked to a device has, for a tag of a device, the
    /// value that the device has.
    pub proof fn lemma_linked_device_value(&self, state: &State, tag: Tag, device: Device)
        requires
            tag is Device,
            self.device_id.is_some(),
            state.device_at(self.device_id.unwrap()) == Some(device),
        ensures
            self.tag_value(state, tag) == device.tag_value(state, tag),
    {
    }

    /// The category of a node follows its media class as it is now: without
    /// one the node is a stream, and with that of a sink or a source it is an
    /// endpoint, whatever else the node holds.
    pub proof fn lemma_category_follows_media_class(before: Node, after: Node)
        requires
            before.media_class.is_none(),
            after.media_class.is_some(),
            MediaClass::names_sink(after.media_class.unwrap()@) || MediaClass::names_source(
                after.media_class.unwrap()@,
            ),
        ensures
            before.category() == OverrideType::Stream,
            after.category() == OverrideType::Endpoint,
    {
    }
}

impl Device {
    /// A device has no value for the tags of nodes and clients, whatever the
    /// state holds.
    pub proof fn lemma_foreign_tag_has_no_value(&self, state: &State, tag: Tag)
        requires
            !(tag is Device),
        ensures
            self.tag_value(state, tag).is_none(),
    {
    }
}

impl NameResolver for Node {
    /// A node whose media class is that of a sink or of a source is named as
    /// an endpoint; any other node is named as a stream.
    open spec fn category(&self) -> OverrideType {
        match self.media_class {
            Some(class) => if MediaClass::names_sink(class@) || MediaClass::names_source(class@) {
                OverrideType::Endpoint
            } else {
                OverrideType::Stream
            },
            None => OverrideType::Stream,
        }
    }

    open spec fn own_name(&self) -> Option<Seq<char>> {
        opt_owned_text(self.name)
    }

    fn fallback(&self) -> (name: Option<&String>) {
        self.name.as_ref()
    }

    fn templates<'a>(&self, state: &State, names: &'a Names) -> (list: &'a Vec<NameTemplate>) {
        match self.media_class.as_ref() {
            Some(media_class) if media_class.is_sink() || media_class.is_source() => {
                self.name_override(
                    state,
                    names.overrides.as_slice(),
                    OverrideType::Endpoint,
                ).unwrap_or(&names.endpoint)
            },
            _ => self.name_override(
                state,
                names.overrides.as_slice(),
                OverrideType::Stream,
            ).unwrap_or(&names.stream),
        }
    }
}

/// The template that is nothing but a reference to `tag`.
pub open spec fn only_tag(tag: Tag) -> Seq<SegmentView> {
    seq![SegmentView::Tag(tag)]
}

/// The built-in template for streams: the node's name, `: `, and the name of
/// its media.
pub open spec fn stream_segments() -> Seq<SegmentView> {
    seq![
        SegmentView::Tag(Tag::Node(NodeTag::NodeName)),
        SegmentView::Literal(": "@),
        SegmentView::Tag(Tag::Node(NodeTag::MediaName)),
    ]
}

impl Names {
    /// The built-in templates for streams.
    pub fn default_stream() -> (list: Vec<NameTemplate>)
        ensures
            list@.len() == 1,
            list@[0]@ == stream_segments(),
    {
        let parsed = NameTemplate::parse("{node:node.name}: {node:media.name}");
        proof {
            let segments = stream_segments();
            reveal_strlit("{node:node.name}: {node:media.name}");
            reveal_strlit("node");
            reveal_strlit("node.name");
            reveal_strlit("media.name");
            reveal_strlit(": ");
            reveal_with_fuel(source_text, 4);
            assert(!": "@.contains('{'));
            assert(canonical(segments));
            assert("{node:node.name}: {node:media.name}"@ =~= source_text(segments));
            NameTemplate::lemma_source_parses(segments);
        }
        vec![parsed.unwrap()]
    }

    /// The built-in templates for endpoints: the nick of the linked device,
    /// then the node's description.
    pub fn default_endpoint() -> (list: Vec<NameTemplate>)
        ensures
            list@.len() == 2,
            list@[0]@ == only_tag(Tag::Device(DeviceTag::DeviceNick)),
            list@[1]@ == only_tag(Tag::Node(NodeTag::NodeDescription)),
    {
        let first = NameTemplate::parse("{device:device.nick}");
        let second = NameTemplate::parse("{node:node.description}");
        proof {
            let nick = only_tag(Tag::Device(DeviceTag::DeviceNick));
            let description = only_tag(Tag::Node(NodeTag::NodeDescription));
            reveal_strlit("{device:device.nick}");
            reveal_strlit("{node:node.description}");
            reveal_strlit("device");
            reveal_strlit("device.nick");
            reveal_strlit("node");
            reveal_strlit("node.description");
            reveal_with_fuel(source_text, 2);
            assert("{device:device.nick}"@ =~= source_text(nick));
            assert("{node:node.description}"@ =~= source_text(description));
            NameTemplate::lemma_source_parses(nick);
            NameTemplate::lemma_source_parses(description);
        }
        vec![first.unwrap(), second.unwrap()]
    }

    /// The built-in templates for devices: the device's nick, then its
    /// description.
    pub fn default_device() -> (list: Vec<NameTemplate>)
        ensures
            list@.len() == 2,
            list@[0]@ == only_tag(Tag::Device(DeviceTag::DeviceNick)),
            list@[1]@ == only_tag(Tag::Device(DeviceTag::DeviceDescription)),
    {
        let first = NameTemplate::parse("{device:device.nick}");
        let second = NameTemplate::parse("{device:device.description}");
        proof {
            let nick = only_tag(Tag::Device(DeviceTag::DeviceNick));
            let description = only_tag(Tag::Device(DeviceTag::DeviceDescription));
            reveal_strlit("{device:device.nick}");
            reveal_strlit("{device:device.description}");
            reveal_strlit("device");
            reveal_strlit("device.nick");
            reveal_strlit("device.description");
            reveal_with_fuel(source_text, 2);
            assert("{device:device.nick}"@ =~= source_text(nick));
            assert("{device:device.description}"@ =~= source_text(description));
            NameTemplate::lemma_source_parses(nick);
            NameTemplate::lemma_source_parses(description);
        }
        vec![first.unwrap(), second.unwrap()]
    }

    /// The default templates of `category`.
    pub open spec fn defaults_for(&self, category: OverrideType) -> Vec<NameTemplate> {
        match category {
            OverrideType::Device => self.device,
            OverrideType::Endpoint => self.endpoint,
            OverrideType::Stream => self.stream,
        }
    }

    /// The templates that are tried for an object of `category` whose tags
    /// have the given values.
    pub open spec fn templates_for(
        &self,
        category: OverrideType,
        values: spec_fn(Tag) -> Option<Seq<char>>,
    ) -> Vec<NameTemplate> {
        match first_applicable(self.overrides@, category, values) {
            Some(i) => self.overrides@[i].templates,
            None => self.defaults_for(category),
        }
    }

    /// The display name of an object of `category` whose tags have the given
    /// values and whose own name is `own_name`.
    pub open spec fn resolve_spec(
        &self,
        category: OverrideType,
        values: spec_fn(Tag) -> Option<Seq<char>>,
        own_name: Option<Seq<char>>,
    ) -> Option<Seq<char>> {
        match first_rendered(self.templates_for(category, values)@, values) {
            Some(text) => Some(text),
            None => own_name,
        }
    }

    /// An override that applies takes the place of the defaults: the name
    /// comes from the templates of the first such override, or is the
    /// object's own name, whatever the default lists hold.
    pub proof fn lemma_override_replaces_defaults(
        &self,
        category: OverrideType,
        values: spec_fn(Tag) -> Option<Seq<char>>,
        own_name: Option<Seq<char>>,
        i: int,
    )
        requires
            is_first_applicable(self.overrides@, category, values, i),
        ensures
            self.templates_for(category, values) == self.overrides@[i].templates,
            self.resolve_spec(category, values, own_name) == match first_rendered(
                self.overrides@[i].templates@,
                values,
            ) {
                Some(text) => Some(text),
                None => own_name,
            },
    {
        lemma_first_applicable_unique(self.overrides@, category, values, i);
    }

    /// Overrides that do not apply are passed over: when each override
    /// either leaves out the object's category or asks for another value
    /// than the object has, the defaults of the category are used.
    pub proof fn lemma_unmatched_overrides_skipped(
        &self,
        category: OverrideType,
        values: spec_fn(Tag) -> Option<Seq<char>>,
        own_name: Option<Seq<char>>,
    )
        requires
            forall|j: int|
                0 <= j < self.overrides@.len() ==> {
                    let rule = #[trigger] self.overrides@[j];
                    !rule.types@.contains(category) || values(rule.property) != Some(rule.value@)
                },
        ensures
            self.templates_for(category, values) == self.defaults_for(category),
            self.resolve_spec(category, values, own_name) == match first_rendered(
                self.defaults_for(category)@,
                values,
            ) {
                Some(text) => Some(text),
                None => own_name,
            },
    {
    }

    /// An override without templates that applies leads straight to the
    /// object's own name: the defaults are not tried.
    pub proof fn lemma_empty_override_falls_back(
        &self,
        category: OverrideType,
        values: spec_fn(Tag) -> Option<Seq<char>>,
        own_name: Option<Seq<char>>,
        i: int,
    )
        requires
            is_first_applicable(self.overrides@, category, values, i),
            self.overrides@[i].templates@.len() == 0,
        ensures
            self.resolve_spec(category, values, own_name) == own_name,
    {
        lemma_first_applicable_unique(self.overrides@, category, values, i);
    }

    /// Resolves the display name of an object: the first template that
    /// renders, among those of the first override that applies or else the
    /// defaults of the object's category; failing that, the object's own
    /// name.
    pub fn resolve<T: TagResolver + NameResolver>(&self, state: &State, resolver: &T) -> (name:
        Option<String>)
        ensures
            opt_owned_text(name) == self.resolve_spec(
                resolver.category(),
                values_of(resolver, state),
                resolver.own_name(),
            ),
    {
        let ghost values = values_of(resolver, state);
        let templates = resolver.templates(state, self);
        let mut i: usize = 0;
        assert(templates@.skip(0) =~= templates@);
        while i < templates.len()
            invariant
                i <= templates@.len(),
                values == values_of(resolver, state),
                *templates == self.templates_for(resolver.category(), values),
                first_rendered(templates@, values) == first_rendered(
                    templates@.skip(i as int),
                    values,
                ),
            decreases templates@.len() - i,
        {
            let lookup = |tag: &Tag| -> (found: Option<&String>)
                ensures
                    opt_text(found) == resolver.tag_value(state, *tag),
                { resolver.resolve_tag(state, *tag) };
            assert(answers(templates@[i as int]@, lookup, values));
            let rendered = templates[i].render(lookup);
            assert(templates@.skip(i as int).drop_first() =~= templates@.skip(i + 1));
            assert(templates@.skip(i as int)[0] == templates@[i as int]);
            assert(opt_owned_text(rendered) == render_spec(templates@[i as int]@, values));
            if rendered.is_some() {
                return rendered;
            }
            i += 1;
        }
        match resolver.fallback() {
            Some(name) => Some(name.clone()),
            None => None,
        }
    }
}

impl Default for Names {
    /// The built-in templates, and no overrides.
    fn default() -> (names: Names)
        ensures
            names.stream@.len() == 1,
            names.stream@[0]@ == stream_segments(),
            names.endpoint@.len() == 2,
            names.endpoint@[0]@ == only_tag(Tag::Device(DeviceTag::DeviceNick)),
            names.endpoint@[1]@ == only_tag(Tag::Node(NodeTag::NodeDescription)),
            names.device@.len() == 2,
            names.device@[0]@ == only_tag(Tag::Device(DeviceTag::DeviceNick)),
            names.device@[1]@ == only_tag(Tag::Device(DeviceTag::DeviceDescription)),
            names.overrides@.len() == 0,
    {
        Names {
            stream: Names::default_stream(),
            endpoint: Names::default_endpoint(),
            device: Names::default_device(),
            overrides: Vec::new(),
        }
    }
}

} // verus!
