use display_names::config::name_template::NameTemplate;
use display_names::config::names::{has_type, NameResolver, TagResolver};
use display_names::config::tag::{ClientTag, DeviceTag, NodeTag, Tag};
use display_names::config::{NameOverride, Names, OverrideType};
use display_names::media_class::MediaClass;
use display_names::object::ObjectId;
use display_names::state::{Client, Device, Node, State};

fn template(source: &str) -> NameTemplate {
    NameTemplate::parse(source).unwrap()
}

struct Fixture {
    state: State,
    device_id: ObjectId,
    node_id: ObjectId,
    client_id: ObjectId,
}

impl Default for Fixture {
    fn default() -> Self {
        let mut state = State::new();

        let device_id = ObjectId::from_raw_id(0);
        let node_id = ObjectId::from_raw_id(1);
        let client_id = ObjectId::from_raw_id(2);

        state.insert_device(
            device_id,
            Device {
                name: Some(String::from("Device name")),
                nick: Some(String::from("Device nick")),
                ..Default::default()
            },
        );
        state.insert_node(
            node_id,
            Node {
                name: Some(String::from("Node name")),
                nick: Some(String::from("Node nick")),
                ..Default::default()
            },
        );
        state.insert_client(
            client_id,
            Client {
                application_name: Some(String::from("Client name")),
                ..Default::default()
            },
        );

        Self {
            state,
            device_id,
            node_id,
            client_id,
        }
    }
}

impl Fixture {
    fn update_node(&mut self, change: impl FnOnce(&mut Node)) {
        let mut node = self.state.node(self.node_id).unwrap().clone();
        change(&mut node);
        self.state.insert_node(self.node_id, node);
    }

    fn set_media_class(&mut self, media_class: MediaClass) {
        self.update_node(|node| node.media_class = Some(media_class));
    }

    fn link_device(&mut self) {
        let device_id = self.device_id;
        self.update_node(|node| node.device_id = Some(device_id));
    }

    fn link_client(&mut self) {
        let client_id = self.client_id;
        self.update_node(|node| node.client_id = Some(client_id));
    }
}

#[test]
fn default_stream() {
    // Just make sure this doesn't panic.
    let _ = Names::default_stream();
}

#[test]
fn default_endpoint() {
    // Just make sure this doesn't panic.
    let _ = Names::default_endpoint();
}

#[test]
fn default_device() {
    // Just make sure this doesn't panic.
    let _ = Names::default_device();
}

#[test]
fn render_endpoint() {
    let mut fixture = Fixture::default();

    fixture.set_media_class(MediaClass::from("Audio/Sink"));
    let names = Names {
        endpoint: vec![template("{node:node.nick}")],
        ..Default::default()
    };

    let node = fixture.state.node(fixture.node_id).unwrap();
    let result = names.resolve(&fixture.state, node);
    assert_eq!(result, Some(String::from("Node nick")))
}

#[test]
fn render_endpoint_missing_tag() {
    let mut fixture = Fixture::default();

    fixture.set_media_class(MediaClass::from("Audio/Sink"));

    let names = Names {
        endpoint: vec![template("{node:node.description}")],
        ..Default::default()
    };

    let node = fixture.state.node(fixture.node_id).unwrap();
    let result = names.resolve(&fixture.state, node);
    // Should fall back to node name
    assert_eq!(result, Some(String::from("Node name")))
}

#[test]
fn render_device_missing_tag() {
    let fixture = Fixture::default();

    let names = Names {
        device: vec![template("{device:device.description}")],
        ..Default::default()
    };

    let device = fixture.state.device(fixture.device_id).unwrap();
    let result = names.resolve(&fixture.state, device);
    // Should fall back to device name
    assert_eq!(result, Some(String::from("Device name")))
}

#[test]
fn render_endpoint_linked_device() {
    let mut fixture = Fixture::default();

    fixture.set_media_class(MediaClass::from("Audio/Sink"));
    fixture.link_device();

    let names = Names {
        endpoint: vec![template("{device:device.nick}")],
        ..Default::default()
    };

    let node = fixture.state.node(fixture.node_id).unwrap();
    let result = names.resolve(&fixture.state, node);
    assert_eq!(result, Some(String::from("Device nick")))
}

#[test]
fn render_endpoint_linked_device_missing_tag() {
    let mut fixture = Fixture::default();

    fixture.set_media_class(MediaClass::from("Audio/Sink"));
    fixture.link_device();

    let names = Names {
        endpoint: vec![template("{device:device.description}")],
        ..Default::default()
    };

    let node = fixture.state.node(fixture.node_id).unwrap();
    let result = names.resolve(&fixture.state, node);
    // Should fall back to node name
    assert_eq!(result, Some(String::from("Node name")))
}

#[test]
fn render_endpoint_no_linked_device() {
    let mut fixture = Fixture::default();

    fixture.set_media_class(MediaClass::from("Audio/Sink"));

    let names = Names {
        endpoint: vec![template("{device:device.nick}")],
        ..Default::default()
    };

    let node = fixture.state.node(fixture.node_id).unwrap();
    let result = names.resolve(&fixture.state, node);
    // Should fall back to node name
    assert_eq!(result, Some(String::from("Node name")))
}

#[test]
fn render_stream() {
    let fixture = Fixture::default();

    let names = Names {
        stream: vec![template("{node:node.nick}")],
        ..Default::default()
    };

    let node = fixture.state.node(fixture.node_id).unwrap();
    let result = names.resolve(&fixture.state, node);
    assert_eq!(result, Some(String::from("Node nick")))
}

#[test]
fn render_stream_linked_client() {
    let mut fixture = Fixture::default();

    fixture.link_client();

    let names = Names {
        stream: vec![template("{client:application.name}")],
        ..Default::default()
    };

    let node = fixture.state.node(fixture.node_id).unwrap();
    let result = names.resolve(&fixture.state, node);
    assert_eq!(result, Some(String::from("Client name")))
}

#[test]
fn render_precedence() {
    let fixture = Fixture::default();

    let names = Names {
        stream: vec![
            template("{node:node.description}"),
            template("{node:node.nick}"),
        ],
        ..Default::default()
    };

    let node = fixture.state.node(fixture.node_id).unwrap();
    let result = names.resolve(&fixture.state, node);
    assert_eq!(result, Some(String::from("Node nick")))
}

#[test]
fn render_override_match() {
    let fixture = Fixture::default();

    let names = Names {
        overrides: vec![NameOverride {
            types: vec![OverrideType::Device, OverrideType::Stream],
            property: Tag::Node(NodeTag::NodeName),
            value: String::from("Node name"),
            templates: vec![
                template("{node:node.description}"),
                template("{node:node.nick}"),
            ],
        }],
        ..Default::default()
    };

    let node = fixture.state.node(fixture.node_id).unwrap();
    let result = names.resolve(&fixture.state, node);
    assert_eq!(result, Some(String::from("Node nick")))
}

#[test]
fn render_override_type_mismatch() {
    let fixture = Fixture::default();

    let names = Names {
        overrides: vec![NameOverride {
            types: vec![OverrideType::Device],
            property: Tag::Node(NodeTag::NodeName),
            value: String::from("Node name"),
            templates: vec![template("{node:node.nick}")],
        }],
        ..Default::default()
    };

    let node = fixture.state.node(fixture.node_id).unwrap();
    let result = names.resolve(&fixture.state, node);
    assert_eq!(result, Some(String::from("Node name")))
}

#[test]
fn render_override_value_mismatch() {
    let fixture = Fixture::default();

    let names = Names {
        overrides: vec![NameOverride {
            types: vec![OverrideType::Device],
            property: Tag::Node(NodeTag::NodeDescription),
            value: String::from("Node name"),
            templates: vec![template("{node:node.nick}")],
        }],
        ..Default::default()
    };

    let node = fixture.state.node(fixture.node_id).unwrap();
    let result = names.resolve(&fixture.state, node);
    assert_eq!(result, Some(String::from("Node name")))
}

#[test]
fn render_override_empty_templates() {
    let fixture = Fixture::default();

    let names = Names {
        overrides: vec![NameOverride {
            types: vec![OverrideType::Device, OverrideType::Stream],
            property: Tag::Node(NodeTag::NodeName),
            value: String::from("Node name"),
            templates: vec![],
        }],
        ..Default::default()
    };

    let node = fixture.state.node(fixture.node_id).unwrap();
    let result = names.resolve(&fixture.state, node);
    assert_eq!(result, Some(String::from("Node name")))
}

fn text_of(templates: &[NameTemplate]) -> Vec<String> {
    templates.iter().map(|template| template.to_text()).collect()
}

#[test]
fn default_templates_are_the_built_in_ones() {
    assert_eq!(
        text_of(&Names::default_stream()),
        vec!["{node:node.name}: {node:media.name}"]
    );
    assert_eq!(
        text_of(&Names::default_endpoint()),
        vec!["{device:device.nick}", "{node:node.description}"]
    );
    assert_eq!(
        text_of(&Names::default_device()),
        vec!["{device:device.nick}", "{device:device.description}"]
    );
}

#[test]
fn default_names_hold_the_defaults_and_no_overrides() {
    let names = Names::default();
    assert_eq!(names.stream, Names::default_stream());
    assert_eq!(names.endpoint, Names::default_endpoint());
    assert_eq!(names.device, Names::default_device());
    assert!(names.overrides.is_empty());
}

#[test]
fn resolve_with_defaults() {
    let mut fixture = Fixture::default();
    let names = Names::default();

    // The device has a nick.
    let device = fixture.state.device(fixture.device_id).unwrap();
    assert_eq!(
        names.resolve(&fixture.state, device),
        Some(String::from("Device nick"))
    );

    // A stream without a media name falls back to its own name.
    let node = fixture.state.node(fixture.node_id).unwrap();
    assert_eq!(
        names.resolve(&fixture.state, node),
        Some(String::from("Node name"))
    );

    fixture.update_node(|node| node.media_name = Some(String::from("Song")));
    let node = fixture.state.node(fixture.node_id).unwrap();
    assert_eq!(
        names.resolve(&fixture.state, node),
        Some(String::from("Node name: Song"))
    );
}

#[test]
fn end_to_end_example() {
    let mut fixture = Fixture::default();
    fixture.set_media_class(MediaClass::from("Audio/Sink"));
    fixture.link_device();

    let names = Names {
        endpoint: vec![template("{device:device.nick}")],
        ..Default::default()
    };

    let node = fixture.state.node(fixture.node_id).unwrap();
    assert_eq!(
        names.resolve(&fixture.state, node),
        Some(String::from("Device nick"))
    );

    fixture.update_node(|node| node.device_id = None);
    let node = fixture.state.node(fixture.node_id).unwrap();
    assert_eq!(
        names.resolve(&fixture.state, node),
        Some(String::from("Node name"))
    );
}

#[test]
fn resolve_without_any_name() {
    let state = State::new();
    let names = Names::default();
    assert_eq!(names.resolve(&state, &Node::default()), None);
    assert_eq!(names.resolve(&state, &Device::default()), None);
}

#[test]
fn resolve_never_mixes_two_templates() {
    let fixture = Fixture::default();
    let names = Names {
        stream: vec![
            template("{node:node.nick} - {node:node.description}"),
            template("<{node:node.nick}>"),
        ],
        ..Default::default()
    };
    let node = fixture.state.node(fixture.node_id).unwrap();
    assert_eq!(
        names.resolve(&fixture.state, node),
        Some(String::from("<Node nick>"))
    );
}

#[test]
fn resolve_stops_at_the_first_success() {
    let fixture = Fixture::default();
    let names = Names {
        stream: vec![template("{node:node.nick}"), template("{node:node.name}")],
        ..Default::default()
    };
    let node = fixture.state.node(fixture.node_id).unwrap();
    assert_eq!(
        names.resolve(&fixture.state, node),
        Some(String::from("Node nick"))
    );
}

fn rule(types: Vec<OverrideType>, property: Tag, value: &str, templates: &[&str]) -> NameOverride {
    NameOverride {
        types,
        property,
        value: String::from(value),
        templates: templates.iter().map(|source| template(source)).collect(),
    }
}

#[test]
fn override_wins_over_defaults_that_render() {
    let fixture = Fixture::default();
    let names = Names {
        stream: vec![template("{node:node.name}")],
        overrides: vec![rule(
            vec![OverrideType::Stream],
            Tag::Node(NodeTag::NodeNick),
            "Node nick",
            &["override: {node:node.nick}"],
        )],
        ..Default::default()
    };
    let node = fixture.state.node(fixture.node_id).unwrap();
    assert_eq!(
        names.resolve(&fixture.state, node),
        Some(String::from("override: Node nick"))
    );
}

#[test]
fn first_matching_override_wins() {
    let fixture = Fixture::default();
    let names = Names {
        overrides: vec![
            rule(
                vec![OverrideType::Stream],
                Tag::Node(NodeTag::NodeName),
                "Another name",
                &["zeroth"],
            ),
            rule(
                vec![OverrideType::Stream],
                Tag::Node(NodeTag::NodeName),
                "Node name",
                &["first"],
            ),
            rule(
                vec![OverrideType::Stream],
                Tag::Node(NodeTag::NodeNick),
                "Node nick",
                &["second"],
            ),
        ],
        ..Default::default()
    };
    let node = fixture.state.node(fixture.node_id).unwrap();
    assert_eq!(
        names.resolve(&fixture.state, node),
        Some(String::from("first"))
    );
}

#[test]
fn override_value_must_match_exactly() {
    let fixture = Fixture::default();
    for value in ["Node", "Node name ", "node name", "", "{node:node.name}"] {
        let names = Names {
            stream: vec![template("default")],
            overrides: vec![rule(
                vec![OverrideType::Stream],
                Tag::Node(NodeTag::NodeName),
                value,
                &["override"],
            )],
            ..Default::default()
        };
        let node = fixture.state.node(fixture.node_id).unwrap();
        assert_eq!(
            names.resolve(&fixture.state, node),
            Some(String::from("default"))
        );
    }
}

#[test]
fn override_without_types_never_applies() {
    let fixture = Fixture::default();
    let names = Names {
        stream: vec![template("default")],
        overrides: vec![rule(
            vec![],
            Tag::Node(NodeTag::NodeName),
            "Node name",
            &["override"],
        )],
        ..Default::default()
    };
    let node = fixture.state.node(fixture.node_id).unwrap();
    assert_eq!(
        names.resolve(&fixture.state, node),
        Some(String::from("default"))
    );
}

#[test]
fn override_on_absent_property_is_skipped() {
    let fixture = Fixture::default();
    let names = Names {
        stream: vec![template("default")],
        overrides: vec![rule(
            vec![OverrideType::Stream],
            Tag::Device(DeviceTag::DeviceNick),
            "Device nick",
            &["override"],
        )],
        ..Default::default()
    };
    // The node is not linked to the device.
    let node = fixture.state.node(fixture.node_id).unwrap();
    assert_eq!(
        names.resolve(&fixture.state, node),
        Some(String::from("default"))
    );
}

#[test]
fn override_matches_on_the_linked_device() {
    let mut fixture = Fixture::default();
    fixture.link_device();
    let names = Names {
        stream: vec![template("default")],
        overrides: vec![rule(
            vec![OverrideType::Stream],
            Tag::Device(DeviceTag::DeviceNick),
            "Device nick",
            &["on {device:device.name}"],
        )],
        ..Default::default()
    };
    let node = fixture.state.node(fixture.node_id).unwrap();
    assert_eq!(
        names.resolve(&fixture.state, node),
        Some(String::from("on Device name"))
    );
}

#[test]
fn override_for_devices() {
    let fixture = Fixture::default();
    let names = Names {
        overrides: vec![rule(
            vec![OverrideType::Endpoint, OverrideType::Device],
            Tag::Device(DeviceTag::DeviceName),
            "Device name",
            &["{device:device.description}", "card {device:device.nick}"],
        )],
        ..Default::default()
    };
    let device = fixture.state.device(fixture.device_id).unwrap();
    assert_eq!(
        names.resolve(&fixture.state, device),
        Some(String::from("card Device nick"))
    );
}

#[test]
fn empty_override_does_not_try_the_defaults() {
    let fixture = Fixture::default();
    let names = Names {
        stream: vec![template("{node:node.nick}")],
        overrides: vec![rule(
            vec![OverrideType::Stream],
            Tag::Node(NodeTag::NodeName),
            "Node name",
            &[],
        )],
        ..Default::default()
    };
    let node = fixture.state.node(fixture.node_id).unwrap();
    assert_eq!(
        names.resolve(&fixture.state, node),
        Some(String::from("Node name"))
    );
}

#[test]
fn override_whose_templates_fail_falls_back() {
    let fixture = Fixture::default();
    let names = Names {
        stream: vec![template("{node:node.nick}")],
        overrides: vec![rule(
            vec![OverrideType::Stream],
            Tag::Node(NodeTag::NodeName),
            "Node name",
            &["{node:node.description}"],
        )],
        ..Default::default()
    };
    let node = fixture.state.node(fixture.node_id).unwrap();
    assert_eq!(
        names.resolve(&fixture.state, node),
        Some(String::from("Node name"))
    );
}

#[test]
fn category_follows_the_media_class() {
    let mut fixture = Fixture::default();
    let names = Names {
        stream: vec![template("stream")],
        endpoint: vec![template("endpoint")],
        device: vec![template("device")],
        overrides: vec![],
    };

    let node = fixture.state.node(fixture.node_id).unwrap();
    assert_eq!(
        names.resolve(&fixture.state, node),
        Some(String::from("stream"))
    );
    assert_eq!(names.stream, *node.templates(&fixture.state, &names));

    for class in ["Audio/Sink", "Audio/Source", "Audio/Duplex", "Audio/Source/Virtual"] {
        fixture.set_media_class(MediaClass::from(class));
        let node = fixture.state.node(fixture.node_id).unwrap();
        assert_eq!(
            names.resolve(&fixture.state, node),
            Some(String::from("endpoint"))
        );
    }

    fixture.set_media_class(MediaClass::from("Stream/Output/Audio"));
    let node = fixture.state.node(fixture.node_id).unwrap();
    assert_eq!(
        names.resolve(&fixture.state, node),
        Some(String::from("stream"))
    );

    let device = fixture.state.device(fixture.device_id).unwrap();
    assert_eq!(
        names.resolve(&fixture.state, device),
        Some(String::from("device"))
    );
}

#[test]
fn override_category_follows_the_media_class() {
    let mut fixture = Fixture::default();
    let names = Names {
        overrides: vec![rule(
            vec![OverrideType::Endpoint],
            Tag::Node(NodeTag::NodeName),
            "Node name",
            &["endpoint override"],
        )],
        ..Default::default()
    };
    let node = fixture.state.node(fixture.node_id).unwrap();
    assert_eq!(
        names.resolve(&fixture.state, node),
        Some(String::from("Node name"))
    );
    fixture.set_media_class(MediaClass::from("Audio/Source"));
    let node = fixture.state.node(fixture.node_id).unwrap();
    assert_eq!(
        names.resolve(&fixture.state, node),
        Some(String::from("endpoint override"))
    );
}

fn all_tags() -> Vec<Tag> {
    vec![
        Tag::Device(DeviceTag::DeviceName),
        Tag::Device(DeviceTag::DeviceNick),
        Tag::Device(DeviceTag::DeviceDescription),
        Tag::Node(NodeTag::NodeName),
        Tag::Node(NodeTag::NodeNick),
        Tag::Node(NodeTag::NodeDescription),
        Tag::Node(NodeTag::MediaName),
        Tag::Client(ClientTag::ApplicationName),
        Tag::Client(ClientTag::ApplicationProcessBinary),
    ]
}

fn full_state() -> (State, ObjectId) {
    let mut state = State::new();
    let id = ObjectId::from_raw_id(5);
    state.insert_device(
        id,
        Device {
            name: Some(String::from("dn")),
            nick: Some(String::from("dk")),
            description: Some(String::from("dd")),
        },
    );
    state.insert_client(
        id,
        Client {
            application_name: Some(String::from("ca")),
            application_process_binary: Some(String::from("cb")),
        },
    );
    state.insert_node(
        id,
        Node {
            name: Some(String::from("nn")),
            nick: Some(String::from("nk")),
            description: Some(String::from("nd")),
            media_name: Some(String::from("nm")),
            media_class: None,
            device_id: Some(id),
            client_id: Some(id),
        },
    );
    (state, id)
}

fn values(resolver: &impl TagResolver, state: &State) -> Vec<Option<String>> {
    all_tags()
        .into_iter()
        .map(|tag| resolver.resolve_tag(state, tag).cloned())
        .collect()
}

fn some(values: [&str; 9]) -> Vec<Option<String>> {
    values
        .iter()
        .map(|value| {
            if value.is_empty() {
                None
            } else {
                Some(String::from(*value))
            }
        })
        .collect()
}

#[test]
fn device_resolves_its_own_tags_only() {
    let (state, id) = full_state();
    let device = state.device(id).unwrap();
    assert_eq!(
        values(device, &state),
        some(["dn", "dk", "dd", "", "", "", "", "", ""])
    );
    assert_eq!(device.fallback(), Some(&String::from("dn")));
}

#[test]
fn client_resolves_its_own_tags_only() {
    let (state, id) = full_state();
    let client = state.client(id).unwrap();
    assert_eq!(
        values(client, &state),
        some(["", "", "", "", "", "", "", "ca", "cb"])
    );
}

#[test]
fn linked_node_resolves_every_tag() {
    let (state, id) = full_state();
    let node = state.node(id).unwrap();
    assert_eq!(
        values(node, &state),
        some(["dn", "dk", "dd", "nn", "nk", "nd", "nm", "ca", "cb"])
    );
    assert_eq!(node.fallback(), Some(&String::from("nn")));
}

#[test]
fn unlinked_node_resolves_its_own_tags_only() {
    let (state, id) = full_state();
    let mut node = state.node(id).unwrap().clone();
    node.device_id = None;
    assert_eq!(
        values(&node, &state),
        some(["", "", "", "nn", "nk", "nd", "nm", "ca", "cb"])
    );
    node.client_id = None;
    assert_eq!(
        values(&node, &state),
        some(["", "", "", "nn", "nk", "nd", "nm", "", ""])
    );
}

#[test]
fn node_with_dangling_links_resolves_its_own_tags_only() {
    let (state, id) = full_state();
    let mut node = state.node(id).unwrap().clone();
    node.device_id = Some(ObjectId::from_raw_id(6));
    node.client_id = Some(ObjectId::from_raw_id(7));
    assert_eq!(
        values(&node, &state),
        some(["", "", "", "nn", "nk", "nd", "nm", "", ""])
    );
}

#[test]
fn device_template_with_node_tag_falls_back() {
    let (state, id) = full_state();
    let names = Names {
        device: vec![template("{node:node.name}"), template("{client:application.name}")],
        ..Default::default()
    };
    let device = state.device(id).unwrap();
    assert_eq!(names.resolve(&state, device), Some(String::from("dn")));
}

#[test]
fn name_override_picks_the_first_rule_that_applies() {
    let fixture = Fixture::default();
    let node = fixture.state.node(fixture.node_id).unwrap();
    let overrides = vec![
        rule(
            vec![OverrideType::Device, OverrideType::Endpoint],
            Tag::Node(NodeTag::NodeName),
            "Node name",
            &["a"],
        ),
        rule(
            vec![OverrideType::Stream],
            Tag::Node(NodeTag::NodeName),
            "Node name",
            &["b"],
        ),
        rule(
            vec![OverrideType::Stream, OverrideType::Endpoint],
            Tag::Node(NodeTag::NodeNick),
            "Node nick",
            &["c"],
        ),
    ];
    let found = node.name_override(&fixture.state, &overrides, OverrideType::Stream);
    assert_eq!(found.map(|list| text_of(list)), Some(vec![String::from("b")]));
    let found = node.name_override(&fixture.state, &overrides, OverrideType::Endpoint);
    assert_eq!(found.map(|list| text_of(list)), Some(vec![String::from("a")]));
    let found = node.name_override(&fixture.state, &overrides[2..], OverrideType::Device);
    assert_eq!(found, None);
    let found = node.name_override(&fixture.state, &[], OverrideType::Stream);
    assert_eq!(found, None);
}

#[test]
fn has_type_looks_through_the_list() {
    let types = vec![OverrideType::Device, OverrideType::Stream];
    assert!(has_type(&types, OverrideType::Device));
    assert!(has_type(&types, OverrideType::Stream));
    assert!(!has_type(&types, OverrideType::Endpoint));
    assert!(!has_type(&vec![], OverrideType::Endpoint));
}
