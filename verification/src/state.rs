//! The objects of a session, as far as naming them needs to know them.

use std::collections::HashMap;
use vstd::prelude::*;
use crate::media_class::MediaClass;
use crate::object::ObjectId;

verus! {

broadcast use vstd::std_specs::hash::group_hash_axioms;

/// A device. Each property is absent until it has been observed.
#[derive(Clone, Debug, Default, PartialEq, Eq)]
pub struct Device {
    pub name: Option<String>,
    pub nick: Option<String>,
    pub description: Option<String>,
}

/// A client application.
#[derive(Clone, Debug, Default, PartialEq, Eq)]
pub struct Client {
    pub application_name: Option<String>,
    pub application_process_binary: Option<String>,
}

/// A node. It may be linked to a device and to a client, which it knows by
/// their identifiers only.
#[derive(Clone, Debug, Default, PartialEq, Eq)]
pub struct Node {
    pub name: Option<String>,
    pub nick: Option<String>,
    pub description: Option<String>,
    pub media_name: Option<String>,
    pub media_class: Option<MediaClass>,
    pub device_id: Option<ObjectId>,
    pub client_id: Option<ObjectId>,
}

/// The objects of a session, each under its identifier.
pub struct State {
    devices: HashMap<u32, Device>,
    nodes: HashMap<u32, Node>,
    clients: HashMap<u32, Client>,
}

impl State {
    /// The device stored under `id`, if there is one.
    pub closed spec fn device_at(&self, id: ObjectId) -> Option<Device> {
        if self.devices@.contains_key(id.raw()) {
            Some(self.devices@[id.raw()])
        } else {
            None
        }
    }

    /// The node stored under `id`, if there is one.
    pub closed spec fn node_at(&self, id: ObjectId) -> Option<Node> {
        if self.nodes@.contains_key(id.raw()) {
            Some(self.nodes@[id.raw()])
        } else {
            None
        }
    }

    /// The client stored under `id`, if there is one.
    pub closed spec fn client_at(&self, id: ObjectId) -> Option<Client> {
        if self.clients@.contains_key(id.raw()) {
            Some(self.clients@[id.raw()])
        } else {
            None
        }
    }

    /// A state without objects.
    pub fn new() -> (state: State)
        ensures
            forall|id: ObjectId| state.device_at(id).is_none(),
            forall|id: ObjectId| state.node_at(id).is_none(),
            forall|id: ObjectId| state.client_at(id).is_none(),
    {
        State { devices: HashMap::new(), nodes: HashMap::new(), clients: HashMap::new() }
    }

    /// Looks up a device.
    pub fn device(&self, id: ObjectId) -> (found: Option<&Device>)
        ensures
            match found {
                Some(device) => self.device_at(id) == Some(*device),
                None => self.device_at(id).is_none(),
            },
    {
        let raw: u32 = id.raw_id();
        self.devices.get(&raw)
    }

    /// Looks up a node.
    pub fn node(&self, id: ObjectId) -> (found: Option<&Node>)
        ensures
            match found {
                Some(node) => self.node_at(id) == Some(*node),
                None => self.node_at(id).is_none(),
            },
    {
        let raw: u32 = id.raw_id();
        self.nodes.get(&raw)
    }

    /// Looks up a client.
    pub fn client(&self, id: ObjectId) -> (found: Option<&Client>)
        ensures
            match found {
                Some(client) => self.client_at(id) == Some(*client),
                None => self.client_at(id).is_none(),
            },
    {
        let raw: u32 = id.raw_id();
        self.clients.get(&raw)
    }

    /// Stores `device` under `id`, in place of any device that was there.
    pub fn insert_device(&mut self, id: ObjectId, device: Device)
        ensures
            final(self).device_at(id) == Some(device),
            forall|other: ObjectId| other != id ==> final(self).device_at(other) == old(self).device_at(other),
            forall|other: ObjectId| final(self).node_at(other) == old(self).node_at(other),
            forall|other: ObjectId| final(self).client_at(other) == old(self).client_at(other),
    {
        let raw: u32 = id.raw_id();
        let _ = self.devices.insert(raw, device);
        proof {
            assert forall|other: ObjectId| other != id implies final(self).device_at(other) == old(
                self,
            ).device_at(other) by {
                if other.raw() == id.raw() {
                    ObjectId::lemma_raw_injective(other, id);
                }
            }
        }
    }

    /// Stores `node` under `id`, in place of any node that was there.
    pub fn insert_node(&mut self, id: ObjectId, node: Node)
        ensures
            final(self).node_at(id) == Some(node),
            forall|other: ObjectId| other != id ==> final(self).node_at(other) == old(self).node_at(other),
            forall|other: ObjectId| final(self).device_at(other) == old(self).device_at(other),
            forall|other: ObjectId| final(self).client_at(other) == old(self).client_at(other),
    {
        let raw: u32 = id.raw_id();
        let _ = self.nodes.insert(raw, node);
        proof {
            assert forall|other: ObjectId| other != id implies final(self).node_at(other) == old(
                self,
            ).node_at(other) by {
                if other.raw() == id.raw() {
                    ObjectId::lemma_raw_injective(other, id);
                }
            }
        }
    }

    /// Stores `client` under `id`, in place of any client that was there.
    pub fn insert_client(&mut self, id: ObjectId, client: Client)
        ensures
            final(self).client_at(id) == Some(client),
            forall|other: ObjectId| other != id ==> final(self).client_at(other) == old(self).client_at(other),
            forall|other: ObjectId| final(self).device_at(other) == old(self).device_at(other),
            forall|other: ObjectId| final(self).node_at(other) == old(self).node_at(other),
    {
        let raw: u32 = id.raw_id();
        let _ = self.clients.insert(raw, client);
        proof {
            assert forall|other: ObjectId| other != id implies final(self).client_at(other) == old(
                self,
            ).client_at(other) by {
                if other.raw() == id.raw() {
                    ObjectId::lemma_raw_injective(other, id);
                }
            }
        }
    }
}

} // verus!
