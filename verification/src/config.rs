//! The naming configuration: templates, override rules and their defaults.

use vstd::prelude::*;
use crate::config::name_template::NameTemplate;
use crate::config::tag::Tag;

pub mod error;
pub mod name_template;
pub mod names;
pub mod tag;
pub mod tag_order;

verus! {

/// The role in which an object is named. It selects the default template
/// list and the override rules that apply.
#[derive(Clone, Copy, Debug, PartialEq, Eq, Structural, Hash)]
pub enum OverrideType {
    Device,
    Endpoint,
    Stream,
}

/// A rule that replaces the default templates for the objects it matches.
///
/// It matches an object whose category is among `types` and for which the
/// tag `property` resolves to exactly `value`.
#[derive(Clone, Debug)]
pub struct NameOverride {
    pub types: Vec<OverrideType>,
    pub property: Tag,
    pub value: String,
    pub templates: Vec<NameTemplate>,
}

/// The naming configuration. Each list is in order of precedence: the first
/// template that renders wins, and the first override that matches wins.
#[derive(Clone, Debug)]
pub struct Names {
    pub stream: Vec<NameTemplate>,
    pub endpoint: Vec<NameTemplate>,
    pub device: Vec<NameTemplate>,
    pub overrides: Vec<NameOverride>,
}

} // verus!
