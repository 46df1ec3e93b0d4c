//! Display names for audio-session objects.
//!
//! A [`config::Names`] configuration holds ordered lists of name templates
//! and override rules. [`config::Names::resolve`] picks the display name of a
//! device or node: the first template of the applicable list that renders
//! completely, or else the object's own name.

pub mod config;
pub mod media_class;
pub mod object;
pub mod state;
pub mod text;
