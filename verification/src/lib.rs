//! A temporal expansion and hierarchy-resolution engine for action items.
//!
//! Raw nodes fetched from a graph-structured store are expanded into concrete
//! occurrences (repeating timestamps bounded by a horizon), typed into action
//! items, and resolved against their parent/child hierarchy: priorities are
//! inherited upward through projects, scheduled and deadline dates are
//! inherited downward and cross-checked, and sibling non-actionable tasks
//! impose buffered deadlines on actionable work.

pub mod dates;
pub mod extractors;
pub mod action_item;
pub mod laws;
pub mod map;
pub mod node;
pub mod normalize;
pub mod people;
pub mod repeat;
pub mod resolve;
pub mod strutil;
pub mod target_contexts;
pub mod timestamps;
pub mod views;
