//! View extractors: pure projections from resolved action items (plus the
//! shared map, for hierarchy lookups) to output-facing records, each with its
//! own variant guard and sort key.

pub mod crunch_points;
pub mod daily_notes;
pub mod events;
pub mod people_dates;
pub mod projects;
pub mod sort;
pub mod stacks;
pub mod tasks;
pub mod tickles;
pub mod waiting;
