//! Analytics and content processing for a collection of notes: completion
//! statistics with a per-day activity series, text and tag search, and image
//! normalisation.

pub mod activity;
pub mod dates;
pub mod model;
pub mod picture;
pub mod search;
pub mod text;

pub use activity::{calculate_activity, record_day};
pub use model::{ActivityData, ActivityResult, Note, Reminder, Stats};
pub use picture::{optimize_image, NormalizeError};
pub use search::search_notes;
