//! Consolidates the scattered history blocks of a talk page into one
//! canonical article-history record, derives its summary status, and
//! renders the record back into ordered template parameters.

pub mod builder;
pub mod date;
pub mod error;
pub mod extract;
pub mod extractors;
pub mod kind;
pub mod laws;
pub mod names;
pub mod page;
pub mod params;
pub mod status;
pub mod text;
pub mod types;

pub use builder::{AddToParams, Param, ParamBuilder};
pub use date::{CountLookup, DateLookup, DecisionLookup, Halt, Lookups, Query};
pub use error::HistoryError;
pub use extract::ArticleHistoryExtractor;
pub use extractors::ExtractContext;
pub use kind::ActionKind;
pub use page::{check_nobots, collapse_newlines, merge_page, Block, DocEdit, Placement};
pub use status::StatusToken;
pub use types::{Action, ArticleHistory, Dyk, FeaturedTopic, Itn, Otd, PreserveDate};
