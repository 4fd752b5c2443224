//! Card documents for a search index: decoding of the raw card collection,
//! selection and clean-up of the records, and the plan by which an index is
//! replaced with the resulting documents.

pub mod card;
pub mod item;
pub mod markup;
pub mod json;
pub mod records;
pub mod select;
pub mod transform;
pub mod loader;
pub mod source;

pub use card::{Card, CardSound, PRIMARY_KEY, SEARCH_INDEX};
pub use item::CollectionItem;
pub use source::{Hearthstone, ItemSource};
pub use transform::{transform, ParseError};
