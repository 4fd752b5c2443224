//! Sources of searchable items: what a loader needs to know of a source.

use vstd::prelude::*;
use vstd::string::*;
use crate::card::{Card, CardView, PRIMARY_KEY, SEARCH_INDEX};
use crate::card::{searchable_attributes, searchable_attributes_spec};
use crate::transform::{ParseError, ParseFailure, cards_view, transform, transform_spec};

verus! {

/// Address of the collection of all collectible cards.
pub const JSON_CARD_COLLECTION: &'static str =
    "https://api.hearthstonejson.com/v1/latest/enUS/cards.collectible.json";

/// A source of items for a search index.
pub trait ItemSource {
    /// The documents that the source yields.
    type Item;

    /// Address from which the raw collection is fetched.
    fn collection_url(&self) -> String;

    /// Name of the index that holds the items.
    fn storage_index(&self) -> String;

    /// Field by which the index identifies an item.
    fn primary_key(&self) -> String;

    /// Fields that the index searches.
    fn searchable_attributes(&self) -> Vec<String>;

    /// The items to load, from the body that the source's address returned.
    fn items_from(&self, body: &str) -> Result<Vec<Self::Item>, ParseError>;
}

/// The collectible cards of Hearthstone.
pub struct Hearthstone;

impl ItemSource for Hearthstone {
    type Item = Card;

    fn collection_url(&self) -> (url: String)
        ensures
            url@ == JSON_CARD_COLLECTION@,
    {
        String::from_str(JSON_CARD_COLLECTION)
    }

    fn storage_index(&self) -> (name: String)
        ensures
            name@ == SEARCH_INDEX@,
    {
        String::from_str(SEARCH_INDEX)
    }

    fn primary_key(&self) -> (key: String)
        ensures
            key@ == PRIMARY_KEY@,
    {
        String::from_str(PRIMARY_KEY)
    }

    fn searchable_attributes(&self) -> (fields: Vec<String>)
        ensures
            fields.deep_view() == searchable_attributes_spec(),
    {
        searchable_attributes()
    }

    fn items_from(&self, body: &str) -> (res: Result<Vec<Card>, ParseError>)
        ensures
            match res {
                Ok(cards) => transform_spec(body@) == Ok::<Seq<CardView>, ParseFailure>(
                    cards_view(cards@),
                ),
                Err(e) => transform_spec(body@) == Err::<Seq<CardView>, ParseFailure>(e@),
            },
    {
        transform(body)
    }
}

} // verus!
