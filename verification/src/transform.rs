//! From the text of the raw collection to the documents of the index.

use vstd::prelude::*;
use crate::card::{Card, CardSound, CardView};
use crate::card::{image_url_spec, sound_keys, sound_urls_cover_all_cues, sound_urls_spec};
use crate::item::{CollectionItem, ItemView, card_spec};
use crate::json::{json_entries, parse_entries};
use crate::markup::{cleaned_text, contains_markup, strip_markup};
use crate::records::{decode_records, items_view, records_spec};
use crate::select::{MINION_TAG, dedup_by_name, dedup_spec, minions_spec, select_minions};
use crate::select::{dedup_keeps_one_per_name, minions_are_minions, minions_keep_order, normalized};

verus! {

/// Why a collection could not be turned into documents.
#[derive(Clone, Copy, Debug, PartialEq, Eq, Structural)]
pub enum ParseError {
    /// The text is no JSON array.
    InvalidJson,
    /// The entry at this position of the array is no card record.
    UnexpectedShape(usize),
    /// The description of the selected record at this position could not be
    /// freed of its markup.
    ResidualMarkup(usize),
}

/// A [`ParseError`] with its position as a mathematical integer.
pub enum ParseFailure {
    InvalidJson,
    UnexpectedShape(int),
    ResidualMarkup(int),
}

impl View for ParseError {
    type V = ParseFailure;

    open spec fn view(&self) -> ParseFailure {
        match self {
            ParseError::InvalidJson => ParseFailure::InvalidJson,
            ParseError::UnexpectedShape(at) => ParseFailure::UnexpectedShape(*at as int),
            ParseError::ResidualMarkup(at) => ParseFailure::ResidualMarkup(*at as int),
        }
    }
}

/// The documents of a sequence of cards, as plain values.
pub open spec fn cards_view(cards: Seq<Card>) -> Seq<CardView> {
    Seq::new(cards.len(), |i: int| cards[i]@)
}

/// The documents of `items`, one for each in their order, or the position of
/// the first whose description has no cleaned form.
pub open spec fn cards_spec(items: Seq<ItemView>) -> Result<Seq<CardView>, int>
    decreases items.len(),
{
    if items.len() == 0 {
        Ok(Seq::empty())
    } else {
        match cards_spec(items.drop_last()) {
            Err(at) => Err(at),
            Ok(cards) => match cleaned_text(items.last().text_or_empty()) {
                Some(text) => Ok(cards.push(card_spec(items.last(), text))),
                None => Err(items.len() - 1),
            },
        }
    }
}

/// The records that become documents: the first record of each name, of
/// these the minions, each with its identifier normalized.
pub open spec fn retained(records: Seq<ItemView>) -> Seq<ItemView> {
    minions_spec(dedup_spec(records))
}

/// What the collection `json` is turned into.
pub open spec fn transform_spec(json: Seq<char>) -> Result<Seq<CardView>, ParseFailure> {
    match json_entries(json) {
        None => Err(ParseFailure::InvalidJson),
        Some(entries) => match records_spec(entries) {
            Err(at) => Err(ParseFailure::UnexpectedShape(at)),
            Ok(records) => match cards_spec(retained(records)) {
                Err(at) => Err(ParseFailure::ResidualMarkup(at)),
                Ok(cards) => Ok(cards),
            },
        },
    }
}

/// The documents of `items`, where each record has one; none otherwise.
pub open spec fn documents(items: Seq<ItemView>) -> Seq<CardView> {
    match cards_spec(items) {
        Ok(cards) => cards,
        Err(_) => Seq::empty(),
    }
}

/// A failure at some position fails every longer sequence at that position.
pub proof fn lemma_cards_error_stays(items: Seq<ItemView>, n: int)
    requires
        0 <= n <= items.len(),
        cards_spec(items.take(n)) is Err,
    ensures
        cards_spec(items) == cards_spec(items.take(n)),
    decreases items.len() - n,
{
    if n == items.len() {
        assert(items.take(n) =~= items);
    } else {
        assert(items.take(n + 1).drop_last() =~= items.take(n));
        lemma_cards_error_stays(items, n + 1);
    }
}

impl Card {
    /// The document of `item`: its description is freed of markup, and the
    /// addresses of its image and sounds are derived from its identifier.
    /// There is none where the description has no cleaned form.
    pub fn from_item(item: CollectionItem) -> (res: Option<Card>)
        ensures
            match res {
                Some(card) => cleaned_text(item@.text_or_empty()) == Some(card@.text) && card@
                    == card_spec(item@, card@.text),
                None => cleaned_text(item@.text_or_empty()) is None,
            },
    {
        match strip_markup(item.text_or_empty()) {
            Some(cleaned) => Some(item.into_card(cleaned)),
            None => None,
        }
    }
}

/// Builds the document of each record, in their order.
pub fn build_cards(items: &Vec<CollectionItem>) -> (res: Result<Vec<Card>, usize>)
    ensures
        match res {
            Ok(cards) => cards_spec(items_view(items@)) == Ok::<Seq<CardView>, int>(
                cards_view(cards@),
            ),
            Err(at) => cards_spec(items_view(items@)) == Err::<Seq<CardView>, int>(at as int),
        },
{
    let mut cards: Vec<Card> = Vec::new();
    let mut i: usize = 0;
    assert(cards_view(cards@) =~= Seq::<CardView>::empty());
    assert(items_view(items@).take(0).len() == 0);
    while i < items.len()
        invariant
            i <= items.len(),
            cards_spec(items_view(items@).take(i as int)) == Ok::<Seq<CardView>, int>(
                cards_view(cards@),
            ),
        decreases items.len() - i,
    {
        proof {
            let all = items_view(items@);
            assert(all.take(i + 1).drop_last() =~= all.take(i as int));
            assert(all.take(i + 1).last() == items@[i as int]@);
        }
        let ghost before = cards_view(cards@);
        match Card::from_item(items[i].duplicate()) {
            Some(card) => {
                cards.push(card);
                assert(cards_view(cards@) =~= before.push(card@));
            },
            None => {
                proof {
                    lemma_cards_error_stays(items_view(items@), i + 1);
                }
                return Err(i);
            },
        }
        i += 1;
    }
    proof {
        let all = items_view(items@);
        assert(all.take(all.len() as int) =~= all);
    }
    Ok(cards)
}

/// Turns the text of the raw collection into the documents to load: decodes
/// the records, keeps the first record of each name and of these the
/// minions, and derives the document of each.
pub fn transform(json: &str) -> (res: Result<Vec<Card>, ParseError>)
    ensures
        match res {
            Ok(cards) => transform_spec(json@) == Ok::<Seq<CardView>, ParseFailure>(
                cards_view(cards@),
            ),
            Err(e) => transform_spec(json@) == Err::<Seq<CardView>, ParseFailure>(e@),
        },
        res matches Ok(cards) ==> forall|k: int|
            0 <= k < cards@.len() ==> well_formed(#[trigger] cards_view(cards@)[k]),
{
    let entries = match parse_entries(json) {
        Ok(entries) => entries,
        Err(_) => {
            return Err(ParseError::InvalidJson);
        },
    };
    let records = match decode_records(&entries) {
        Ok(records) => records,
        Err(at) => {
            return Err(ParseError::UnexpectedShape(at));
        },
    };
    let unique = dedup_by_name(&records);
    let minions = select_minions(&unique);
    match build_cards(&minions) {
        Ok(cards) => {
            proof {
                emitted_cards_are_well_formed(items_view(minions@));
            }
            Ok(cards)
        },
        Err(at) => Err(ParseError::ResidualMarkup(at)),
    }
}

/// What holds of every document: its description is free of markup, its
/// image address is that of its identifier, and it has the address of each
/// of the three sound cues and of nothing else.
pub open spec fn well_formed(card: CardView) -> bool {
    &&& !contains_markup(card.text)
    &&& card.image_url == image_url_spec(card.id)
    &&& card.sound_urls == sound_urls_spec(card.id)
    &&& card.sound_urls.len() == 3
    &&& sound_keys(card.sound_urls) =~= set![CardSound::Attack, CardSound::Death, CardSound::Play]
}

/// The documents of a sequence of records are as many as the records, each
/// is well formed, and each has the identifier and the name of its record.
pub proof fn emitted_cards_are_well_formed(items: Seq<ItemView>)
    requires
        cards_spec(items) is Ok,
    ensures
        documents(items).len() == items.len(),
        forall|k: int|
            0 <= k < items.len() ==> {
                let card = #[trigger] documents(items)[k];
                &&& well_formed(card)
                &&& card.id == items[k].id
                &&& card.name == items[k].name
                &&& cleaned_text(items[k].text_or_empty()) == Some(card.text)
            },
    decreases items.len(),
{
    if items.len() > 0 {
        let front = items.drop_last();
        emitted_cards_are_well_formed(front);
        sound_urls_cover_all_cues(items.last().id);
        let cards = documents(items);
        assert forall|k: int| 0 <= k < items.len() implies {
            let card = #[trigger] cards[k];
            &&& well_formed(card)
            &&& card.id == items[k].id
            &&& card.name == items[k].name
            &&& cleaned_text(items[k].text_or_empty()) == Some(card.text)
        } by {
            if k < front.len() {
                assert(cards[k] == documents(front)[k]);
                assert(front[k] == items[k]);
            }
        }
    }
}

/// Every document that a collection is turned into comes from a record of
/// the collection that is a minion: it has that record's name and its
/// identifier without the core prefix. So a record of another type has no
/// document, unless a minion shares its name. No two documents share a name.
pub proof fn documents_come_from_minions(records: Seq<ItemView>)
    requires
        cards_spec(retained(records)) is Ok,
    ensures
        forall|k: int|
            0 <= k < documents(retained(records)).len() ==> exists|j: int|
                0 <= j < records.len() && records[j].card_type == MINION_TAG@ && (
                #[trigger] documents(retained(records))[k]).name == records[j].name
                    && documents(retained(records))[k].id == normalized(records[j]).id,
        forall|a: int, b: int|
            0 <= a < b < documents(retained(records)).len() ==> documents(retained(records))[a].name != documents(retained(records))[b].name,
{
    let unique = dedup_spec(records);
    let kept = retained(records);
    let cards = documents(kept);
    dedup_keeps_one_per_name(records);
    minions_are_minions(unique);
    minions_keep_order(unique);
    emitted_cards_are_well_formed(kept);
    assert forall|k: int| 0 <= k < cards.len() implies exists|j: int|
        0 <= j < records.len() && records[j].card_type == MINION_TAG@ && (#[trigger] cards[k]).name
            == records[j].name && cards[k].id == normalized(records[j]).id by {
        let u = choose|u: int|
            0 <= u < unique.len() && unique[u].card_type == MINION_TAG@ && normalized(unique[u])
                == kept[k];
        assert(records.contains(unique[u]));
        let j = choose|j: int| 0 <= j < records.len() && records[j] == unique[u];
        assert(cards[k].name == records[j].name);
    }
    assert forall|a: int, b: int| 0 <= a < b < cards.len() implies cards[a].name
        != cards[b].name by {
        assert(cards[a].name == kept[a].name);
        assert(cards[b].name == kept[b].name);
    }
}

} // verus!
