//! A record of the raw card collection and the document derived from it.

use vstd::prelude::*;
use vstd::string::*;
use crate::card::{Card, CardSound, CardView, IMAGE_BASE, SOUND_BASE};
use crate::card::{image_url_spec, sound_url_spec, sound_urls_spec};

verus! {

/// One record of the raw collection.
pub struct CollectionItem {
    pub id: String,
    pub name: String,
    pub text: Option<String>,
    pub card_type: String,
}

/// What a [`CollectionItem`] holds, as plain sequences of characters.
pub struct ItemView {
    pub id: Seq<char>,
    pub name: Seq<char>,
    pub text: Option<Seq<char>>,
    pub card_type: Seq<char>,
}

impl ItemView {
    /// The description, empty where the record has none.
    pub open spec fn text_or_empty(self) -> Seq<char> {
        match self.text {
            Some(t) => t,
            None => Seq::empty(),
        }
    }
}

impl View for CollectionItem {
    type V = ItemView;

    open spec fn view(&self) -> ItemView {
        ItemView {
            id: self.id@,
            name: self.name@,
            text: match self.text {
                Some(t) => Some(t@),
                None => None,
            },
            card_type: self.card_type@,
        }
    }
}

/// The document of `item`, given the description after its markup was removed.
pub open spec fn card_spec(item: ItemView, cleaned: Seq<char>) -> CardView {
    CardView {
        id: item.id,
        name: item.name,
        text: cleaned,
        image_url: image_url_spec(item.id),
        sound_urls: sound_urls_spec(item.id),
    }
}

impl CollectionItem {
    pub fn get_image_url(&self) -> (url: String)
        ensures
            url@ == image_url_spec(self@.id),
    {
        let mut url = String::from_str(IMAGE_BASE);
        url.append(self.id.as_str());
        url.append(".png");
        url
    }

    pub fn get_sound_url(&self, card_sound: CardSound) -> (url: String)
        ensures
            url@ == sound_url_spec(self@.id, card_sound),
    {
        let mut url = String::from_str(SOUND_BASE);
        url.append(self.id.as_str());
        url.append("_");
        url.append(card_sound.suffix());
        url.append(".wav");
        url
    }

    pub fn get_sound_urls(&self) -> (urls: Vec<(CardSound, String)>)
        ensures
            urls@.len() == 3,
            forall|i: int| 0 <= i < 3 ==> (#[trigger] urls@[i]).0 == sound_urls_spec(self@.id)[i].0,
            forall|i: int| 0 <= i < 3 ==> (#[trigger] urls@[i]).1@ == sound_urls_spec(self@.id)[i].1,
    {
        let mut urls: Vec<(CardSound, String)> = Vec::with_capacity(3);
        urls.push((CardSound::Attack, self.get_sound_url(CardSound::Attack)));
        urls.push((CardSound::Death, self.get_sound_url(CardSound::Death)));
        urls.push((CardSound::Play, self.get_sound_url(CardSound::Play)));
        urls
    }

    /// The text of the description, or the empty text where there is none.
    pub fn text_or_empty(&self) -> (t: &str)
        ensures
            t@ == self@.text_or_empty(),
    {
        match &self.text {
            Some(t) => t.as_str(),
            None => {
                proof {
                    reveal_strlit("");
                    assert(""@ =~= Seq::<char>::empty());
                }
                ""
            },
        }
    }

    /// Builds the document of this record around `cleaned`, the description
    /// with its markup removed.
    pub fn into_card(self, cleaned: String) -> (card: Card)
        ensures
            card@ == card_spec(self@, cleaned@),
    {
        let image_url = self.get_image_url();
        let sound_urls = self.get_sound_urls();
        let card = Card { id: self.id, name: self.name, text: cleaned, image_url, sound_urls };
        assert(card@.sound_urls =~= sound_urls_spec(self@.id));
        card
    }
}

} // verus!
