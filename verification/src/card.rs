//! The search document and the sound cues that every document carries.

use vstd::prelude::*;
use vstd::string::*;

verus! {

/// Name of the search index that holds the card documents.
pub const SEARCH_INDEX: &'static str = "cards";

/// Document field by which the index identifies a card.
pub const PRIMARY_KEY: &'static str = "id";

/// Address under which the rendered card images are published.
pub const IMAGE_BASE: &'static str = "https://art.hearthstonejson.com/v1/render/latest/enUS/256x/";

/// Address under which the card sound files are published.
pub const SOUND_BASE: &'static str = "https://hearthstonesounds.s3.amazonaws.com/";

/// The three sound cues of a card.
#[derive(Clone, Copy, Debug, PartialEq, Eq, Hash, Structural)]
pub enum CardSound {
    Attack,
    Death,
    Play,
}

impl CardSound {
    /// The letter that marks this cue in the name of a sound file.
    pub open spec fn suffix_spec(self) -> Seq<char> {
        match self {
            CardSound::Attack => "A"@,
            CardSound::Death => "D"@,
            CardSound::Play => "P"@,
        }
    }

    pub fn suffix(self) -> (s: &'static str)
        ensures
            s@ == self.suffix_spec(),
    {
        match self {
            CardSound::Attack => "A",
            CardSound::Death => "D",
            CardSound::Play => "P",
        }
    }
}

/// The fields the index searches, in the order in which they are configured.
pub open spec fn searchable_attributes_spec() -> Seq<Seq<char>> {
    seq!["text"@, "name"@, "id"@]
}

pub fn searchable_attributes() -> (fields: Vec<String>)
    ensures
        fields.deep_view() == searchable_attributes_spec(),
{
    let mut fields: Vec<String> = Vec::new();
    fields.push(String::from_str("text"));
    fields.push(String::from_str("name"));
    fields.push(String::from_str("id"));
    assert(fields.deep_view() =~= searchable_attributes_spec());
    fields
}

/// Address of the image of the card with identifier `id`.
pub open spec fn image_url_spec(id: Seq<char>) -> Seq<char> {
    IMAGE_BASE@ + id + ".png"@
}

/// Address of the sound file of cue `sound` of the card with identifier `id`.
pub open spec fn sound_url_spec(id: Seq<char>, sound: CardSound) -> Seq<char> {
    SOUND_BASE@ + id + "_"@ + sound.suffix_spec() + ".wav"@
}

/// The three cues with their addresses, in the order Attack, Death, Play.
pub open spec fn sound_urls_spec(id: Seq<char>) -> Seq<(CardSound, Seq<char>)> {
    seq![
        (CardSound::Attack, sound_url_spec(id, CardSound::Attack)),
        (CardSound::Death, sound_url_spec(id, CardSound::Death)),
        (CardSound::Play, sound_url_spec(id, CardSound::Play)),
    ]
}

/// The cues for which `urls` holds an address.
pub open spec fn sound_keys(urls: Seq<(CardSound, Seq<char>)>) -> Set<CardSound> {
    Set::new(|k: CardSound| exists|i: int| 0 <= i < urls.len() && (#[trigger] urls[i]).0 == k)
}

/// A card as the index stores it.
pub struct Card {
    pub id: String,
    pub name: String,
    pub text: String,
    pub image_url: String,
    pub sound_urls: Vec<(CardSound, String)>,
}

/// What a [`Card`] holds, as plain sequences of characters.
pub struct CardView {
    pub id: Seq<char>,
    pub name: Seq<char>,
    pub text: Seq<char>,
    pub image_url: Seq<char>,
    pub sound_urls: Seq<(CardSound, Seq<char>)>,
}

impl View for Card {
    type V = CardView;

    open spec fn view(&self) -> CardView {
        CardView {
            id: self.id@,
            name: self.name@,
            text: self.text@,
            image_url: self.image_url@,
            sound_urls: Seq::new(
                self.sound_urls@.len(),
                |i: int| (self.sound_urls@[i].0, self.sound_urls@[i].1@),
            ),
        }
    }
}

impl Card {
    /// The address of cue `sound`, where the card has one.
    pub fn sound_url(&self, sound: CardSound) -> (url: Option<&String>)
        ensures
            match url {
                Some(u) => exists|i: int|
                    0 <= i < self@.sound_urls.len() && #[trigger] self@.sound_urls[i] == (
                        sound,
                        u@,
                    ) && forall|j: int| 0 <= j < i ==> (#[trigger] self@.sound_urls[j]).0 != sound,
                None => !sound_keys(self@.sound_urls).contains(sound),
            },
    {
        let mut i: usize = 0;
        while i < self.sound_urls.len()
            invariant
                i <= self.sound_urls.len(),
                forall|j: int| 0 <= j < i ==> (#[trigger] self@.sound_urls[j]).0 != sound,
            decreases self.sound_urls.len() - i,
        {
            if self.sound_urls[i].0 == sound {
                assert(self@.sound_urls[i as int] == (sound, self.sound_urls[i as int].1@));
                return Some(&self.sound_urls[i].1);
            }
            i += 1;
        }
        None
    }
}

/// Every cue has an address in the cues of a card, and there are three of them.
pub proof fn sound_urls_cover_all_cues(id: Seq<char>)
    ensures
        sound_urls_spec(id).len() == 3,
        sound_keys(sound_urls_spec(id)) =~= set![
            CardSound::Attack,
            CardSound::Death,
            CardSound::Play,
        ],
{
    let urls = sound_urls_spec(id);
    assert(urls[0].0 == CardSound::Attack);
    assert(urls[1].0 == CardSound::Death);
    assert(urls[2].0 == CardSound::Play);
}

} // verus!
