use hs_quiz::card::{searchable_attributes, CardSound, PRIMARY_KEY, SEARCH_INDEX};
use hs_quiz::item::CollectionItem;
use hs_quiz::json::{JsonEntry, JsonField};
use hs_quiz::loader::{step, LoadAction, LoadEvent, LoadState};
use hs_quiz::markup::{accept_cleaned, has_markup, strip_markup};
use hs_quiz::records::{decode_record, decode_records, lookup, lookup_text};
use hs_quiz::select::{dedup_by_name, select_minions, strip_core_prefix};
use hs_quiz::source::{Hearthstone, ItemSource};
use hs_quiz::transform::build_cards;

fn item(id: &str, name: &str, text: Option<&str>, card_type: &str) -> CollectionItem {
    CollectionItem {
        id: id.to_string(),
        name: name.to_string(),
        text: text.map(|t| t.to_string()),
        card_type: card_type.to_string(),
    }
}

fn text(s: &str) -> JsonField {
    JsonField::Text(s.to_string())
}

#[test]
fn image_url_of_an_identifier() {
    let it = item("EX1_116", "Leeroy Jenkins", None, "MINION");
    assert_eq!(
        it.get_image_url(),
        "https://art.hearthstonejson.com/v1/render/latest/enUS/256x/EX1_116.png"
    );
}

#[test]
fn sound_url_of_each_cue() {
    let it = item("EX1_116", "Leeroy Jenkins", None, "MINION");
    assert_eq!(
        it.get_sound_url(CardSound::Attack),
        "https://hearthstonesounds.s3.amazonaws.com/EX1_116_A.wav"
    );
    assert_eq!(
        it.get_sound_url(CardSound::Death),
        "https://hearthstonesounds.s3.amazonaws.com/EX1_116_D.wav"
    );
    assert_eq!(
        it.get_sound_url(CardSound::Play),
        "https://hearthstonesounds.s3.amazonaws.com/EX1_116_P.wav"
    );
}

#[test]
fn sound_urls_hold_three_cues() {
    let it = item("X", "N", None, "MINION");
    let urls = it.get_sound_urls();
    assert_eq!(urls.len(), 3);
    assert_eq!(urls[0], (CardSound::Attack, "https://hearthstonesounds.s3.amazonaws.com/X_A.wav".to_string()));
    assert_eq!(urls[1], (CardSound::Death, "https://hearthstonesounds.s3.amazonaws.com/X_D.wav".to_string()));
    assert_eq!(urls[2], (CardSound::Play, "https://hearthstonesounds.s3.amazonaws.com/X_P.wav".to_string()));
}

#[test]
fn suffix_of_each_cue() {
    assert_eq!(CardSound::Attack.suffix(), "A");
    assert_eq!(CardSound::Death.suffix(), "D");
    assert_eq!(CardSound::Play.suffix(), "P");
}

#[test]
fn into_card_keeps_identifier_and_name() {
    let card = item("A1", "Name", Some("<b>raw</b>"), "MINION").into_card("raw".to_string());
    assert_eq!(card.id, "A1");
    assert_eq!(card.name, "Name");
    assert_eq!(card.text, "raw");
    assert_eq!(card.sound_url(CardSound::Death).unwrap(), "https://hearthstonesounds.s3.amazonaws.com/A1_D.wav");
}

#[test]
fn text_or_empty_of_a_record() {
    assert_eq!(item("A", "N", None, "MINION").text_or_empty(), "");
    assert_eq!(item("A", "N", Some("t"), "MINION").text_or_empty(), "t");
}

#[test]
fn core_prefix_is_stripped_once_and_only_in_front() {
    assert_eq!(strip_core_prefix("CORE_EX1_116"), "EX1_116");
    assert_eq!(strip_core_prefix("EX1_116"), "EX1_116");
    assert_eq!(strip_core_prefix("EX1_CORE_116"), "EX1_CORE_116");
    assert_eq!(strip_core_prefix("CORE_"), "");
    assert_eq!(strip_core_prefix("CORE"), "CORE");
    assert_eq!(strip_core_prefix(""), "");
    assert_eq!(strip_core_prefix("core_X"), "core_X");
    assert_eq!(strip_core_prefix("CORE_CORE_X"), "CORE_X");
    assert_eq!(strip_core_prefix("CORE_\u{e9}t\u{e9}"), "\u{e9}t\u{e9}");
}

#[test]
fn markup_is_found_where_a_tag_closes_on_its_line() {
    assert!(has_markup("<b>"));
    assert!(has_markup("a<>b"));
    assert!(has_markup("x < y > z"));
    assert!(has_markup("<\n<i>"));
    assert!(!has_markup(""));
    assert!(!has_markup("plain"));
    assert!(!has_markup("> <"));
    assert!(!has_markup("<\n>"));
    assert!(!has_markup("a > b"));
    assert!(!has_markup("a < b"));
}

#[test]
fn tags_are_removed_from_a_description() {
    assert_eq!(strip_markup("Deals <i>3</i> damage"), Some("Deals 3 damage".to_string()));
    assert_eq!(strip_markup("<b>Battlecry:</b> Draw"), Some("Battlecry: Draw".to_string()));
    assert_eq!(strip_markup(""), Some(String::new()));
    assert_eq!(strip_markup("no tags"), Some("no tags".to_string()));
    assert_eq!(strip_markup("<\n>"), Some("<\n>".to_string()));
    assert_eq!(strip_markup("$1<b>$name</b>"), Some("$1$name".to_string()));
}

#[test]
fn a_replaced_text_is_accepted_only_without_tags() {
    assert_eq!(accept_cleaned(Some("clean".to_string())), Some("clean".to_string()));
    assert_eq!(accept_cleaned(Some("not <b>clean".to_string())), None);
    assert_eq!(accept_cleaned(None), None);
}

#[test]
fn lookup_finds_the_last_member_of_a_key() {
    let fields = vec![
        ("id".to_string(), text("A")),
        ("n".to_string(), JsonField::Null),
        ("id".to_string(), text("B")),
        ("o".to_string(), JsonField::Other),
    ];
    assert!(matches!(lookup(&fields, "id"), Some(JsonField::Text(s)) if s == "B"));
    assert!(matches!(lookup(&fields, "n"), Some(JsonField::Null)));
    assert!(matches!(lookup(&fields, "o"), Some(JsonField::Other)));
    assert!(lookup(&fields, "x").is_none());
    assert_eq!(lookup_text(&fields, "id"), Some("B".to_string()));
    assert_eq!(lookup_text(&fields, "n"), None);
    assert_eq!(lookup_text(&fields, "x"), None);
}

#[test]
fn an_entry_decodes_to_its_record() {
    let entry = JsonEntry::Object(vec![
        ("id".to_string(), text("I")),
        ("name".to_string(), text("N")),
        ("text".to_string(), text("T")),
        ("type".to_string(), text("MINION")),
    ]);
    let it = decode_record(&entry).unwrap();
    assert_eq!(it.id, "I");
    assert_eq!(it.name, "N");
    assert_eq!(it.text, Some("T".to_string()));
    assert_eq!(it.card_type, "MINION");
    assert!(decode_record(&JsonEntry::Other).is_none());
    let no_name = JsonEntry::Object(vec![
        ("id".to_string(), text("I")),
        ("type".to_string(), text("MINION")),
    ]);
    assert!(decode_record(&no_name).is_none());
}

#[test]
fn decoding_stops_at_the_first_bad_entry() {
    let good = || JsonEntry::Object(vec![
        ("id".to_string(), text("I")),
        ("name".to_string(), text("N")),
        ("type".to_string(), text("SPELL")),
    ]);
    let entries = vec![good(), good(), JsonEntry::Other, JsonEntry::Other];
    assert_eq!(decode_records(&entries).err(), Some(2));
    let all = vec![good(), good()];
    assert_eq!(decode_records(&all).ok().map(|v| v.len()), Some(2));
}

#[test]
fn dedup_keeps_the_first_of_each_name_in_order() {
    let items = vec![
        item("1", "a", None, "MINION"),
        item("2", "b", None, "SPELL"),
        item("3", "a", None, "SPELL"),
        item("4", "c", None, "MINION"),
        item("5", "b", None, "MINION"),
    ];
    let kept = dedup_by_name(&items);
    let ids: Vec<&str> = kept.iter().map(|i| i.id.as_str()).collect();
    assert_eq!(ids, vec!["1", "2", "4"]);
}

#[test]
fn minions_are_selected_and_normalized() {
    let items = vec![
        item("CORE_1", "a", None, "MINION"),
        item("CORE_2", "b", None, "SPELL"),
        item("3", "c", Some("t"), "MINION"),
        item("4", "d", None, "HERO"),
    ];
    let kept = select_minions(&items);
    let ids: Vec<&str> = kept.iter().map(|i| i.id.as_str()).collect();
    assert_eq!(ids, vec!["1", "3"]);
    assert_eq!(kept[1].text, Some("t".to_string()));
    assert!(items[0].is_minion());
    assert!(!items[1].is_minion());
}

#[test]
fn cards_are_built_in_order() {
    let items = vec![
        item("1", "a", Some("<b>x</b>y"), "MINION"),
        item("2", "b", None, "MINION"),
    ];
    let cards = build_cards(&items).unwrap();
    assert_eq!(cards.len(), 2);
    assert_eq!(cards[0].text, "xy");
    assert_eq!(cards[1].text, "");
    assert_eq!(cards[1].id, "2");
}

#[test]
fn index_settings_of_the_card_source() {
    assert_eq!(SEARCH_INDEX, "cards");
    assert_eq!(PRIMARY_KEY, "id");
    assert_eq!(searchable_attributes(), vec!["text", "name", "id"]);
    let source = Hearthstone;
    assert_eq!(source.storage_index(), "cards");
    assert_eq!(source.primary_key(), "id");
    assert_eq!(source.searchable_attributes(), vec!["text", "name", "id"]);
    assert_eq!(
        source.collection_url(),
        "https://api.hearthstonejson.com/v1/latest/enUS/cards.collectible.json"
    );
    let cards = source
        .items_from(r#"[{"id":"CORE_Z","name":"Zed","text":"<i>z</i>","type":"MINION"}]"#)
        .unwrap();
    assert_eq!(cards[0].id, "Z");
    assert_eq!(cards[0].text, "z");
}

#[test]
fn a_load_runs_through_its_three_requests() {
    let (s, a) = step(LoadState::Idle, LoadEvent::Start);
    assert_eq!((s, a), (LoadState::Configuring, LoadAction::Configure));
    let (s, a) = step(s, LoadEvent::Completed);
    assert_eq!((s, a), (LoadState::Clearing, LoadAction::Clear));
    let (s, a) = step(s, LoadEvent::Completed);
    assert_eq!((s, a), (LoadState::Inserting, LoadAction::Insert));
    let (s, a) = step(s, LoadEvent::Completed);
    assert_eq!((s, a), (LoadState::Done, LoadAction::Nothing));
    assert_eq!(step(s, LoadEvent::Completed), (LoadState::Done, LoadAction::Nothing));
    assert_eq!(step(s, LoadEvent::Start), (LoadState::Done, LoadAction::Nothing));
}

#[test]
fn a_rejected_request_ends_the_load() {
    for state in [LoadState::Configuring, LoadState::Clearing, LoadState::Inserting] {
        assert_eq!(step(state, LoadEvent::Rejected), (LoadState::Failed, LoadAction::Nothing));
    }
    for event in [LoadEvent::Start, LoadEvent::Completed, LoadEvent::Rejected] {
        assert_eq!(step(LoadState::Failed, event), (LoadState::Failed, LoadAction::Nothing));
    }
}

#[test]
fn an_event_that_does_not_fit_changes_nothing() {
    assert_eq!(step(LoadState::Idle, LoadEvent::Completed), (LoadState::Idle, LoadAction::Nothing));
    assert_eq!(step(LoadState::Idle, LoadEvent::Rejected), (LoadState::Idle, LoadAction::Nothing));
    assert_eq!(step(LoadState::Clearing, LoadEvent::Start), (LoadState::Clearing, LoadAction::Nothing));
}

#[test]
fn a_card_is_derived_from_a_record() {
    let card = hs_quiz::Card::from_item(item("CORE_X", "Name", Some("a<i>b</i>c"), "MINION")).unwrap();
    assert_eq!(card.id, "CORE_X");
    assert_eq!(card.name, "Name");
    assert_eq!(card.text, "abc");
    assert_eq!(
        card.image_url,
        "https://art.hearthstonejson.com/v1/render/latest/enUS/256x/CORE_X.png"
    );
    assert_eq!(card.sound_urls.len(), 3);
    assert!(card.sound_url(CardSound::Attack).unwrap().ends_with("CORE_X_A.wav"));
    let bare = hs_quiz::Card::from_item(item("Y", "Bare", None, "MINION")).unwrap();
    assert_eq!(bare.text, "");
}
