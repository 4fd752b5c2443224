//! Decoding of the entries of the raw collection into records.

use vstd::prelude::*;
use vstd::string::*;
use crate::item::{CollectionItem, ItemView};
use crate::json::{EntryView, FieldView, JsonEntry, JsonField};
use crate::json::{entries_view, fields_view};

verus! {

/// The value of the member `key` among `fields`; the last one where the key
/// occurs more than once.
pub open spec fn find_field(fields: Seq<(Seq<char>, FieldView)>, key: Seq<char>) -> Option<
    FieldView,
>
    decreases fields.len(),
{
    if fields.len() == 0 {
        None
    } else if fields.last().0 == key {
        Some(fields.last().1)
    } else {
        find_field(fields.drop_last(), key)
    }
}

/// The string that the member `key` holds, where it is there and a string.
pub open spec fn text_field(fields: Seq<(Seq<char>, FieldView)>, key: Seq<char>) -> Option<
    Seq<char>,
> {
    match find_field(fields, key) {
        Some(FieldView::Text(s)) => Some(s),
        _ => None,
    }
}

/// The record that an entry stands for. The entry must be an object whose
/// members `id`, `name` and `type` are strings and whose member `text` is a
/// string, `null` or missing.
pub open spec fn record_spec(entry: EntryView) -> Option<ItemView> {
    match entry {
        EntryView::Object(fields) => {
            let id = text_field(fields, "id"@);
            let name = text_field(fields, "name"@);
            let card_type = text_field(fields, "type"@);
            let text = find_field(fields, "text"@);
            if id is Some && name is Some && card_type is Some && !(text == Some(
                FieldView::Other,
            )) {
                Some(
                    ItemView {
                        id: id.unwrap(),
                        name: name.unwrap(),
                        text: text_field(fields, "text"@),
                        card_type: card_type.unwrap(),
                    },
                )
            } else {
                None
            }
        },
        EntryView::Other => None,
    }
}

/// The records of all entries, or the position of the first entry that
/// stands for none.
pub open spec fn records_spec(entries: Seq<EntryView>) -> Result<Seq<ItemView>, int>
    decreases entries.len(),
{
    if entries.len() == 0 {
        Ok(Seq::empty())
    } else {
        match records_spec(entries.drop_last()) {
            Err(at) => Err(at),
            Ok(records) => match record_spec(entries.last()) {
                Some(record) => Ok(records.push(record)),
                None => Err(entries.len() - 1),
            },
        }
    }
}

/// The records of a sequence of items, as plain values.
pub open spec fn items_view(items: Seq<CollectionItem>) -> Seq<ItemView> {
    Seq::new(items.len(), |i: int| items[i]@)
}

/// Looks the member `key` up among `fields`.
pub fn lookup<'a>(fields: &'a Vec<(String, JsonField)>, key: &str) -> (found: Option<
    &'a JsonField,
>)
    ensures
        match found {
            Some(f) => find_field(fields_view(fields@), key@) == Some(f@),
            None => find_field(fields_view(fields@), key@) is None,
        },
{
    let wanted = String::from_str(key);
    let mut found: Option<&'a JsonField> = None;
    let mut i: usize = 0;
    while i < fields.len()
        invariant
            i <= fields.len(),
            wanted@ == key@,
            match found {
                Some(f) => find_field(fields_view(fields@).take(i as int), key@) == Some(f@),
                None => find_field(fields_view(fields@).take(i as int), key@) is None,
            },
        decreases fields.len() - i,
    {
        proof {
            let all = fields_view(fields@);
            assert(all.take(i + 1).drop_last() =~= all.take(i as int));
            assert(all.take(i + 1).last() == all[i as int]);
        }
        if fields[i].0 == wanted {
            found = Some(&fields[i].1);
        }
        i += 1;
    }
    proof {
        let all = fields_view(fields@);
        assert(all.take(all.len() as int) =~= all);
    }
    found
}

/// Looks up the member `key` and copies the string it holds.
pub fn lookup_text(fields: &Vec<(String, JsonField)>, key: &str) -> (found: Option<String>)
    ensures
        match found {
            Some(s) => text_field(fields_view(fields@), key@) == Some(s@),
            None => text_field(fields_view(fields@), key@) is None,
        },
{
    match lookup(fields, key) {
        Some(JsonField::Text(s)) => Some(s.clone()),
        _ => None,
    }
}

/// Decodes one entry of the collection.
pub fn decode_record(entry: &JsonEntry) -> (res: Option<CollectionItem>)
    ensures
        match res {
            Some(item) => record_spec(entry@) == Some(item@),
            None => record_spec(entry@) is None,
        },
{
    match entry {
        JsonEntry::Object(fields) => {
            let id = lookup_text(fields, "id");
            let name = lookup_text(fields, "name");
            let card_type = lookup_text(fields, "type");
            let text = match lookup(fields, "text") {
                Some(JsonField::Other) => {
                    return None;
                },
                Some(JsonField::Text(s)) => Some(s.clone()),
                _ => None,
            };
            match (id, name, card_type) {
                (Some(id), Some(name), Some(card_type)) => Some(
                    CollectionItem { id, name, text, card_type },
                ),
                _ => None,
            }
        },
        JsonEntry::Other => None,
    }
}

/// Decodes all entries of the collection, stopping at the first that is no
/// record.
pub fn decode_records(entries: &Vec<JsonEntry>) -> (res: Result<Vec<CollectionItem>, usize>)
    ensures
        match res {
            Ok(items) => records_spec(entries_view(entries@)) == Ok::<Seq<ItemView>, int>(
                items_view(items@),
            ),
            Err(at) => records_spec(entries_view(entries@)) == Err::<Seq<ItemView>, int>(
                at as int,
            ),
        },
{
    let mut items: Vec<CollectionItem> = Vec::new();
    let mut i: usize = 0;
    assert(items_view(items@) =~= Seq::<ItemView>::empty());
    assert(entries_view(entries@).take(0).len() == 0);
    while i < entries.len()
        invariant
            i <= entries.len(),
            records_spec(entries_view(entries@).take(i as int)) == Ok::<Seq<ItemView>, int>(
                items_view(items@),
            ),
        decreases entries.len() - i,
    {
        proof {
            let all = entries_view(entries@);
            assert(all.take(i + 1).drop_last() =~= all.take(i as int));
            assert(all.take(i + 1).last() == entries@[i as int]@);
        }
        let ghost before = items_view(items@);
        match decode_record(&entries[i]) {
            Some(item) => {
                items.push(item);
                assert(items_view(items@) =~= before.push(item@));
            },
            None => {
                proof {
                    lemma_records_error_stays(entries_view(entries@), i + 1);
                }
                return Err(i);
            },
        }
        i += 1;
    }
    proof {
        let all = entries_view(entries@);
        assert(all.take(all.len() as int) =~= all);
    }
    Ok(items)
}

/// An entry that is no record fails the decoding of every longer sequence
/// with the same position.
pub proof fn lemma_records_error_stays(entries: Seq<EntryView>, n: int)
    requires
        0 <= n <= entries.len(),
        records_spec(entries.take(n)) is Err,
    ensures
        records_spec(entries) == records_spec(entries.take(n)),
    decreases entries.len() - n,
{
    if n == entries.len() {
        assert(entries.take(n) =~= entries);
    } else {
        assert(entries.take(n + 1).drop_last() =~= entries.take(n));
        lemma_records_error_stays(entries, n + 1);
    }
}

} // verus!
