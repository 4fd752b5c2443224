//! The raw collection as a JSON document: the array of its entries, read by
//! `serde_json`, in the plain form that the decoding of records works on.

use vstd::prelude::*;

verus! {

#[verifier::external_type_specification]
#[verifier::external_body]
pub struct ExJsonError(serde_json::Error);

/// The value of a member of a JSON object, as far as a record tells values
/// apart: `null`, a string, or anything else.
pub enum JsonField {
    Null,
    Text(String),
    Other,
}

/// What a [`JsonField`] holds.
pub enum FieldView {
    Null,
    Text(Seq<char>),
    Other,
}

impl View for JsonField {
    type V = FieldView;

    open spec fn view(&self) -> FieldView {
        match self {
            JsonField::Null => FieldView::Null,
            JsonField::Text(s) => FieldView::Text(s@),
            JsonField::Other => FieldView::Other,
        }
    }
}

/// The members of a JSON object as plain values, in the order of `fields`.
pub open spec fn fields_view(fields: Seq<(String, JsonField)>) -> Seq<(Seq<char>, FieldView)> {
    Seq::new(fields.len(), |i: int| (fields[i].0@, fields[i].1@))
}

/// An element of the top-level array: an object with its members, or a value
/// of another kind.
pub enum JsonEntry {
    Object(Vec<(String, JsonField)>),
    Other,
}

/// What a [`JsonEntry`] holds.
pub enum EntryView {
    Object(Seq<(Seq<char>, FieldView)>),
    Other,
}

impl View for JsonEntry {
    type V = EntryView;

    open spec fn view(&self) -> EntryView {
        match self {
            JsonEntry::Object(fields) => EntryView::Object(fields_view(fields@)),
            JsonEntry::Other => EntryView::Other,
        }
    }
}

/// The entries of a document as plain values.
pub open spec fn entries_view(entries: Seq<JsonEntry>) -> Seq<EntryView> {
    Seq::new(entries.len(), |i: int| entries[i]@)
}

/// The elements of the JSON array that `serde_json::from_str` reads from
/// `text`, each object with the members of its `serde_json::Map` in the
/// map's order; `None` where `text` is no JSON array.
pub uninterp spec fn json_entries(text: Seq<char>) -> Option<Seq<EntryView>>;

/// Calls `serde_json::from_str` for a `Vec<serde_json::Value>` and hands the
/// values over variant by variant. The contract only names the outcome: the
/// call fails exactly where the text is no JSON array, and the entries are
/// those of the array otherwise.
#[verifier::external_body]
pub(crate) fn parse_entries(text: &str) -> (res: Result<Vec<JsonEntry>, serde_json::Error>)
    ensures
        match res {
            Ok(entries) => json_entries(text@) == Some(entries_view(entries@)),
            Err(_) => json_entries(text@) is None,
        },
{
    let values: Vec<serde_json::Value> = serde_json::from_str(text)?;
    Ok(values.into_iter().map(|value| match value {
        serde_json::Value::Object(members) => JsonEntry::Object(
            members.into_iter().map(|(key, member)| (key, match member {
                serde_json::Value::Null => JsonField::Null,
                serde_json::Value::String(s) => JsonField::Text(s),
                _ => JsonField::Other,
            })).collect(),
        ),
        _ => JsonEntry::Other,
    }).collect())
}

} // verus!
