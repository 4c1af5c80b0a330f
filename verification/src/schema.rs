//! The schema of a record: the names of its fields, read off the record as it
//! is written out, and the names of the options that they give.

use vstd::prelude::*;
use crate::error::{raise, raised, Failure, FailureView, Kind};
use crate::text::{swap_char, swap_char_in};

verus! {

/// What `serde_json::from_str` makes of `text` when it is asked for a
/// `serde_json::Value`: `None` where it fails; `Some(None)` where it gives a
/// value that is no object; else the entries of the object in the order in
/// which its map hands them out, each as the key and whether the value under it
/// is an object again.
pub uninterp spec fn json_fields(text: Seq<char>) -> Option<Option<Seq<(Seq<char>, bool)>>>;

/// Calls `serde_json::from_str` for a `serde_json::Value` and hands out what
/// `json_fields` names. The map is built with the feature `preserve_order`, so
/// the entries come in the order in which their keys first stand in the text.
#[verifier::external_body]
fn top_level_fields(text: &str) -> (r: Option<Option<Vec<(String, bool)>>>)
    ensures
        json_fields(text@) == match r {
            Some(Some(entries)) => Some(Some(entries.deep_view())),
            Some(None) => Some(None),
            None => None,
        },
{
    match serde_json::from_str::<serde_json::Value>(text) {
        Ok(serde_json::Value::Object(map)) => Some(
            Some(map.iter().map(|(key, value)| (key.clone(), value.is_object())).collect()),
        ),
        Ok(_) => Some(None),
        Err(_) => None,
    }
}

/// The keys of `entries`, in order.
pub open spec fn keys_of(entries: Seq<(Seq<char>, bool)>) -> Seq<Seq<char>> {
    entries.map_values(|entry: (Seq<char>, bool)| entry.0)
}

/// Whether no entry of `entries` holds a record of its own.
pub open spec fn is_flat(entries: Seq<(Seq<char>, bool)>) -> bool {
    forall|i: int| 0 <= i < entries.len() ==> !(#[trigger] entries[i]).1
}

/// The fields that a text gives, read as `read`: none where the text could
/// not be read, none where it holds a value that is no object, and none where
/// the object has a record nested in it.
pub open spec fn fields_in(read: Option<Option<Seq<(Seq<char>, bool)>>>) -> Option<
    Seq<Seq<char>>,
> {
    match read {
        Some(Some(entries)) if is_flat(entries) => Some(keys_of(entries)),
        _ => None,
    }
}

/// The field names of the record that `serialized_struct` writes out, in the
/// order in which it writes them. A text that cannot be read, that is no
/// object, or that is an object with a record nested in it, has no schema.
pub open spec fn struct_fields(serialized_struct: Seq<char>) -> Result<Seq<Seq<char>>, FailureView> {
    match fields_in(json_fields(serialized_struct)) {
        Some(fields) => Ok(fields),
        None => Err(raised(Kind::SchemaExtractionFailure, serialized_struct)),
    }
}

/// What was read of a text, as a mathematical value.
pub open spec fn read_view(read: Option<Option<Vec<(String, bool)>>>) -> Option<
    Option<Seq<(Seq<char>, bool)>>,
> {
    match read {
        Some(Some(entries)) => Some(Some(entries.deep_view())),
        Some(None) => Some(None),
        None => None,
    }
}

/// The names of the options that a record with the fields `fields` offers: the
/// two reserved ones, then each field with its underscores written as hyphens.
pub open spec fn option_names(fields: Seq<Seq<char>>) -> Seq<Seq<char>> {
    seq!["help"@, "version"@] + fields.map_values(|name: Seq<char>| swap_char(name, '_', '-'))
}

/// Judges what was read of `serialized_struct`: `read` is `None` where the
/// text could not be read, `Some(None)` where it holds a value that is no
/// object, and else holds the entries of the object.
pub fn fields_of_entries(serialized_struct: &str, read: Option<Option<Vec<(String, bool)>>>) -> (r:
    Result<Vec<String>, Failure>)
    ensures
        match r {
            Ok(fields) => fields_in(read_view(read)) == Some(fields.deep_view()),
            Err(e) => fields_in(read_view(read)) is None && e@ == raised(
                Kind::SchemaExtractionFailure,
                serialized_struct@,
            ),
        },
{
    match read {
        None => Err(raise(Kind::SchemaExtractionFailure, serialized_struct)),
        Some(None) => Err(raise(Kind::SchemaExtractionFailure, serialized_struct)),
        Some(Some(list)) => {
            let ghost all = list.deep_view();
            let mut fields: Vec<String> = Vec::new();
            let mut i: usize = 0;
            assert(fields.deep_view() =~= keys_of(all.take(0)));
            while i < list.len()
                invariant
                    i <= list.len(),
                    read == Some(Some(list)),
                    all == list.deep_view(),
                    is_flat(all.take(i as int)),
                    fields.deep_view() == keys_of(all.take(i as int)),
                decreases list.len() - i,
            {
                if list[i].1 {
                    assert(all[i as int].1);
                    return Err(raise(Kind::SchemaExtractionFailure, serialized_struct));
                }
                let ghost before = fields.deep_view();
                let name = list[i].0.clone();
                fields.push(name);
                assert(fields.deep_view() =~= before.push(all[i as int].0));
                assert(all.take(i + 1) =~= all.take(i as int).push(all[i as int]));
                i += 1;
                assert(fields.deep_view() =~= keys_of(all.take(i as int)));
            }
            assert(all.take(i as int) == all);
            Ok(fields)
        },
    }
}

/// Reads the field names off a record as it is written out.
pub fn get_struct_fields(serialized_struct: &str) -> (r: Result<Vec<String>, Failure>)
    ensures
        match r {
            Ok(fields) => struct_fields(serialized_struct@) == Ok::<_, FailureView>(
                fields.deep_view(),
            ),
            Err(e) => struct_fields(serialized_struct@) == Err::<Seq<Seq<char>>, _>(e@),
        },
{
    fields_of_entries(serialized_struct, top_level_fields(serialized_struct))
}

/// Writes the option names for the fields `fields`.
pub fn option_names_of(fields: &Vec<String>) -> (r: Vec<String>)
    ensures
        r.deep_view() == option_names(fields.deep_view()),
{
    let mut names: Vec<String> = Vec::new();
    names.push(String::from_str("help"));
    names.push(String::from_str("version"));
    let ghost all = fields.deep_view();
    let mut i: usize = 0;
    assert(names.deep_view() =~= option_names(all.take(0)));
    while i < fields.len()
        invariant
            i <= fields.len(),
            all == fields.deep_view(),
            names.deep_view() == option_names(all.take(i as int)),
        decreases fields.len() - i,
    {
        let ghost before = names.deep_view();
        let name = swap_char_in(fields[i].as_str(), '_', '-');
        names.push(name);
        assert(names.deep_view() =~= before.push(swap_char(all[i as int], '_', '-')));
        assert(all.take(i + 1) =~= all.take(i as int).push(all[i as int]));
        i += 1;
        assert(names.deep_view() =~= option_names(all.take(i as int)));
    }
    assert(all.take(i as int) == all);
    names
}

/// Reads the option names off a record as it is written out.
pub fn get_options_from_struct(serialized_struct: &str) -> (r: Result<Vec<String>, Failure>)
    ensures
        match r {
            Ok(names) => struct_fields(serialized_struct@) is Ok && names.deep_view()
                == option_names(struct_fields(serialized_struct@)->Ok_0),
            Err(e) => struct_fields(serialized_struct@) == Err::<Seq<Seq<char>>, _>(e@),
        },
{
    match get_struct_fields(serialized_struct) {
        Ok(fields) => Ok(option_names_of(&fields)),
        Err(e) => Err(e),
    }
}

} // verus!
