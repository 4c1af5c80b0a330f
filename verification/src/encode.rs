//! The value encoder: the bindings of a scan written as the document that a
//! decoder reads the record from.
//!
//! The document is one flat object, `{ "key": value, ... }`. A value is `true`,
//! a bare number, a quoted string, or an array of the last two in square
//! brackets. Keys and tokens are written as they are, without escapes.

use vstd::prelude::*;
use crate::scan::{Binding, BindingView, Value, ValueView};
use crate::text::{char_is_numeric, join, joined};

verus! {

/// Whether `token` is made of numeric characters alone.
pub open spec fn all_numeric(token: Seq<char>) -> bool {
    forall|i: int| 0 <= i < token.len() ==> char_is_numeric(#[trigger] token[i])
}

/// `token` as it stands in the document: bare where it is known to be
/// numeric, else between double quotes.
pub open spec fn encoded(token: Seq<char>, numeric: bool) -> Seq<char> {
    if numeric {
        token
    } else {
        seq!['"'] + token + seq!['"']
    }
}

/// `token` as it stands in the document.
pub open spec fn encoded_token(token: Seq<char>) -> Seq<char> {
    encoded(token, all_numeric(token))
}

/// The tokens `items` as they stand in the document, each by itself.
pub open spec fn encoded_items(items: Seq<Seq<char>>) -> Seq<Seq<char>> {
    items.map_values(|token: Seq<char>| encoded_token(token))
}

/// What stands behind the colon for `value`.
pub open spec fn encoded_value(value: ValueView) -> Seq<char> {
    match value {
        ValueView::True => " true"@,
        ValueView::Nothing => Seq::empty(),
        ValueView::Scalar(token) => seq![' '] + encoded_token(token),
        ValueView::Array(items) => " ["@ + joined(encoded_items(items), ", "@) + seq![']'],
    }
}

/// The entry of the document for `binding`.
pub open spec fn encoded_binding(binding: BindingView) -> Seq<char> {
    seq!['"'] + binding.key + "\":"@ + encoded_value(binding.value)
}

/// The entries of the document for `bindings`, each by itself.
pub open spec fn encoded_bindings(bindings: Seq<BindingView>) -> Seq<Seq<char>> {
    bindings.map_values(|binding: BindingView| encoded_binding(binding))
}

/// The document for `bindings`.
pub open spec fn document(bindings: Seq<BindingView>) -> Seq<char> {
    "{ "@ + joined(encoded_bindings(bindings), ", "@) + " }"@
}

/// Whether `token` is made of numeric characters alone.
pub fn is_numeric_token(token: &str) -> (r: bool)
    ensures
        r == all_numeric(token@),
{
    for c in it: token.chars()
        invariant
            it.seq() == token@,
            forall|i: int| 0 <= i < it.index() ==> char_is_numeric(#[trigger] token@[i]),
    {
        if !c.is_numeric() {
            return false;
        }
    }
    true
}

/// Writes `token` as it stands in the document, given whether it is numeric.
pub fn encode_token(token: &str, numeric: bool) -> (r: String)
    ensures
        r@ == encoded(token@, numeric),
{
    if numeric {
        String::from_str(token)
    } else {
        let mut out = String::new();
        out.push('"');
        out.append(token);
        out.push('"');
        assert(out@ =~= encoded(token@, numeric));
        out
    }
}

/// Writes what stands behind the colon for `value`.
pub fn encode_value(value: &Value) -> (r: String)
    ensures
        r@ == encoded_value(value@),
{
    match value {
        Value::True => String::from_str(" true"),
        Value::Nothing => String::new(),
        Value::Scalar(token) => {
            let mut out = String::new();
            out.push(' ');
            out.append(encode_token(token.as_str(), is_numeric_token(token.as_str())).as_str());
            assert(out@ =~= encoded_value(value@));
            out
        },
        Value::Array(items) => {
            let ghost all = items.deep_view();
            let mut parts: Vec<String> = Vec::new();
            let mut i: usize = 0;
            assert(parts.deep_view() =~= encoded_items(all.take(0)));
            while i < items.len()
                invariant
                    i <= items.len(),
                    all == items.deep_view(),
                    parts.deep_view() == encoded_items(all.take(i as int)),
                decreases items.len() - i,
            {
                let ghost before = parts.deep_view();
                let token = items[i].as_str();
                parts.push(encode_token(token, is_numeric_token(token)));
                assert(parts.deep_view() =~= before.push(encoded_token(all[i as int])));
                assert(all.take(i + 1) =~= all.take(i as int).push(all[i as int]));
                i += 1;
                assert(parts.deep_view() =~= encoded_items(all.take(i as int)));
            }
            assert(all.take(i as int) == all);
            let mut out = String::from_str(" [");
            out.append(join(&parts, ", ").as_str());
            out.push(']');
            assert(out@ =~= encoded_value(value@));
            out
        },
    }
}

/// Writes the entry of the document for `binding`.
pub fn encode_binding(binding: &Binding) -> (r: String)
    ensures
        r@ == encoded_binding(binding@),
{
    let mut out = String::new();
    out.push('"');
    out.append(binding.key.as_str());
    out.append("\":");
    out.append(encode_value(&binding.value).as_str());
    assert(out@ =~= encoded_binding(binding@));
    out
}

/// Writes the document for `bindings`.
pub fn encode(bindings: &Vec<Binding>) -> (r: String)
    ensures
        r@ == document(bindings.deep_view()),
{
    let ghost all = bindings.deep_view();
    let mut parts: Vec<String> = Vec::new();
    let mut i: usize = 0;
    assert(parts.deep_view() =~= encoded_bindings(all.take(0)));
    while i < bindings.len()
        invariant
            i <= bindings.len(),
            all == bindings.deep_view(),
            parts.deep_view() == encoded_bindings(all.take(i as int)),
        decreases bindings.len() - i,
    {
        let ghost before = parts.deep_view();
        parts.push(encode_binding(&bindings[i]));
        assert(parts.deep_view() =~= before.push(encoded_binding(all[i as int])));
        assert(all.take(i + 1) =~= all.take(i as int).push(all[i as int]));
        i += 1;
        assert(parts.deep_view() =~= encoded_bindings(all.take(i as int)));
    }
    assert(all.take(i as int) == all);
    let mut out = String::from_str("{ ");
    out.append(join(&parts, ", ").as_str());
    out.append(" }");
    out
}

} // verus!
