//! Characters and strings: the few operations of `char` and `String` that the
//! library relies on, and the conversions between strings and their characters.

use vstd::prelude::*;

verus! {

/// `c` with an ASCII lower-case letter replaced by its upper-case form.
pub open spec fn ascii_upper(c: char) -> char {
    if 'a' <= c && c <= 'z' {
        ((c as u8) - 32) as char
    } else {
        c
    }
}

/// `c` with an ASCII upper-case letter replaced by its lower-case form.
pub open spec fn ascii_lower(c: char) -> char {
    if 'A' <= c && c <= 'Z' {
        ((c as u8) + 32) as char
    } else {
        c
    }
}

/// `char::to_ascii_uppercase` maps `'a'..='z'` to `'A'..='Z'` and leaves every
/// other character as it is.
pub assume_specification[ char::to_ascii_uppercase ](c: &char) -> (r: char)
    ensures
        r == ascii_upper(*c),
;

/// `char::to_ascii_lowercase` maps `'A'..='Z'` to `'a'..='z'` and leaves every
/// other character as it is.
pub assume_specification[ char::to_ascii_lowercase ](c: &char) -> (r: char)
    ensures
        r == ascii_lower(*c),
;

/// What `char::is_lowercase` answers for a character beyond ASCII: whether it
/// has the Unicode property Lowercase.
pub uninterp spec fn lowercase_beyond_ascii(c: char) -> bool;

/// What `char::is_lowercase` answers for `c`. Of the ASCII characters the
/// letters `a` to `z` are lower-case and no other.
pub open spec fn char_is_lowercase(c: char) -> bool {
    if c <= '\u{7f}' {
        'a' <= c && c <= 'z'
    } else {
        lowercase_beyond_ascii(c)
    }
}

/// `char::is_lowercase` tells whether the character has the Unicode property
/// Lowercase.
pub assume_specification[ char::is_lowercase ](c: char) -> (r: bool)
    ensures
        r == (if c <= '\u{7f}' {
            'a' <= c && c <= 'z'
        } else {
            lowercase_beyond_ascii(c)
        }),
;

/// What `char::is_numeric` answers for a character beyond ASCII: whether it
/// belongs to one of the Unicode general categories for numbers.
pub uninterp spec fn numeric_beyond_ascii(c: char) -> bool;

/// What `char::is_numeric` answers for `c`. Of the ASCII characters the digits
/// `0` to `9` are numeric and no other.
pub open spec fn char_is_numeric(c: char) -> bool {
    if c <= '\u{7f}' {
        '0' <= c && c <= '9'
    } else {
        numeric_beyond_ascii(c)
    }
}

/// `char::is_numeric` tells whether the character belongs to one of the
/// Unicode general categories for numbers.
pub assume_specification[ char::is_numeric ](c: char) -> (r: bool)
    ensures
        r == (if c <= '\u{7f}' {
            '0' <= c && c <= '9'
        } else {
            numeric_beyond_ascii(c)
        }),
;

/// `String::push` appends one character at the end.
pub assume_specification[ String::push ](s: &mut String, c: char)
    ensures
        final(s)@ == old(s)@.push(c),
;

/// The characters of `s`, in order.
pub fn chars_of(s: &str) -> (r: Vec<char>)
    ensures
        r@ == s@,
{
    let mut out: Vec<char> = Vec::new();
    for c in it: s.chars()
        invariant
            out@ == it.seq().take(it.index() as int),
            it.seq() == s@,
    {
        out.push(c);
    }
    out
}

/// Whether `a` and `b` hold the same characters.
pub fn same_text(a: &str, b: &str) -> (r: bool)
    ensures
        r == (a@ == b@),
{
    String::from_str(a) == String::from_str(b)
}

/// The string that holds `c` alone.
pub fn string_of_char(c: char) -> (r: String)
    ensures
        r@ == seq![c],
{
    let mut out = String::new();
    out.push(c);
    assert(out@ =~= seq![c]);
    out
}

/// `s` with every `from` replaced by `to`.
pub open spec fn swap_char(s: Seq<char>, from: char, to: char) -> Seq<char> {
    s.map_values(|c: char| if c == from { to } else { c })
}

/// `s` with every occurrence of `from` replaced by `to`, the occurrences taken
/// from the left and not overlapping. An empty `from` occurs nowhere.
pub open spec fn replace_all(s: Seq<char>, from: Seq<char>, to: Seq<char>) -> Seq<char>
    decreases s.len(),
{
    if s.len() == 0 {
        s
    } else if from.len() > 0 && from.is_prefix_of(s) {
        to + replace_all(s.skip(from.len() as int), from, to)
    } else {
        seq![s[0]] + replace_all(s.skip(1), from, to)
    }
}

/// The part of `s` that stands before the first occurrence of `pat`; all of `s`
/// where `pat` does not occur.
pub open spec fn before_first(s: Seq<char>, pat: Seq<char>) -> Seq<char>
    decreases s.len(),
{
    if pat.is_prefix_of(s) {
        Seq::empty()
    } else if s.len() == 0 {
        s
    } else {
        seq![s[0]] + before_first(s.skip(1), pat)
    }
}

/// The parts `parts` written one after the other with `sep` between each two.
pub open spec fn joined(parts: Seq<Seq<char>>, sep: Seq<char>) -> Seq<char>
    decreases parts.len(),
{
    if parts.len() == 0 {
        Seq::empty()
    } else if parts.len() == 1 {
        parts[0]
    } else {
        joined(parts.drop_last(), sep) + sep + parts.last()
    }
}

/// Whether `pat` stands in `s` at position `at`.
pub fn occurs_at(s: &Vec<char>, at: usize, pat: &Vec<char>) -> (r: bool)
    requires
        at <= s.len(),
    ensures
        r == pat@.is_prefix_of(s@.skip(at as int)),
{
    if pat.len() > s.len() - at {
        return false;
    }
    let mut k: usize = 0;
    while k < pat.len()
        invariant
            at <= s.len(),
            pat.len() <= s.len() - at,
            k <= pat.len(),
            forall|j: int| 0 <= j < k ==> pat@[j] == s@[at + j],
        decreases pat.len() - k,
    {
        if pat[k] != s[at + k] {
            assert(s@.skip(at as int)[k as int] == s@[at + k]);
            return false;
        }
        k += 1;
    }
    assert(pat@ =~= s@.skip(at as int).subrange(0, pat@.len() as int));
    true
}

/// Copies `s` with each `from` turned into `to`.
pub fn swap_char_in(s: &str, from: char, to: char) -> (r: String)
    ensures
        r@ == swap_char(s@, from, to),
{
    let mut out = String::new();
    for c in it: s.chars()
        invariant
            it.seq() == s@,
            out@ == swap_char(s@.take(it.index() as int), from, to),
    {
        let ghost before = s@.take(it.index() as int);
        out.push(if c == from { to } else { c });
        assert(s@.take(it.index() + 1) == before.push(c));
        assert(out@ =~= swap_char(before.push(c), from, to));
    }
    assert(s@.take(s@.len() as int) == s@);
    out
}

proof fn lemma_replace_all_step(s: Seq<char>, from: Seq<char>, to: Seq<char>, i: int)
    requires
        0 <= i < s.len(),
    ensures
        from.len() > 0 && from.is_prefix_of(s.skip(i)) ==> replace_all(s.skip(i), from, to) == to
            + replace_all(s.skip(i + from.len()), from, to),
        !(from.len() > 0 && from.is_prefix_of(s.skip(i))) ==> replace_all(s.skip(i), from, to)
            == seq![s[i]] + replace_all(s.skip(i + 1), from, to),
{
    if from.len() > 0 && from.is_prefix_of(s.skip(i)) {
        assert(s.skip(i).skip(from.len() as int) == s.skip(i + from.len()));
    } else {
        assert(s.skip(i).skip(1) == s.skip(i + 1));
    }
}

/// Copies `s` with each occurrence of `from` turned into `to`.
pub fn replace_all_in(s: &str, from: &str, to: &str) -> (r: String)
    ensures
        r@ == replace_all(s@, from@, to@),
{
    let text = chars_of(s);
    let pat = chars_of(from);
    let mut out = String::new();
    let mut i: usize = 0;
    assert(s@.skip(0) == s@);
    while i < text.len()
        invariant
            i <= text.len(),
            text@ == s@,
            pat@ == from@,
            replace_all(s@, from@, to@) == out@ + replace_all(s@.skip(i as int), from@, to@),
        decreases text.len() - i,
    {
        proof {
            lemma_replace_all_step(s@, from@, to@, i as int);
        }
        let ghost rest = replace_all(s@.skip(i as int), from@, to@);
        let ghost done = out@;
        if pat.len() > 0 && occurs_at(&text, i, &pat) {
            out.append(to);
            i += pat.len();
            assert(done + rest =~= out@ + replace_all(s@.skip(i as int), from@, to@));
        } else {
            out.push(text[i]);
            i += 1;
            assert(done + rest =~= out@ + replace_all(s@.skip(i as int), from@, to@));
        }
    }
    assert(out@ + replace_all(s@.skip(i as int), from@, to@) =~= out@);
    out
}

/// Copies the part of `s` that stands before the first occurrence of `pat`.
pub fn before_first_in(s: &str, pat: &str) -> (r: String)
    ensures
        r@ == before_first(s@, pat@),
{
    let text = chars_of(s);
    let mark = chars_of(pat);
    let mut out = String::new();
    let mut i: usize = 0;
    assert(s@.skip(0) == s@);
    while i < text.len() && !occurs_at(&text, i, &mark)
        invariant
            i <= text.len(),
            text@ == s@,
            mark@ == pat@,
            before_first(s@, pat@) == out@ + before_first(s@.skip(i as int), pat@),
        decreases text.len() - i,
    {
        let ghost rest = before_first(s@.skip(i as int), pat@);
        let ghost done = out@;
        assert(s@.skip(i as int).skip(1) == s@.skip(i + 1));
        out.push(text[i]);
        i += 1;
        assert(done + rest =~= out@ + before_first(s@.skip(i as int), pat@));
    }
    assert(out@ + before_first(s@.skip(i as int), pat@) =~= out@);
    out
}

/// Writes the strings of `parts` one after the other with `sep` between each
/// two.
pub fn join(parts: &Vec<String>, sep: &str) -> (r: String)
    ensures
        r@ == joined(parts.deep_view(), sep@),
{
    let ghost all = parts.deep_view();
    let mut out = String::new();
    let mut i: usize = 0;
    while i < parts.len()
        invariant
            i <= parts.len(),
            all == parts.deep_view(),
            out@ == joined(all.take(i as int), sep@),
        decreases parts.len() - i,
    {
        let ghost before = out@;
        assert(all.take(i + 1).drop_last() == all.take(i as int));
        if i > 0 {
            out.append(sep);
        }
        out.append(parts[i].as_str());
        i += 1;
        assert(out@ =~= joined(all.take(i as int), sep@));
    }
    assert(all.take(i as int) == all);
    out
}

} // verus!
