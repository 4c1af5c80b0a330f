//! What holds of the short forms and of a scan for every record and every
//! argument vector, stated over the functions that define them and proved.

use vstd::prelude::*;
use crate::args::{
    bound, goes_by, going_by, is_repeated, is_reserved, lemma_options_fail_on, option_for_char,
    option_of, options_of, options_upto, short_form, table_is_sound, OptionView, ParsedView,
};
use crate::encode::{all_numeric, document, encoded_token};
use crate::error::{raised, FailureView, Kind};
use crate::scan::{
    is_flag, is_long_flag, long_name, refer, scan, scan_cluster, scan_from, step_on,
    value_follows, BindingView, PendingView, ScanView, ScannerView, StepView, ValueView,
};
use crate::schema::option_names;
use crate::text::{ascii_lower, ascii_upper, char_is_lowercase, swap_char};

verus! {

/// The names that go by `c` in a list made of two parts are those of the first
/// part followed by those of the second.
pub proof fn lemma_going_by_add(a: Seq<Seq<char>>, b: Seq<Seq<char>>, c: char)
    ensures
        going_by(a + b, c) == going_by(a, c) + going_by(b, c),
    decreases b.len(),
{
    if b.len() == 0 {
        assert(a + b == a);
        assert(going_by(a, c) + going_by(b, c) == going_by(a, c));
    } else {
        assert((a + b).drop_last() == a + b.drop_last());
        assert((a + b).last() == b.last());
        lemma_going_by_add(a, b.drop_last(), c);
        if goes_by(b.last(), c) {
            assert(going_by(a, c) + going_by(b.drop_last(), c).push(b.last()) == (going_by(a, c)
                + going_by(b.drop_last(), c)).push(b.last()));
        }
    }
}

/// A list in which no name goes by `c` gives none.
pub proof fn lemma_going_by_none(names: Seq<Seq<char>>, c: char)
    requires
        forall|k: int| 0 <= k < names.len() ==> !goes_by(#[trigger] names[k], c),
    ensures
        going_by(names, c).len() == 0,
    decreases names.len(),
{
    if names.len() > 0 {
        assert(!goes_by(names[names.len() - 1], c));
        lemma_going_by_none(names.drop_last(), c);
    }
}

/// A name that goes by `c` splits the names that do so into those before it,
/// itself and those after it.
pub proof fn lemma_going_by_split(names: Seq<Seq<char>>, c: char, k: int)
    requires
        0 <= k < names.len(),
        goes_by(names[k], c),
    ensures
        going_by(names, c) == going_by(names.take(k), c).push(names[k]) + going_by(
            names.skip(k + 1),
            c,
        ),
{
    let head = names.take(k);
    let tail = names.skip(k + 1);
    assert(names == head.push(names[k]) + tail);
    lemma_going_by_add(head.push(names[k]), tail, c);
    assert(head.push(names[k]).drop_last() == head);
}

/// Each of the names that go by `c` is one of the names and goes by `c`.
pub proof fn lemma_going_by_members(names: Seq<Seq<char>>, c: char, p: int)
    requires
        0 <= p < going_by(names, c).len(),
    ensures
        exists|j: int|
            0 <= j < names.len() && names[j] == going_by(names, c)[p] && goes_by(names[j], c),
    decreases names.len(),
{
    if names.len() > 0 {
        let head = names.drop_last();
        if p < going_by(head, c).len() {
            lemma_going_by_members(head, c, p);
            let j = choose|j: int|
                0 <= j < head.len() && head[j] == going_by(head, c)[p] && goes_by(head[j], c);
            assert(names[j] == going_by(names, c)[p]);
        } else {
            assert(names[names.len() - 1] == going_by(names, c)[p]);
        }
    }
}

/// Two names that go by `c` are two rivals at least, and where they are the
/// only two, the rivals are these, in their order.
pub proof fn lemma_two_rivals(names: Seq<Seq<char>>, c: char, x: int, y: int)
    requires
        0 <= x < y < names.len(),
        goes_by(names[x], c),
        goes_by(names[y], c),
    ensures
        going_by(names, c).len() >= 2,
        going_by(names, c).len() == 2 ==> going_by(names, c) == seq![names[x], names[y]],
{
    lemma_going_by_split(names, c, x);
    let rest = names.skip(x + 1);
    assert(rest[y - x - 1] == names[y]);
    lemma_going_by_split(rest, c, y - x - 1);
    if going_by(names, c).len() == 2 {
        assert(going_by(names, c) =~= seq![names[x], names[y]]);
    }
}

/// Three names that go by `c` are three rivals at least.
pub proof fn lemma_three_rivals(names: Seq<Seq<char>>, c: char, x: int, y: int, z: int)
    requires
        0 <= x < y < z < names.len(),
        goes_by(names[x], c),
        goes_by(names[y], c),
        goes_by(names[z], c),
    ensures
        going_by(names, c).len() >= 3,
{
    lemma_going_by_split(names, c, x);
    let rest = names.skip(x + 1);
    assert(rest[y - x - 1] == names[y]);
    assert(rest[z - x - 1] == names[z]);
    lemma_two_rivals(rest, c, y - x - 1, z - x - 1);
}

/// Where no two names share a first character, in either case of it, a name
/// gets the lower-case form of its first character. (`version` keeps `V`, and
/// `h` stays with `help`: another name in `h` gets `H`.)
pub proof fn lemma_alone_gets_lower_case(names: Seq<Seq<char>>, i: int)
    requires
        0 <= i < names.len(),
        names[i].len() > 0,
        names[i] != "version"@,
        names[i] == "help"@ || ascii_lower(names[i][0]) != 'h',
        forall|a: int, b: int|
            0 <= a < b < names.len() && names[a].len() > 0 && names[b].len() > 0 ==> ascii_lower(
                names[a][0],
            ) != ascii_lower(names[b][0]),
    ensures
        short_form(names[i], names) == Ok::<char, FailureView>(ascii_lower(names[i][0])),
{
    reveal_strlit("help");
    if names[i] != "help"@ {
        lemma_alone_among_rivals(names, i);
    }
}

/// A name whose first character no other name shares, in either case of it,
/// is its own only rival.
proof fn lemma_alone_among_rivals(names: Seq<Seq<char>>, i: int)
    requires
        0 <= i < names.len(),
        names[i].len() > 0,
        !is_reserved(names[i]),
        forall|k: int|
            0 <= k < names.len() && k != i && (#[trigger] names[k]).len() > 0 ==> ascii_lower(
                names[k][0],
            ) != ascii_lower(names[i][0]),
    ensures
        going_by(names, ascii_lower(names[i][0])) == seq![names[i]],
{
    let c = ascii_lower(names[i][0]);
    lemma_going_by_split(names, c, i);
    assert forall|k: int| 0 <= k < names.take(i).len() implies !goes_by(
        #[trigger] names.take(i)[k],
        c,
    ) by {
        assert(names.take(i)[k] == names[k]);
    }
    lemma_going_by_none(names.take(i), c);
    assert forall|k: int| 0 <= k < names.skip(i + 1).len() implies !goes_by(
        #[trigger] names.skip(i + 1)[k],
        c,
    ) by {
        assert(names.skip(i + 1)[k] == names[i + 1 + k]);
    }
    lemma_going_by_none(names.skip(i + 1), c);
    assert(going_by(names, c) =~= seq![names[i]]);
}

/// Where no two names share a first character, in either case of it, the
/// table of the options is made, and each option goes by the lower-case form of
/// its first character, but for `version` and for a name in `h` other than
/// `help`.
pub proof fn lemma_distinct_names_make_a_table(names: Seq<Seq<char>>)
    requires
        forall|k: int| 0 <= k < names.len() ==> (#[trigger] names[k]).len() > 0,
        forall|a: int, b: int|
            0 <= a < b < names.len() ==> ascii_lower(names[a][0]) != ascii_lower(names[b][0]),
    ensures
        options_of(names) is Ok,
        options_of(names)->Ok_0.len() == names.len(),
        forall|k: int|
            0 <= k < names.len() && names[k] != "version"@ && (names[k] == "help"@ || ascii_lower(
                names[k][0],
            ) != 'h') ==> (#[trigger] options_of(names)->Ok_0[k]).short == ascii_lower(
                names[k][0],
            ),
{
    lemma_table_of_distinct_names(names, names.len());
}

proof fn lemma_table_of_distinct_names(names: Seq<Seq<char>>, n: nat)
    requires
        n <= names.len(),
        forall|k: int| 0 <= k < names.len() ==> (#[trigger] names[k]).len() > 0,
        forall|a: int, b: int|
            0 <= a < b < names.len() ==> ascii_lower(names[a][0]) != ascii_lower(names[b][0]),
    ensures
        options_upto(names, n) is Ok,
        options_upto(names, n)->Ok_0.len() == n,
        forall|k: int|
            0 <= k < n && names[k] != "version"@ && (names[k] == "help"@ || ascii_lower(names[k][0])
                != 'h') ==> (#[trigger] options_upto(names, n)->Ok_0[k]).short == ascii_lower(
                names[k][0],
            ),
    decreases n,
{
    if n > 0 {
        lemma_table_of_distinct_names(names, (n - 1) as nat);
        let name = names[n - 1];
        assert(!is_repeated(names, name)) by {
            if is_repeated(names, name) {
                let (a, b) = choose|a: int, b: int|
                    0 <= a < b < names.len() && names[a] == name && names[b] == name;
                assert(ascii_lower(names[a][0]) != ascii_lower(names[b][0]));
            }
        }
        if !is_reserved(name) {
            lemma_alone_among_rivals(names, n - 1);
        }
        reveal_strlit("help");
    }
}

/// Of exactly two names that go by one letter, the one that stands first gets
/// the lower-case form and the other the upper-case form. (The letter is
/// neither `h` nor `v`, whose other form is reserved.)
pub proof fn lemma_two_share_lower_then_upper(names: Seq<Seq<char>>, first: int, second: int)
    requires
        0 <= first < second < names.len(),
        names[first].len() > 0,
        !is_reserved(names[first]),
        goes_by(names[second], ascii_lower(names[first][0])),
        forall|k: int|
            0 <= k < names.len() && k != first && k != second ==> !goes_by(
                #[trigger] names[k],
                ascii_lower(names[first][0]),
            ),
        names[first] != names[second],
        'a' <= ascii_lower(names[first][0]) && ascii_lower(names[first][0]) <= 'z',
        ascii_lower(names[first][0]) != 'h',
        ascii_lower(names[first][0]) != 'v',
    ensures
        short_form(names[first], names) == Ok::<char, FailureView>(ascii_lower(names[first][0])),
        short_form(names[second], names) == Ok::<char, FailureView>(
            ascii_upper(ascii_lower(names[second][0])),
        ),
{
    let c = ascii_lower(names[first][0]);
    lemma_going_by_split(names, c, first);
    lemma_going_by_none(names.take(first), c);
    let rest = names.skip(first + 1);
    let at = second - first - 1;
    assert(rest[at] == names[second]);
    lemma_going_by_split(rest, c, at);
    assert forall|k: int| 0 <= k < rest.take(at).len() implies !goes_by(
        #[trigger] rest.take(at)[k],
        c,
    ) by {
        assert(rest.take(at)[k] == names[first + 1 + k]);
    }
    lemma_going_by_none(rest.take(at), c);
    assert forall|k: int| 0 <= k < rest.skip(at + 1).len() implies !goes_by(
        #[trigger] rest.skip(at + 1)[k],
        c,
    ) by {
        assert(rest.skip(at + 1)[k] == names[second + 1 + k]);
    }
    lemma_going_by_none(rest.skip(at + 1), c);
    assert(going_by(names, c) =~= seq![names[first], names[second]]);
}

/// Where three or more names share the first character `c`, none of them but
/// a reserved one has a short form: the failure is `OptionsTooSimilar` and
/// cites `c`, whatever other names there are.
pub proof fn lemma_three_share_too_similar(
    names: Seq<Seq<char>>,
    c: char,
    x: int,
    y: int,
    z: int,
    i: int,
)
    requires
        0 <= x < y < z < names.len(),
        names[x].len() > 0 && names[x][0] == c,
        names[y].len() > 0 && names[y][0] == c,
        names[z].len() > 0 && names[z][0] == c,
        names[x] != names[y] && names[y] != names[z] && names[x] != names[z],
        0 <= i < names.len(),
        names[i].len() > 0 && names[i][0] == c,
        !is_reserved(names[i]),
    ensures
        short_form(names[i], names) == Err::<char, FailureView>(
            raised(Kind::OptionsTooSimilar, seq![c]),
        ),
{
    let folded = ascii_lower(c);
    reveal_strlit("help");
    reveal_strlit("version");
    assert("help"@[0] == 'h' && "version"@[0] == 'v');
    if is_reserved(names[x]) {
        assert(!is_reserved(names[y]) && !is_reserved(names[z]));
        lemma_two_rivals(names, folded, y, z);
    } else if is_reserved(names[y]) {
        assert(!is_reserved(names[z]));
        lemma_two_rivals(names, folded, x, z);
    } else if is_reserved(names[z]) {
        lemma_two_rivals(names, folded, x, y);
    } else {
        lemma_three_rivals(names, folded, x, y, z);
    }
}

/// A table that is made has an option for each of its names, in their order.
pub proof fn lemma_table_entries(names: Seq<Seq<char>>, k: int)
    requires
        options_of(names) is Ok,
        0 <= k < names.len(),
    ensures
        options_of(names)->Ok_0.len() == names.len(),
        option_of(names[k], names) == Ok::<OptionView, FailureView>(options_of(names)->Ok_0[k]),
{
    lemma_table_entries_upto(names, names.len(), k);
}

proof fn lemma_table_entries_upto(names: Seq<Seq<char>>, n: nat, k: int)
    requires
        n <= names.len(),
        options_upto(names, n) is Ok,
        0 <= k < n,
    ensures
        options_upto(names, n)->Ok_0.len() == n,
        option_of(names[k], names) == Ok::<OptionView, FailureView>(options_upto(names, n)->Ok_0[k]),
    decreases n,
{
    if n - 1 > k {
        lemma_table_entries_upto(names, (n - 1) as nat, k);
    } else if n > 1 {
        lemma_table_entries_upto(names, (n - 1) as nat, k - 1);
    }
}

/// In a table that is made, `h` is the short form of `help` alone and `V` that
/// of `version` alone.
pub proof fn lemma_reserved_short_forms_stay(names: Seq<Seq<char>>, k: int)
    requires
        options_of(names) is Ok,
        0 <= k < names.len(),
    ensures
        options_of(names)->Ok_0[k].short == 'h' <==> names[k] == "help"@,
        options_of(names)->Ok_0[k].short == 'V' <==> names[k] == "version"@,
{
    lemma_table_entries(names, k);
    reveal_strlit("help");
    reveal_strlit("version");
}

/// In a table that is made, any two options have different short forms.
pub proof fn lemma_short_forms_differ(names: Seq<Seq<char>>, i: int, j: int)
    requires
        options_of(names) is Ok,
        0 <= i < j < names.len(),
    ensures
        options_of(names)->Ok_0[i].short != options_of(names)->Ok_0[j].short,
{
    lemma_table_entries(names, i);
    lemma_table_entries(names, j);
    lemma_reserved_short_forms_stay(names, i);
    lemma_reserved_short_forms_stay(names, j);
    assert(names[i] != names[j]) by {
        if names[i] == names[j] {
            assert(is_repeated(names, names[i]));
        }
    }
    if !is_reserved(names[i]) && !is_reserved(names[j]) {
        let c = ascii_lower(names[i][0]);
        if c == ascii_lower(names[j][0]) {
            lemma_two_rivals(names, c, i, j);
        }
    }
}

/// A table that is made is sound: any two of its options have different
/// short forms, and `h` and `V` stay with `help` and `version`.
pub proof fn lemma_table_is_sound(names: Seq<Seq<char>>)
    requires
        options_of(names) is Ok,
    ensures
        table_is_sound(options_of(names)->Ok_0),
{
    let table = options_of(names)->Ok_0;
    if names.len() > 0 {
        lemma_table_entries(names, 0);
    }
    assert forall|i: int, j: int| 0 <= i < j < table.len() implies (#[trigger] table[i]).short != (
    #[trigger] table[j]).short by {
        lemma_short_forms_differ(names, i, j);
    }
    assert forall|i: int| 0 <= i < table.len() implies ((#[trigger] table[i]).short == 'h'
        <==> table[i].long == "help"@) && (table[i].short == 'V' <==> table[i].long
        == "version"@) by {
        lemma_table_entries(names, i);
        lemma_reserved_short_forms_stay(names, i);
    }
}

/// A table with a name that has no option is not made: it fails as the first
/// such name does.
pub proof fn lemma_table_fails_with_a_name(names: Seq<Seq<char>>, k: int)
    requires
        0 <= k < names.len(),
        option_of(names[k], names) is Err,
    ensures
        options_of(names) is Err,
        exists|j: int|
            0 <= j <= k && #[trigger] option_of(names[j], names) == Err::<OptionView, FailureView>(
                options_of(names)->Err_0,
            ),
{
    if options_upto(names, k as nat) is Ok {
        lemma_options_fail_on(names, k as nat, names.len());
        assert(option_of(names[k], names) == Err::<OptionView, FailureView>(
            options_of(names)->Err_0,
        ));
    } else {
        lemma_table_failure_has_a_name(names, k as nat);
        lemma_table_stays_failed(names, k as nat, names.len());
        let j = choose|j: int|
            0 <= j < k && #[trigger] option_of(names[j], names) == Err::<OptionView, FailureView>(
                options_upto(names, k as nat)->Err_0,
            );
        assert(option_of(names[j], names) == Err::<OptionView, FailureView>(
            options_of(names)->Err_0,
        ));
    }
}

/// A table that has failed after `n` names is the same failure after more.
proof fn lemma_table_stays_failed(names: Seq<Seq<char>>, n: nat, m: nat)
    requires
        n <= m,
        options_upto(names, n) is Err,
    ensures
        options_upto(names, m) == options_upto(names, n),
    decreases m,
{
    if m > n {
        lemma_table_stays_failed(names, n, (m - 1) as nat);
    }
}

/// A table that has failed has done so at one of its names.
proof fn lemma_table_failure_has_a_name(names: Seq<Seq<char>>, n: nat)
    requires
        n <= names.len(),
        options_upto(names, n) is Err,
    ensures
        exists|j: int|
            0 <= j < n && #[trigger] option_of(names[j], names) == Err::<OptionView, FailureView>(
                options_upto(names, n)->Err_0,
            ),
    decreases n,
{
    if n > 0 {
        if options_upto(names, (n - 1) as nat) is Err {
            lemma_table_failure_has_a_name(names, (n - 1) as nat);
            let j = choose|j: int|
                0 <= j < n - 1 && #[trigger] option_of(names[j], names) == Err::<
                    OptionView,
                    FailureView,
                >(options_upto(names, (n - 1) as nat)->Err_0);
            assert(option_of(names[j], names) == Err::<OptionView, FailureView>(
                options_upto(names, n)->Err_0,
            ));
        } else {
            assert(option_of(names[n - 1], names) == Err::<OptionView, FailureView>(
                options_upto(names, n)->Err_0,
            ));
        }
    }
}

/// A record in which three or more fields share a first character is refused
/// whatever the arguments are, and the failure is `OptionsTooSimilar`.
pub proof fn lemma_too_similar_fields_are_refused(
    fields: Seq<Seq<char>>,
    tokens: Seq<Seq<char>>,
    x: int,
    y: int,
    z: int,
)
    requires
        0 <= x < y < z < fields.len(),
        forall|k: int| 0 <= k < fields.len() ==> (#[trigger] fields[k]).len() > 0,
        fields[x][0] == fields[y][0],
        fields[y][0] == fields[z][0],
    ensures
        bound(fields, tokens) is Err,
        bound(fields, tokens)->Err_0.kind == Kind::OptionsTooSimilar,
{
    let names = option_names(fields);
    let c = if fields[x][0] == '_' {
        '-'
    } else {
        fields[x][0]
    };
    assert(names[x + 2] == swap_char(fields[x], '_', '-'));
    assert(names[y + 2] == swap_char(fields[y], '_', '-'));
    assert(names[z + 2] == swap_char(fields[z], '_', '-'));
    let a = names[x + 2];
    let b = names[y + 2];
    let d = names[z + 2];
    reveal_strlit("help");
    reveal_strlit("version");
    assert("help"@[0] == 'h' && "version"@[0] == 'v');
    let i = if a == b || a == d {
        x + 2
    } else if b == d {
        y + 2
    } else if is_reserved(b) {
        x + 2
    } else {
        y + 2
    };
    assert(option_of(names[i], names) is Err) by {
        if a == b {
            assert(is_repeated(names, a));
        } else if a == d {
            assert(is_repeated(names, a));
        } else if b == d {
            assert(is_repeated(names, b));
        } else {
            lemma_three_share_too_similar(names, c, x + 2, y + 2, z + 2, i);
        }
    }
    lemma_table_fails_with_a_name(names, i);
    let j = choose|j: int|
        0 <= j <= i && #[trigger] option_of(names[j], names) == Err::<OptionView, FailureView>(
            options_of(names)->Err_0,
        );
    assert(names[j].len() > 0) by {
        if j >= 2 {
            assert(names[j] == swap_char(fields[j - 2], '_', '-'));
        }
    }
}

/// Writing underscores as hyphens does not change which names go by a
/// character that is neither.
proof fn lemma_going_by_hyphenated(fields: Seq<Seq<char>>, c: char)
    requires
        c != '_',
        c != '-',
    ensures
        going_by(fields.map_values(|name: Seq<char>| swap_char(name, '_', '-')), c) == going_by(
            fields,
            c,
        ).map_values(|name: Seq<char>| swap_char(name, '_', '-')),
    decreases fields.len(),
{
    let hyphenated = |name: Seq<char>| swap_char(name, '_', '-');
    if fields.len() == 0 {
        assert(going_by(fields.map_values(hyphenated), c) =~= going_by(fields, c).map_values(
            hyphenated,
        ));
    } else {
        lemma_going_by_hyphenated(fields.drop_last(), c);
        assert(fields.map_values(hyphenated).drop_last() == fields.drop_last().map_values(
            hyphenated,
        ));
        assert(fields.map_values(hyphenated).last() == swap_char(fields.last(), '_', '-'));
        lemma_hyphenated_reserved(fields.last());
        assert(goes_by(swap_char(fields.last(), '_', '-'), c) == goes_by(fields.last(), c));
        assert(going_by(fields.map_values(hyphenated), c) =~= going_by(fields, c).map_values(
            hyphenated,
        ));
    }
}

/// A name is reserved when it is so with its underscores written as hyphens.
proof fn lemma_hyphenated_reserved(name: Seq<char>)
    ensures
        is_reserved(swap_char(name, '_', '-')) == is_reserved(name),
{
    reveal_strlit("help");
    reveal_strlit("version");
    assert("help"@ =~= seq!['h', 'e', 'l', 'p']);
    assert("version"@ =~= seq!['v', 'e', 'r', 's', 'i', 'o', 'n']);
    let written = swap_char(name, '_', '-');
    if is_reserved(written) {
        assert forall|k: int| 0 <= k < name.len() implies name[k] == written[k] by {
            assert(written[k] != '-');
        }
        assert(name =~= written);
    }
    if is_reserved(name) {
        assert forall|k: int| 0 <= k < name.len() implies name[k] == written[k] by {
            assert(name[k] != '_');
        }
        assert(name =~= written);
    }
}

/// The short form that the table gives a field is a character that a cluster
/// reads as that field: in every record whose table is made, for every field
/// that begins with neither an underscore nor a hyphen.
pub proof fn lemma_short_form_finds_its_field(fields: Seq<Seq<char>>, i: int)
    requires
        options_of(option_names(fields)) is Ok,
        0 <= i < fields.len(),
        fields[i].len() > 0 ==> fields[i][0] != '_' && fields[i][0] != '-',
    ensures
        ({
            let short = options_of(option_names(fields))->Ok_0[i + 2].short;
            option_for_char(short, char_is_lowercase(short), fields) == Ok::<
                Seq<char>,
                FailureView,
            >(fields[i])
        }),
{
    let hyphenated = |name: Seq<char>| swap_char(name, '_', '-');
    let names = option_names(fields);
    let reserved = seq!["help"@, "version"@];
    let name = names[i + 2];
    assert(name == swap_char(fields[i], '_', '-'));
    lemma_table_entries(names, i + 2);
    lemma_reserved_short_forms_stay(names, i + 2);
    lemma_hyphenated_reserved(fields[i]);
    reveal_strlit("help");
    reveal_strlit("version");
    assert(!is_reserved(name)) by {
        if name == names[0] {
            assert(is_repeated(names, name));
        }
        if name == names[1] {
            assert(is_repeated(names, name));
        }
    }
    assert(name.len() > 0);
    let c = ascii_lower(fields[i][0]);
    assert(name[0] == fields[i][0]);
    let found = going_by(fields, c);
    let rivals = going_by(names, c);
    lemma_going_by_add(reserved, fields.map_values(hyphenated), c);
    lemma_going_by_hyphenated(fields, c);
    assert(names == reserved + fields.map_values(hyphenated));
    assert(going_by(reserved, c).len() == 0) by {
        lemma_going_by_none(reserved, c);
    }
    assert(rivals =~= found.map_values(hyphenated));
    lemma_going_by_split(fields, c, i);
    let before = going_by(fields.take(i), c);
    assert(found[before.len() as int] == fields[i]);
    assert(ascii_lower(ascii_upper(c)) == c);
    if found.len() == 2 {
        assert(ascii_lower(c) == c);
        if before.len() == 1 {
            lemma_going_by_members(fields.take(i), c, 0);
            let j = choose|j: int|
                0 <= j < fields.take(i).len() && fields.take(i)[j] == before[0] && goes_by(
                    fields.take(i)[j],
                    c,
                );
            assert(fields.take(i)[j] == fields[j]);
            assert(found[0] == fields[j]);
            assert(rivals[0] == names[j + 2]);
            if rivals[0] == name {
                assert(is_repeated(names, name));
            }
        } else {
            assert(rivals[0] == name);
        }
    }
}

/// Whether `token` asks for the help before anything else: it is `--help`, or
/// a cluster whose first character is `h`.
pub open spec fn asks_for_help(token: Seq<char>) -> bool {
    token == "--help"@ || (token.len() >= 2 && token[0] == '-' && token[1] == 'h')
}

/// Whether `token` asks for the version before anything else: it is
/// `--version`, or a cluster whose first character is `V`.
pub open spec fn asks_for_version(token: Seq<char>) -> bool {
    token == "--version"@ || (token.len() >= 2 && token[0] == '-' && token[1] == 'V')
}

/// A cluster that comes to an `h` ends the scan with the help, whatever
/// characters stand behind the `h`.
pub proof fn lemma_cluster_ends_at_help(
    state: ScannerView,
    fields: Seq<Seq<char>>,
    token: Seq<char>,
    j: int,
    value_follows: bool,
)
    requires
        0 <= j < token.len(),
        token[j] == 'h',
    ensures
        scan_cluster(state, fields, token, j, value_follows) == Ok::<StepView, FailureView>(
            StepView::Help,
        ),
{
}

/// A cluster that comes to a `V` ends the scan with the version, whatever
/// characters stand behind the `V`.
pub proof fn lemma_cluster_ends_at_version(
    state: ScannerView,
    fields: Seq<Seq<char>>,
    token: Seq<char>,
    j: int,
    value_follows: bool,
)
    requires
        0 <= j < token.len(),
        token[j] == 'V',
    ensures
        scan_cluster(state, fields, token, j, value_follows) == Ok::<StepView, FailureView>(
            StepView::Version,
        ),
{
    reveal_strlit("help");
    reveal_strlit("version");
}

/// A scan that comes to a token that asks for the help ends with the help,
/// whatever was bound before and whatever tokens follow.
pub proof fn lemma_scan_ends_at_help(
    state: ScannerView,
    fields: Seq<Seq<char>>,
    tokens: Seq<Seq<char>>,
    i: int,
)
    requires
        0 <= i < tokens.len(),
        asks_for_help(tokens[i]),
    ensures
        scan_from(state, fields, tokens, i) == Ok::<ScanView, FailureView>(ScanView::Help),
{
    reveal_strlit("--help");
    reveal_strlit("help");
    if tokens[i] == "--help"@ {
        assert(long_name(tokens[i]) =~= "help"@);
    } else {
        lemma_cluster_ends_at_help(state, fields, tokens[i], 1, value_follows(tokens, i));
    }
}

/// A scan that comes to a token that asks for the version ends with the
/// version, whatever was bound before and whatever tokens follow.
pub proof fn lemma_scan_ends_at_version(
    state: ScannerView,
    fields: Seq<Seq<char>>,
    tokens: Seq<Seq<char>>,
    i: int,
)
    requires
        0 <= i < tokens.len(),
        asks_for_version(tokens[i]),
    ensures
        scan_from(state, fields, tokens, i) == Ok::<ScanView, FailureView>(ScanView::Version),
{
    reveal_strlit("--version");
    reveal_strlit("version");
    reveal_strlit("help");
    if tokens[i] == "--version"@ {
        assert(long_name(tokens[i]) =~= "version"@);
    } else {
        lemma_cluster_ends_at_version(state, fields, tokens[i], 1, value_follows(tokens, i));
    }
}

/// Nothing that follows a token that asks for the help or the version counts:
/// two argument vectors that agree up to such a token give the same, and what
/// they give is no binding of anything. It is the help or the version, unless
/// a token before it had already failed.
pub proof fn lemma_nothing_after_help_counts(
    fields: Seq<Seq<char>>,
    tokens: Seq<Seq<char>>,
    other: Seq<Seq<char>>,
    k: int,
)
    requires
        0 <= k < tokens.len(),
        k < other.len(),
        tokens.take(k + 1) == other.take(k + 1),
        asks_for_help(tokens[k]) || asks_for_version(tokens[k]),
    ensures
        scan(fields, tokens) == scan(fields, other),
        !(scan(fields, tokens) matches Ok(ScanView::Bindings(_))),
{
    lemma_same_up_to_help(ScannerView::start(), fields, tokens, other, k, 0);
}

proof fn lemma_same_up_to_help(
    state: ScannerView,
    fields: Seq<Seq<char>>,
    tokens: Seq<Seq<char>>,
    other: Seq<Seq<char>>,
    k: int,
    i: int,
)
    requires
        0 <= i <= k < tokens.len(),
        k < other.len(),
        tokens.take(k + 1) == other.take(k + 1),
        asks_for_help(tokens[k]) || asks_for_version(tokens[k]),
    ensures
        scan_from(state, fields, tokens, i) == scan_from(state, fields, other, i),
        !(scan_from(state, fields, tokens, i) matches Ok(ScanView::Bindings(_))),
    decreases k - i,
{
    assert(tokens[k] == tokens.take(k + 1)[k]);
    assert(other[k] == other.take(k + 1)[k]);
    if i == k {
        if asks_for_help(tokens[k]) {
            lemma_scan_ends_at_help(state, fields, tokens, k);
            lemma_scan_ends_at_help(state, fields, other, k);
        } else {
            lemma_scan_ends_at_version(state, fields, tokens, k);
            lemma_scan_ends_at_version(state, fields, other, k);
        }
    } else {
        assert(tokens[i] == tokens.take(k + 1)[i]);
        assert(other[i] == other.take(k + 1)[i]);
        assert(tokens[i + 1] == tokens.take(k + 1)[i + 1]);
        assert(other[i + 1] == other.take(k + 1)[i + 1]);
        assert(value_follows(tokens, i) == value_follows(other, i));
        match step_on(state, fields, tokens[i], value_follows(tokens, i)) {
            Ok(StepView::Go(next)) => {
                lemma_same_up_to_help(next, fields, tokens, other, k, i + 1);
            },
            _ => {},
        }
    }
}

/// The long flag that names the field `key`: two hyphens, then the name with
/// its underscores written as hyphens.
pub open spec fn long_flag(key: Seq<char>) -> Seq<char> {
    seq!['-', '-'] + swap_char(key, '_', '-')
}

/// The tokens that spell `binding` in an argument vector: the long flag of its
/// key, then the token of a scalar or the items of an array.
pub open spec fn spelled(binding: BindingView) -> Seq<Seq<char>> {
    match binding.value {
        ValueView::Scalar(token) => seq![long_flag(binding.key), token],
        ValueView::Array(items) => seq![long_flag(binding.key)] + items,
        _ => seq![long_flag(binding.key)],
    }
}

/// The argument vector that spells `bindings`, one after the other.
pub open spec fn spelled_all(bindings: Seq<BindingView>) -> Seq<Seq<char>>
    decreases bindings.len(),
{
    if bindings.len() == 0 {
        Seq::empty()
    } else {
        spelled(bindings[0]) + spelled_all(bindings.skip(1))
    }
}

/// Whether an argument vector can say `binding` of a record with the fields
/// `fields`: the key is a field, is no reserved name and holds no hyphen; the
/// value is a switch that is on, one token, or two or more items; and no token
/// of it is a flag.
pub open spec fn can_be_spelled(fields: Seq<Seq<char>>, binding: BindingView) -> bool {
    &&& fields.contains(binding.key)
    &&& !is_reserved(binding.key)
    &&& !binding.key.contains('-')
    &&& match binding.value {
        ValueView::True => true,
        ValueView::Scalar(token) => !is_flag(token),
        ValueView::Array(items) => items.len() >= 2 && forall|k: int|
            0 <= k < items.len() ==> !is_flag(#[trigger] items[k]),
        ValueView::Nothing => false,
    }
}

/// A record binds back onto itself: where each field that is set holds a
/// switch that is on, one scalar or an array of two or more items, the argument
/// vector that spells these bindings scans to exactly them, in their order; and
/// where the record's options can be told apart, binding gives the document of
/// exactly them.
pub proof fn lemma_spelled_bindings_scan_back(fields: Seq<Seq<char>>, bindings: Seq<BindingView>)
    requires
        forall|k: int| 0 <= k < bindings.len() ==> can_be_spelled(fields, #[trigger] bindings[k]),
    ensures
        scan(fields, spelled_all(bindings)) == Ok::<ScanView, FailureView>(
            ScanView::Bindings(bindings),
        ),
        options_of(option_names(fields)) is Ok ==> bound(fields, spelled_all(bindings)) == Ok::<
            ParsedView,
            FailureView,
        >(ParsedView::Document(document(bindings))),
{
    lemma_scan_of_spelled(Seq::empty(), fields, Seq::empty(), bindings);
    assert(Seq::<Seq<char>>::empty() + spelled_all(bindings) == spelled_all(bindings));
    assert(Seq::<BindingView>::empty() + bindings == bindings);
}

/// A long flag is read back as the key that it was made of.
proof fn lemma_long_flag_names_its_key(key: Seq<char>)
    requires
        !key.contains('-'),
    ensures
        is_long_flag(long_flag(key)),
        is_flag(long_flag(key)),
        long_name(long_flag(key)) == key,
{
    let flag = long_flag(key);
    assert(flag.skip(2) =~= swap_char(key, '_', '-'));
    assert forall|k: int| 0 <= k < key.len() implies long_name(flag)[k] == key[k] by {
        assert(key.contains(key[k]));
    }
    assert(long_name(flag) =~= key);
}

/// What spells some bindings begins with a flag.
proof fn lemma_spelled_begins_with_a_flag(bindings: Seq<BindingView>)
    ensures
        bindings.len() == 0 ==> spelled_all(bindings).len() == 0,
        bindings.len() > 0 ==> spelled_all(bindings).len() > 0 && is_flag(spelled_all(bindings)[0]),
{
    if bindings.len() > 0 {
        assert(spelled_all(bindings)[0] == spelled(bindings[0])[0]);
    }
}

/// A run of values that a flag or the end follows closes as one array: the
/// items that the key holds already, then those of the run.
proof fn lemma_scan_of_items(
    done: Seq<BindingView>,
    key: Seq<char>,
    held: Seq<Seq<char>>,
    fields: Seq<Seq<char>>,
    tokens: Seq<Seq<char>>,
    at: int,
    items: Seq<Seq<char>>,
)
    requires
        items.len() >= 1,
        0 <= at,
        at + items.len() <= tokens.len(),
        forall|k: int| 0 <= k < items.len() ==> tokens[at + k] == #[trigger] items[k],
        forall|k: int| 0 <= k < items.len() ==> !is_flag(#[trigger] items[k]),
        at + items.len() < tokens.len() ==> is_flag(tokens[at + items.len()]),
    ensures
        scan_from(
            ScannerView { done, pending: PendingView::KeyInArray { key, items: held } },
            fields,
            tokens,
            at,
        ) == scan_from(
            ScannerView {
                done: done.push(BindingView { key, value: ValueView::Array(held + items) }),
                pending: PendingView::NoOpenKey,
            },
            fields,
            tokens,
            at + items.len(),
        ),
    decreases items.len(),
{
    let state = ScannerView { done, pending: PendingView::KeyInArray { key, items: held } };
    assert(tokens[at] == items[0]);
    assert(!is_flag(tokens[at]));
    if items.len() == 1 {
        assert(!value_follows(tokens, at));
        assert(held.push(items[0]) == held + items);
    } else {
        assert(tokens[at + 1] == items[1]);
        assert(value_follows(tokens, at));
        let rest = items.skip(1);
        assert forall|k: int| 0 <= k < rest.len() implies tokens[at + 1 + k] == #[trigger] rest[k] by {
            assert(rest[k] == items[k + 1]);
        }
        assert forall|k: int| 0 <= k < rest.len() implies !is_flag(#[trigger] rest[k]) by {
            assert(rest[k] == items[k + 1]);
        }
        lemma_scan_of_items(done, key, held.push(items[0]), fields, tokens, at + 1, rest);
        assert(held.push(items[0]) + rest == held + items);
    }
}

proof fn lemma_scan_of_spelled(
    done: Seq<BindingView>,
    fields: Seq<Seq<char>>,
    head: Seq<Seq<char>>,
    bindings: Seq<BindingView>,
)
    requires
        forall|k: int| 0 <= k < bindings.len() ==> can_be_spelled(fields, #[trigger] bindings[k]),
    ensures
        scan_from(
            ScannerView { done, pending: PendingView::NoOpenKey },
            fields,
            head + spelled_all(bindings),
            head.len() as int,
        ) == Ok::<ScanView, FailureView>(ScanView::Bindings(done + bindings)),
    decreases bindings.len(),
{
    let state = ScannerView { done, pending: PendingView::NoOpenKey };
    let tokens = head + spelled_all(bindings);
    let i = head.len() as int;
    if bindings.len() == 0 {
        assert(done + bindings == done);
    } else {
        let binding = bindings[0];
        let rest = bindings.skip(1);
        let key = binding.key;
        assert(can_be_spelled(fields, binding));
        assert forall|k: int| 0 <= k < rest.len() implies can_be_spelled(
            fields,
            #[trigger] rest[k],
        ) by {
            assert(rest[k] == bindings[k + 1]);
        }
        lemma_long_flag_names_its_key(key);
        lemma_spelled_begins_with_a_flag(rest);
        assert(tokens[i] == long_flag(key));
        let after = head + spelled(binding);
        let next = i + spelled(binding).len();
        assert(tokens == after + spelled_all(rest));
        assert(done.push(binding) + rest == done + bindings);
        if rest.len() > 0 {
            assert(tokens[next] == spelled_all(rest)[0]);
        }
        let closed = ScannerView { done: done.push(binding), pending: PendingView::NoOpenKey };
        match binding.value {
            ValueView::Scalar(token) => {
                assert(tokens[i + 1] == token);
                assert(value_follows(tokens, i));
                let open = state.open_key(key, true);
                assert(refer(state, fields, key, true) == Ok::<StepView, FailureView>(
                    StepView::Go(open),
                ));
                assert(scan_from(state, fields, tokens, i) == scan_from(open, fields, tokens, i + 1));
                assert(!value_follows(tokens, i + 1));
                assert(open.take_value(fields, token, false) == Ok::<ScannerView, FailureView>(
                    closed,
                ));
                assert(scan_from(open, fields, tokens, i + 1) == scan_from(
                    closed,
                    fields,
                    tokens,
                    i + 2,
                ));
            },
            ValueView::Array(items) => {
                assert(tokens[i + 1] == items[0]);
                assert(tokens[i + 2] == items[1]);
                assert(value_follows(tokens, i));
                let open = state.open_key(key, true);
                assert(refer(state, fields, key, true) == Ok::<StepView, FailureView>(
                    StepView::Go(open),
                ));
                assert(scan_from(state, fields, tokens, i) == scan_from(open, fields, tokens, i + 1));
                assert(value_follows(tokens, i + 1));
                let begun = ScannerView {
                    done,
                    pending: PendingView::KeyInArray { key, items: seq![items[0]] },
                };
                assert(open.take_value(fields, items[0], true) == Ok::<ScannerView, FailureView>(
                    begun,
                ));
                assert(scan_from(open, fields, tokens, i + 1) == scan_from(
                    begun,
                    fields,
                    tokens,
                    i + 2,
                ));
                let more = items.skip(1);
                assert forall|k: int| 0 <= k < more.len() implies tokens[i + 2 + k]
                    == #[trigger] more[k] by {
                    assert(more[k] == items[k + 1]);
                    assert(tokens[i + 2 + k] == spelled(binding)[k + 2]);
                }
                assert forall|k: int| 0 <= k < more.len() implies !is_flag(#[trigger] more[k]) by {
                    assert(more[k] == items[k + 1]);
                }
                lemma_scan_of_items(done, key, seq![items[0]], fields, tokens, i + 2, more);
                assert(seq![items[0]] + more == items);
            },
            _ => {
                assert(!value_follows(tokens, i));
                assert(state.open_key(key, false) == closed);
                assert(refer(state, fields, key, false) == Ok::<StepView, FailureView>(
                    StepView::Go(closed),
                ));
                assert(scan_from(state, fields, tokens, i) == scan_from(
                    closed,
                    fields,
                    tokens,
                    i + 1,
                ));
            },
        }
        lemma_scan_of_spelled(done.push(binding), fields, after, rest);
    }
}

/// A token made of the digits `0` to `9` alone is written bare in the
/// document.
pub proof fn lemma_digits_are_written_bare(token: Seq<char>)
    requires
        forall|i: int| 0 <= i < token.len() ==> '0' <= #[trigger] token[i] && token[i] <= '9',
    ensures
        all_numeric(token),
        encoded_token(token) == token,
{
}

/// A token that holds an ASCII character other than a digit is written
/// between double quotes in the document.
pub proof fn lemma_plain_text_is_quoted(token: Seq<char>, i: int)
    requires
        0 <= i < token.len(),
        token[i] <= '\u{7f}',
        !('0' <= token[i] && token[i] <= '9'),
    ensures
        !all_numeric(token),
        encoded_token(token) == seq!['"'] + token + seq!['"'],
{
}

} // verus!
