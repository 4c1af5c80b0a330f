//! The options of a record and the binding of an argument vector onto them.

use vstd::prelude::*;
use crate::encode::{document, encode};
use crate::error::{raise, raised, Failure, FailureView, Kind};
use crate::laws::lemma_table_is_sound;
use crate::scan::{scan, scan_arguments, Scan, ScanView};
use crate::schema::{get_struct_fields, option_names, option_names_of, struct_fields};
use crate::text::{ascii_lower, ascii_upper, char_is_lowercase, same_text, string_of_char};

verus! {

/// One option: its long name, the single character that stands for it, and the
/// line that describes it in the help.
#[derive(Debug, PartialEq, Eq)]
pub struct Option {
    pub long: String,
    pub short: char,
    pub description: String,
}

/// An `Option` as a mathematical value.
pub struct OptionView {
    pub long: Seq<char>,
    pub short: char,
    pub description: Seq<char>,
}

impl View for Option {
    type V = OptionView;

    open spec fn view(&self) -> OptionView {
        OptionView { long: self.long@, short: self.short, description: self.description@ }
    }
}

impl DeepView for Option {
    type V = OptionView;

    open spec fn deep_view(&self) -> OptionView {
        self@
    }
}

/// Whether `name` is one of the two names that no field can take over.
pub open spec fn is_reserved(name: Seq<char>) -> bool {
    name == "help"@ || name == "version"@
}

/// Whether the option `name` goes by the character `c`: it is no reserved name
/// and its first character, folded to lower case, is `c`.
pub open spec fn goes_by(name: Seq<char>, c: char) -> bool {
    name.len() > 0 && !is_reserved(name) && ascii_lower(name[0]) == c
}

/// The names of `names` that go by `c`, in the order of `names`.
pub open spec fn going_by(names: Seq<Seq<char>>, c: char) -> Seq<Seq<char>>
    decreases names.len(),
{
    if names.len() == 0 {
        Seq::empty()
    } else if goes_by(names.last(), c) {
        going_by(names.drop_last(), c).push(names.last())
    } else {
        going_by(names.drop_last(), c)
    }
}

/// Whether `name` stands more than once in `names`.
pub open spec fn is_repeated(names: Seq<Seq<char>>, name: Seq<char>) -> bool {
    exists|a: int, b: int| 0 <= a < b < names.len() && names[a] == name && names[b] == name
}

/// The short form of the option `name` among the options `names`.
///
/// `help` and `version` keep `h` and `V`, and no other option gets either.
/// Any other name goes by its first character, folded to lower case, and its
/// rivals are the names of `names` that go by the same character.
/// - Without a rival it gets the lower-case form; where that is `h`, it gets
///   `H`.
/// - Of two rivals the one that stands first gets the lower-case form and the
///   other the upper-case form. That takes a letter with both forms free: not
///   `h`, not `v`, and no character without an upper-case form.
/// - In every other case the rivals cannot be told apart.
///
/// A name without a first character names no option.
pub open spec fn short_form(name: Seq<char>, names: Seq<Seq<char>>) -> Result<char, FailureView> {
    if name == "help"@ {
        Ok('h')
    } else if name == "version"@ {
        Ok('V')
    } else if name.len() == 0 {
        Err(raised(Kind::InvalidOption, name))
    } else {
        let c = ascii_lower(name[0]);
        let rivals = going_by(names, c);
        if rivals.len() <= 1 {
            Ok(
                if c == 'h' {
                    'H'
                } else {
                    c
                },
            )
        } else if rivals.len() == 2 && 'a' <= c && c <= 'z' && c != 'h' && c != 'v' {
            Ok(
                if rivals[0] == name {
                    c
                } else {
                    ascii_upper(c)
                },
            )
        } else {
            Err(raised(Kind::OptionsTooSimilar, seq![name[0]]))
        }
    }
}

/// The field that the character `c` of a short cluster stands for.
///
/// `h` and `V` stand for `help` and `version`. Any other character is folded to
/// lower case and looked up among the fields that go by it: one field found is
/// the answer whatever the case of `c`; of two, a lower-case `c` (`lowercase`)
/// means the first and any other `c` the second.
pub open spec fn option_for_char(c: char, lowercase: bool, fields: Seq<Seq<char>>) -> Result<
    Seq<char>,
    FailureView,
> {
    if c == 'h' {
        Ok("help"@)
    } else if c == 'V' {
        Ok("version"@)
    } else {
        let found = going_by(fields, ascii_lower(c));
        if found.len() == 0 {
            Err(raised(Kind::InvalidOption, seq![c]))
        } else if found.len() == 1 {
            Ok(found[0])
        } else if found.len() == 2 {
            Ok(
                if lowercase {
                    found[0]
                } else {
                    found[1]
                },
            )
        } else {
            Err(raised(Kind::OptionsTooSimilar, seq![c]))
        }
    }
}

/// The line that describes the option `name` in the help.
pub open spec fn description_of(name: Seq<char>) -> Seq<char> {
    if name == "help"@ {
        "Show this help message"@
    } else if name == "version"@ {
        "Show application version"@
    } else {
        "description (TODO)"@
    }
}

/// The option `name` among the options `names`. A name that stands twice has
/// no option, for a table holds each of its names once; nor has a name without
/// a short form.
pub open spec fn option_of(name: Seq<char>, names: Seq<Seq<char>>) -> Result<
    OptionView,
    FailureView,
> {
    if is_repeated(names, name) {
        Err(raised(Kind::OptionsTooSimilar, name))
    } else {
        match short_form(name, names) {
            Ok(short) => Ok(OptionView { long: name, short, description: description_of(name) }),
            Err(e) => Err(e),
        }
    }
}

/// The options for the first `n` names of `names`, each taken among all of
/// `names`; the failure of the first name that has no short form, if there is
/// one.
pub open spec fn options_upto(names: Seq<Seq<char>>, n: nat) -> Result<Seq<OptionView>, FailureView>
    decreases n,
{
    if n == 0 {
        Ok(Seq::empty())
    } else {
        match options_upto(names, (n - 1) as nat) {
            Err(e) => Err(e),
            Ok(before) => match option_of(names[n - 1], names) {
                Err(e) => Err(e),
                Ok(option) => Ok(before.push(option)),
            },
        }
    }
}

/// Whether `table` can be shown and read: any two of its options have
/// different short forms, `h` is the short form of `help` alone and `V` that of
/// `version` alone.
pub open spec fn table_is_sound(table: Seq<OptionView>) -> bool {
    &&& forall|i: int, j: int|
        0 <= i < j < table.len() ==> (#[trigger] table[i]).short != (#[trigger] table[j]).short
    &&& forall|i: int|
        0 <= i < table.len() ==> ((#[trigger] table[i]).short == 'h' <==> table[i].long == "help"@)
            && (table[i].short == 'V' <==> table[i].long == "version"@)
}

/// The table of the options `names`, in their order.
pub open spec fn options_of(names: Seq<Seq<char>>) -> Result<Seq<OptionView>, FailureView> {
    options_upto(names, names.len())
}

impl Option {
    /// Makes the option `field_name`, with its short form among `field_names`.
    pub fn new(field_name: String, field_names: &Vec<String>) -> (r: Result<Self, Failure>)
        ensures
            match r {
                Ok(option) => option_of(field_name@, field_names.deep_view()) == Ok::<
                    OptionView,
                    FailureView,
                >(option@),
                Err(e) => option_of(field_name@, field_names.deep_view()) == Err::<
                    OptionView,
                    FailureView,
                >(e@),
            },
    {
        if stands_twice(field_names, field_name.as_str()) {
            return Err(raise(Kind::OptionsTooSimilar, field_name.as_str()));
        }
        let short = match get_char_from_field_name(field_name.clone(), field_names) {
            Ok(short) => short,
            Err(e) => {
                return Err(e);
            },
        };
        let description = if same_text(field_name.as_str(), "help") {
            String::from_str("Show this help message")
        } else if same_text(field_name.as_str(), "version") {
            String::from_str("Show application version")
        } else {
            String::from_str("description (TODO)")
        };
        Ok(Self { long: field_name, short, description })
    }

    /// Makes the table of the options `field_names`. A table that is made is
    /// sound.
    pub fn from(field_names: &Vec<String>) -> (r: Result<Vec<Self>, Failure>)
        ensures
            match r {
                Ok(options) => options_of(field_names.deep_view()) == Ok::<
                    Seq<OptionView>,
                    FailureView,
                >(options.deep_view()),
                Err(e) => options_of(field_names.deep_view()) == Err::<Seq<OptionView>, FailureView>(
                    e@,
                ),
            },
            r matches Ok(options) ==> table_is_sound(options.deep_view()),
    {
        let ghost all = field_names.deep_view();
        let mut options: Vec<Self> = Vec::new();
        let mut i: usize = 0;
        assert(options.deep_view() =~= Seq::<OptionView>::empty());
        while i < field_names.len()
            invariant
                i <= field_names.len(),
                all == field_names.deep_view(),
                options_upto(all, i as nat) == Ok::<Seq<OptionView>, FailureView>(
                    options.deep_view(),
                ),
            decreases field_names.len() - i,
        {
            match Self::new(field_names[i].clone(), field_names) {
                Ok(option) => {
                    let ghost before = options.deep_view();
                    let ghost made = option@;
                    options.push(option);
                    assert(options.deep_view() =~= before.push(made));
                    i += 1;
                },
                Err(e) => {
                    proof {
                        lemma_options_fail_on(all, i as nat, all.len());
                    }
                    return Err(e);
                },
            }
        }
        proof {
            lemma_table_is_sound(all);
        }
        Ok(options)
    }
}

/// A table that has failed after `n` names fails in the same way after any
/// greater number of them.
pub proof fn lemma_options_fail_on(names: Seq<Seq<char>>, n: nat, m: nat)
    requires
        n < m,
        options_upto(names, n) is Ok,
        option_of(names[n as int], names) is Err,
    ensures
        options_upto(names, m) == Err::<Seq<OptionView>, FailureView>(
            option_of(names[n as int], names)->Err_0,
        ),
    decreases m,
{
    if m > n + 1 {
        lemma_options_fail_on(names, n, (m - 1) as nat);
    }
}

/// Whether `name` is one of the two reserved names.
fn reserved(name: &str) -> (r: bool)
    ensures
        r == is_reserved(name@),
{
    same_text(name, "help") || same_text(name, "version")
}

/// Whether the option `name` goes by the character `c`.
fn goes_by_char(name: &str, c: char) -> (r: bool)
    ensures
        r == goes_by(name@, c),
{
    !name.is_empty() && !reserved(name) && name.get_char(0).to_ascii_lowercase() == c
}

/// Whether `name` stands more than once in `names`.
pub fn stands_twice(names: &Vec<String>, name: &str) -> (r: bool)
    ensures
        r == is_repeated(names.deep_view(), name@),
{
    let ghost all = names.deep_view();
    let mut seen = false;
    let mut first: usize = 0;
    let mut i: usize = 0;
    while i < names.len()
        invariant
            i <= names.len(),
            all == names.deep_view(),
            !seen ==> forall|k: int| 0 <= k < i ==> all[k] != name@,
            seen ==> first < i && all[first as int] == name@ && forall|k: int|
                0 <= k < i && k != first ==> all[k] != name@,
        decreases names.len() - i,
    {
        if same_text(names[i].as_str(), name) {
            if seen {
                assert(all[first as int] == name@ && all[i as int] == name@);
                return true;
            }
            seen = true;
            first = i;
        }
        i += 1;
    }
    false
}

/// Computes the short form of the option `field_name` among `field_names`.
pub fn get_char_from_field_name(field_name: String, field_names: &Vec<String>) -> (r: Result<
    char,
    Failure,
>)
    ensures
        match r {
            Ok(c) => short_form(field_name@, field_names.deep_view()) == Ok::<char, FailureView>(c),
            Err(e) => short_form(field_name@, field_names.deep_view()) == Err::<char, FailureView>(
                e@,
            ),
        },
{
    if same_text(field_name.as_str(), "help") {
        return Ok('h');
    }
    if same_text(field_name.as_str(), "version") {
        return Ok('V');
    }
    if field_name.as_str().is_empty() {
        return Err(raise(Kind::InvalidOption, field_name.as_str()));
    }
    let first = field_name.as_str().get_char(0);
    let folded = first.to_ascii_lowercase();
    let ghost all = field_names.deep_view();
    let mut count: usize = 0;
    let mut leads = false;
    let mut i: usize = 0;
    while i < field_names.len()
        invariant
            i <= field_names.len(),
            all == field_names.deep_view(),
            count == going_by(all.take(i as int), folded).len(),
            count <= i,
            count > 0 ==> leads == (going_by(all.take(i as int), folded)[0] == field_name@),
        decreases field_names.len() - i,
    {
        let name = field_names[i].as_str();
        assert(all.take(i + 1).drop_last() == all.take(i as int));
        if goes_by_char(name, folded) {
            if count == 0 {
                leads = same_text(name, field_name.as_str());
            }
            count += 1;
        }
        i += 1;
    }
    assert(all.take(i as int) == all);
    if count <= 1 {
        if folded == 'h' {
            Ok('H')
        } else {
            Ok(folded)
        }
    } else if count == 2 && 'a' <= folded && folded <= 'z' && folded != 'h' && folded != 'v' {
        if leads {
            Ok(folded)
        } else {
            Ok(folded.to_ascii_uppercase())
        }
    } else {
        Err(raise(Kind::OptionsTooSimilar, string_of_char(first).as_str()))
    }
}

/// Finds the field that `c` stands for, given whether `c` is a lower-case
/// character.
pub fn field_for_char(c: char, lowercase: bool, fields: &Vec<String>) -> (r: Result<String, Failure>)
    ensures
        match r {
            Ok(name) => option_for_char(c, lowercase, fields.deep_view()) == Ok::<
                Seq<char>,
                FailureView,
            >(name@),
            Err(e) => option_for_char(c, lowercase, fields.deep_view()) == Err::<
                Seq<char>,
                FailureView,
            >(e@),
        },
{
    if c == 'h' {
        return Ok(String::from_str("help"));
    }
    if c == 'V' {
        return Ok(String::from_str("version"));
    }
    let folded = c.to_ascii_lowercase();
    let ghost all = fields.deep_view();
    let mut count: usize = 0;
    let mut first: usize = 0;
    let mut second: usize = 0;
    let mut i: usize = 0;
    while i < fields.len()
        invariant
            i <= fields.len(),
            all == fields.deep_view(),
            count == going_by(all.take(i as int), folded).len(),
            count <= i,
            count > 0 ==> first < i && going_by(all.take(i as int), folded)[0] == all[first as int],
            count > 1 ==> second < i && going_by(all.take(i as int), folded)[1]
                == all[second as int],
        decreases fields.len() - i,
    {
        let name = fields[i].as_str();
        assert(all.take(i + 1).drop_last() == all.take(i as int));
        if goes_by_char(name, folded) {
            if count == 0 {
                first = i;
            } else if count == 1 {
                second = i;
            }
            count += 1;
        }
        i += 1;
    }
    assert(all.take(i as int) == all);
    if count == 0 {
        Err(raise(Kind::InvalidOption, string_of_char(c).as_str()))
    } else if count == 1 {
        Ok(fields[first].clone())
    } else if count == 2 {
        if lowercase {
            Ok(fields[first].clone())
        } else {
            Ok(fields[second].clone())
        }
    } else {
        Err(raise(Kind::OptionsTooSimilar, string_of_char(c).as_str()))
    }
}

/// Finds the field that the character `char` of a short cluster stands for.
pub fn get_option_from_char(char: char, fields: &Vec<String>) -> (r: Result<String, Failure>)
    ensures
        match r {
            Ok(name) => option_for_char(char, char_is_lowercase(char), fields.deep_view()) == Ok::<
                Seq<char>,
                FailureView,
            >(name@),
            Err(e) => option_for_char(char, char_is_lowercase(char), fields.deep_view()) == Err::<
                Seq<char>,
                FailureView,
            >(e@),
        },
{
    field_for_char(char, char.is_lowercase(), fields)
}

/// How a parse ends, where it does not fail.
#[derive(Debug, PartialEq, Eq)]
pub enum Parsed {
    /// The help was asked for: here is the table of the options to show.
    Help(Vec<Option>),
    /// The version was asked for.
    Version,
    /// The document that holds what the arguments bind, for the decoder.
    Document(String),
}

/// A `Parsed` as a mathematical value.
pub enum ParsedView {
    Help(Seq<OptionView>),
    Version,
    Document(Seq<char>),
}

impl View for Parsed {
    type V = ParsedView;

    open spec fn view(&self) -> ParsedView {
        match self {
            Parsed::Help(options) => ParsedView::Help(options.deep_view()),
            Parsed::Version => ParsedView::Version,
            Parsed::Document(text) => ParsedView::Document(text@),
        }
    }
}

/// What the argument vector `tokens` gives for a record with the fields
/// `fields`. The table of the options is made first, so a record whose options
/// cannot be told apart is refused whatever the arguments are; then the tokens
/// are scanned and the bindings written as a document.
pub open spec fn bound(fields: Seq<Seq<char>>, tokens: Seq<Seq<char>>) -> Result<
    ParsedView,
    FailureView,
> {
    match options_of(option_names(fields)) {
        Err(e) => Err(e),
        Ok(table) => match scan(fields, tokens) {
            Err(e) => Err(e),
            Ok(ScanView::Help) => Ok(ParsedView::Help(table)),
            Ok(ScanView::Version) => Ok(ParsedView::Version),
            Ok(ScanView::Bindings(bindings)) => Ok(ParsedView::Document(document(bindings))),
        },
    }
}

/// What the argument vector `tokens` gives for the record that
/// `serialized_struct` writes out.
pub open spec fn serialized_arguments(serialized_struct: Seq<char>, tokens: Seq<Seq<char>>)
    -> Result<ParsedView, FailureView> {
    match struct_fields(serialized_struct) {
        Err(e) => Err(e),
        Ok(fields) => bound(fields, tokens),
    }
}

/// Binds the argument vector `arguments`, which does not hold the program's
/// name, onto a record with the fields `fields`.
pub fn bind(fields: &Vec<String>, arguments: &Vec<String>) -> (r: Result<Parsed, Failure>)
    ensures
        match r {
            Ok(parsed) => bound(fields.deep_view(), arguments.deep_view()) == Ok::<
                ParsedView,
                FailureView,
            >(parsed@),
            Err(e) => bound(fields.deep_view(), arguments.deep_view()) == Err::<
                ParsedView,
                FailureView,
            >(e@),
        },
        r matches Ok(Parsed::Help(options)) ==> table_is_sound(options.deep_view()),
{
    let table = match Option::from(&option_names_of(fields)) {
        Ok(table) => table,
        Err(e) => {
            return Err(e);
        },
    };
    match scan_arguments(fields, arguments) {
        Err(e) => Err(e),
        Ok(Scan::Help) => Ok(Parsed::Help(table)),
        Ok(Scan::Version) => Ok(Parsed::Version),
        Ok(Scan::Bindings(bindings)) => Ok(Parsed::Document(encode(&bindings))),
    }
}

/// Binds the argument vector `arguments`, which does not hold the program's
/// name, onto the record that `serialized_struct` writes out.
pub fn get_serialized_arguments(serialized_struct: &str, arguments: &Vec<String>) -> (r: Result<
    Parsed,
    Failure,
>)
    ensures
        match r {
            Ok(parsed) => serialized_arguments(serialized_struct@, arguments.deep_view()) == Ok::<
                ParsedView,
                FailureView,
            >(parsed@),
            Err(e) => serialized_arguments(serialized_struct@, arguments.deep_view()) == Err::<
                ParsedView,
                FailureView,
            >(e@),
        },
        r matches Ok(Parsed::Help(options)) ==> table_is_sound(options.deep_view()),
{
    match get_struct_fields(serialized_struct) {
        Ok(fields) => bind(&fields, arguments),
        Err(e) => Err(e),
    }
}

} // verus!
