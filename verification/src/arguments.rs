//! A reader for a program with a fixed set of options: `help`, `version`,
//! `quiet`, and `possibilities-for`, which takes an index.
//!
//! The first argument is the program's name and is passed over. A token that
//! begins with `--` names one option, a token that begins with a single `-`
//! names one option for each character behind it, and a bare token is the
//! index, where `possibilities-for` has asked for one, and is passed over
//! where it has not.

use vstd::prelude::*;
use crate::args::OptionView;
use crate::error::{raise, raised, Failure, FailureView, Kind};
use crate::scan::{classify, kind_of, Token};
use crate::text::{chars_of, same_text, string_of_char};

verus! {

/// What the options set.
#[derive(Clone, Copy, Debug, PartialEq, Eq)]
pub struct Config {
    pub be_quiet: bool,
    pub possibilities_for: usize,
}

/// A `Config` as a mathematical value.
pub struct ConfigView {
    pub be_quiet: bool,
    pub possibilities_for: nat,
}

impl View for Config {
    type V = ConfigView;

    open spec fn view(&self) -> ConfigView {
        ConfigView { be_quiet: self.be_quiet, possibilities_for: self.possibilities_for as nat }
    }
}

/// How reading the arguments ends, where it does not fail.
#[derive(Clone, Copy, Debug, PartialEq, Eq)]
pub enum ReadEnd {
    /// `help` was named: the help is to be shown.
    Help,
    /// `version` was named: the version is to be shown.
    Version,
    /// All arguments were read: here is what they set.
    Done(Config),
}

/// A `ReadEnd` as a mathematical value.
pub enum ReadEndView {
    Help,
    Version,
    Done(ConfigView),
}

impl View for ReadEnd {
    type V = ReadEndView;

    open spec fn view(&self) -> ReadEndView {
        match self {
            ReadEnd::Help => ReadEndView::Help,
            ReadEnd::Version => ReadEndView::Version,
            ReadEnd::Done(config) => ReadEndView::Done(config@),
        }
    }
}

/// One of the four options.
#[derive(Clone, Copy, Debug, PartialEq, Eq, Structural)]
pub enum Flag {
    Help,
    Version,
    Quiet,
    PossibilitiesFor,
}

/// The option that the long name `name` names.
pub open spec fn flag_of_name(name: Seq<char>) -> Option<Flag> {
    if name == "help"@ {
        Some(Flag::Help)
    } else if name == "version"@ {
        Some(Flag::Version)
    } else if name == "quiet"@ {
        Some(Flag::Quiet)
    } else if name == "possibilities-for"@ {
        Some(Flag::PossibilitiesFor)
    } else {
        None
    }
}

/// The option that the character `c` of a cluster stands for.
pub open spec fn flag_of_char(c: char) -> Option<Flag> {
    if c == 'h' {
        Some(Flag::Help)
    } else if c == 'V' {
        Some(Flag::Version)
    } else if c == 'q' {
        Some(Flag::Quiet)
    } else if c == 'p' {
        Some(Flag::PossibilitiesFor)
    } else {
        None
    }
}

/// The four options as a table: long name, short form, description.
pub open spec fn fixed_options() -> Seq<OptionView> {
    seq![
        OptionView { long: "help"@, short: 'h', description: "Show this help message"@ },
        OptionView { long: "version"@, short: 'V', description: "Show program version"@ },
        OptionView { long: "quiet"@, short: 'q', description: "Enable quiet mode"@ },
        OptionView {
            long: "possibilities-for"@,
            short: 'p',
            description: "Show possible enrollments for student with this index"@,
        },
    ]
}

/// What naming an option does: it ends the reading, or leads on with what is
/// set and with whether an index is awaited.
pub enum Turn {
    Help,
    Version,
    Go(ConfigView, bool),
}

/// What naming the option `flag` does where `config` is set and `awaiting`
/// tells whether an index is awaited.
pub open spec fn turn(config: ConfigView, awaiting: bool, flag: Flag) -> Turn {
    match flag {
        Flag::Help => Turn::Help,
        Flag::Version => Turn::Version,
        Flag::Quiet => Turn::Go(ConfigView { be_quiet: true, ..config }, awaiting),
        Flag::PossibilitiesFor => Turn::Go(config, true),
    }
}

/// Whether `c` is one of the digits `0` to `9`.
pub open spec fn is_digit(c: char) -> bool {
    '0' <= c && c <= '9'
}

/// The number that the digits `digits` write in base ten.
pub open spec fn value_of(digits: Seq<char>) -> nat
    decreases digits.len(),
{
    if digits.len() == 0 {
        0
    } else {
        value_of(digits.drop_last()) * 10 + (digits.last() as nat - '0' as nat) as nat
    }
}

/// What of `token` are its digits: all of it but a `+` at its beginning.
pub open spec fn digits_of(token: Seq<char>) -> Seq<char> {
    if token.len() > 0 && token[0] == '+' {
        token.skip(1)
    } else {
        token
    }
}

/// Whether `digits` is made of digits alone.
pub open spec fn all_digits(digits: Seq<char>) -> bool {
    forall|i: int| 0 <= i < digits.len() ==> is_digit(#[trigger] digits[i])
}

/// The number that `token` writes: one digit or more, a `+` before them or
/// not. Any other token writes no number.
pub open spec fn number_of(token: Seq<char>) -> Option<nat> {
    if digits_of(token).len() > 0 && all_digits(digits_of(token)) {
        Some(value_of(digits_of(token)))
    } else {
        None
    }
}

/// The index that `token` gives: the number that it writes, where it writes
/// one that an index can hold.
pub open spec fn index_of(token: Seq<char>) -> Option<usize> {
    match number_of(token) {
        Some(n) => if n <= usize::MAX {
            Some(n as usize)
        } else {
            None
        },
        None => None,
    }
}

/// The message for a token that stands where an index is awaited and gives
/// none.
pub open spec fn index_complaint(token: Seq<char>) -> Seq<char> {
    "Option `'--possibilities-for'` takes an index, `'"@ + token + "'` is none"@
}

/// What the characters of the cluster `token` from position `j` on do, taken
/// one after the other. A character that stands for no option fails and is
/// cited; nothing behind a character that ends the reading is looked at.
pub open spec fn read_cluster(config: ConfigView, awaiting: bool, token: Seq<char>, j: int)
    -> Result<Turn, FailureView>
    decreases token.len() - j,
{
    if j < 0 || j >= token.len() {
        Ok(Turn::Go(config, awaiting))
    } else {
        match flag_of_char(token[j]) {
            None => Err(raised(Kind::InvalidOption, seq![token[j]])),
            Some(flag) => match turn(config, awaiting, flag) {
                Turn::Go(next, waits) => read_cluster(next, waits, token, j + 1),
                end => Ok(end),
            },
        }
    }
}

/// What the token `token` does. A long flag that names no option fails and is
/// cited whole. A bare token is the index where one is awaited, and fails
/// where it gives none; where none is awaited it is passed over.
pub open spec fn read_token(config: ConfigView, awaiting: bool, token: Seq<char>) -> Result<
    Turn,
    FailureView,
> {
    match kind_of(token) {
        Token::LongFlag => match flag_of_name(token.skip(2)) {
            None => Err(raised(Kind::InvalidOption, token)),
            Some(flag) => Ok(turn(config, awaiting, flag)),
        },
        Token::ShortCluster => read_cluster(config, awaiting, token, 1),
        Token::Value => if !awaiting {
            Ok(Turn::Go(config, false))
        } else {
            match index_of(token) {
                Some(index) => Ok(
                    Turn::Go(ConfigView { possibilities_for: index as nat, ..config }, false),
                ),
                None => Err(raised(Kind::DecodeFailure, index_complaint(token))),
            }
        },
    }
}

/// What the tokens of `tokens` from position `i` on give, where `config` is
/// set and `awaiting` tells whether an index is awaited.
pub open spec fn read_from(config: ConfigView, awaiting: bool, tokens: Seq<Seq<char>>, i: int)
    -> Result<ReadEndView, FailureView>
    decreases tokens.len() - i,
{
    if i < 0 || i >= tokens.len() {
        Ok(ReadEndView::Done(config))
    } else {
        match read_token(config, awaiting, tokens[i]) {
            Err(e) => Err(e),
            Ok(Turn::Help) => Ok(ReadEndView::Help),
            Ok(Turn::Version) => Ok(ReadEndView::Version),
            Ok(Turn::Go(next, waits)) => read_from(next, waits, tokens, i + 1),
        }
    }
}

/// The number that digits write is no less than the number that the first of
/// them write.
proof fn lemma_value_of_grows(digits: Seq<char>, m: int)
    requires
        0 <= m <= digits.len(),
    ensures
        value_of(digits.take(m)) <= value_of(digits),
    decreases digits.len() - m,
{
    if m < digits.len() {
        lemma_value_of_grows(digits.drop_last(), m);
        assert(digits.drop_last().take(m) == digits.take(m));
    } else {
        assert(digits.take(m) == digits);
    }
}

/// Reads the index that `token` gives.
pub fn parse_index(token: &str) -> (r: Option<usize>)
    ensures
        r == index_of(token@),
{
    let chars = chars_of(token);
    let start: usize = if chars.len() > 0 && chars[0] == '+' {
        1
    } else {
        0
    };
    let ghost digits = chars@.skip(start as int);
    assert(digits == digits_of(token@)) by {
        assert(token@.skip(0) == token@);
    }
    if start >= chars.len() {
        return None;
    }
    let mut value: usize = 0;
    let mut k: usize = start;
    assert(digits.take(0).len() == 0);
    while k < chars.len()
        invariant
            start <= k <= chars.len(),
            chars@ == token@,
            digits == chars@.skip(start as int),
            digits == digits_of(token@),
            forall|j: int| 0 <= j < k - start ==> is_digit(#[trigger] digits[j]),
            value == value_of(digits.take(k - start)),
        decreases chars.len() - k,
    {
        let c = chars[k];
        assert(digits[k - start] == c);
        if !('0' <= c && c <= '9') {
            return None;
        }
        let digit: usize = (c as u32 - '0' as u32) as usize;
        proof {
            assert(digits.take(k - start + 1).drop_last() == digits.take(k - start));
            lemma_value_of_grows(digits, k - start + 1);
        }
        let tenfold = match value.checked_mul(10) {
            Some(tenfold) => tenfold,
            None => {
                return None;
            },
        };
        value = match tenfold.checked_add(digit) {
            Some(sum) => sum,
            None => {
                return None;
            },
        };
        k += 1;
    }
    assert(digits.take(k - start) == digits);
    Some(value)
}

/// The table of the four options.
pub fn options() -> (table: Vec<crate::args::Option>)
    ensures
        table.deep_view() == fixed_options(),
{
    let mut table: Vec<crate::args::Option> = Vec::new();
    table.push(
        crate::args::Option {
            long: String::from_str("help"),
            short: 'h',
            description: String::from_str("Show this help message"),
        },
    );
    table.push(
        crate::args::Option {
            long: String::from_str("version"),
            short: 'V',
            description: String::from_str("Show program version"),
        },
    );
    table.push(
        crate::args::Option {
            long: String::from_str("quiet"),
            short: 'q',
            description: String::from_str("Enable quiet mode"),
        },
    );
    table.push(
        crate::args::Option {
            long: String::from_str("possibilities-for"),
            short: 'p',
            description: String::from_str("Show possible enrollments for student with this index"),
        },
    );
    assert(table.deep_view() =~= fixed_options());
    table
}

/// What naming an option does, with what it leads on with held for the
/// machine.
#[derive(Clone, Copy, Debug, PartialEq, Eq)]
pub enum Next {
    Help,
    Version,
    Go(Config, bool),
}

impl View for Next {
    type V = Turn;

    open spec fn view(&self) -> Turn {
        match self {
            Next::Help => Turn::Help,
            Next::Version => Turn::Version,
            Next::Go(config, awaiting) => Turn::Go(config@, *awaiting),
        }
    }
}

/// Names the option `flag`.
pub fn take_turn(config: Config, awaiting: bool, flag: Flag) -> (next: Next)
    ensures
        next@ == turn(config@, awaiting, flag),
{
    match flag {
        Flag::Help => Next::Help,
        Flag::Version => Next::Version,
        Flag::Quiet => Next::Go(
            Config { be_quiet: true, possibilities_for: config.possibilities_for },
            awaiting,
        ),
        Flag::PossibilitiesFor => Next::Go(config, true),
    }
}

/// Finds the option that the long name `name` names.
fn name_to_flag(name: &str) -> (r: Option<Flag>)
    ensures
        r == flag_of_name(name@),
{
    if same_text(name, "help") {
        Some(Flag::Help)
    } else if same_text(name, "version") {
        Some(Flag::Version)
    } else if same_text(name, "quiet") {
        Some(Flag::Quiet)
    } else if same_text(name, "possibilities-for") {
        Some(Flag::PossibilitiesFor)
    } else {
        None
    }
}

/// Finds the option that the character `c` stands for.
fn char_to_flag(c: char) -> (r: Option<Flag>)
    ensures
        r == flag_of_char(c),
{
    if c == 'h' {
        Some(Flag::Help)
    } else if c == 'V' {
        Some(Flag::Version)
    } else if c == 'q' {
        Some(Flag::Quiet)
    } else if c == 'p' {
        Some(Flag::PossibilitiesFor)
    } else {
        None
    }
}

/// Does what the token `token` asks for.
pub fn take_token(config: Config, awaiting: bool, token: &str) -> (r: Result<Next, Failure>)
    ensures
        match r {
            Ok(next) => read_token(config@, awaiting, token@) == Ok::<Turn, FailureView>(next@),
            Err(e) => read_token(config@, awaiting, token@) == Err::<Turn, FailureView>(e@),
        },
{
    match classify(token) {
        Token::LongFlag => {
            let chars = chars_of(token);
            let mut name = String::new();
            let mut k: usize = 2;
            while k < chars.len()
                invariant
                    2 <= k <= chars.len(),
                    name@ == chars@.subrange(2, k as int),
                decreases chars.len() - k,
            {
                name.push(chars[k]);
                k += 1;
                assert(name@ =~= chars@.subrange(2, k as int));
            }
            assert(chars@.subrange(2, k as int) == token@.skip(2));
            match name_to_flag(name.as_str()) {
                Some(flag) => Ok(take_turn(config, awaiting, flag)),
                None => Err(raise(Kind::InvalidOption, token)),
            }
        },
        Token::ShortCluster => {
            let chars = chars_of(token);
            let ghost goal = read_cluster(config@, awaiting, token@, 1);
            let mut set = config;
            let mut waits = awaiting;
            let mut j: usize = 1;
            while j < chars.len()
                invariant
                    1 <= j,
                    chars@ == token@,
                    kind_of(token@) == Token::ShortCluster,
                    goal == read_cluster(config@, awaiting, token@, 1),
                    read_cluster(set@, waits, token@, j as int) == goal,
                decreases chars.len() - j,
            {
                match char_to_flag(chars[j]) {
                    None => {
                        return Err(raise(Kind::InvalidOption, string_of_char(chars[j]).as_str()));
                    },
                    Some(flag) => match take_turn(set, waits, flag) {
                        Next::Go(next, then) => {
                            set = next;
                            waits = then;
                        },
                        Next::Help => {
                            return Ok(Next::Help);
                        },
                        Next::Version => {
                            return Ok(Next::Version);
                        },
                    },
                }
                j += 1;
            }
            Ok(Next::Go(set, waits))
        },
        Token::Value => {
            if !awaiting {
                Ok(Next::Go(config, false))
            } else {
                match parse_index(token) {
                    Some(index) => Ok(
                        Next::Go(
                            Config { be_quiet: config.be_quiet, possibilities_for: index },
                            false,
                        ),
                    ),
                    None => {
                        let mut complaint = String::from_str(
                            "Option `'--possibilities-for'` takes an index, `'",
                        );
                        complaint.append(token);
                        complaint.append("'` is none");
                        Err(raise(Kind::DecodeFailure, complaint.as_str()))
                    },
                }
            }
        },
    }
}

/// Reads the arguments `arguments`, the first of which is the program's name,
/// starting from what `config` sets.
pub fn read(arguments: &Vec<String>, config: Config) -> (r: Result<ReadEnd, Failure>)
    ensures
        match r {
            Ok(end) => read_from(config@, false, arguments.deep_view(), 1) == Ok::<
                ReadEndView,
                FailureView,
            >(end@),
            Err(e) => read_from(config@, false, arguments.deep_view(), 1) == Err::<
                ReadEndView,
                FailureView,
            >(e@),
        },
{
    let ghost tokens = arguments.deep_view();
    let ghost goal = read_from(config@, false, tokens, 1);
    let mut set = config;
    let mut awaiting = false;
    let mut i: usize = 1;
    while i < arguments.len()
        invariant
            1 <= i,
            tokens == arguments.deep_view(),
            goal == read_from(config@, false, tokens, 1),
            read_from(set@, awaiting, tokens, i as int) == goal,
        decreases arguments.len() - i,
    {
        assert(arguments[i as int]@ == tokens[i as int]);
        match take_token(set, awaiting, arguments[i].as_str()) {
            Ok(Next::Go(next, waits)) => {
                set = next;
                awaiting = waits;
            },
            Ok(Next::Help) => {
                return Ok(ReadEnd::Help);
            },
            Ok(Next::Version) => {
                return Ok(ReadEnd::Version);
            },
            Err(e) => {
                return Err(e);
            },
        }
        i += 1;
    }
    Ok(ReadEnd::Done(set))
}

} // verus!
