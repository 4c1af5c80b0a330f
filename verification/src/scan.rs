//! The token scanner: one pass over the argument vector, from left to right,
//! that binds values to the options that the flags name.
//!
//! A token that begins with `--` names one option by its long name. A token
//! that begins with a single `-` is a cluster: each character after the hyphen
//! stands for an option. Any other token is a value. The scanner keeps one
//! piece of state, the key that waits for its value, and looks one token ahead
//! to tell a switch from a key with a value, and a scalar from an array.

use vstd::prelude::*;
use crate::args::{get_option_from_char, option_for_char};
use crate::error::{raise, raised, Failure, FailureView, Kind};
use crate::text::{char_is_lowercase, chars_of, same_text, swap_char};

verus! {

/// What the arguments give for one key.
#[derive(Debug, PartialEq, Eq)]
pub enum Value {
    /// The option stood alone: a switch that is on.
    True,
    /// The option stood in a cluster before the one that took the value.
    Nothing,
    /// One token.
    Scalar(String),
    /// The tokens of a run of values, in order.
    Array(Vec<String>),
}

/// A `Value` as a mathematical value.
pub enum ValueView {
    True,
    Nothing,
    Scalar(Seq<char>),
    Array(Seq<Seq<char>>),
}

impl View for Value {
    type V = ValueView;

    open spec fn view(&self) -> ValueView {
        match self {
            Value::True => ValueView::True,
            Value::Nothing => ValueView::Nothing,
            Value::Scalar(token) => ValueView::Scalar(token@),
            Value::Array(items) => ValueView::Array(items.deep_view()),
        }
    }
}

impl DeepView for Value {
    type V = ValueView;

    open spec fn deep_view(&self) -> ValueView {
        self@
    }
}

/// A field and what the arguments give for it.
#[derive(Debug, PartialEq, Eq)]
pub struct Binding {
    pub key: String,
    pub value: Value,
}

/// A `Binding` as a mathematical value.
pub struct BindingView {
    pub key: Seq<char>,
    pub value: ValueView,
}

impl View for Binding {
    type V = BindingView;

    open spec fn view(&self) -> BindingView {
        BindingView { key: self.key@, value: self.value@ }
    }
}

impl DeepView for Binding {
    type V = BindingView;

    open spec fn deep_view(&self) -> BindingView {
        self@
    }
}

/// The key that waits for its value, if one does.
#[derive(Debug, PartialEq, Eq)]
pub enum Pending {
    /// No key is open: a value that comes now belongs to the first field.
    NoOpenKey,
    /// `key` was named and a value follows it.
    KeyAwaitingValue { key: String },
    /// `key` has taken `items` and more values follow.
    KeyInArray { key: String, items: Vec<String> },
}

/// A `Pending` as a mathematical value.
pub enum PendingView {
    NoOpenKey,
    KeyAwaitingValue { key: Seq<char> },
    KeyInArray { key: Seq<char>, items: Seq<Seq<char>> },
}

impl View for Pending {
    type V = PendingView;

    open spec fn view(&self) -> PendingView {
        match self {
            Pending::NoOpenKey => PendingView::NoOpenKey,
            Pending::KeyAwaitingValue { key } => PendingView::KeyAwaitingValue { key: key@ },
            Pending::KeyInArray { key, items } => PendingView::KeyInArray {
                key: key@,
                items: items.deep_view(),
            },
        }
    }
}

/// The state of a scan: the bindings that are closed, in the order in which
/// their keys came, and the key that is open.
#[derive(Debug, PartialEq, Eq)]
pub struct Scanner {
    pub done: Vec<Binding>,
    pub pending: Pending,
}

/// A `Scanner` as a mathematical value, with the steps of the scan.
pub struct ScannerView {
    pub done: Seq<BindingView>,
    pub pending: PendingView,
}

impl View for Scanner {
    type V = ScannerView;

    open spec fn view(&self) -> ScannerView {
        ScannerView { done: self.done.deep_view(), pending: self.pending@ }
    }
}

impl ScannerView {
    /// The state before the first token.
    pub open spec fn start() -> ScannerView {
        ScannerView { done: Seq::empty(), pending: PendingView::NoOpenKey }
    }

    /// The bindings with the open key closed as it stands: a key that still
    /// waits has got nothing.
    pub open spec fn settled(self) -> Seq<BindingView> {
        match self.pending {
            PendingView::NoOpenKey => self.done,
            PendingView::KeyAwaitingValue { key } => self.done.push(
                BindingView { key, value: ValueView::Nothing },
            ),
            PendingView::KeyInArray { key, items } => self.done.push(
                BindingView { key, value: ValueView::Array(items) },
            ),
        }
    }

    /// The state after the option `key` was named. Where no value follows, the
    /// option is a switch and is closed at once; else the key stays open.
    pub open spec fn open_key(self, key: Seq<char>, value_follows: bool) -> ScannerView {
        if value_follows {
            ScannerView { done: self.settled(), pending: PendingView::KeyAwaitingValue { key } }
        } else {
            ScannerView {
                done: self.settled().push(BindingView { key, value: ValueView::True }),
                pending: PendingView::NoOpenKey,
            }
        }
    }

    /// The state after `key`, which had no value yet, has taken `token`: the
    /// first item of an array where another value follows, else a scalar.
    pub open spec fn first_value(self, key: Seq<char>, token: Seq<char>, value_follows: bool)
        -> ScannerView {
        if value_follows {
            ScannerView {
                done: self.done,
                pending: PendingView::KeyInArray { key, items: seq![token] },
            }
        } else {
            ScannerView {
                done: self.done.push(BindingView { key, value: ValueView::Scalar(token) }),
                pending: PendingView::NoOpenKey,
            }
        }
    }

    /// The state after the value `token`. With no key open the value goes to
    /// the first of `fields`; a record without fields has no place for it.
    pub open spec fn take_value(
        self,
        fields: Seq<Seq<char>>,
        token: Seq<char>,
        value_follows: bool,
    ) -> Result<ScannerView, FailureView> {
        match self.pending {
            PendingView::NoOpenKey => if fields.len() == 0 {
                Err(raised(Kind::InvalidOption, token))
            } else {
                Ok(self.first_value(fields[0], token, value_follows))
            },
            PendingView::KeyAwaitingValue { key } => Ok(self.first_value(key, token, value_follows)),
            PendingView::KeyInArray { key, items } => if value_follows {
                Ok(
                    ScannerView {
                        done: self.done,
                        pending: PendingView::KeyInArray { key, items: items.push(token) },
                    },
                )
            } else {
                Ok(
                    ScannerView {
                        done: self.done.push(
                            BindingView { key, value: ValueView::Array(items.push(token)) },
                        ),
                        pending: PendingView::NoOpenKey,
                    },
                )
            },
        }
    }
}

/// How a scan ends, where it does not fail.
#[derive(Debug, PartialEq, Eq)]
pub enum Scan {
    /// `help` was named: the help is to be shown and nothing bound.
    Help,
    /// `version` was named: the version is to be shown and nothing bound.
    Version,
    /// The bindings that the arguments give, in the order of their keys.
    Bindings(Vec<Binding>),
}

/// A `Scan` as a mathematical value.
pub enum ScanView {
    Help,
    Version,
    Bindings(Seq<BindingView>),
}

impl View for Scan {
    type V = ScanView;

    open spec fn view(&self) -> ScanView {
        match self {
            Scan::Help => ScanView::Help,
            Scan::Version => ScanView::Version,
            Scan::Bindings(bindings) => ScanView::Bindings(bindings.deep_view()),
        }
    }
}

/// What a token does to a scan: it ends it, or leads to a next state.
#[derive(Debug, PartialEq, Eq)]
pub enum Step {
    Help,
    Version,
    Go(Scanner),
}

/// A `Step` as a mathematical value.
pub enum StepView {
    Help,
    Version,
    Go(ScannerView),
}

impl View for Step {
    type V = StepView;

    open spec fn view(&self) -> StepView {
        match self {
            Step::Help => StepView::Help,
            Step::Version => StepView::Version,
            Step::Go(state) => StepView::Go(state@),
        }
    }
}

/// Whether `token` is a flag token: it begins with a hyphen.
pub open spec fn is_flag(token: Seq<char>) -> bool {
    token.len() > 0 && token[0] == '-'
}

/// Whether `token` names an option by its long name: it begins with two
/// hyphens.
pub open spec fn is_long_flag(token: Seq<char>) -> bool {
    token.len() >= 2 && token[0] == '-' && token[1] == '-'
}

/// What a token of the argument vector is.
#[derive(Clone, Copy, Debug, PartialEq, Eq, Structural)]
pub enum Token {
    /// `--name`: one option, by its long name.
    LongFlag,
    /// `-abc`: one option for each character behind the hyphen.
    ShortCluster,
    /// Anything that does not begin with a hyphen.
    Value,
}

/// What the token `token` is.
pub open spec fn kind_of(token: Seq<char>) -> Token {
    if is_long_flag(token) {
        Token::LongFlag
    } else if is_flag(token) {
        Token::ShortCluster
    } else {
        Token::Value
    }
}

/// The name that the long flag `token` gives: what stands behind the two
/// hyphens, with each further hyphen read as an underscore.
pub open spec fn long_name(token: Seq<char>) -> Seq<char> {
    swap_char(token.skip(2), '-', '_')
}

/// Whether the token after `tokens[i]` is a value.
pub open spec fn value_follows(tokens: Seq<Seq<char>>, i: int) -> bool {
    i + 1 < tokens.len() && !is_flag(tokens[i + 1])
}

/// What naming the option `name` does in the state `state`. `help` and
/// `version` end the scan; a name that is no field is refused.
pub open spec fn refer(
    state: ScannerView,
    fields: Seq<Seq<char>>,
    name: Seq<char>,
    value_follows: bool,
) -> Result<StepView, FailureView> {
    if name == "help"@ {
        Ok(StepView::Help)
    } else if name == "version"@ {
        Ok(StepView::Version)
    } else if !fields.contains(name) {
        Err(raised(Kind::InvalidOption, name))
    } else {
        Ok(StepView::Go(state.open_key(name, value_follows)))
    }
}

/// What the characters of the cluster `token` from position `j` on do in the
/// state `state`, taken one after the other. Nothing behind a character that
/// ends the scan or fails is looked at.
pub open spec fn scan_cluster(
    state: ScannerView,
    fields: Seq<Seq<char>>,
    token: Seq<char>,
    j: int,
    value_follows: bool,
) -> Result<StepView, FailureView>
    decreases token.len() - j,
{
    if j < 0 || j >= token.len() {
        Ok(StepView::Go(state))
    } else {
        match option_for_char(token[j], char_is_lowercase(token[j]), fields) {
            Err(e) => Err(e),
            Ok(name) => match refer(state, fields, name, value_follows) {
                Ok(StepView::Go(next)) => scan_cluster(next, fields, token, j + 1, value_follows),
                other => other,
            },
        }
    }
}

/// What the token `token` does in the state `state`, given whether a value
/// follows it.
pub open spec fn step_on(
    state: ScannerView,
    fields: Seq<Seq<char>>,
    token: Seq<char>,
    value_follows: bool,
) -> Result<StepView, FailureView> {
    match kind_of(token) {
        Token::LongFlag => refer(state, fields, long_name(token), value_follows),
        Token::ShortCluster => scan_cluster(state, fields, token, 1, value_follows),
        Token::Value => match state.take_value(fields, token, value_follows) {
            Err(e) => Err(e),
            Ok(next) => Ok(StepView::Go(next)),
        },
    }
}

/// What the tokens of `tokens` from position `i` on give, starting in the
/// state `state`.
pub open spec fn scan_from(
    state: ScannerView,
    fields: Seq<Seq<char>>,
    tokens: Seq<Seq<char>>,
    i: int,
) -> Result<ScanView, FailureView>
    decreases tokens.len() - i,
{
    if i < 0 || i >= tokens.len() {
        Ok(ScanView::Bindings(state.settled()))
    } else {
        match step_on(state, fields, tokens[i], value_follows(tokens, i)) {
            Err(e) => Err(e),
            Ok(StepView::Help) => Ok(ScanView::Help),
            Ok(StepView::Version) => Ok(ScanView::Version),
            Ok(StepView::Go(next)) => scan_from(next, fields, tokens, i + 1),
        }
    }
}

/// What the argument vector `tokens`, without the program's name, gives for a
/// record with the fields `fields`.
pub open spec fn scan(fields: Seq<Seq<char>>, tokens: Seq<Seq<char>>) -> Result<
    ScanView,
    FailureView,
> {
    scan_from(ScannerView::start(), fields, tokens, 0)
}

impl Scanner {
    /// The state before the first token.
    pub fn new() -> (state: Scanner)
        ensures
            state@ == ScannerView::start(),
    {
        let state = Scanner { done: Vec::new(), pending: Pending::NoOpenKey };
        assert(state.done.deep_view() =~= Seq::<BindingView>::empty());
        state
    }

    /// Closes the open key as it stands and hands the bindings out.
    pub fn finish(self) -> (bindings: Vec<Binding>)
        ensures
            bindings.deep_view() == self@.settled(),
    {
        let Scanner { done, pending } = self;
        let mut done = done;
        let ghost before = done.deep_view();
        match pending {
            Pending::NoOpenKey => {},
            Pending::KeyAwaitingValue { key } => {
                let binding = Binding { key, value: Value::Nothing };
                let ghost closed = binding@;
                done.push(binding);
                assert(done.deep_view() =~= before.push(closed));
            },
            Pending::KeyInArray { key, items } => {
                let binding = Binding { key, value: Value::Array(items) };
                let ghost closed = binding@;
                done.push(binding);
                assert(done.deep_view() =~= before.push(closed));
            },
        }
        done
    }

    /// Takes note that the option `key` was named.
    pub fn open_key(self, key: String, value_follows: bool) -> (state: Scanner)
        ensures
            state@ == self@.open_key(key@, value_follows),
    {
        let mut done = self.finish();
        if value_follows {
            Scanner { done, pending: Pending::KeyAwaitingValue { key } }
        } else {
            let ghost before = done.deep_view();
            let binding = Binding { key, value: Value::True };
            let ghost closed = binding@;
            done.push(binding);
            assert(done.deep_view() =~= before.push(closed));
            Scanner { done, pending: Pending::NoOpenKey }
        }
    }

    /// Gives `key`, which had no value yet, the value `token`.
    fn first_value(done: Vec<Binding>, key: String, token: &str, value_follows: bool) -> (state:
        Scanner)
        ensures
            state@ == (ScannerView {
                done: done.deep_view(),
                pending: PendingView::NoOpenKey,
            }).first_value(key@, token@, value_follows),
    {
        let mut done = done;
        if value_follows {
            let mut items: Vec<String> = Vec::new();
            items.push(String::from_str(token));
            assert(items.deep_view() =~= seq![token@]);
            Scanner { done, pending: Pending::KeyInArray { key, items } }
        } else {
            let ghost before = done.deep_view();
            let binding = Binding { key, value: Value::Scalar(String::from_str(token)) };
            let ghost closed = binding@;
            done.push(binding);
            assert(done.deep_view() =~= before.push(closed));
            Scanner { done, pending: Pending::NoOpenKey }
        }
    }

    /// Takes the value `token`.
    pub fn take_value(self, fields: &Vec<String>, token: &str, value_follows: bool) -> (r: Result<
        Scanner,
        Failure,
    >)
        ensures
            match r {
                Ok(state) => self@.take_value(fields.deep_view(), token@, value_follows) == Ok::<
                    ScannerView,
                    FailureView,
                >(state@),
                Err(e) => self@.take_value(fields.deep_view(), token@, value_follows) == Err::<
                    ScannerView,
                    FailureView,
                >(e@),
            },
    {
        let Scanner { done, pending } = self;
        match pending {
            Pending::NoOpenKey => {
                if fields.len() == 0 {
                    Err(raise(Kind::InvalidOption, token))
                } else {
                    Ok(Self::first_value(done, fields[0].clone(), token, value_follows))
                }
            },
            Pending::KeyAwaitingValue { key } => Ok(
                Self::first_value(done, key, token, value_follows),
            ),
            Pending::KeyInArray { key, items } => {
                let mut items = items;
                let ghost held = items.deep_view();
                items.push(String::from_str(token));
                assert(items.deep_view() =~= held.push(token@));
                if value_follows {
                    Ok(Scanner { done, pending: Pending::KeyInArray { key, items } })
                } else {
                    let mut done = done;
                    let ghost before = done.deep_view();
                    let binding = Binding { key, value: Value::Array(items) };
                    let ghost closed = binding@;
                    done.push(binding);
                    assert(done.deep_view() =~= before.push(closed));
                    Ok(Scanner { done, pending: Pending::NoOpenKey })
                }
            },
        }
    }
}

/// Whether `token` is a flag token.
pub fn starts_flag(token: &str) -> (r: bool)
    ensures
        r == is_flag(token@),
{
    !token.is_empty() && token.get_char(0) == '-'
}

/// Tells what the token `token` is.
pub fn classify(token: &str) -> (kind: Token)
    ensures
        kind == kind_of(token@),
{
    if !starts_flag(token) {
        Token::Value
    } else if token.unicode_len() >= 2 && token.get_char(1) == '-' {
        Token::LongFlag
    } else {
        Token::ShortCluster
    }
}

/// Whether `name` is one of `fields`.
pub fn is_field(fields: &Vec<String>, name: &str) -> (r: bool)
    ensures
        r == fields.deep_view().contains(name@),
{
    let mut i: usize = 0;
    while i < fields.len()
        invariant
            i <= fields.len(),
            forall|k: int| 0 <= k < i ==> fields.deep_view()[k] != name@,
        decreases fields.len() - i,
    {
        if same_text(fields[i].as_str(), name) {
            assert(fields.deep_view()[i as int] == name@);
            return true;
        }
        i += 1;
    }
    false
}

/// Reads the name off a long flag, given as its characters.
fn long_name_of(token: &Vec<char>) -> (name: String)
    requires
        token.len() >= 2,
    ensures
        name@ == long_name(token@),
{
    let mut name = String::new();
    let mut k: usize = 2;
    while k < token.len()
        invariant
            2 <= k <= token.len(),
            name@ == swap_char(token@.subrange(2, k as int), '-', '_'),
        decreases token.len() - k,
    {
        let ghost before = name@;
        let c = token[k];
        name.push(if c == '-' { '_' } else { c });
        k += 1;
        assert(name@ =~= swap_char(token@.subrange(2, k as int), '-', '_'));
    }
    assert(token@.subrange(2, k as int) == token@.skip(2));
    name
}

/// Names the option `name` in the state `state`.
pub fn refer_to(state: Scanner, fields: &Vec<String>, name: String, value_follows: bool) -> (r:
    Result<Step, Failure>)
    ensures
        match r {
            Ok(step) => refer(state@, fields.deep_view(), name@, value_follows) == Ok::<
                StepView,
                FailureView,
            >(step@),
            Err(e) => refer(state@, fields.deep_view(), name@, value_follows) == Err::<
                StepView,
                FailureView,
            >(e@),
        },
{
    if same_text(name.as_str(), "help") {
        Ok(Step::Help)
    } else if same_text(name.as_str(), "version") {
        Ok(Step::Version)
    } else if !is_field(fields, name.as_str()) {
        Err(raise(Kind::InvalidOption, name.as_str()))
    } else {
        Ok(Step::Go(state.open_key(name, value_follows)))
    }
}

/// Names, one after the other, the options that the characters of the cluster
/// `token` stand for.
fn scan_short_cluster(state: Scanner, fields: &Vec<String>, token: &Vec<char>, value_follows: bool)
    -> (r: Result<Step, Failure>)
    ensures
        match r {
            Ok(step) => scan_cluster(state@, fields.deep_view(), token@, 1, value_follows) == Ok::<
                StepView,
                FailureView,
            >(step@),
            Err(e) => scan_cluster(state@, fields.deep_view(), token@, 1, value_follows) == Err::<
                StepView,
                FailureView,
            >(e@),
        },
{
    let ghost goal = scan_cluster(state@, fields.deep_view(), token@, 1, value_follows);
    let mut current = state;
    let mut j: usize = 1;
    while j < token.len()
        invariant
            1 <= j,
            goal == scan_cluster(state@, fields.deep_view(), token@, 1, value_follows),
            scan_cluster(current@, fields.deep_view(), token@, j as int, value_follows) == goal,
        decreases token.len() - j,
    {
        let name = match get_option_from_char(token[j], fields) {
            Ok(name) => name,
            Err(e) => {
                return Err(e);
            },
        };
        match refer_to(current, fields, name, value_follows) {
            Ok(Step::Go(next)) => {
                current = next;
            },
            Ok(Step::Help) => {
                return Ok(Step::Help);
            },
            Ok(Step::Version) => {
                return Ok(Step::Version);
            },
            Err(e) => {
                return Err(e);
            },
        }
        j += 1;
    }
    Ok(Step::Go(current))
}

/// Does in the state `state` what the token `token` asks for, given whether a
/// value follows it.
pub fn step(state: Scanner, fields: &Vec<String>, token: &str, value_follows: bool) -> (r: Result<
    Step,
    Failure,
>)
    ensures
        match r {
            Ok(step) => step_on(state@, fields.deep_view(), token@, value_follows) == Ok::<
                StepView,
                FailureView,
            >(step@),
            Err(e) => step_on(state@, fields.deep_view(), token@, value_follows) == Err::<
                StepView,
                FailureView,
            >(e@),
        },
{
    match classify(token) {
        Token::LongFlag => refer_to(state, fields, long_name_of(&chars_of(token)), value_follows),
        Token::ShortCluster => scan_short_cluster(state, fields, &chars_of(token), value_follows),
        Token::Value => match state.take_value(fields, token, value_follows) {
            Ok(next) => Ok(Step::Go(next)),
            Err(e) => Err(e),
        },
    }
}

/// Scans the argument vector `arguments`, which does not hold the program's
/// name, for a record with the fields `fields`.
pub fn scan_arguments(fields: &Vec<String>, arguments: &Vec<String>) -> (r: Result<Scan, Failure>)
    ensures
        match r {
            Ok(end) => scan(fields.deep_view(), arguments.deep_view()) == Ok::<
                ScanView,
                FailureView,
            >(end@),
            Err(e) => scan(fields.deep_view(), arguments.deep_view()) == Err::<
                ScanView,
                FailureView,
            >(e@),
        },
{
    let ghost goal = scan(fields.deep_view(), arguments.deep_view());
    let ghost tokens = arguments.deep_view();
    let mut state = Scanner::new();
    let mut i: usize = 0;
    while i < arguments.len()
        invariant
            i <= arguments.len(),
            tokens == arguments.deep_view(),
            goal == scan(fields.deep_view(), tokens),
            scan_from(state@, fields.deep_view(), tokens, i as int) == goal,
        decreases arguments.len() - i,
    {
        let follows = i + 1 < arguments.len() && !starts_flag(arguments[i + 1].as_str());
        assert(arguments[i as int]@ == tokens[i as int]);
        assert(follows == value_follows(tokens, i as int));
        match step(state, fields, arguments[i].as_str(), follows) {
            Ok(Step::Go(next)) => {
                state = next;
            },
            Ok(Step::Help) => {
                return Ok(Scan::Help);
            },
            Ok(Step::Version) => {
                return Ok(Scan::Version);
            },
            Err(e) => {
                return Err(e);
            },
        }
        i += 1;
    }
    Ok(Scan::Bindings(state.finish()))
}

} // verus!
