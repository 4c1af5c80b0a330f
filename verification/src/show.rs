//! What is shown to the operator, as runs of text with the paint of each.
//!
//! A message is written with format marks: what stands between a first and a
//! second mark is highlighted, and so between each further pair. The runs are
//! painted for the terminal; printing them is left to the caller.

use colored::Colorize;
use vstd::prelude::*;
use crate::args::{Option, OptionView};
use crate::info::Package;
use crate::text::{join, joined};

verus! {

/// The mark that opens and closes a highlighted run.
pub const FORMAT_CHAR: char = '`';

/// The arrow that ends a pointer.
pub const ARROW_CHAR: char = '\u{276f}';

/// The colours that a message can highlight in.
#[derive(Clone, Copy, Debug, PartialEq, Eq, Structural)]
pub enum Color {
    Green,
    Red,
    Yellow,
    Purple,
    Cyan,
}

/// How a run is painted.
#[derive(Clone, Copy, Debug, PartialEq, Eq, Structural)]
pub enum Paint {
    /// As the terminal has it.
    Plain,
    /// White: the text of a message around its highlighted runs.
    White,
    /// Blue: the unnamed argument in the usage line.
    Blue,
    /// The colour of the message.
    Highlight(Color),
}

/// A run of text with its paint.
#[derive(Debug, PartialEq, Eq)]
pub struct Span {
    pub text: String,
    pub paint: Paint,
    pub bold: bool,
}

/// A `Span` as a mathematical value.
pub struct SpanView {
    pub text: Seq<char>,
    pub paint: Paint,
    pub bold: bool,
}

impl View for Span {
    type V = SpanView;

    open spec fn view(&self) -> SpanView {
        SpanView { text: self.text@, paint: self.paint, bold: self.bold }
    }
}

impl DeepView for Span {
    type V = SpanView;

    open spec fn deep_view(&self) -> SpanView {
        self@
    }
}

/// The pieces into which the format marks cut `text`: one more than there are
/// marks, each without the marks around it.
pub open spec fn pieces(text: Seq<char>) -> Seq<Seq<char>>
    decreases text.len(),
{
    if text.len() == 0 {
        seq![Seq::empty()]
    } else {
        let before = pieces(text.drop_last());
        if text.last() == FORMAT_CHAR {
            before.push(Seq::empty())
        } else {
            before.drop_last().push(before.last().push(text.last()))
        }
    }
}

/// Whether each mark that opens a run in `text` has one that closes it.
pub open spec fn is_balanced(text: Seq<char>) -> bool {
    pieces(text).len() % 2 == 1
}

/// The piece `piece`, which is the `k`th of a message, as a run: the pieces
/// between a mark that opens and the one that closes are highlighted in
/// `color`, the first of them in bold, and the others are white.
pub open spec fn run(piece: Seq<char>, k: int, color: Color) -> SpanView {
    SpanView {
        text: piece,
        paint: if k % 2 == 1 {
            Paint::Highlight(color)
        } else {
            Paint::White
        },
        bold: k == 1,
    }
}

/// The runs of the message `text` with `color` for what it highlights. A text
/// without marks is one run and is left as the terminal has it.
pub open spec fn highlighted(text: Seq<char>, color: Color) -> Seq<SpanView> {
    let cut = pieces(text);
    if cut.len() == 1 {
        seq![SpanView { text, paint: Paint::Plain, bold: false }]
    } else {
        Seq::new(cut.len(), |k: int| run(cut[k], k, color))
    }
}

/// The pieces of a text have at least one piece, and a text without marks is
/// its own only piece.
pub proof fn lemma_pieces(text: Seq<char>)
    ensures
        pieces(text).len() >= 1,
        pieces(text).len() == 1 ==> pieces(text)[0] == text,
    decreases text.len(),
{
    if text.len() > 0 {
        lemma_pieces(text.drop_last());
        if text.last() != FORMAT_CHAR && pieces(text).len() == 1 {
            assert(text.drop_last().push(text.last()) == text);
        }
    }
}

/// Cuts `text` at its format marks.
pub fn split_marks(text: &str) -> (cut: Vec<String>)
    ensures
        cut.deep_view() == pieces(text@),
{
    let mut closed: Vec<String> = Vec::new();
    let mut open = String::new();
    assert(closed.deep_view().push(open@) =~= pieces(text@.take(0)));
    for c in it: text.chars()
        invariant
            it.seq() == text@,
            closed.deep_view().push(open@) == pieces(text@.take(it.index() as int)),
    {
        let ghost before = closed.deep_view();
        let ghost held = open@;
        let ghost seen = text@.take(it.index() as int);
        assert(text@.take(it.index() + 1).drop_last() == seen);
        assert(before.push(held).drop_last() == before);
        if c == FORMAT_CHAR {
            closed.push(open);
            open = String::new();
            assert(closed.deep_view() =~= before.push(held));
        } else {
            open.push(c);
        }
    }
    assert(text@.take(text@.len() as int) == text@);
    let ghost before = closed.deep_view();
    let ghost held = open@;
    closed.push(open);
    assert(closed.deep_view() =~= before.push(held));
    closed
}

/// Whether each mark that opens a run in `text` has one that closes it.
pub fn has_balanced_marks(text: &str) -> (r: bool)
    ensures
        r == is_balanced(text@),
{
    split_marks(text).len() % 2 == 1
}

/// Cuts the message `formated_text` into its runs, with `color` for what it
/// highlights.
pub fn get_highlighted_text(formated_text: &str, color: Color) -> (spans: Vec<Span>)
    requires
        is_balanced(formated_text@),
    ensures
        spans.deep_view() == highlighted(formated_text@, color),
{
    let cut = split_marks(formated_text);
    proof {
        lemma_pieces(formated_text@);
    }
    let ghost all = cut.deep_view();
    let mut spans: Vec<Span> = Vec::new();
    if cut.len() == 1 {
        spans.push(Span { text: String::from_str(formated_text), paint: Paint::Plain, bold: false });
        assert(spans.deep_view() =~= highlighted(formated_text@, color));
        return spans;
    }
    let mut k: usize = 0;
    while k < cut.len()
        invariant
            k <= cut.len(),
            all == cut.deep_view(),
            spans.len() == k,
            forall|j: int| 0 <= j < k ==> (#[trigger] spans[j])@ == run(all[j], j, color),
        decreases cut.len() - k,
    {
        let paint = if k % 2 == 1 {
            Paint::Highlight(color)
        } else {
            Paint::White
        };
        spans.push(Span { text: cut[k].clone(), paint, bold: k == 1 });
        k += 1;
    }
    assert(spans.deep_view() =~= highlighted(formated_text@, color));
    spans
}

/// A message behind a pointer: the pointer between marks, a space, the
/// message.
pub open spec fn pointed_text(pointer: Seq<char>, message: Seq<char>) -> Seq<char> {
    seq![FORMAT_CHAR] + pointer + seq![FORMAT_CHAR, ' '] + message
}

/// A message behind the label `label` and the arrow.
pub open spec fn information_text(label: Seq<char>, message: Seq<char>) -> Seq<char> {
    pointed_text(label + seq![' ', ARROW_CHAR], message)
}

/// A message behind a tab and the arrow.
pub open spec fn data_text(message: Seq<char>) -> Seq<char> {
    pointed_text(seq!['\t', ARROW_CHAR], message)
}

/// A title: all of it between marks.
pub open spec fn title_text(title: Seq<char>) -> Seq<char> {
    seq![FORMAT_CHAR] + title + seq![FORMAT_CHAR]
}

/// The line that tells the version of `info`.
pub open spec fn version_text(info: Package) -> Seq<char> {
    seq![FORMAT_CHAR, ARROW_CHAR, ' '] + info.title() + "` version `"@ + info.version@
        + seq![FORMAT_CHAR]
}

/// The head of the help: the title of `info`, its version and, behind a
/// comma, what it says of itself.
pub open spec fn name_text(info: Package) -> Seq<char> {
    title_text(info.title()) + seq![' '] + info.version@ + match info.description {
        Some(description) => ", "@ + description@,
        None => Seq::empty(),
    }
}

/// The beginning of the usage line: the word and the name of the command.
pub open spec fn usage_text(info: Package) -> Seq<char> {
    "`Usage:` "@ + info.name@ + seq![' ']
}

/// A run that is left as the terminal has it.
pub open spec fn plain(text: Seq<char>, bold: bool) -> SpanView {
    SpanView { text, paint: Paint::Plain, bold }
}

/// The usage line: its beginning as a message in red, then the options in
/// purple and the unnamed argument in blue.
pub open spec fn usage_line(info: Package) -> Seq<SpanView> {
    highlighted(usage_text(info), Color::Red) + seq![
        SpanView { text: "[Options]..."@, paint: Paint::Highlight(Color::Purple), bold: false },
        SpanView { text: " "@, paint: Paint::White, bold: false },
        SpanView {
            text: seq!['<'] + info.default_argument() + seq!['>'],
            paint: Paint::Blue,
            bold: false,
        },
        SpanView { text: "\n"@, paint: Paint::White, bold: false },
    ]
}

/// The tabs between the long name `long` and the description: fewer for a
/// longer name, so that the descriptions stand in one column.
pub open spec fn tabs_for(long: Seq<char>) -> Seq<char> {
    if long.len() <= 7 {
        "\t\t\t"@
    } else if long.len() <= 16 {
        "\t\t"@
    } else {
        "\t"@
    }
}

/// The line of the help for `option`: both its forms in bold, then its
/// description.
pub open spec fn option_line(option: OptionView) -> Seq<SpanView> {
    seq![
        plain("  "@, false),
        plain(seq!['-', option.short], true),
        plain(", "@, false),
        plain("--"@ + option.long, true),
        plain(tabs_for(option.long) + option.description, false),
    ]
}

/// The lines of the help for the package `info` with the options `options`.
pub open spec fn help_lines(info: Package, options: Seq<OptionView>) -> Seq<Seq<SpanView>> {
    seq![
        highlighted(name_text(info), Color::Yellow),
        usage_line(info),
        highlighted("`Options:`"@, Color::Purple),
    ] + options.map_values(|option: OptionView| option_line(option))
}

/// Writes a message behind a pointer.
fn pointed(pointer: &str, message: &str) -> (text: String)
    ensures
        text@ == pointed_text(pointer@, message@),
{
    let mut text = String::new();
    text.push(FORMAT_CHAR);
    text.append(pointer);
    text.push(FORMAT_CHAR);
    text.push(' ');
    text.append(message);
    assert(text@ =~= pointed_text(pointer@, message@));
    text
}

/// Writes a message behind the label `label` and the arrow, marks and all.
pub fn information_markup(label: &str, message: &str) -> (text: String)
    ensures
        text@ == information_text(label@, message@),
{
    let mut pointer = String::from_str(label);
    pointer.push(' ');
    pointer.push(ARROW_CHAR);
    assert(pointer@ =~= label@ + seq![' ', ARROW_CHAR]);
    pointed(pointer.as_str(), message)
}

/// Writes a message behind a tab and the arrow, marks and all.
pub fn data_markup(message: &str) -> (text: String)
    ensures
        text@ == data_text(message@),
{
    let mut pointer = String::new();
    pointer.push('\t');
    pointer.push(ARROW_CHAR);
    assert(pointer@ =~= seq!['\t', ARROW_CHAR]);
    pointed(pointer.as_str(), message)
}

/// Writes a title, marks and all.
pub fn title_markup(title: &str) -> (text: String)
    ensures
        text@ == title_text(title@),
{
    let mut text = String::new();
    text.push(FORMAT_CHAR);
    text.append(title);
    text.push(FORMAT_CHAR);
    assert(text@ =~= title_text(title@));
    text
}

/// Writes the line that tells the version of `info`, marks and all.
pub fn version_markup(info: &Package) -> (text: String)
    ensures
        text@ == version_text(*info),
{
    let (title, _) = info.get_metadata();
    let mut text = String::new();
    text.push(FORMAT_CHAR);
    text.push(ARROW_CHAR);
    text.push(' ');
    text.append(title.as_str());
    text.append("` version `");
    text.append(info.version.as_str());
    text.push(FORMAT_CHAR);
    assert(text@ =~= version_text(*info));
    text
}

/// Writes the head of the help, marks and all.
pub fn name_markup(info: &Package) -> (text: String)
    ensures
        text@ == name_text(*info),
{
    let (title, _) = info.get_metadata();
    let mut text = title_markup(title.as_str());
    text.push(' ');
    text.append(info.version.as_str());
    match &info.description {
        Some(description) => {
            text.append(", ");
            text.append(description.as_str());
        },
        None => {},
    }
    assert(text@ =~= name_text(*info));
    text
}

/// Writes the beginning of the usage line, marks and all.
pub fn usage_markup(info: &Package) -> (text: String)
    ensures
        text@ == usage_text(*info),
{
    let mut text = String::from_str("`Usage:` ");
    text.append(info.name.as_str());
    text.push(' ');
    text
}

/// The runs of `message` behind the label `label`, with `color` for the
/// pointer and for what the message highlights.
pub fn information(label: &str, message: &str, color: Color) -> (spans: Vec<Span>)
    requires
        is_balanced(information_text(label@, message@)),
    ensures
        spans.deep_view() == highlighted(information_text(label@, message@), color),
{
    get_highlighted_text(information_markup(label, message).as_str(), color)
}

/// The runs of `message` behind a tab and the arrow.
pub fn data(message: &str, color: Color) -> (spans: Vec<Span>)
    requires
        is_balanced(data_text(message@)),
    ensures
        spans.deep_view() == highlighted(data_text(message@), color),
{
    get_highlighted_text(data_markup(message).as_str(), color)
}

/// The runs of the title `text`.
pub fn title(text: &str, color: Color) -> (spans: Vec<Span>)
    requires
        is_balanced(title_text(text@)),
    ensures
        spans.deep_view() == highlighted(title_text(text@), color),
{
    get_highlighted_text(title_markup(text).as_str(), color)
}

/// The runs of the failure `message`: behind `Error`, in red.
pub fn error(message: &str) -> (spans: Vec<Span>)
    requires
        is_balanced(information_text("Error"@, message@)),
    ensures
        spans.deep_view() == highlighted(information_text("Error"@, message@), Color::Red),
{
    information("Error", message, Color::Red)
}

/// The runs of the warning `message`: behind `Warning`, in yellow.
pub fn warning(message: &str) -> (spans: Vec<Span>)
    requires
        is_balanced(information_text("Warning"@, message@)),
    ensures
        spans.deep_view() == highlighted(information_text("Warning"@, message@), Color::Yellow),
{
    information("Warning", message, Color::Yellow)
}

/// The runs of the line that tells the version of `info`, in green.
pub fn version(info: &Package) -> (spans: Vec<Span>)
    requires
        is_balanced(version_text(*info)),
    ensures
        spans.deep_view() == highlighted(version_text(*info), Color::Green),
{
    get_highlighted_text(version_markup(info).as_str(), Color::Green)
}

/// Makes a run that is left as the terminal has it.
fn plain_span(text: String, bold: bool) -> (span: Span)
    ensures
        span@ == plain(text@, bold),
{
    Span { text, paint: Paint::Plain, bold }
}

/// The runs of the line of the help for `option`.
pub fn option_spans(option: &Option) -> (spans: Vec<Span>)
    ensures
        spans.deep_view() == option_line(option@),
{
    let mut short = String::new();
    short.push('-');
    short.push(option.short);
    assert(short@ =~= seq!['-', option.short]);
    let mut long = String::from_str("--");
    long.append(option.long.as_str());
    let count = option.long.as_str().unicode_len();
    let mut rest = if count <= 7 {
        String::from_str("\t\t\t")
    } else if count <= 16 {
        String::from_str("\t\t")
    } else {
        String::from_str("\t")
    };
    rest.append(option.description.as_str());
    let mut spans: Vec<Span> = Vec::new();
    spans.push(plain_span(String::from_str("  "), false));
    spans.push(plain_span(short, true));
    spans.push(plain_span(String::from_str(", "), false));
    spans.push(plain_span(long, true));
    spans.push(plain_span(rest, false));
    assert(spans.deep_view() =~= option_line(option@));
    spans
}

/// The runs of the usage line for `info`.
pub fn usage_spans(info: &Package) -> (spans: Vec<Span>)
    requires
        is_balanced(usage_text(*info)),
    ensures
        spans.deep_view() == usage_line(*info),
{
    let (_, default_argument) = info.get_metadata();
    let mut spans = get_highlighted_text(usage_markup(info).as_str(), Color::Red);
    let ghost head = spans.deep_view();
    let mut argument = String::new();
    argument.push('<');
    argument.append(default_argument.as_str());
    argument.push('>');
    assert(argument@ =~= seq!['<'] + info.default_argument() + seq!['>']);
    spans.push(
        Span {
            text: String::from_str("[Options]..."),
            paint: Paint::Highlight(Color::Purple),
            bold: false,
        },
    );
    spans.push(Span { text: String::from_str(" "), paint: Paint::White, bold: false });
    spans.push(Span { text: argument, paint: Paint::Blue, bold: false });
    spans.push(Span { text: String::from_str("\n"), paint: Paint::White, bold: false });
    assert(spans.deep_view() =~= usage_line(*info));
    spans
}

/// The lines of the help for the package `info` with the options `options`,
/// each line as its runs.
pub fn help(info: &Package, options: &Vec<Option>) -> (lines: Vec<Vec<Span>>)
    requires
        is_balanced(name_text(*info)),
        is_balanced(usage_text(*info)),
    ensures
        lines.deep_view() == help_lines(*info, options.deep_view()),
{
    let ghost all = options.deep_view();
    let mut lines: Vec<Vec<Span>> = Vec::new();
    lines.push(get_highlighted_text(name_markup(info).as_str(), Color::Yellow));
    lines.push(usage_spans(info));
    proof {
        reveal_strlit("`Options:`");
        reveal_with_fuel(pieces, 11);
        assert(is_balanced("`Options:`"@));
    }
    lines.push(get_highlighted_text("`Options:`", Color::Purple));
    assert(lines.deep_view() =~= help_lines(*info, all.take(0)));
    let mut i: usize = 0;
    while i < options.len()
        invariant
            i <= options.len(),
            all == options.deep_view(),
            lines.deep_view() == help_lines(*info, all.take(i as int)),
        decreases options.len() - i,
    {
        let ghost before = lines.deep_view();
        lines.push(option_spans(&options[i]));
        assert(lines.deep_view() =~= before.push(option_line(all[i as int])));
        assert(all.take(i + 1) =~= all.take(i as int).push(all[i as int]));
        i += 1;
        assert(lines.deep_view() =~= help_lines(*info, all.take(i as int)));
    }
    assert(all.take(i as int) == all);
    lines
}

/// The character that begins an escape sequence of the terminal.
pub const ESCAPE_CHAR: char = '\u{1b}';

/// Whether the text `text` stands whole inside `run`.
pub open spec fn holds(run: Seq<char>, text: Seq<char>) -> bool {
    exists|lead: Seq<char>, trail: Seq<char>| run == lead + text + trail
}

/// What holds of `run`, the run `span` as it is painted, whether or not the
/// terminal takes colours: a run without paint and not in bold is its text; and
/// a text without an escape character stands whole inside its run, whatever is
/// written around it.
pub open spec fn is_painted(run: Seq<char>, span: SpanView) -> bool {
    &&& span.paint == Paint::Plain && !span.bold ==> run == span.text
    &&& !span.text.contains(ESCAPE_CHAR) ==> holds(run, span.text)
}

/// Paints `text` with the crate `colored`: one of `Colorize`'s `normal`,
/// `white`, `blue`, `green`, `red`, `yellow`, `purple` and `cyan`, then `bold`
/// where it is asked for, and `to_string` of the `ColoredString`. Whether escape
/// codes are written depends on the terminal and on the environment of the
/// process. Either way `ColoredString` writes a string without colour and style
/// as it is; and where it writes codes, it writes them before the text and
/// behind it, and inside the text only behind a reset sequence, which begins
/// with the escape character.
#[verifier::external_body]
fn painted(text: &str, paint: Paint, bold: bool) -> (run: String)
    ensures
        is_painted(run@, SpanView { text: text@, paint, bold }),
{
    let run = match paint {
        Paint::Plain => text.normal(),
        Paint::White => text.white(),
        Paint::Blue => text.blue(),
        Paint::Highlight(Color::Green) => text.green(),
        Paint::Highlight(Color::Red) => text.red(),
        Paint::Highlight(Color::Yellow) => text.yellow(),
        Paint::Highlight(Color::Purple) => text.purple(),
        Paint::Highlight(Color::Cyan) => text.cyan(),
    };
    if bold {
        run.bold().to_string()
    } else {
        run.to_string()
    }
}

/// The line that `spans` make for the terminal: each run as it is painted, one
/// after the other.
pub fn render(spans: &Vec<Span>) -> (line: String)
    ensures
        exists|runs: Seq<Seq<char>>|
            {
                &&& runs.len() == spans.len()
                &&& line@ == #[trigger] joined(runs, Seq::empty())
                &&& forall|k: int|
                    0 <= k < runs.len() ==> is_painted(#[trigger] runs[k], spans.deep_view()[k])
            },
{
    let mut runs: Vec<String> = Vec::new();
    let mut k: usize = 0;
    while k < spans.len()
        invariant
            k <= spans.len(),
            runs.len() == k,
            forall|j: int|
                0 <= j < k ==> is_painted(#[trigger] runs.deep_view()[j], spans.deep_view()[j]),
        decreases spans.len() - k,
    {
        let ghost before = runs.deep_view();
        let run = painted(spans[k].text.as_str(), spans[k].paint, spans[k].bold);
        let ghost made = run@;
        runs.push(run);
        assert(runs.deep_view() =~= before.push(made));
        assert(spans.deep_view()[k as int] == spans[k as int]@);
        k += 1;
    }
    let line = join(&runs, String::new().as_str());
    assert(runs.deep_view().len() == spans.len());
    line
}

} // verus!
