//! Terminal colours for the pieces of a report line.
//!
//! Whether colours are written at all is decided outside this crate, by the
//! environment and by the process-wide override, each time a piece is painted.
//! A painted piece is therefore either the bare text or the text between
//! escape codes. The override is set once, before anything is painted: the
//! contracts below hold as long as it does not change while a piece is painted.
use colored::Colorize;
use vstd::prelude::*;

verus! {

/// The looks that report lines use.
#[derive(Debug, Clone, Copy, PartialEq, Eq, Structural)]
pub enum Paint {
    GreenBold,
    RedBold,
    YellowBold,
    BlueBold,
    Cyan,
    Bold,
}

impl Paint {
    /// The parameters of the escape code that switches the look on.
    pub open spec fn codes(self) -> Seq<char> {
        match self {
            Paint::GreenBold => seq!['1', ';', '3', '2'],
            Paint::RedBold => seq!['1', ';', '3', '1'],
            Paint::YellowBold => seq!['1', ';', '3', '3'],
            Paint::BlueBold => seq!['1', ';', '3', '4'],
            Paint::Cyan => seq!['3', '6'],
            Paint::Bold => seq!['1'],
        }
    }

    /// The escape code that switches the look on.
    pub open spec fn opening(self) -> Seq<char> {
        seq!['\u{1b}', '['] + self.codes() + seq!['m']
    }
}

/// The escape code that switches every look off.
pub open spec fn reset() -> Seq<char> {
    seq!['\u{1b}', '[', '0', 'm']
}

/// `text` with `opening` written again behind every reset code inside it.
pub open spec fn reopened(text: Seq<char>, opening: Seq<char>) -> Seq<char>
    decreases text.len(),
{
    if text.len() < 4 {
        text
    } else if text.take(4) == reset() {
        reset() + opening + reopened(text.skip(4), opening)
    } else {
        seq![text[0]] + reopened(text.skip(1), opening)
    }
}

/// `text` in the look `paint`: with escape codes when `on`, bare otherwise.
pub open spec fn shade(on: bool, paint: Paint, text: Seq<char>) -> Seq<char> {
    if on {
        paint.opening() + reopened(text, paint.opening()) + reset()
    } else {
        text
    }
}

/// `out` is one of the two ways to write `text` in the look `paint`.
pub open spec fn painted(paint: Paint, text: Seq<char>, out: Seq<char>) -> bool {
    out == shade(false, paint, text) || out == shade(true, paint, text)
}

/// A text without escape characters stands unchanged between the codes.
pub proof fn law_plain_text_is_kept(paint: Paint, text: Seq<char>)
    requires
        !text.contains('\u{1b}'),
    ensures
        shade(true, paint, text) == paint.opening() + text + reset(),
{
    lemma_reopened_plain(text, paint.opening());
}

proof fn lemma_reopened_plain(text: Seq<char>, opening: Seq<char>)
    requires
        !text.contains('\u{1b}'),
    ensures
        reopened(text, opening) == text,
    decreases text.len(),
{
    if text.len() >= 4 {
        assert(text.contains(text[0]));
        assert(text.take(4)[0] == text[0]);
        assert(reset()[0] == '\u{1b}');
        assert forall|c: char| text.skip(1).contains(c) implies text.contains(c) by {
            let i = choose|i: int| 0 <= i < text.skip(1).len() && text.skip(1)[i] == c;
            assert(text[i + 1] == c);
        }
        lemma_reopened_plain(text.skip(1), opening);
        assert(seq![text[0]] + text.skip(1) =~= text);
    }
}

/// Calls `Colorize::green`, `Colorize::bold` and the `Display` of
/// `colored::ColoredString`.
///
/// The contract claims that the text comes back bare when colouring is off, and
/// otherwise behind the code for bold green and before the reset code, with the
/// first code repeated behind every reset code in the text.
#[verifier::external_body]
fn green_bold(text: &str) -> (out: String)
    ensures
        painted(Paint::GreenBold, text@, out@),
{
    text.green().bold().to_string()
}

/// Calls `Colorize::red`, `Colorize::bold` and the `Display` of
/// `colored::ColoredString`.
///
/// The contract claims the same as for bold green, with the code for bold red.
#[verifier::external_body]
fn red_bold(text: &str) -> (out: String)
    ensures
        painted(Paint::RedBold, text@, out@),
{
    text.red().bold().to_string()
}

/// Calls `Colorize::yellow`, `Colorize::bold` and the `Display` of
/// `colored::ColoredString`.
///
/// The contract claims the same as for bold green, with the code for bold yellow.
#[verifier::external_body]
fn yellow_bold(text: &str) -> (out: String)
    ensures
        painted(Paint::YellowBold, text@, out@),
{
    text.yellow().bold().to_string()
}

/// Calls `Colorize::blue`, `Colorize::bold` and the `Display` of
/// `colored::ColoredString`.
///
/// The contract claims the same as for bold green, with the code for bold blue.
#[verifier::external_body]
fn blue_bold(text: &str) -> (out: String)
    ensures
        painted(Paint::BlueBold, text@, out@),
{
    text.blue().bold().to_string()
}

/// Calls `Colorize::cyan` and the `Display` of `colored::ColoredString`.
///
/// The contract claims the same as for bold green, with the code for cyan.
#[verifier::external_body]
fn cyan(text: &str) -> (out: String)
    ensures
        painted(Paint::Cyan, text@, out@),
{
    text.cyan().to_string()
}

/// Calls `Colorize::bold` and the `Display` of `colored::ColoredString`.
///
/// The contract claims the same as for bold green, with the code for bold alone.
#[verifier::external_body]
fn bold(text: &str) -> (out: String)
    ensures
        painted(Paint::Bold, text@, out@),
{
    text.bold().to_string()
}

/// Writes `text` in the look `paint`.
pub fn apply(paint: Paint, text: &str) -> (out: String)
    ensures
        painted(paint, text@, out@),
{
    match paint {
        Paint::GreenBold => green_bold(text),
        Paint::RedBold => red_bold(text),
        Paint::YellowBold => yellow_bold(text),
        Paint::BlueBold => blue_bold(text),
        Paint::Cyan => cyan(text),
        Paint::Bold => bold(text),
    }
}

/// Without colours a text is left as it is; with colours it stands behind an escape code and
/// before the code that switches everything off.
pub proof fn law_colours_surround_the_text(paint: Paint, text: Seq<char>)
    ensures
        shade(false, paint, text) == text,
        shade(true, paint, text).len() >= paint.opening().len() + text.len() + 4,
        paint.opening().is_prefix_of(shade(true, paint, text)),
        seq!['\u{1b}', '[', '0', 'm'].is_suffix_of(shade(true, paint, text)),
        painted(paint, text, shade(false, paint, text)),
        painted(paint, text, shade(true, paint, text)),
{
    let out = shade(true, paint, text);
    lemma_reopened_is_no_shorter(text, paint.opening());
    assert(out.take(paint.opening().len() as int) =~= paint.opening());
    assert(out.subrange(out.len() - 4, out.len() as int) =~= reset());
}

proof fn lemma_reopened_is_no_shorter(text: Seq<char>, opening: Seq<char>)
    ensures
        reopened(text, opening).len() >= text.len(),
    decreases text.len(),
{
    if text.len() >= 4 {
        if text.take(4) == reset() {
            lemma_reopened_is_no_shorter(text.skip(4), opening);
        } else {
            lemma_reopened_is_no_shorter(text.skip(1), opening);
        }
    }
}

/// Behind every reset code inside a text, the look that the code ended is switched on again.
pub proof fn law_looks_go_on_behind_resets(front: Seq<char>, back: Seq<char>, opening: Seq<char>)
    requires
        !front.contains('\u{1b}'),
    ensures
        reopened(front + seq!['\u{1b}', '[', '0', 'm'] + back, opening) == front + seq![
            '\u{1b}',
            '[',
            '0',
            'm',
        ] + opening + reopened(back, opening),
    decreases front.len(),
{
    let text = front + reset() + back;
    if front.len() == 0 {
        assert(text.take(4) =~= reset());
        assert(text.skip(4) =~= back);
        assert(front + reset() + opening =~= reset() + opening);
    } else {
        let rest = front.skip(1);
        assert forall|c: char| rest.contains(c) implies front.contains(c) by {
            let i = choose|i: int| 0 <= i < rest.len() && rest[i] == c;
            assert(front[i + 1] == c);
        }
        law_looks_go_on_behind_resets(rest, back, opening);
        assert(front.contains(front[0]));
        assert(text.take(4)[0] == front[0]);
        assert(text.skip(1) =~= rest + reset() + back);
        assert(seq![front[0]] + (rest + reset() + opening + reopened(back, opening)) =~= front
            + reset() + opening + reopened(back, opening));
    }
}

/// No two looks are switched on by the same code.
pub proof fn law_codes_tell_looks_apart(a: Paint, b: Paint)
    ensures
        a.opening() == b.opening() <==> a == b,
{
    assert(a.opening().len() == a.codes().len() + 3);
    assert(b.opening().len() == b.codes().len() + 3);
    assert(a.codes().len() > 3 ==> a.opening()[5] == a.codes()[3]);
    assert(b.codes().len() > 3 ==> b.opening()[5] == b.codes()[3]);
}

/// The code of a bold look begins with the parameter for bold, and that of a colour ends with
/// the parameter for the colour.
pub proof fn law_codes_name_the_look(paint: Paint)
    ensures
        paint is Cyan <==> !(seq!['\u{1b}', '[', '1'].is_prefix_of(paint.opening())),
        paint is GreenBold ==> seq!['3', '2', 'm'].is_suffix_of(paint.opening()),
        paint is RedBold ==> seq!['3', '1', 'm'].is_suffix_of(paint.opening()),
        paint is YellowBold ==> seq!['3', '3', 'm'].is_suffix_of(paint.opening()),
        paint is BlueBold ==> seq!['3', '4', 'm'].is_suffix_of(paint.opening()),
        paint is Cyan ==> seq!['3', '6', 'm'].is_suffix_of(paint.opening()),
        paint.opening().len() == if paint is Bold {
            4nat
        } else if paint is Cyan {
            5
        } else {
            7
        },
{
    let opening = paint.opening();
    assert(opening[2] == paint.codes()[0]);
    assert(!(paint is Cyan) ==> opening.take(3) =~= seq!['\u{1b}', '[', '1']);
}

} // verus!
