//! Emphasis of names inside messages, done by the `colored` crate.

use vstd::prelude::*;
use colored::Colorize;

verus! {

/// The character that starts a terminal control sequence.
pub open spec fn escape_char() -> char {
    '\u{1b}'
}

/// The control sequence that switches a style on.
pub open spec fn style_on(code: Seq<char>) -> Seq<char> {
    seq![escape_char(), '['] + code + seq!['m']
}

/// The control sequence that switches every style off.
pub open spec fn style_off() -> Seq<char> {
    seq![escape_char(), '[', '0', 'm']
}

/// The parameters of bold red.
pub open spec fn bold_red_code() -> Seq<char> {
    seq!['1', ';', '3', '1']
}

/// The parameters of bold yellow.
pub open spec fn bold_yellow_code() -> Seq<char> {
    seq!['1', ';', '3', '3']
}

/// Whether `text` holds the sequence that switches every style off.
pub open spec fn holds_reset(text: Seq<char>) -> bool {
    exists|i: int|
        0 <= i && i + style_off().len() <= text.len() && #[trigger] text.subrange(
            i,
            i + style_off().len(),
        ) == style_off()
}

/// Whether `shown` starts with `opening` and ends with `closing`, the two
/// not overlapping.
pub open spec fn enclosed(shown: Seq<char>, opening: Seq<char>, closing: Seq<char>) -> bool {
    &&& opening.len() + closing.len() <= shown.len()
    &&& shown.subrange(0, opening.len() as int) == opening
    &&& shown.subrange(shown.len() - closing.len(), shown.len() as int) == closing
}

/// Whether `shown` is a way in which `plain` may come out when it is asked
/// for in the style `code`.
///
/// Whether colours are used at all is decided by the process's environment
/// and by whether its output is a terminal, so both forms are admitted: the
/// text as it is, or the text between the sequence that switches the style on
/// and the one that switches it off. A text that itself holds the sequence
/// that switches styles off is changed on the way when colours are used: of
/// what then stands between the two sequences nothing is said.
pub open spec fn shows(plain: Seq<char>, code: Seq<char>, shown: Seq<char>) -> bool {
    ||| shown == plain
    ||| shown == style_on(code) + plain + style_off()
    ||| holds_reset(plain) && enclosed(shown, style_on(code), style_off())
}

/// What is shown without an escape character is the text itself: every
/// other form starts with one.
pub proof fn lemma_shown_without_escape(plain: Seq<char>, code: Seq<char>, shown: Seq<char>)
    requires
        shows(plain, code, shown),
        !shown.contains(escape_char()),
    ensures
        shown == plain,
{
    if shown != plain {
        let opening = style_on(code);
        assert(opening[0] == escape_char());
        if shown == opening + plain + style_off() {
            assert(shown[0] == escape_char());
        } else {
            assert(shown.subrange(0, opening.len() as int)[0] == shown[0]);
        }
        assert(shown.contains(shown[0]));
    }
}

/// `shows` for bold red, the emphasis of errors.
pub open spec fn shows_as_error(plain: Seq<char>, shown: Seq<char>) -> bool {
    shows(plain, bold_red_code(), shown)
}

/// `shows` for bold yellow, the emphasis of warnings.
pub open spec fn shows_as_warning(plain: Seq<char>, shown: Seq<char>) -> bool {
    shows(plain, bold_yellow_code(), shown)
}

/// Calls `Colorize::red` and `Colorize::bold` of `colored` on `plain` and
/// formats the `ColoredString` that comes back.
///
/// Trusted: the result is either the text itself (colours off) or the text
/// between `ESC[1;31m` and `ESC[0m` (colours on). With colours on, a text
/// that holds `ESC[0m` has the opening sequence put in again behind each of
/// them, so of such a text only the two ends of the result are stated.
/// `colored` decides between on and off from the environment variables
/// `CLICOLOR`, `CLICOLOR_FORCE` and `NO_COLOR`, from whether the standard
/// output is a terminal and from its own override switch, which is taken not
/// to be turned while the call runs.
#[verifier::external_body]
pub(crate) fn bold_red(plain: &str) -> (shown: String)
    ensures
        shows_as_error(plain@, shown@),
{
    plain.red().bold().to_string()
}

/// Calls `Colorize::yellow` and `Colorize::bold` of `colored` on `plain` and
/// formats the `ColoredString` that comes back.
///
/// Trusted: as for `bold_red`, with `ESC[1;33m` as the opening sequence.
#[verifier::external_body]
pub(crate) fn bold_yellow(plain: &str) -> (shown: String)
    ensures
        shows_as_warning(plain@, shown@),
{
    plain.yellow().bold().to_string()
}

} // verus!
