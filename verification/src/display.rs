//! Texts for the terminal.

use color_eyre::owo_colors::OwoColorize;
use vstd::prelude::*;
use vstd::string::StringExecFns;
use crate::text::decimal;

verus! {

/// `text` between the terminal escape sequences that set the foreground to
/// the colour (`red`, `green`, `blue`) and back to the default.
pub open spec fn truecolored(text: Seq<char>, red: u8, green: u8, blue: u8) -> Seq<char> {
    "\x1b[38;2;"@ + decimal(red as nat) + ";"@ + decimal(green as nat) + ";"@ + decimal(blue as nat)
        + "m"@ + text + "\x1b[39m"@
}

/// Calls `owo_colors::OwoColorize::truecolor` on `text` and renders the
/// result.
///
/// The rendering writes the escape sequence `ESC [ 38 ; 2 ; r ; g ; b m` with
/// the three numbers in decimal, then `text` unchanged, then the sequence
/// `ESC [ 39 m`.
#[verifier::external_body]
pub(crate) fn truecolor(text: &str, red: u8, green: u8, blue: u8) -> (colored: String)
    ensures
        colored@ == truecolored(text@, red, green, blue),
{
    text.truecolor(red, green, blue).to_string()
}

/// The disambiguation as it follows a title: in light grey and in brackets,
/// after a space; nothing where there is none or it is empty.
pub open spec fn disambiguation_suffix(disambiguation: Option<String>) -> Seq<char> {
    match disambiguation {
        Some(comment) => if comment@.len() > 0 {
            truecolored(" ("@ + comment@ + ")"@, 200, 200, 200)
        } else {
            Seq::empty()
        },
        None => Seq::empty(),
    }
}

/// Writes `title`, followed by its disambiguation where it has one.
pub fn format_disambiguation(title: &str, disambiguation: &Option<String>) -> (text: String)
    ensures
        text@ == title@ + disambiguation_suffix(*disambiguation),
{
    let mut text = String::from_str(title);
    match disambiguation {
        Some(comment) => {
            if !comment.as_str().is_empty() {
                let mut bracketed = String::from_str(" (");
                bracketed.append(comment.as_str());
                bracketed.append(")");
                text.append(truecolor(bracketed.as_str(), 200, 200, 200).as_str());
            } else {
                assert(text@ =~= title@ + disambiguation_suffix(*disambiguation));
            }
        },
        None => {
            assert(text@ =~= title@ + disambiguation_suffix(*disambiguation));
        },
    }
    text
}

} // verus!
