//! Coloured text for the terminal.

use vstd::prelude::*;
use color_eyre::owo_colors::OwoColorize;

verus! {

/// Text in yellow: the escape sequence that sets the foreground colour, the
/// text, and the sequence that sets the default colour again.
pub open spec fn yellow_text(text: Seq<char>) -> Seq<char> {
    "\x1b[33m"@ + text + "\x1b[39m"@
}

/// Text in blue, in the same way.
pub open spec fn blue_text(text: Seq<char>) -> Seq<char> {
    "\x1b[34m"@ + text + "\x1b[39m"@
}

/// Calls `OwoColorize::yellow` of the crate owo-colors, as color-eyre hands
/// it on, and writes the result out. The contract states what the crate's
/// formatter writes: the sequence for yellow, the text, the sequence for the
/// default colour. It is not proved.
#[verifier::external_body]
pub(crate) fn yellow(text: &str) -> (painted: String)
    ensures
        painted@ == yellow_text(text@),
{
    text.yellow().to_string()
}

/// Calls `OwoColorize::blue` of the crate owo-colors, as color-eyre hands it
/// on, and writes the result out. The contract states what the crate's
/// formatter writes: the sequence for blue, the text, the sequence for the
/// default colour. It is not proved.
#[verifier::external_body]
pub(crate) fn blue(text: &str) -> (painted: String)
    ensures
        painted@ == blue_text(text@),
{
    text.blue().to_string()
}

} // verus!
