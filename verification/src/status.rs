//! The status line: branch, lines added and removed, model and token gauge.

use crate::branch::{branch_label, branch_name};
use crate::colors::{COLOR_ADDED, COLOR_BRANCH, COLOR_MODEL, COLOR_REMOVED, COLOR_RESET};
use crate::decimal::{decimal_digits, decimal_string};
use crate::gauge::{get_token_info, token_info};
use crate::input::Input;
use vstd::prelude::*;
use vstd::string::*;

verus! {

/// The status line for the given fields. The gauge is taken as it is, empty or
/// coloured already; every other field is wrapped in its colour.
pub open spec fn status_line(
    branch: Seq<char>,
    added: nat,
    removed: nat,
    model: Seq<char>,
    gauge: Seq<char>,
) -> Seq<char> {
    COLOR_BRANCH@ + branch + COLOR_RESET@ + " | "@ + COLOR_ADDED@ + "+"@ + decimal_digits(added)
        + COLOR_RESET@ + " "@ + COLOR_REMOVED@ + "-"@ + decimal_digits(removed) + COLOR_RESET@
        + " | "@ + COLOR_MODEL@ + model + COLOR_RESET@ + " | "@ + gauge
}

/// The status line of a session, given what the version-control tool printed
/// and the session's net diff.
pub open spec fn session_status(
    input: Input,
    printed_branch: Option<Seq<char>>,
    added: nat,
    removed: nat,
) -> Seq<char> {
    status_line(
        branch_label(printed_branch),
        added,
        removed,
        input.model.display_name@,
        token_info(input),
    )
}

/// Puts the fields of the status line together.
pub fn format_status(branch: &str, added: u128, removed: u128, model: &str, gauge: &str) -> (line:
    String)
    ensures
        line@ == status_line(branch@, added as nat, removed as nat, model@, gauge@),
{
    let added_text = decimal_string(added);
    let removed_text = decimal_string(removed);
    let mut line = String::from_str(COLOR_BRANCH);
    line.append(branch);
    line.append(COLOR_RESET);
    line.append(" | ");
    line.append(COLOR_ADDED);
    line.append("+");
    line.append(added_text.as_str());
    line.append(COLOR_RESET);
    line.append(" ");
    line.append(COLOR_REMOVED);
    line.append("-");
    line.append(removed_text.as_str());
    line.append(COLOR_RESET);
    line.append(" | ");
    line.append(COLOR_MODEL);
    line.append(model);
    line.append(COLOR_RESET);
    line.append(" | ");
    line.append(gauge);
    line
}

/// Renders the status line of a session from its description, what the
/// version-control tool printed, if it ran, and the session's net diff.
pub fn render_status(input: &Input, printed_branch: Option<&str>, added: u128, removed: u128) -> (line:
    String)
    ensures
        line@ == session_status(
            *input,
            match printed_branch {
                Some(text) => Some(text@),
                None => None,
            },
            added as nat,
            removed as nat,
        ),
{
    let branch = branch_name(printed_branch);
    let gauge = get_token_info(input);
    format_status(
        branch.as_str(),
        added,
        removed,
        input.model.display_name.as_str(),
        gauge.as_str(),
    )
}

} // verus!
