//! Where a plot is saved: the first file of a numbered series that does not
//! exist yet. This module names the files and decides what to do after each
//! look at the disk; looking is left to the caller.

use vstd::prelude::*;
use vstd::string::*;

verus! {

/// The version that is tried first.
pub const FIRST_PLOT_VERSION: u8 = 1;

/// The version that is tried last.
pub const LAST_PLOT_VERSION: u8 = 25;

/// The text of one decimal digit.
pub open spec fn digit_text(digit: nat) -> Seq<char>
    recommends
        digit <= 9,
{
    if digit == 0 {
        "0"@
    } else if digit == 1 {
        "1"@
    } else if digit == 2 {
        "2"@
    } else if digit == 3 {
        "3"@
    } else if digit == 4 {
        "4"@
    } else if digit == 5 {
        "5"@
    } else if digit == 6 {
        "6"@
    } else if digit == 7 {
        "7"@
    } else if digit == 8 {
        "8"@
    } else {
        "9"@
    }
}

/// The name of the plot file of `version`: the version stands in it with
/// four digits, zeros in front.
pub open spec fn plot_file_name_text(version: u8) -> Seq<char> {
    "farm_usage_plot."@ + "0"@ + digit_text(version as nat / 100) + digit_text(
        version as nat / 10 % 10,
    ) + digit_text(version as nat % 10) + ".png"@
}

/// What to do after a look for the plot file of one version.
#[derive(Clone, Copy, Debug, PartialEq, Eq, Structural)]
pub enum PlotPathStep {
    /// The file does not exist: the plot is saved under its name.
    Save,
    /// The file exists: look for the file of this version next.
    Probe(u8),
    /// The file exists, and so does that of every version before it: no
    /// room is left.
    TooMany,
}

/// The step that follows when the file of `version` was found to exist
/// (`taken`) or not.
pub open spec fn plot_path_step(version: u8, taken: bool) -> PlotPathStep {
    if !taken {
        PlotPathStep::Save
    } else if version >= LAST_PLOT_VERSION {
        PlotPathStep::TooMany
    } else {
        PlotPathStep::Probe((version + 1) as u8)
    }
}

fn digit_str(digit: u8) -> (text: &'static str)
    requires
        digit <= 9,
    ensures
        text@ == digit_text(digit as nat),
{
    match digit {
        0 => "0",
        1 => "1",
        2 => "2",
        3 => "3",
        4 => "4",
        5 => "5",
        6 => "6",
        7 => "7",
        8 => "8",
        _ => "9",
    }
}

/// Names the plot file of `version`.
pub fn plot_file_name(version: u8) -> (name: String)
    ensures
        name@ == plot_file_name_text(version),
{
    let mut name = String::from_str("farm_usage_plot.");
    name.append("0");
    name.append(digit_str(version / 100));
    name.append(digit_str(version / 10 % 10));
    name.append(digit_str(version % 10));
    name.append(".png");
    name
}

/// Decides what follows a look for the plot file of `version`: its name is
/// free, or the next version is tried, or the last version has been tried
/// in vain.
pub fn next_plot_path_step(version: u8, taken: bool) -> (step: PlotPathStep)
    ensures
        step == plot_path_step(version, taken),
{
    if !taken {
        PlotPathStep::Save
    } else if version >= LAST_PLOT_VERSION {
        PlotPathStep::TooMany
    } else {
        PlotPathStep::Probe(version + 1)
    }
}

} // verus!
