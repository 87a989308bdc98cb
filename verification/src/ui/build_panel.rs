//! The panel that shows the build's output.

use crate::build_system::{BuildOutputLine, BuildStatus};
use crate::text::{begins_with, contains, contains_text, starts_with};
use crate::ui::Color;
use vstd::prelude::*;

verus! {

/// How the build's status is shown.
pub open spec fn build_banner_of(status: BuildStatus) -> (Seq<char>, Color) {
    match status {
        BuildStatus::Idle => ("Idle"@, Color::Gray),
        BuildStatus::Building => ("Building..."@, Color::Yellow),
        BuildStatus::Success => ("Success"@, Color::Green),
        BuildStatus::Failed => ("Failed"@, Color::Red),
    }
}

/// How the build's status is shown.
pub fn build_banner(status: BuildStatus) -> (r: (&'static str, Color))
    ensures
        (r.0@, r.1) == build_banner_of(status),
{
    match status {
        BuildStatus::Idle => ("Idle", Color::Gray),
        BuildStatus::Building => ("Building...", Color::Yellow),
        BuildStatus::Success => ("Success", Color::Green),
        BuildStatus::Failed => ("Failed", Color::Red),
    }
}

/// The color of a line of output: errors, warnings and the final success
/// stand out, in this order.
pub open spec fn line_color_of(line: BuildOutputLine) -> Color {
    if line.is_error {
        Color::Rgb(255, 100, 100)
    } else if contains_text(line.text@, "warning"@) {
        Color::Rgb(255, 200, 50)
    } else if begins_with(line.text@, "✓"@) {
        Color::Rgb(100, 255, 100)
    } else {
        Color::Rgb(200, 200, 200)
    }
}

/// The color of a line of output.
pub fn line_color(line: &BuildOutputLine) -> (r: Color)
    ensures
        r == line_color_of(*line),
{
    if line.is_error {
        Color::Rgb(255, 100, 100)
    } else if contains(line.text.as_str(), "warning") {
        Color::Rgb(255, 200, 50)
    } else if starts_with(line.text.as_str(), "✓") {
        Color::Rgb(100, 255, 100)
    } else {
        Color::Rgb(200, 200, 200)
    }
}

/// Errors are red whatever they say; of the others, warnings are yellow, and
/// then what begins with a check mark is green.
pub proof fn law_lines_are_colored_by_what_they_say(line: BuildOutputLine)
    ensures
        line.is_error ==> line_color_of(line) == Color::Rgb(255, 100, 100),
        !line.is_error && contains_text(line.text@, "warning"@) ==> line_color_of(line)
            == Color::Rgb(255, 200, 50),
        !line.is_error && !contains_text(line.text@, "warning"@) && begins_with(
            line.text@,
            "✓"@,
        ) ==> line_color_of(line) == Color::Rgb(100, 255, 100),
        !line.is_error && !contains_text(line.text@, "warning"@) && !begins_with(
            line.text@,
            "✓"@,
        ) ==> line_color_of(line) == Color::Rgb(200, 200, 200),
{
}

} // verus!
