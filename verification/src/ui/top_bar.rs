//! The bar at the top: its menus, the build button and the build's status.

use crate::app::AppAction;
use crate::build_system::BuildStatus;
use crate::ui::Color;
use vstd::prelude::*;

verus! {

/// The build button.
#[derive(Debug, Clone, Copy, PartialEq, Eq)]
pub struct BuildButton {
    pub enabled: bool,
    pub label: &'static str,
    pub color: Color,
}

/// Whether a build can be started.
pub open spec fn can_build(status: BuildStatus, has_project: bool) -> bool {
    has_project && status != BuildStatus::Building
}

/// The build button's color: green where a build can be started.
pub open spec fn build_color_of(enabled: bool) -> Color {
    if enabled {
        Color::Rgb(100, 255, 100)
    } else {
        Color::Gray
    }
}

/// The build button of a bar that stands alone.
pub fn build_button(status: BuildStatus, has_project: bool) -> (r: BuildButton)
    ensures
        r.enabled == can_build(status, has_project),
        r.label@ == (if status == BuildStatus::Building {
            "⏳ Building..."@
        } else {
            "▶ Run"@
        }),
        r.color == build_color_of(r.enabled),
{
    let enabled: bool = has_project && status != BuildStatus::Building;
    BuildButton {
        enabled,
        label: if status == BuildStatus::Building {
            "⏳ Building..."
        } else {
            "▶ Run"
        },
        color: if enabled {
            Color::Rgb(100, 255, 100)
        } else {
            Color::Gray
        },
    }
}

/// How the build's status is shown.
pub open spec fn status_label_of(status: BuildStatus) -> (Seq<char>, Color) {
    match status {
        BuildStatus::Idle => ("Ready"@, Color::Gray),
        BuildStatus::Building => ("Building..."@, Color::Yellow),
        BuildStatus::Success => ("Build OK"@, Color::Green),
        BuildStatus::Failed => ("Build Failed"@, Color::Red),
    }
}

/// How the build's status is shown.
pub fn status_label(status: BuildStatus) -> (r: (&'static str, Color))
    ensures
        (r.0@, r.1) == status_label_of(status),
{
    match status {
        BuildStatus::Idle => ("Ready", Color::Gray),
        BuildStatus::Building => ("Building...", Color::Yellow),
        BuildStatus::Success => ("Build OK", Color::Green),
        BuildStatus::Failed => ("Build Failed", Color::Red),
    }
}

/// What was clicked in the bar in a frame.
#[derive(Debug, Clone, Copy, PartialEq, Eq)]
pub struct TopBarClicks {
    pub new_project: bool,
    pub open_project: bool,
    pub save_file: bool,
    pub save_all: bool,
    pub build: bool,
}

/// What the clicks in the bar ask for: the last of them counts, and those
/// that need a project count only where there is one.
pub open spec fn chosen_action(
    clicks: TopBarClicks,
    status: BuildStatus,
    has_project: bool,
) -> Option<AppAction> {
    if clicks.build && can_build(status, has_project) {
        Some(AppAction::Build)
    } else if clicks.save_all && has_project {
        Some(AppAction::SaveAllFiles)
    } else if clicks.save_file && has_project {
        Some(AppAction::SaveActiveFile)
    } else if clicks.open_project {
        Some(AppAction::OpenProject)
    } else if clicks.new_project {
        Some(AppAction::NewProject)
    } else {
        None
    }
}

/// What the clicks in the bar ask for.
pub fn show(clicks: &TopBarClicks, status: BuildStatus, has_project: bool) -> (r: Option<AppAction>)
    ensures
        r == chosen_action(*clicks, status, has_project),
{
    let mut action: Option<AppAction> = None;
    if clicks.new_project {
        action = Some(AppAction::NewProject);
    }
    if clicks.open_project {
        action = Some(AppAction::OpenProject);
    }
    if clicks.save_file && has_project {
        action = Some(AppAction::SaveActiveFile);
    }
    if clicks.save_all && has_project {
        action = Some(AppAction::SaveAllFiles);
    }
    if clicks.build && has_project && status != BuildStatus::Building {
        action = Some(AppAction::Build);
    }
    action
}

/// Without a project only making and opening one can be asked for; while one
/// builds, no other build can be. Of several clicks the last one in the bar
/// counts.
pub proof fn law_clicks_ask_for_what_can_be_done(
    clicks: TopBarClicks,
    status: BuildStatus,
    has_project: bool,
)
    ensures
        can_build(status, has_project) <==> has_project && status != BuildStatus::Building,
        !has_project ==> chosen_action(clicks, status, has_project) != Some(AppAction::Build)
            && chosen_action(clicks, status, has_project) != Some(AppAction::SaveActiveFile)
            && chosen_action(clicks, status, has_project) != Some(AppAction::SaveAllFiles),
        status == BuildStatus::Building ==> chosen_action(clicks, status, has_project) != Some(
            AppAction::Build,
        ),
        clicks.build && has_project && status != BuildStatus::Building ==> chosen_action(
            clicks,
            status,
            has_project,
        ) == Some(AppAction::Build),
        has_project && clicks.save_all && !clicks.build ==> chosen_action(
            clicks,
            status,
            has_project,
        ) == Some(AppAction::SaveAllFiles),
        has_project && clicks.save_file && !clicks.save_all && !clicks.build ==> chosen_action(
            clicks,
            status,
            has_project,
        ) == Some(AppAction::SaveActiveFile),
        clicks.open_project && !clicks.save_file && !clicks.save_all && !clicks.build
            ==> chosen_action(clicks, status, has_project) == Some(AppAction::OpenProject),
        clicks.new_project && !clicks.open_project && !clicks.save_file && !clicks.save_all
            && !clicks.build ==> chosen_action(clicks, status, has_project) == Some(
            AppAction::NewProject,
        ),
        !clicks.new_project && !clicks.open_project && !clicks.save_file && !clicks.save_all
            && !clicks.build ==> chosen_action(clicks, status, has_project) is None,
{
}

} // verus!
