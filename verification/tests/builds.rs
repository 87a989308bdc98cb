use nih_plug_playground::build_system::{
    announcements, bundle_command, bundle_result, finished_message, BuildMessage, BuildOutputLine,
    BuildStatus, BuildSystem, BundleOutcome,
};
use nih_plug_playground::ui::build_panel::{build_banner, line_color};
use nih_plug_playground::ui::top_bar::{build_button, show, status_label, TopBarClicks};
use nih_plug_playground::ui::Color;
use nih_plug_playground::app::AppAction;

fn line(text: &str, is_error: bool) -> BuildOutputLine {
    BuildOutputLine {
        text: text.to_string(),
        is_error,
    }
}

#[test]
fn nothing_is_built_at_first() {
    let mut build = BuildSystem::new();
    build.poll();
    assert_eq!(build.status, BuildStatus::Idle);
    assert_eq!(build.output_lines.len(), 0);
    assert_eq!(build.artifact_ready, None);
}

#[test]
fn a_build_that_succeeds() {
    let mut build = BuildSystem::new();
    let reports = build.start_build("/p/gain").unwrap();
    assert_eq!(build.status, BuildStatus::Building);
    assert_eq!(
        build.output_lines,
        vec![line("Bundling plugin at /p/gain...", false)]
    );
    reports.send(BuildMessage::Stdout("error in stdout".to_string())).unwrap();
    reports.send(BuildMessage::Stderr("   Compiling".to_string())).unwrap();
    build.poll();
    assert_eq!(build.status, BuildStatus::Building);
    assert!(build.receiver.is_some());
    reports.send(BuildMessage::Finished { success: true }).unwrap();
    build.poll();
    assert_eq!(build.status, BuildStatus::Success);
    assert!(build.receiver.is_none());
    assert_eq!(
        build.output_lines[1..],
        [
            line("error in stdout", false),
            line("   Compiling", false),
            line("✓ Bundle succeeded", false)
        ]
    );
    assert_eq!(build.take_artifact(), Some("/p/gain".to_string()));
    assert_eq!(build.take_artifact(), None);
}

#[test]
fn a_build_that_fails() {
    let mut build = BuildSystem::new();
    let reports = build.start_build("/p").unwrap();
    for text in ["error[E0425]", "Error: x", "cannot find value", "warning: x"] {
        reports.send(BuildMessage::Stderr(text.to_string())).unwrap();
    }
    reports.send(BuildMessage::Finished { success: false }).unwrap();
    build.poll();
    assert_eq!(build.status, BuildStatus::Failed);
    assert_eq!(build.artifact_ready, None);
    let errors: Vec<bool> = build.output_lines.iter().map(|l| l.is_error).collect();
    assert_eq!(errors, vec![false, true, true, true, false, true]);
    assert_eq!(build.output_lines[5].text, "✗ Bundle failed");
}

#[test]
fn one_build_runs_at_a_time() {
    let mut build = BuildSystem::new();
    let reports = build.start_build("/p");
    assert!(build.start_build("/q").is_none());
    assert_eq!(build.project_path, "/p");
    drop(reports);
    build.poll();
    assert_eq!(build.status, BuildStatus::Building);
    build.handle_message(&BuildMessage::Finished { success: true });
    assert!(build.start_build("/q").is_some());
    assert_eq!(build.output_lines.len(), 1);
    assert_eq!(build.artifact_ready, None);
}

#[test]
fn a_quiet_build_stays_as_it_is() {
    let mut build = BuildSystem::new();
    let reports = build.start_build("/p").unwrap();
    reports.send(BuildMessage::Stdout("a".to_string())).unwrap();
    reports.send(BuildMessage::Stdout("b".to_string())).unwrap();
    build.poll();
    assert_eq!(build.output_lines.len(), 3);
    build.poll();
    assert_eq!(build.output_lines.len(), 3);
    assert_eq!(build.status, BuildStatus::Building);
    assert!(build.receiver.is_some());
    reports.send(BuildMessage::Finished { success: false }).unwrap();
    build.poll();
    build.poll();
    assert_eq!(build.output_lines.len(), 4);
    assert_eq!(build.status, BuildStatus::Failed);
    assert!(build.receiver.is_none());
    let second = build.start_build("/p").unwrap();
    assert!(reports.send(BuildMessage::Finished { success: true }).is_err());
    second.send(BuildMessage::Finished { success: true }).unwrap();
    build.poll();
    assert_eq!(build.status, BuildStatus::Success);
}

#[test]
fn the_command_that_bundles() {
    let command = bundle_command("my-gain", "/home/me", "/usr/bin:/bin");
    assert_eq!(command.program, "cargo");
    assert_eq!(command.args, vec!["nih-plug", "bundle", "my-gain", "--release"]);
    assert_eq!(command.path, "/home/me/.cargo/bin:/usr/bin:/bin");
    assert_eq!(
        command.env_removed,
        vec![
            "CARGO_MANIFEST_DIR",
            "CARGO_PKG_NAME",
            "CARGO_PKG_VERSION",
            "CARGO_CRATE_NAME",
            "CARGO_PRIMARY_PACKAGE"
        ]
    );
    assert_eq!(bundle_command("x", "", "").path, "/.cargo/bin");
}

#[test]
fn what_is_announced() {
    assert_eq!(
        announcements("my-gain", "\"/p\""),
        vec![
            BuildMessage::Stdout("Running: cargo nih-plug bundle my-gain --release".to_string()),
            BuildMessage::Stdout("Run path: \"/p\" ".to_string())
        ]
    );
}

#[test]
fn what_running_the_command_comes_to() {
    let e = || "e".to_string();
    assert_eq!(bundle_result(&BundleOutcome::NoName(e())), Err(e()));
    assert_eq!(
        bundle_result(&BundleOutcome::NotSpawned(e())),
        Err(
            "Failed to spawn 'cargo nih-plug bundle'. Is cargo-nih-plug installed? Error: e"
                .to_string()
        )
    );
    assert_eq!(
        bundle_result(&BundleOutcome::NotWaited(e())),
        Err("Failed to wait on cargo: e".to_string())
    );
    let failed = BundleOutcome::Exited { success: false };
    let succeeded = BundleOutcome::Exited { success: true };
    assert_eq!(bundle_result(&failed), Err("Bundle failed".to_string()));
    assert_eq!(bundle_result(&succeeded), Ok(()));
    assert_eq!(finished_message(&failed), BuildMessage::Finished { success: false });
    assert_eq!(finished_message(&succeeded), BuildMessage::Finished { success: true });
}

#[test]
fn the_build_in_colors() {
    assert_eq!(build_banner(BuildStatus::Idle), ("Idle", Color::Gray));
    assert_eq!(build_banner(BuildStatus::Building), ("Building...", Color::Yellow));
    assert_eq!(build_banner(BuildStatus::Success), ("Success", Color::Green));
    assert_eq!(build_banner(BuildStatus::Failed), ("Failed", Color::Red));
    assert_eq!(line_color(&line("a warning", true)), Color::Rgb(255, 100, 100));
    assert_eq!(line_color(&line("✓ warning", false)), Color::Rgb(255, 200, 50));
    assert_eq!(line_color(&line("✓ done", false)), Color::Rgb(100, 255, 100));
    assert_eq!(line_color(&line("done ✓", false)), Color::Rgb(200, 200, 200));
}

#[test]
fn the_bar_at_the_top() {
    let ready = build_button(BuildStatus::Idle, true);
    assert!(ready.enabled);
    assert_eq!(ready.label, "▶ Run");
    assert_eq!(ready.color, Color::Rgb(100, 255, 100));
    let busy = build_button(BuildStatus::Building, true);
    assert!(!busy.enabled);
    assert_eq!(busy.label, "⏳ Building...");
    assert_eq!(busy.color, Color::Gray);
    assert!(!build_button(BuildStatus::Failed, false).enabled);
    assert_eq!(status_label(BuildStatus::Idle), ("Ready", Color::Gray));
    assert_eq!(status_label(BuildStatus::Building), ("Building...", Color::Yellow));
    assert_eq!(status_label(BuildStatus::Success), ("Build OK", Color::Green));
    assert_eq!(status_label(BuildStatus::Failed), ("Build Failed", Color::Red));
}

#[test]
fn the_last_click_in_the_bar_counts() {
    let mut clicks = TopBarClicks {
        new_project: true,
        open_project: false,
        save_file: true,
        save_all: false,
        build: true,
    };
    assert_eq!(show(&clicks, BuildStatus::Idle, true), Some(AppAction::Build));
    assert_eq!(
        show(&clicks, BuildStatus::Building, true),
        Some(AppAction::SaveActiveFile)
    );
    assert_eq!(show(&clicks, BuildStatus::Idle, false), Some(AppAction::NewProject));
    clicks.save_all = true;
    assert_eq!(
        show(&clicks, BuildStatus::Building, true),
        Some(AppAction::SaveAllFiles)
    );
    clicks.open_project = true;
    assert_eq!(
        show(&clicks, BuildStatus::Building, false),
        Some(AppAction::OpenProject)
    );
    let none = TopBarClicks {
        new_project: false,
        open_project: false,
        save_file: false,
        save_all: false,
        build: false,
    };
    assert_eq!(show(&none, BuildStatus::Idle, true), None);
}
