use nih_plug_playground::project::{OpenFile, Project};
use nih_plug_playground::ui::code_editor::{
    click_tabs, detect_syntax, edit, tab_label, SyntaxKind,
};

fn read(text: &str) -> Result<String, String> {
    Ok(text.to_string())
}

fn project() -> Project {
    Project::open("/p/gain".to_string(), Some("gain".to_string()), true).unwrap()
}

fn with_files(names: &[&str]) -> Project {
    let mut p = project();
    for name in names {
        p.open_file(name, &read(name)).unwrap();
    }
    p
}

#[test]
fn opening_a_missing_path_is_refused() {
    let opened = Project::open("/nowhere".to_string(), Some("nowhere".to_string()), false);
    assert_eq!(
        opened.err(),
        Some("Path does not exist: /nowhere".to_string())
    );
}

#[test]
fn a_project_goes_by_its_directory() {
    assert_eq!(project().config.name, "gain");
    assert_eq!(project().config.path, "/p/gain");
    let unnamed = Project::open("/".to_string(), None, true).unwrap();
    assert_eq!(unnamed.config.name, "untitled");
    assert_eq!(unnamed.active_file_index, None);
}

#[test]
fn opening_a_file_makes_it_active() {
    let mut p = project();
    assert_eq!(p.open_file("a.rs", &read("fn a() {}")), Ok(()));
    assert_eq!(p.open_file("b.rs", &read("fn b() {}")), Ok(()));
    assert_eq!(p.active_file_index, Some(1));
    let active = p.active_file().unwrap();
    assert_eq!(active.path, "b.rs");
    assert_eq!(active.content, "fn b() {}");
    assert!(!active.modified);
}

#[test]
fn opening_an_open_file_goes_to_it() {
    let mut p = with_files(&["a.rs", "b.rs"]);
    assert_eq!(p.open_file("a.rs", &Err("gone".to_string())), Ok(()));
    assert_eq!(p.active_file_index, Some(0));
    assert_eq!(p.open_files.len(), 2);
    assert_eq!(p.open_files[0].content, "a.rs");
    assert_eq!(p.find_open("b.rs"), Some(1));
    assert_eq!(p.find_open("c.rs"), None);
}

#[test]
fn an_unreadable_file_is_not_opened() {
    let mut p = with_files(&["a.rs"]);
    assert_eq!(
        p.open_file("b.rs", &Err("denied".to_string())),
        Err("Failed to read b.rs: denied".to_string())
    );
    assert_eq!(p.open_files.len(), 1);
    assert_eq!(p.active_file_index, Some(0));
}

#[test]
fn saving_the_active_file() {
    let mut p = with_files(&["a.rs", "b.rs"]);
    p.open_files[0].modified = true;
    p.active_file_mut().unwrap().modified = true;
    assert_eq!(
        p.save_active_file(Err("full".to_string())),
        Err("Failed to save b.rs: full".to_string())
    );
    assert!(p.open_files[1].modified);
    assert_eq!(p.save_active_file(Ok(())), Ok(()));
    assert!(!p.open_files[1].modified);
    assert!(p.open_files[0].modified);
    assert_eq!(project().save_active_file(Err("full".to_string())), Ok(()));
}

#[test]
fn saving_all_files() {
    let mut p = with_files(&["a", "b", "c", "d"]);
    p.open_files[0].modified = true;
    p.open_files[2].modified = true;
    p.open_files[3].modified = true;
    assert_eq!(p.unsaved_files(), vec![0, 2, 3]);
    let mut failed = p.clone();
    assert_eq!(
        failed.save_all_files(&vec![Ok(()), Err("full".to_string())]),
        Err("Failed to save c: full".to_string())
    );
    let unsaved: Vec<bool> = failed.open_files.iter().map(|f| f.modified).collect();
    assert_eq!(unsaved, vec![false, false, true, true]);
    assert_eq!(p.save_all_files(&vec![Ok(()), Ok(()), Ok(())]), Ok(()));
    assert!(p.open_files.iter().all(|f| !f.modified));
    assert_eq!(p.unsaved_files().len(), 0);
    assert_eq!(p.save_all_files(&vec![]), Ok(()));
}

#[test]
fn closing_another_file_keeps_the_active_one() {
    let mut p = with_files(&["a", "b", "c"]);
    p.active_file_index = Some(1);
    p.close_file(0);
    assert_eq!(p.active_file().unwrap().path, "b");
    p.close_file(1);
    assert_eq!(p.active_file().unwrap().path, "b");
    p.close_file(7);
    assert_eq!(p.open_files.len(), 1);
}

#[test]
fn closing_the_active_file_moves_on() {
    let mut p = with_files(&["a", "b", "c"]);
    p.active_file_index = Some(1);
    p.close_file(1);
    assert_eq!(p.active_file().unwrap().path, "c");
    p.close_file(1);
    assert_eq!(p.active_file().unwrap().path, "a");
    p.close_file(0);
    assert_eq!(p.active_file_index, None);
    assert!(p.active_file().is_none());
    assert!(p.active_file_mut().is_none());
}

#[test]
fn closing_without_an_active_file() {
    let mut p = with_files(&["a", "b"]);
    p.active_file_index = None;
    p.close_file(0);
    assert_eq!(p.active_file_index, None);
    assert_eq!(p.open_files[0].path, "b");
}

#[test]
fn tabs_show_what_is_unsaved() {
    let mut file = OpenFile {
        path: "/p/src/lib.rs".to_string(),
        content: String::new(),
        modified: false,
    };
    assert_eq!(tab_label(&file, Some("lib.rs")), "lib.rs");
    file.modified = true;
    assert_eq!(tab_label(&file, Some("lib.rs")), "● lib.rs");
    assert_eq!(tab_label(&file, None), "● untitled");
}

#[test]
fn a_tab_is_switched_to_before_one_is_closed() {
    let mut p = with_files(&["a", "b", "c"]);
    click_tabs(&mut p, Some(0), Some(1));
    assert_eq!(p.active_file().unwrap().path, "a");
    assert_eq!(p.open_files.len(), 2);
    click_tabs(&mut p, Some(1), None);
    assert_eq!(p.active_file().unwrap().path, "c");
    click_tabs(&mut p, None, Some(1));
    assert_eq!(p.active_file().unwrap().path, "a");
}

#[test]
fn typing_marks_a_file_as_unsaved() {
    let mut p = with_files(&["a", "b"]);
    edit(&mut p, "b".to_string());
    assert!(!p.open_files[1].modified);
    edit(&mut p, "bc".to_string());
    assert!(p.open_files[1].modified);
    assert_eq!(p.open_files[1].content, "bc");
    edit(&mut p, "bc".to_string());
    assert!(p.open_files[1].modified);
    assert_eq!(p.open_files[0].content, "a");
    assert!(!p.open_files[0].modified);
}

#[test]
fn rust_files_are_colored() {
    assert_eq!(detect_syntax(Some("rs")), SyntaxKind::Rust);
    assert_eq!(detect_syntax(Some("toml")), SyntaxKind::Plain);
    assert_eq!(detect_syntax(None), SyntaxKind::Plain);
}
