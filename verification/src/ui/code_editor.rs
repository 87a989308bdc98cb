//! The editor: its tabs, and what typing in it does.

use crate::project::{active_after_close, OpenFile, Project};
use crate::text::{join2, owned, same_text};
use vstd::prelude::*;

verus! {

/// How a file's text is colored.
#[derive(Debug, Clone, Copy, PartialEq, Eq, Structural)]
pub enum SyntaxKind {
    Rust,
    Plain,
}

/// The syntax of a file, by its extension.
pub fn detect_syntax(extension: Option<&str>) -> (r: SyntaxKind)
    ensures
        r == (if extension matches Some(e) && e@ == "rs"@ {
            SyntaxKind::Rust
        } else {
            SyntaxKind::Plain
        }),
{
    match extension {
        Some(e) => if same_text(e, "rs") {
            SyntaxKind::Rust
        } else {
            SyntaxKind::Plain
        },
        None => SyntaxKind::Plain,
    }
}

/// The label of a file's tab: its name, with a dot before it while it is
/// unsaved.
pub open spec fn tab_text(modified: bool, file_name: Option<&str>) -> Seq<char> {
    let name = match file_name {
        Some(n) => n@,
        None => "untitled"@,
    };
    if modified {
        "● "@ + name
    } else {
        name
    }
}

/// The label of a file's tab.
pub fn tab_label(file: &OpenFile, file_name: Option<&str>) -> (r: String)
    ensures
        r@ == tab_text(file.modified, file_name),
{
    let name: &str = match file_name {
        Some(n) => n,
        None => "untitled",
    };
    if file.modified {
        join2("● ", name)
    } else {
        owned(name)
    }
}

/// The active file after a tab was switched to.
pub open spec fn switched(active: Option<usize>, switch: Option<usize>) -> Option<usize> {
    match switch {
        Some(i) => Some(i),
        None => active,
    }
}

/// Takes over the clicks on the tabs in one frame: one that switches to a
/// file, and then one that closes a file.
pub fn click_tabs(project: &mut Project, switch: Option<usize>, close: Option<usize>)
    requires
        old(project).wf(),
        switch matches Some(i) ==> i < old(project).open_files@.len(),
    ensures
        final(project).wf(),
        final(project).config == old(project).config,
        match close {
            Some(i) => if i < old(project).open_files@.len() {
                &&& final(project).open_files@ == old(project).open_files@.remove(i as int)
                &&& final(project).active_file_index == active_after_close(
                    switched(old(project).active_file_index, switch),
                    i,
                    (old(project).open_files@.len() - 1) as nat,
                )
            } else {
                &&& final(project).open_files == old(project).open_files
                &&& final(project).active_file_index == switched(
                    old(project).active_file_index,
                    switch,
                )
            },
            None => {
                &&& final(project).open_files == old(project).open_files
                &&& final(project).active_file_index == switched(
                    old(project).active_file_index,
                    switch,
                )
            },
        },
{
    match switch {
        Some(i) => {
            project.active_file_index = Some(i);
        },
        None => {},
    }
    match close {
        Some(i) => {
            project.close_file(i);
        },
        None => {},
    }
}

/// A file whose text is now `content`: unsaved if that is another text.
pub open spec fn is_edited(before: OpenFile, content: Seq<char>, after: OpenFile) -> bool {
    &&& after.path == before.path
    &&& after.content@ == content
    &&& after.modified == (before.modified || content != before.content@)
}

/// Takes over the active file's text from the editor.
pub fn edit(project: &mut Project, content: String)
    requires
        old(project).wf(),
    ensures
        final(project).wf(),
        final(project).config == old(project).config,
        final(project).active_file_index == old(project).active_file_index,
        match old(project).active_file_index {
            Some(i) => {
                &&& final(project).open_files@.len() == old(project).open_files@.len()
                &&& is_edited(
                    old(project).open_files@[i as int],
                    content@,
                    final(project).open_files@[i as int],
                )
                &&& forall|j: int|
                    0 <= j < old(project).open_files@.len() && j != i
                        ==> #[trigger] final(project).open_files@[j] == old(project).open_files@[j]
            },
            None => *final(project) == *old(project),
        },
{
    match project.active_file_index {
        Some(i) => {
            let changed: bool = !same_text(project.open_files[i].content.as_str(), content.as_str());
            project.open_files[i].content = content;
            if changed {
                project.open_files[i].modified = true;
            }
        },
        None => {},
    }
}

/// A file becomes unsaved when its text changes, and stays so; what is typed
/// is its text, and its path stays.
pub proof fn law_edited_files_are_unsaved(before: OpenFile, content: Seq<char>, after: OpenFile)
    requires
        is_edited(before, content, after),
    ensures
        after.content@ == content,
        after.path == before.path,
        content != before.content@ ==> after.modified,
        before.modified ==> after.modified,
        content == before.content@ && !before.modified ==> !after.modified,
{
}

/// A tab bears its file's name, and a dot before it exactly while it is
/// unsaved.
pub proof fn law_tabs_mark_unsaved_files(name: &str)
    ensures
        tab_text(false, Some(name)) == name@,
        tab_text(true, Some(name)) == "● "@ + name@,
        tab_text(false, None) == "untitled"@,
        tab_text(true, None) == "● "@ + "untitled"@,
{
}

/// A click on a tab makes its file active; without one the active file stays.
pub proof fn law_clicked_tabs_become_active(active: Option<usize>, i: usize)
    ensures
        switched(active, Some(i)) == Some(i),
        switched(active, None) == active,
{
}

} // verus!
