//! The dialog that asks for a new project's name and place.

use crate::text::{chars_of, join2, owned};
use vstd::prelude::*;

verus! {

/// The dialog for a new project.
#[derive(Debug, Clone)]
pub struct NewProjectDialog {
    pub is_open: bool,
    pub project_name: String,
    pub parent_dir: Option<String>,
    pub error: Option<String>,
}

/// What the dialog came to in a frame.
#[derive(Debug, Clone, PartialEq, Eq)]
pub enum NewProjectResult {
    Nothing,
    Cancelled,
    Create { project_name: String, parent_dir: String },
}

/// What the user did in the dialog in a frame.
#[derive(Debug, Clone, Copy, PartialEq, Eq)]
pub struct DialogInput {
    pub create_clicked: bool,
    pub enter_pressed: bool,
    pub cancel_clicked: bool,
    /// The dialog's window was closed.
    pub window_closed: bool,
}

impl Default for NewProjectDialog {
    /// A closed dialog.
    fn default() -> (r: Self)
        ensures
            !r.is_open,
            r.project_name@ == ""@,
            r.parent_dir is None,
            r.error is None,
    {
        NewProjectDialog {
            is_open: false,
            project_name: owned(""),
            parent_dir: None,
            error: None,
        }
    }
}

impl NewProjectDialog {
    /// Opens the dialog with no name, in the user's documents, or else in
    /// their home.
    pub fn open(&mut self, document_dir: Option<String>, home_dir: Option<String>)
        ensures
            final(self).is_open,
            final(self).project_name@ == ""@,
            final(self).error is None,
            final(self).parent_dir == (match document_dir {
                Some(_) => document_dir,
                None => home_dir,
            }),
    {
        self.is_open = true;
        self.project_name = owned("");
        self.error = None;
        self.parent_dir = match document_dir {
            Some(dir) => Some(dir),
            None => home_dir,
        };
    }

    /// Takes over the directory that the user picked, if one was.
    pub fn picked(&mut self, dir: Option<String>)
        ensures
            *final(self) == (NewProjectDialog {
                parent_dir: match dir {
                    Some(_) => dir,
                    None => old(self).parent_dir,
                },
                ..*old(self)
            }),
    {
        match dir {
            Some(d) => {
                self.parent_dir = Some(d);
            },
            None => {},
        }
    }

    /// Whether there is enough to make a project of.
    pub open spec fn is_complete(&self) -> bool {
        self.project_name@.len() > 0 && self.parent_dir is Some
    }

    /// Whether there is enough to make a project of.
    pub fn can_create(&self) -> (r: bool)
        ensures
            r == self.is_complete(),
    {
        chars_of(self.project_name.as_str()).len() > 0 && self.parent_dir.is_some()
    }

    /// Whether the name's field should get the focus: it is empty and has it
    /// not.
    pub fn wants_focus(&self, has_focus: bool) -> (r: bool)
        ensures
            r == (!has_focus && self.project_name@.len() == 0),
    {
        !has_focus && chars_of(self.project_name.as_str()).len() == 0
    }

    /// The place, as it is shown.
    pub fn location(&self) -> (r: String)
        ensures
            r@ == (match self.parent_dir {
                Some(dir) => dir@,
                None => "Not selected"@,
            }),
    {
        match &self.parent_dir {
            Some(dir) => owned(dir.as_str()),
            None => owned("Not selected"),
        }
    }

    /// What is shown of the new project's path, once there is one.
    pub fn preview(&self, joined: &str) -> (r: Option<String>)
        ensures
            match r {
                Some(line) => self.is_complete() && line@ == "→ "@ + joined@,
                None => !self.is_complete(),
            },
    {
        if self.can_create() {
            Some(join2("→ ", joined))
        } else {
            None
        }
    }

    /// Whether the user asked for the project, and it can be made.
    pub open spec fn creates(&self, input: DialogInput) -> bool {
        (input.create_clicked || input.enter_pressed) && self.is_complete()
    }

    /// Ends a frame of the dialog. Closing it, or else cancelling it, comes
    /// before making the project.
    pub fn show(&mut self, input: &DialogInput) -> (r: NewProjectResult)
        ensures
            if !old(self).is_open {
                r == NewProjectResult::Nothing && *final(self) == *old(self)
            } else {
                &&& final(self).is_open == !(input.window_closed || input.cancel_clicked
                    || old(self).creates(*input))
                &&& *final(self) == (NewProjectDialog {
                    is_open: final(self).is_open,
                    ..*old(self)
                })
                &&& if input.window_closed || input.cancel_clicked {
                    r == NewProjectResult::Cancelled
                } else if old(self).creates(*input) {
                    &&& r matches NewProjectResult::Create { project_name, parent_dir }
                    &&& project_name@ == old(self).project_name@
                    &&& parent_dir@ == (old(self).parent_dir->0)@
                } else {
                    r == NewProjectResult::Nothing
                }
            },
    {
        if !self.is_open {
            return NewProjectResult::Nothing;
        }
        let mut result: NewProjectResult = NewProjectResult::Nothing;
        if (input.create_clicked || input.enter_pressed) && self.can_create() {
            match &self.parent_dir {
                Some(dir) => {
                    result =
                    NewProjectResult::Create {
                        project_name: owned(self.project_name.as_str()),
                        parent_dir: owned(dir.as_str()),
                    };
                },
                None => {},
            }
            self.is_open = false;
        }
        if input.cancel_clicked {
            result = NewProjectResult::Cancelled;
            self.is_open = false;
        }
        if input.window_closed {
            self.is_open = false;
            return NewProjectResult::Cancelled;
        }
        result
    }
}

/// A project is made exactly where it is asked for, by the button or the
/// enter key, and both a name and a place are given.
pub proof fn law_projects_need_a_name_and_a_place(dialog: NewProjectDialog, input: DialogInput)
    ensures
        dialog.creates(input) <==> (input.create_clicked || input.enter_pressed)
            && dialog.project_name@.len() > 0 && dialog.parent_dir is Some,
        dialog.is_complete() <==> dialog.project_name@.len() > 0 && dialog.parent_dir is Some,
{
}

} // verus!
