//! The Game File Editor: an inline editor for text-based asset files. The
//! application performs the reads and writes this state machine asks for.

use vstd::prelude::*;

use crate::asset_editor::{extension_of_path, is_text_ext, path_extension, text_extension};
use crate::paths::{file_name_of, path_file_name};
use crate::text::{lowercase, str_eq};

verus! {

/// The text of an `Option<String>`.
pub open spec fn opt_view(o: Option<String>) -> Option<Seq<char>> {
    match o {
        Some(s) => Some(s@),
        None => None,
    }
}

/// Game File Editor panel state.
pub struct GameFileEditor {
    /// The file currently open.
    pub open_path: Option<String>,
    /// Text content buffer.
    pub content: String,
    /// `true` when the buffer has unsaved changes.
    pub dirty: bool,
    /// Status / feedback message shown below the toolbar.
    pub status: String,
    /// The last selected file seen in the panel context, to detect when a
    /// new file is picked.
    pub last_ctx_file: Option<String>,
}

impl Default for GameFileEditor {
    fn default() -> (e: Self)
        ensures
            e.open_path is None,
            e.content@.len() == 0,
            !e.dirty,
            e.status@.len() == 0,
            e.last_ctx_file is None,
    {
        GameFileEditor {
            open_path: None,
            content: String::new(),
            dirty: false,
            status: String::new(),
            last_ctx_file: None,
        }
    }
}

fn clone_opt(o: Option<&String>) -> (r: Option<String>)
    ensures
        opt_view(r) == match o {
            Some(s) => Some(s@),
            None => None::<Seq<char>>,
        },
{
    match o {
        Some(s) => Some(crate::text::owned(s.as_str())),
        None => None,
    }
}

impl GameFileEditor {
    /// Follow the file selected elsewhere in the workspace: when it changed,
    /// remember it, and when it is a text file, return it for the
    /// application to read (then [`GameFileEditor::file_read`]).
    pub fn sync_selection(&mut self, selected_file: Option<&String>) -> (open: Option<String>)
        ensures
            ({
                let sel = match selected_file {
                    Some(s) => Some(s@),
                    None => None::<Seq<char>>,
                };
                if sel == opt_view(old(self).last_ctx_file) {
                    open is None && final(self).last_ctx_file == old(self).last_ctx_file
                } else {
                    &&& opt_view(final(self).last_ctx_file) == sel
                    &&& (sel is Some && text_extension(lowercase(path_extension(sel->0)))) ==> (open matches Some(o) && o@ == sel->0)
                    &&& !(sel is Some && text_extension(lowercase(path_extension(sel->0)))) ==> open is None
                }
            }),
            final(self).open_path == old(self).open_path,
            final(self).content == old(self).content,
            final(self).dirty == old(self).dirty,
            final(self).status == old(self).status,
    {
        let same = match (selected_file, &self.last_ctx_file) {
            (Some(a), Some(b)) => str_eq(a.as_str(), b.as_str()),
            (None, None) => true,
            _ => false,
        };
        if same {
            return None;
        }
        self.last_ctx_file = clone_opt(selected_file);
        match selected_file {
            Some(path) => {
                let ext = extension_of_path(path.as_str());
                if is_text_ext(ext.as_str()) {
                    Some(crate::text::owned(path.as_str()))
                } else {
                    None
                }
            },
            None => None,
        }
    }

    /// The application read `path`: on success the buffer holds its text,
    /// unmodified, and the file is open; on failure only the status changes.
    pub fn file_read(&mut self, path: String, result: Result<String, String>)
        ensures
            result matches Ok(text) ==> {
                &&& final(self).content == text
                &&& !final(self).dirty
                &&& final(self).status@ == "Opened: "@ + path@
                &&& final(self).open_path == Some(path)
            },
            result matches Err(e) ==> {
                &&& final(self).status@ == "Read error: "@ + e@
                &&& final(self).content == old(self).content
                &&& final(self).dirty == old(self).dirty
                &&& final(self).open_path == old(self).open_path
            },
            final(self).last_ctx_file == old(self).last_ctx_file,
    {
        match result {
            Ok(text) => {
                self.content = text;
                self.dirty = false;
                let mut status = crate::text::owned("Opened: ");
                status.append(path.as_str());
                self.status = status;
                self.open_path = Some(path);
            },
            Err(e) => {
                let mut status = crate::text::owned("Read error: ");
                status.append(e.as_str());
                self.status = status;
            },
        }
    }

    /// Ask to write the buffer back: returns the file and the text to write,
    /// or reports that no file is open.
    pub fn save(&mut self) -> (write: Option<(String, String)>)
        ensures
            old(self).open_path is None ==> write is None && final(self).status@ == "No file open."@,
            old(self).open_path matches Some(p) ==> (write matches Some(w) && w.0@ == p@ && w.1@ == old(self).content@
                && final(self).status == old(self).status),
            final(self).open_path == old(self).open_path,
            final(self).content == old(self).content,
            final(self).dirty == old(self).dirty,
            final(self).last_ctx_file == old(self).last_ctx_file,
    {
        match &self.open_path {
            None => {
                self.status = crate::text::owned("No file open.");
                None
            },
            Some(path) => Some((crate::text::owned(path.as_str()), crate::text::owned(self.content.as_str()))),
        }
    }

    /// Save only when there are unsaved changes (the Ctrl+S shortcut).
    pub fn save_if_dirty(&mut self) -> (write: Option<(String, String)>)
        ensures
            !old(self).dirty ==> write is None && final(self).status == old(self).status,
            old(self).dirty && old(self).open_path is None ==> write is None && final(self).status@ == "No file open."@,
            old(self).dirty ==> (old(self).open_path matches Some(p) ==> (write matches Some(w) && w.0@ == p@
                && w.1@ == old(self).content@ && final(self).status == old(self).status)),
            final(self).open_path == old(self).open_path,
            final(self).content == old(self).content,
            final(self).dirty == old(self).dirty,
            final(self).last_ctx_file == old(self).last_ctx_file,
    {
        if self.dirty {
            self.save()
        } else {
            None
        }
    }

    /// The application wrote the buffer to `path`: success clears the
    /// unsaved-changes flag; failure is reported in the status.
    pub fn file_written(&mut self, path: &str, result: Result<(), String>)
        ensures
            result is Ok ==> !final(self).dirty && final(self).status@ == "Saved → "@ + path@,
            result matches Err(e) ==> final(self).dirty == old(self).dirty && final(self).status@ == "Write error: "@ + e@,
            final(self).open_path == old(self).open_path,
            final(self).content == old(self).content,
    {
        match result {
            Ok(()) => {
                self.dirty = false;
                let mut status = crate::text::owned("Saved → ");
                status.append(path);
                self.status = status;
            },
            Err(e) => {
                let mut status = crate::text::owned("Write error: ");
                status.append(e.as_str());
                self.status = status;
            },
        }
    }

    /// The toolbar title of the open file: a pencil badge and a star when
    /// there are unsaved changes, a page badge otherwise, and the file's
    /// name (`?` for a path without one). `None` when no file is open.
    pub fn title_line(&self) -> (title: Option<String>)
        ensures
            self.open_path is None ==> title is None,
            self.open_path matches Some(p) ==> title matches Some(t) && t@ == (if self.dirty {
                "✏ "@
            } else {
                "📄 "@
            }) + (match path_file_name(p@) {
                Some(n) => n,
                None => "?"@,
            }) + (if self.dirty {
                " *"@
            } else {
                ""@
            }),
    {
        match &self.open_path {
            None => None,
            Some(p) => {
                let mut t = if self.dirty {
                    crate::text::owned("✏ ")
                } else {
                    crate::text::owned("📄 ")
                };
                match file_name_of(p.as_str()) {
                    Some(n) => t.append(n.as_str()),
                    None => t.append("?"),
                }
                t.append(if self.dirty {
                    " *"
                } else {
                    ""
                });
                Some(t)
            },
        }
    }

    /// The user edited the buffer.
    pub fn edit(&mut self, content: String)
        ensures
            final(self).content == content,
            final(self).dirty,
            final(self).open_path == old(self).open_path,
    {
        self.content = content;
        self.dirty = true;
    }

    /// Close the file without saving.
    pub fn close(&mut self)
        ensures
            final(self).open_path is None,
            final(self).content@.len() == 0,
            !final(self).dirty,
            final(self).status@.len() == 0,
            final(self).last_ctx_file == old(self).last_ctx_file,
    {
        self.open_path = None;
        self.content = String::new();
        self.dirty = false;
        self.status = String::new();
    }
}

} // verus!
