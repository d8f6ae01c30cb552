//! The launcher: opens a project and starts the game, a LAN server or the
//! editor suite. The application starts the processes; this state decides
//! what to start and what the status line says.

use vstd::prelude::*;

use crate::editor_app::{record_recent, recent_after, texts};
use crate::paths::path_join;
use crate::project::{WorkspaceManifest, BUILD_SCRIPT, CLIENT_BINARY};
use crate::text::{trim, trimmed};

verus! {

/// The status shown when an action needs a project and none is open.
pub open spec fn no_project_status() -> Seq<char> {
    "No project loaded. Open a novaforge.workspace.toml first."@
}

/// State of the launcher window.
pub struct LauncherApp {
    /// The open project.
    pub project: Option<WorkspaceManifest>,
    /// The project path typed by the user.
    pub project_path_input: String,
    /// Status line.
    pub status: String,
    /// Recently opened projects, most recent first.
    pub recent_projects: Vec<String>,
}

impl Default for LauncherApp {
    fn default() -> (app: Self)
        ensures
            app.project is None,
            app.project_path_input@.len() == 0,
            app.status@.len() == 0,
            app.recent_projects@.len() == 0,
    {
        LauncherApp {
            project: None,
            project_path_input: String::new(),
            status: String::new(),
            recent_projects: Vec::new(),
        }
    }
}

impl LauncherApp {
    /// The first step of opening a project: the typed path, trimmed; a blank
    /// path is refused with a status message.
    pub fn project_path(&mut self) -> (p: Option<String>)
        ensures
            trimmed(old(self).project_path_input@).len() == 0 ==> p is None && final(self).status@
                == "Please enter a path."@,
            trimmed(old(self).project_path_input@).len() > 0 ==> (p matches Some(s) && s@ == trimmed(
                old(self).project_path_input@,
            ) && final(self).status == old(self).status),
            final(self).project == old(self).project,
            final(self).recent_projects == old(self).recent_projects,
            final(self).project_path_input == old(self).project_path_input,
    {
        let path = trim(self.project_path_input.as_str());
        if path.as_str().unicode_len() == 0 {
            self.status = crate::text::owned("Please enter a path.");
            return None;
        }
        Some(path)
    }

    /// The last step of opening a project whose canonical path is
    /// `canonical`: on success it becomes the open project and heads the
    /// recent list; on failure the status shows the error.
    pub fn load_project(&mut self, canonical: String, result: Result<WorkspaceManifest, String>)
        ensures
            result matches Ok(m) ==> {
                &&& final(self).project == Some(m)
                &&& final(self).status@ == "Opened: "@ + m.project_name@
                &&& texts(final(self).recent_projects@) == recent_after(texts(old(self).recent_projects@), canonical@)
            },
            result matches Err(e) ==> {
                &&& final(self).status@ == "Failed to load project: "@ + e@
                &&& final(self).project == old(self).project
                &&& final(self).recent_projects == old(self).recent_projects
            },
            final(self).project_path_input == old(self).project_path_input,
    {
        match result {
            Ok(manifest) => {
                let mut status = crate::text::owned("Opened: ");
                status.append(manifest.project_name.as_str());
                self.status = status;
                record_recent(&mut self.recent_projects, canonical);
                self.project = Some(manifest);
            },
            Err(e) => {
                let mut status = crate::text::owned("Failed to load project: ");
                status.append(e.as_str());
                self.status = status;
            },
        }
    }

    /// The header's project line, `Project: <name>`, when a project is open.
    pub fn project_line(&self) -> (line: Option<String>)
        ensures
            self.project is None ==> line is None,
            self.project matches Some(m) ==> line matches Some(l) && l@ == "Project: "@ + m.project_name@,
    {
        match &self.project {
            Some(m) => {
                let mut l = crate::text::owned("Project: ");
                l.append(m.project_name.as_str());
                Some(l)
            },
            None => None,
        }
    }

    /// "Play": the client binary of the open project to start, or a status
    /// message when no project is open.
    pub fn play_target(&mut self) -> (bin: Option<String>)
        ensures
            old(self).project is None ==> bin is None && final(self).status@ == no_project_status(),
            old(self).project matches Some(m) ==> (bin matches Some(b) && b@ == path_join(
                path_join(m.nova_forge_path@, "target/release"@),
                CLIENT_BINARY@,
            ) && final(self).status == old(self).status),
            final(self).project == old(self).project,
    {
        match &self.project {
            Some(project) => Some(project.nova_forge_binary()),
            None => {
                self.status = crate::text::owned("No project loaded. Open a novaforge.workspace.toml first.");
                None
            },
        }
    }

    /// The application tried to start the client at `bin`.
    pub fn play_started(&mut self, bin: &str, result: Result<(), String>)
        ensures
            result is Ok ==> final(self).status@ == "Launched: "@ + bin@,
            result matches Err(e) ==> final(self).status@ == "Error launching game: "@ + e@,
            final(self).project == old(self).project,
    {
        let status = match result {
            Ok(()) => {
                let mut s = crate::text::owned("Launched: ");
                s.append(bin);
                s
            },
            Err(e) => {
                let mut s = crate::text::owned("Error launching game: ");
                s.append(e.as_str());
                s
            },
        };
        self.status = status;
    }

    /// "Host LAN": the build script to start with the `server` argument, or
    /// a status message when no project is open.
    pub fn server_target(&mut self) -> (script: Option<String>)
        ensures
            old(self).project is None ==> script is None && final(self).status@ == no_project_status(),
            old(self).project matches Some(m) ==> (script matches Some(s) && s@ == path_join(
                m.nova_forge_path@,
                BUILD_SCRIPT@,
            ) && final(self).status == old(self).status),
            final(self).project == old(self).project,
    {
        match &self.project {
            Some(project) => Some(project.build_script()),
            None => {
                self.status = crate::text::owned("No project loaded. Open a novaforge.workspace.toml first.");
                None
            },
        }
    }

    /// The application tried to start the server.
    pub fn server_started(&mut self, result: Result<(), String>)
        ensures
            result is Ok ==> final(self).status@ == "Server started."@,
            result matches Err(e) ==> final(self).status@ == "Error launching server: "@ + e@,
            final(self).project == old(self).project,
    {
        self.status = match result {
            Ok(()) => crate::text::owned("Server started."),
            Err(e) => {
                let mut s = crate::text::owned("Error launching server: ");
                s.append(e.as_str());
                s
            },
        };
    }

    /// The application looked for the editor suite next to the launcher:
    /// `None` when it is not there, else the outcome of starting it.
    pub fn editors_started(&mut self, outcome: Option<Result<(), String>>)
        ensures
            outcome is None ==> final(self).status@
                == "novaforge-editors not found. Run `cargo run -p novaforge-editors` directly."@,
            outcome matches Some(Ok(())) ==> final(self).status@ == "Editor suite launched."@,
            outcome matches Some(Err(e)) ==> final(self).status@ == "Error: "@ + e@,
            final(self).project == old(self).project,
    {
        self.status = match outcome {
            Some(Ok(())) => crate::text::owned("Editor suite launched."),
            Some(Err(e)) => {
                let mut s = crate::text::owned("Error: ");
                s.append(e.as_str());
                s
            },
            None => crate::text::owned(
                "novaforge-editors not found. Run `cargo run -p novaforge-editors` directly.",
            ),
        };
    }
}

} // verus!
