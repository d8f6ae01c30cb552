//! Build commands understood by the `nova-forge.sh` script.

use vstd::prelude::*;

use crate::paths::{join, path_join};
use crate::project::{WorkspaceManifest, BUILD_SCRIPT};

verus! {

/// A build command that maps to a `nova-forge.sh` sub-command.
#[derive(Debug, Clone, Copy, PartialEq, Eq, Structural)]
pub enum BuildCommand {
    /// `nova-forge.sh build` — debug build.
    Build,
    /// `nova-forge.sh release` — optimised release build.
    Release,
    /// `nova-forge.sh clean` — remove build artefacts.
    Clean,
    /// `nova-forge.sh run` — build and launch the game client.
    Run,
    /// `nova-forge.sh server` — build and launch a dedicated server.
    RunServer,
    /// `nova-forge.sh test` — run the Nova-Forge test suite.
    Test,
}

/// The sub-command argument that `cmd` passes to the build script.
pub open spec fn script_arg_spec(cmd: BuildCommand) -> Seq<char> {
    match cmd {
        BuildCommand::Build => "build"@,
        BuildCommand::Release => "release"@,
        BuildCommand::Clean => "clean"@,
        BuildCommand::Run => "run"@,
        BuildCommand::RunServer => "server"@,
        BuildCommand::Test => "test"@,
    }
}

impl BuildCommand {
    /// The sub-command argument passed to `nova-forge.sh`.
    pub fn script_arg(self) -> (arg: &'static str)
        ensures
            arg@ == script_arg_spec(self),
    {
        match self {
            BuildCommand::Build => "build",
            BuildCommand::Release => "release",
            BuildCommand::Clean => "clean",
            BuildCommand::Run => "run",
            BuildCommand::RunServer => "server",
            BuildCommand::Test => "test",
        }
    }
}


/// Human-readable label of `cmd` in the Build Tool UI.
pub open spec fn label_spec(cmd: BuildCommand) -> Seq<char> {
    match cmd {
        BuildCommand::Build => "Build (debug)"@,
        BuildCommand::Release => "Build (release)"@,
        BuildCommand::Clean => "Clean"@,
        BuildCommand::Run => "Run"@,
        BuildCommand::RunServer => "Run Server"@,
        BuildCommand::Test => "Test"@,
    }
}

impl BuildCommand {
    /// Human-readable label used in the Build Tool UI.
    pub fn label(self) -> (label: &'static str)
        ensures
            label@ == label_spec(self),
    {
        match self {
            BuildCommand::Build => "Build (debug)",
            BuildCommand::Release => "Build (release)",
            BuildCommand::Clean => "Clean",
            BuildCommand::Run => "Run",
            BuildCommand::RunServer => "Run Server",
            BuildCommand::Test => "Test",
        }
    }
}

/// The build script inside the Nova-Forge repository at `nova_forge_path`.
pub fn manifest_build_script(nova_forge_path: &str) -> (p: String)
    ensures
        p@ == path_join(nova_forge_path@, BUILD_SCRIPT@),
{
    join(nova_forge_path, BUILD_SCRIPT)
}

/// Runs `nova-forge.sh` commands; the process itself is started by the
/// application, which streams its output back as log lines.
#[derive(Debug)]
pub struct BuildRunner {
    /// Path to the Nova-Forge repository root.
    pub nova_forge_path: String,
}

impl BuildRunner {
    /// Create a new runner pointing at the given Nova-Forge repository root.
    pub fn new(nova_forge_path: String) -> (r: Self)
        ensures
            r.nova_forge_path == nova_forge_path,
    {
        BuildRunner { nova_forge_path }
    }

    /// Create a runner from a [`WorkspaceManifest`].
    pub fn from_manifest(manifest: &WorkspaceManifest) -> (r: Self)
        ensures
            r.nova_forge_path@ == manifest.nova_forge_path@,
    {
        BuildRunner::new(crate::text::owned(manifest.nova_forge_path.as_str()))
    }

    /// The script the runner starts, with the repository root as its
    /// working directory.
    pub fn script_path(&self) -> (p: String)
        ensures
            p@ == path_join(self.nova_forge_path@, BUILD_SCRIPT@),
    {
        manifest_build_script(self.nova_forge_path.as_str())
    }

    /// The first log line of a run of `cmd`: `[workspace] Running: <script> <arg>`.
    pub fn run_banner(&self, cmd: BuildCommand) -> (line: String)
        ensures
            line@ == "[workspace] Running: "@ + path_join(self.nova_forge_path@, BUILD_SCRIPT@) + " "@
                + script_arg_spec(cmd),
    {
        let mut line = crate::text::owned("[workspace] Running: ");
        let script = self.script_path();
        line.append(script.as_str());
        line.append(" ");
        line.append(cmd.script_arg());
        line
    }
}

} // verus!
