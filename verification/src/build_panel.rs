//! The Build Tool panel: build buttons and the log of the running build.

use vstd::prelude::*;

use crate::build_runner::{label_spec, BuildCommand, BuildRunner};
use crate::text::{is_prefix, starts_with};

verus! {

/// Severity of a build log line.
#[derive(Clone, Copy, Debug, PartialEq, Eq, Structural)]
pub enum LogLevel {
    Info,
    Done,
    Error,
}

/// The level of a log line, from its `[done]` or `[error]` prefix.
pub open spec fn line_level(line: Seq<char>) -> LogLevel {
    if is_prefix("[done]"@, line) {
        LogLevel::Done
    } else if is_prefix("[error]"@, line) {
        LogLevel::Error
    } else {
        LogLevel::Info
    }
}

/// Text of the first log line of a fresh panel.
pub open spec fn ready_message() -> Seq<char> {
    "NovaForge Build Tool ready. Open a project and press Build."@
}

/// Text logged when a build is requested without a project.
pub open spec fn no_project_message() -> Seq<char> {
    "[error] No project loaded — cannot resolve nova-forge.sh path."@
}

/// The log line a build request of `cmd` adds: its label between dashes
/// when a project gives the script's place, else the no-project error.
pub open spec fn trigger_line(cmd: BuildCommand, has_project: bool) -> (LogLevel, Seq<char>) {
    if has_project {
        (LogLevel::Info, "--- "@ + label_spec(cmd) + " ---"@)
    } else {
        (LogLevel::Error, no_project_message())
    }
}

impl LogLevel {
    /// The display colour of the level, as red, green and blue.
    pub fn colour(self) -> (rgb: (u8, u8, u8))
        ensures
            self == LogLevel::Info ==> rgb == (200u8, 200u8, 215u8),
            self == LogLevel::Done ==> rgb == (100u8, 220u8, 100u8),
            self == LogLevel::Error ==> rgb == (240u8, 100u8, 100u8),
    {
        match self {
            LogLevel::Info => (200, 200, 215),
            LogLevel::Done => (100, 220, 100),
            LogLevel::Error => (240, 100, 100),
        }
    }

    /// The level of a log line: `[done]` and `[error]` prefixes mark the end
    /// of a build.
    pub fn from_line(line: &str) -> (level: LogLevel)
        ensures
            level == line_level(line@),
    {
        if starts_with(line, "[done]") {
            LogLevel::Done
        } else if starts_with(line, "[error]") {
            LogLevel::Error
        } else {
            LogLevel::Info
        }
    }
}

/// The views of a build log.
pub open spec fn log_view(lines: Seq<(LogLevel, String)>) -> Seq<(LogLevel, Seq<char>)> {
    lines.map_values(|l: (LogLevel, String)| (l.0, l.1@))
}

/// Build Tool panel state.
pub struct BuildToolPanel {
    /// The log shown in the panel.
    pub log_lines: Vec<(LogLevel, String)>,
    /// The runner of the last build started.
    pub runner: Option<BuildRunner>,
    /// A build is running (its output is still streaming).
    pub running: bool,
    /// The log view follows new lines.
    pub auto_scroll: bool,
}

impl Default for BuildToolPanel {
    fn default() -> (p: Self)
        ensures
            log_view(p.log_lines@) == seq![(LogLevel::Info, ready_message())],
            p.runner is None,
            !p.running,
            p.auto_scroll,
    {
        let mut log_lines: Vec<(LogLevel, String)> = Vec::new();
        log_lines.push(
            (LogLevel::Info, crate::text::owned("NovaForge Build Tool ready. Open a project and press Build.")),
        );
        assert(log_view(log_lines@) =~= seq![(LogLevel::Info, ready_message())]);
        BuildToolPanel { log_lines, runner: None, running: false, auto_scroll: true }
    }
}

impl BuildToolPanel {
    /// Request a build: with a project, the panel marks a build as running,
    /// logs `--- <label> ---` and hands back the runner whose process the
    /// application starts; without one it logs an error.
    pub fn trigger(&mut self, cmd: BuildCommand, nova_forge_path: Option<&String>) -> (start: Option<BuildRunner>)
        ensures
            nova_forge_path matches Some(p) ==> {
                &&& start matches Some(r) && r.nova_forge_path@ == p@
                &&& final(self).runner matches Some(r) && r.nova_forge_path@ == p@
                &&& final(self).running
                &&& log_view(final(self).log_lines@) == log_view(old(self).log_lines@).push(
                    (LogLevel::Info, "--- "@ + label_spec(cmd) + " ---"@),
                )
            },
            nova_forge_path is None ==> {
                &&& start is None
                &&& final(self).runner == old(self).runner
                &&& final(self).running == old(self).running
                &&& log_view(final(self).log_lines@) == log_view(old(self).log_lines@).push(
                    (LogLevel::Error, no_project_message()),
                )
            },
            final(self).auto_scroll == old(self).auto_scroll,
    {
        self.spawn_command(cmd, nova_forge_path)
    }

    fn spawn_command(&mut self, cmd: BuildCommand, nova_forge_path: Option<&String>) -> (start: Option<BuildRunner>)
        ensures
            nova_forge_path matches Some(p) ==> {
                &&& start matches Some(r) && r.nova_forge_path@ == p@
                &&& final(self).runner matches Some(r) && r.nova_forge_path@ == p@
                &&& final(self).running
                &&& log_view(final(self).log_lines@) == log_view(old(self).log_lines@).push(
                    (LogLevel::Info, "--- "@ + label_spec(cmd) + " ---"@),
                )
            },
            nova_forge_path is None ==> {
                &&& start is None
                &&& final(self).runner == old(self).runner
                &&& final(self).running == old(self).running
                &&& log_view(final(self).log_lines@) == log_view(old(self).log_lines@).push(
                    (LogLevel::Error, no_project_message()),
                )
            },
            final(self).auto_scroll == old(self).auto_scroll,
    {
        match nova_forge_path {
            Some(path) => {
                self.runner = Some(BuildRunner::new(crate::text::owned(path.as_str())));
                self.running = true;
                let mut line = crate::text::owned("--- ");
                line.append(cmd.label());
                line.append(" ---");
                self.log_lines.push((LogLevel::Info, line));
                assert(log_view(self.log_lines@) =~= log_view(old(self).log_lines@).push(
                    (LogLevel::Info, "--- "@ + label_spec(cmd) + " ---"@),
                ));
                Some(BuildRunner::new(crate::text::owned(path.as_str())))
            },
            None => {
                self.log_lines.push(
                    (
                        LogLevel::Error,
                        crate::text::owned("[error] No project loaded — cannot resolve nova-forge.sh path."),
                    ),
                );
                assert(log_view(self.log_lines@) =~= log_view(old(self).log_lines@).push(
                    (LogLevel::Error, no_project_message()),
                ));
                None
            },
        }
    }

    /// A build button of the panel. The buttons are disabled while a build
    /// runs, so a press then does nothing; otherwise it requests the build
    /// as [`BuildToolPanel::trigger`] does.
    pub fn press_button(&mut self, cmd: BuildCommand, nova_forge_path: Option<&String>) -> (start: Option<BuildRunner>)
        ensures
            old(self).running ==> start is None && log_view(final(self).log_lines@) == log_view(old(self).log_lines@)
                && final(self).running && final(self).runner == old(self).runner,
            !old(self).running ==> {
                &&& nova_forge_path matches Some(p) ==> {
                    &&& start matches Some(r) && r.nova_forge_path@ == p@
                    &&& final(self).runner matches Some(r) && r.nova_forge_path@ == p@
                    &&& final(self).running
                    &&& log_view(final(self).log_lines@) == log_view(old(self).log_lines@).push(
                        (LogLevel::Info, "--- "@ + label_spec(cmd) + " ---"@),
                    )
                }
                &&& nova_forge_path is None ==> {
                    &&& start is None
                    &&& final(self).runner == old(self).runner
                    &&& !final(self).running
                    &&& log_view(final(self).log_lines@) == log_view(old(self).log_lines@).push(
                        (LogLevel::Error, no_project_message()),
                    )
                }
            },
            final(self).auto_scroll == old(self).auto_scroll,
    {
        if self.running {
            return None;
        }
        self.spawn_command(cmd, nova_forge_path)
    }

    /// The state shown beside the buttons: `Building…` while a build runs,
    /// else `Ready`.
    pub fn state_label(&self) -> (label: &'static str)
        ensures
            self.running ==> label@ == "Building…"@,
            !self.running ==> label@ == "Ready"@,
    {
        if self.running {
            "Building…"
        } else {
            "Ready"
        }
    }

    /// A log line arrived from the running build: it is appended with its
    /// level, and a `[done]` or `[error]` line ends the build.
    pub fn receive_line(&mut self, line: String)
        ensures
            log_view(final(self).log_lines@) == log_view(old(self).log_lines@).push((line_level(line@), line@)),
            final(self).running == (old(self).running && line_level(line@) == LogLevel::Info),
            final(self).runner == old(self).runner,
            final(self).auto_scroll == old(self).auto_scroll,
    {
        let level = LogLevel::from_line(line.as_str());
        if level == LogLevel::Done || level == LogLevel::Error {
            self.running = false;
        }
        let ghost v = line@;
        self.log_lines.push((level, line));
        assert(log_view(self.log_lines@) =~= log_view(old(self).log_lines@).push((line_level(v), v)));
    }

    /// The build's output channel closed: the build is over.
    pub fn output_closed(&mut self)
        ensures
            !final(self).running,
            final(self).log_lines == old(self).log_lines,
            final(self).runner == old(self).runner,
            final(self).auto_scroll == old(self).auto_scroll,
    {
        self.running = false;
    }

    /// One poll of the build's output: the lines that arrived since the
    /// last poll are logged in order, and the build is over once one of
    /// them is a `[done]` or `[error]` line or the output channel `closed`.
    pub fn poll_log(&mut self, lines: Vec<String>, closed: bool)
        ensures
            log_view(final(self).log_lines@) == log_view(old(self).log_lines@) + lines@.map_values(
                |l: String| (line_level(l@), l@),
            ),
            final(self).running == (old(self).running && !closed && forall|i: int|
                0 <= i < lines@.len() ==> line_level(#[trigger] lines@[i]@) == LogLevel::Info),
            final(self).runner == old(self).runner,
            final(self).auto_scroll == old(self).auto_scroll,
    {
        let ghost all = lines@;
        assert(all.len() == lines.len());
        let mut rest = lines;
        let mut k: usize = 0;
        while rest.len() > 0
            invariant
                k <= all.len() <= usize::MAX,
                rest@ == all.skip(k as int),
                log_view(self.log_lines@) == log_view(old(self).log_lines@) + all.take(k as int).map_values(
                    |l: String| (line_level(l@), l@),
                ),
                self.running == (old(self).running && forall|i: int|
                    0 <= i < k ==> line_level(#[trigger] all[i]@) == LogLevel::Info),
                self.runner == old(self).runner,
                self.auto_scroll == old(self).auto_scroll,
            decreases rest@.len(),
        {
            let line = rest.remove(0);
            assert(line == all[k as int]);
            self.receive_line(line);
            assert(all.take(k + 1) =~= all.take(k as int).push(all[k as int]));
            assert(all.take(k + 1).map_values(|l: String| (line_level(l@), l@)) =~= all.take(k as int).map_values(
                |l: String| (line_level(l@), l@),
            ).push((line_level(all[k as int]@), all[k as int]@)));
            k = k + 1;
            assert(rest@ =~= all.skip(k as int));
        }
        assert(all.take(k as int) =~= all);
        if closed {
            self.output_closed();
        }
    }

    /// The Clear button empties the log.
    pub fn clear_log(&mut self)
        ensures
            final(self).log_lines@.len() == 0,
            final(self).running == old(self).running,
            final(self).runner == old(self).runner,
            final(self).auto_scroll == old(self).auto_scroll,
    {
        self.log_lines = Vec::new();
    }
}

} // verus!
