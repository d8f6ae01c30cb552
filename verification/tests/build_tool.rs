use novaforge::build_panel::{BuildToolPanel, LogLevel};
use novaforge::build_runner::{manifest_build_script, BuildCommand, BuildRunner};
use novaforge::project::WorkspaceManifest;

#[test]
fn build_command_labels_are_non_empty() {
    for cmd in [
        BuildCommand::Build,
        BuildCommand::Release,
        BuildCommand::Clean,
        BuildCommand::Run,
        BuildCommand::RunServer,
        BuildCommand::Test,
    ] {
        assert!(!cmd.label().is_empty());
        assert!(!cmd.script_arg().is_empty());
    }
}

#[test]
fn build_command_args_and_labels() {
    assert_eq!(BuildCommand::Build.script_arg(), "build");
    assert_eq!(BuildCommand::Release.script_arg(), "release");
    assert_eq!(BuildCommand::Clean.script_arg(), "clean");
    assert_eq!(BuildCommand::Run.script_arg(), "run");
    assert_eq!(BuildCommand::RunServer.script_arg(), "server");
    assert_eq!(BuildCommand::Test.script_arg(), "test");
    assert_eq!(BuildCommand::Build.label(), "Build (debug)");
    assert_eq!(BuildCommand::Release.label(), "Build (release)");
    assert_eq!(BuildCommand::RunServer.label(), "Run Server");
}

#[test]
fn runner_script_and_banner() {
    let runner = BuildRunner::from_manifest(&WorkspaceManifest::default());
    assert_eq!(runner.nova_forge_path, "../Nova-Forge");
    assert_eq!(runner.script_path(), "../Nova-Forge/nova-forge.sh");
    assert_eq!(
        runner.run_banner(BuildCommand::RunServer),
        "[workspace] Running: ../Nova-Forge/nova-forge.sh server"
    );
    assert_eq!(manifest_build_script("/nf"), "/nf/nova-forge.sh");
}

#[test]
fn log_levels_from_prefixes() {
    assert_eq!(LogLevel::from_line("[done] Exit status: 0"), LogLevel::Done);
    assert_eq!(LogLevel::from_line("[error] boom"), LogLevel::Error);
    assert_eq!(LogLevel::from_line("Compiling foo"), LogLevel::Info);
    assert_eq!(LogLevel::from_line(" [done]"), LogLevel::Info);
    assert_eq!(LogLevel::Done.colour(), (100, 220, 100));
}

#[test]
fn build_panel_runs_until_done_line() {
    let mut panel = BuildToolPanel::default();
    assert_eq!(panel.log_lines.len(), 1);
    assert_eq!(panel.log_lines[0].1, "NovaForge Build Tool ready. Open a project and press Build.");
    let path = "/nf".to_string();
    let runner = panel.trigger(BuildCommand::Build, Some(&path)).expect("runner");
    assert_eq!(runner.nova_forge_path, "/nf");
    assert!(panel.running);
    assert_eq!(panel.log_lines.last().unwrap().1, "--- Build (debug) ---");
    panel.receive_line("Compiling".to_string());
    assert!(panel.running);
    panel.receive_line("[done] Exit status: exit status: 0".to_string());
    assert!(!panel.running);
    assert_eq!(panel.log_lines.last().unwrap().0, LogLevel::Done);
}

#[test]
fn build_panel_without_project_logs_error() {
    let mut panel = BuildToolPanel::default();
    assert!(panel.trigger(BuildCommand::Run, None).is_none());
    assert!(!panel.running);
    let last = panel.log_lines.last().unwrap();
    assert_eq!(last.0, LogLevel::Error);
    assert_eq!(last.1, "[error] No project loaded — cannot resolve nova-forge.sh path.");
}

#[test]
fn build_panel_stops_when_output_closes() {
    let mut panel = BuildToolPanel::default();
    let path = "/nf".to_string();
    panel.trigger(BuildCommand::Test, Some(&path));
    panel.receive_line("[error] Failed to start build: not found".to_string());
    assert!(!panel.running);
    panel.trigger(BuildCommand::Test, Some(&path));
    panel.output_closed();
    assert!(!panel.running);
    panel.clear_log();
    assert!(panel.log_lines.is_empty());
}

#[test]
fn build_panel_polls_batches_of_output() {
    let mut panel = BuildToolPanel::default();
    let path = "/nf".to_string();
    panel.trigger(BuildCommand::Release, Some(&path));
    panel.poll_log(vec!["Compiling a".to_string(), "Compiling b".to_string()], false);
    assert!(panel.running);
    assert_eq!(panel.log_lines.len(), 4);
    panel.poll_log(Vec::new(), false);
    assert!(panel.running);
    panel.poll_log(vec!["[done] Exit status: 0".to_string(), "late line".to_string()], false);
    assert!(!panel.running);
    assert_eq!(panel.log_lines[4], (LogLevel::Done, "[done] Exit status: 0".to_string()));
    assert_eq!(panel.log_lines[5], (LogLevel::Info, "late line".to_string()));
    panel.trigger(BuildCommand::Release, Some(&path));
    panel.poll_log(Vec::new(), true);
    assert!(!panel.running);
}

#[test]
fn build_panel_buttons_wait_for_running_build() {
    let mut panel = BuildToolPanel::default();
    assert_eq!(panel.state_label(), "Ready");
    let path = "/nf".to_string();
    assert!(panel.press_button(BuildCommand::Build, Some(&path)).is_some());
    assert_eq!(panel.state_label(), "Building…");
    let logged = panel.log_lines.len();
    assert!(panel.press_button(BuildCommand::Clean, Some(&path)).is_none());
    assert_eq!(panel.log_lines.len(), logged);
    panel.receive_line("[done] Exit status: 0".to_string());
    assert_eq!(panel.state_label(), "Ready");
    assert!(panel.press_button(BuildCommand::Clean, None).is_none());
    assert_eq!(panel.log_lines.last().unwrap().0, LogLevel::Error);
}
