use novaforge::ai::{availability_badge, provider_line, AiToolPanel, Role, StubAI, WorkspaceAI};

#[test]
fn stub_ai_is_not_available() {
    let ai = StubAI;
    assert!(!ai.is_available());
    assert_eq!(ai.provider_name(), "Offline (stub)");
}

#[test]
fn stub_ai_query_returns_not_configured() {
    let ai = StubAI;
    let result = ai.query("hello");
    assert_eq!(result, "AI is not configured.");
}

struct Echo;

impl WorkspaceAI for Echo {
    fn query(&self, prompt: &str) -> String {
        format!("echo: {prompt}")
    }
    fn is_available(&self) -> bool {
        true
    }
}

#[test]
fn default_provider_name_is_stub() {
    assert_eq!(Echo.provider_name(), "Stub");
}

#[test]
fn ai_panel_submits_trimmed_prompt() {
    let mut panel = AiToolPanel::new();
    assert_eq!(panel.history.len(), 1);
    assert_eq!(panel.history[0].0, Role::Assistant);
    panel.input = "   hello there  ".to_string();
    panel.submit();
    assert!(panel.input.is_empty());
    assert_eq!(panel.history.len(), 3);
    assert_eq!(panel.history[1], (Role::User, "hello there".to_string()));
    assert_eq!(panel.history[2], (Role::Assistant, "AI is not configured.".to_string()));
}

#[test]
fn ai_panel_ignores_blank_prompt() {
    let mut panel = AiToolPanel::with_provider(Echo);
    panel.input = " \t\n ".to_string();
    panel.submit();
    assert_eq!(panel.history.len(), 1);
    assert_eq!(panel.input, " \t\n ");
    panel.input = "ping".to_string();
    panel.submit();
    assert_eq!(panel.history[2].1, "echo: ping");
}

#[test]
fn ai_panel_badge_and_prefixes() {
    assert_eq!(availability_badge(true), ("● Online", (80, 200, 80)));
    assert_eq!(availability_badge(false), ("● Offline", (200, 80, 80)));
    assert_eq!(provider_line("Offline (stub)"), "Provider: Offline (stub)");
    assert_eq!(Role::User.prefix(), "You: ");
    assert_eq!(Role::Assistant.prefix(), "AI: ");
}
