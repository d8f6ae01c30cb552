//! The AI broker interface, its offline stub, and the AI Tool chat panel.

use vstd::prelude::*;

use crate::text::{trim, trimmed};

verus! {

/// The AI broker interface used by the editor panels. Implement it for a
/// provider to connect one.
pub trait WorkspaceAI {
    /// `reply` is an answer this provider gives to `prompt`. A provider
    /// that does not say what its answers are may give any reply.
    open spec fn answers(&self, prompt: Seq<char>, reply: Seq<char>) -> bool {
        true
    }

    /// Send a prompt and receive the response: one of the provider's answers
    /// to it.
    fn query(&self, prompt: &str) -> (reply: String)
        ensures
            self.answers(prompt@, reply@),
    ;

    /// Returns `true` if the AI provider is reachable and configured.
    fn is_available(&self) -> bool;

    /// Short human-readable name of this provider (shown in the status bar);
    /// a provider that does not name itself is called `Stub`.
    fn provider_name(&self) -> (name: &str)
        default_ensures
            name@ == "Stub"@,
    {
        "Stub"
    }
}

/// The reply of the offline stub to every prompt.
pub open spec fn not_configured_reply() -> Seq<char> {
    "AI is not configured."@
}

/// A no-op [`WorkspaceAI`] used until a real provider is wired in; every
/// query returns `"AI is not configured."` at once.
#[derive(Debug, Clone, Copy)]
pub struct StubAI;

impl WorkspaceAI for StubAI {
    /// The stub answers every prompt with `AI is not configured.`.
    open spec fn answers(&self, prompt: Seq<char>, reply: Seq<char>) -> bool {
        reply == not_configured_reply()
    }

    fn query(&self, prompt: &str) -> (reply: String)
        ensures
            reply@ == not_configured_reply(),
    {
        crate::text::owned("AI is not configured.")
    }

    fn is_available(&self) -> (available: bool)
        ensures
            !available,
    {
        false
    }

    fn provider_name(&self) -> (name: &str)
        ensures
            name@ == "Offline (stub)"@,
    {
        "Offline (stub)"
    }
}

/// Who wrote a chat message.
#[derive(Clone, Copy, Debug, PartialEq, Eq, Structural)]
pub enum Role {
    User,
    Assistant,
}

/// The first message of a fresh chat.
pub open spec fn greeting() -> Seq<char> {
    "NovaForge AI is offline (stub). Configure a provider to enable AI features."@
}

impl Role {
    /// The prefix of a message in the chat history.
    pub fn prefix(self) -> (p: &'static str)
        ensures
            self == Role::User ==> p@ == "You: "@,
            self == Role::Assistant ==> p@ == "AI: "@,
    {
        match self {
            Role::User => "You: ",
            Role::Assistant => "AI: ",
        }
    }
}

/// The status badge of the panel: its text and colour (red, green, blue).
pub fn availability_badge(available: bool) -> (badge: (&'static str, (u8, u8, u8)))
    ensures
        available ==> badge.0@ == "● Online"@ && badge.1 == (80u8, 200u8, 80u8),
        !available ==> badge.0@ == "● Offline"@ && badge.1 == (200u8, 80u8, 80u8),
{
    if available {
        ("● Online", (80, 200, 80))
    } else {
        ("● Offline", (200, 80, 80))
    }
}

/// The provider line of the panel: `Provider: <name>`.
pub fn provider_line(name: &str) -> (line: String)
    ensures
        line@ == "Provider: "@ + name@,
{
    let mut line = crate::text::owned("Provider: ");
    line.append(name);
    line
}

/// The views of a chat history.
pub open spec fn history_view(h: Seq<(Role, String)>) -> Seq<(Role, Seq<char>)> {
    h.map_values(|m: (Role, String)| (m.0, m.1@))
}

/// AI Tool panel: a chat with the configured provider.
pub struct AiToolPanel<A: WorkspaceAI> {
    /// The provider.
    pub ai: A,
    /// Text typed in the input row.
    pub input: String,
    /// The conversation so far.
    pub history: Vec<(Role, String)>,
}

impl AiToolPanel<StubAI> {
    /// A chat with the offline stub provider.
    pub fn new() -> (p: Self)
        ensures
            p.input@.len() == 0,
            history_view(p.history@) == seq![(Role::Assistant, greeting())],
    {
        AiToolPanel::with_provider(StubAI)
    }
}

impl<A: WorkspaceAI> AiToolPanel<A> {
    /// A chat with provider `ai`.
    pub fn with_provider(ai: A) -> (p: Self)
        ensures
            p.ai == ai,
            p.input@.len() == 0,
            history_view(p.history@) == seq![(Role::Assistant, greeting())],
    {
        let mut history: Vec<(Role, String)> = Vec::new();
        history.push(
            (
                Role::Assistant,
                crate::text::owned("NovaForge AI is offline (stub). Configure a provider to enable AI features."),
            ),
        );
        assert(history_view(history@) =~= seq![(Role::Assistant, greeting())]);
        AiToolPanel { ai, input: String::new(), history }
    }

    /// Take the typed prompt: blank input is ignored; otherwise the trimmed
    /// prompt is added to the history as the user's message, the input is
    /// cleared, and the prompt is returned for the provider.
    pub fn take_prompt(&mut self) -> (prompt: Option<String>)
        ensures
            trimmed(old(self).input@).len() == 0 ==> {
                &&& prompt is None
                &&& final(self).input == old(self).input
                &&& final(self).history == old(self).history
            },
            trimmed(old(self).input@).len() > 0 ==> {
                &&& prompt matches Some(p) && p@ == trimmed(old(self).input@)
                &&& final(self).input@.len() == 0
                &&& history_view(final(self).history@) == history_view(old(self).history@).push(
                    (Role::User, trimmed(old(self).input@)),
                )
            },
            final(self).ai == old(self).ai,
    {
        let prompt = trim(self.input.as_str());
        if prompt.as_str().unicode_len() == 0 {
            return None;
        }
        let ghost v = prompt@;
        self.history.push((Role::User, crate::text::owned(prompt.as_str())));
        assert(history_view(self.history@) =~= history_view(old(self).history@).push((Role::User, v)));
        self.input = String::new();
        Some(prompt)
    }

    /// Add the provider's reply to the history.
    pub fn record_reply(&mut self, reply: String)
        ensures
            history_view(final(self).history@) == history_view(old(self).history@).push(
                (Role::Assistant, reply@),
            ),
            final(self).input == old(self).input,
            final(self).ai == old(self).ai,
    {
        let ghost v = reply@;
        self.history.push((Role::Assistant, reply));
        assert(history_view(self.history@) =~= history_view(old(self).history@).push((Role::Assistant, v)));
    }

    /// Send the typed prompt: blank input is ignored; otherwise the trimmed
    /// prompt and the provider's reply to it are added to the history and
    /// the input is cleared.
    pub fn submit(&mut self)
        ensures
            trimmed(old(self).input@).len() == 0 ==> {
                &&& final(self).input == old(self).input
                &&& final(self).history == old(self).history
            },
            trimmed(old(self).input@).len() > 0 ==> {
                &&& final(self).input@.len() == 0
                &&& final(self).history@.len() == old(self).history@.len() + 2
                &&& history_view(final(self).history@).take(old(self).history@.len() + 1int)
                    == history_view(old(self).history@).push((Role::User, trimmed(old(self).input@)))
                &&& final(self).history@[old(self).history@.len() + 1int].0 == Role::Assistant
                &&& old(self).ai.answers(
                    trimmed(old(self).input@),
                    history_view(final(self).history@)[old(self).history@.len() + 1int].1,
                )
            },
            final(self).ai == old(self).ai,
    {
        if let Some(prompt) = self.take_prompt() {
            let ghost mid = history_view(self.history@);
            let reply = self.ai.query(prompt.as_str());
            self.record_reply(reply);
            assert(history_view(self.history@).take(old(self).history@.len() + 1int) =~= mid);
            assert(self.history@.len() == history_view(self.history@).len());
            assert(history_view(self.history@)[old(self).history@.len() + 1int].0 == self.history@[old(self).history@.len() + 1int].0);
            assert(history_view(self.history@)[old(self).history@.len() + 1int] == history_view(self.history@).last());
        }
    }
}

} // verus!
