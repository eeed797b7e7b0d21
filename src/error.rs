use vstd::prelude::*;

verus! {

/// The documents that the engines maintain.
#[derive(Clone, Copy, Debug, PartialEq, Eq, Structural)]
pub enum DocumentKind {
    /// The assistant's `settings.json`.
    AssistantSettings,
    /// The agent's `auth.json`.
    AgentAuth,
    /// The agent's `config.toml`.
    AgentConfig,
    /// The editor's user `settings.json`.
    EditorSettings,
}

/// Why an operation was refused.
#[derive(Clone, Copy, Debug, PartialEq, Eq, Structural)]
pub enum ConfigError {
    /// A caller-supplied value that is required was empty or blank.
    EmptyApiKey,
    /// The editor extension was asked for before the assistant itself was set up.
    AssistantNotConfigured,
    /// No candidate location for the editor's settings could be determined.
    NoSettingsLocation,
    /// A document that must be well formed could not be read.
    Malformed(DocumentKind),
}

} // verus!
