//! Settings of the output archive, as far as the firewall reads them.

use vstd::prelude::*;

verus! {

/// Settings of the server.
pub struct Config {
    /// The `[archive]` section.
    pub archive: ArchiveConfig,
}

/// The `[archive]` section, with what the environment overrides.
pub struct ArchiveConfig {
    /// Whether tool outputs are archived at all.
    pub enabled: bool,
    /// Whether large outputs are replaced by a digest.
    pub ephemeral: bool,
    /// Token count from which an output is large.
    pub ephemeral_min_tokens: usize,
    /// What `LEAN_CTX_EPHEMERAL` asks for, where it is set.
    pub ephemeral_override: Option<bool>,
    /// What `LEAN_CTX_EPHEMERAL_MIN_TOKENS` asks for, where it is set.
    pub ephemeral_min_tokens_override: Option<usize>,
}

impl ArchiveConfig {
    /// Ephemeral mode in effect: the environment beats the setting, and nothing is replaced
    /// without an archive to keep it in.
    pub open spec fn spec_ephemeral(self) -> bool {
        self.enabled && match self.ephemeral_override {
            Some(wanted) => wanted,
            None => self.ephemeral,
        }
    }

    /// Token threshold in effect: the environment beats the setting.
    pub open spec fn spec_min_tokens(self) -> usize {
        match self.ephemeral_min_tokens_override {
            Some(wanted) => wanted,
            None => self.ephemeral_min_tokens,
        }
    }

    /// Settings with ephemeral mode on, as it is unless it is switched off, and nothing
    /// overridden.
    pub fn new(enabled: bool, ephemeral_min_tokens: usize) -> (config: ArchiveConfig)
        ensures
            config.enabled == enabled,
            config.ephemeral,
            config.ephemeral_min_tokens == ephemeral_min_tokens,
            config.ephemeral_override is None,
            config.ephemeral_min_tokens_override is None,
    {
        ArchiveConfig {
            enabled,
            ephemeral: true,
            ephemeral_min_tokens,
            ephemeral_override: None,
            ephemeral_min_tokens_override: None,
        }
    }

    /// Whether ephemeral mode is in effect.
    pub fn ephemeral_effective(&self) -> (on: bool)
        ensures
            on == self.spec_ephemeral(),
    {
        self.enabled && match self.ephemeral_override {
            Some(wanted) => wanted,
            None => self.ephemeral,
        }
    }

    /// The token threshold in effect.
    pub fn ephemeral_min_tokens_effective(&self) -> (tokens: usize)
        ensures
            tokens == self.spec_min_tokens(),
    {
        match self.ephemeral_min_tokens_override {
            Some(wanted) => wanted,
            None => self.ephemeral_min_tokens,
        }
    }
}

} // verus!
