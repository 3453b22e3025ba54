//! The settings that the engine knows.
use crate::config::{Glob, Setting};
use crate::text::{chars_of, string_of};
use vstd::prelude::*;

verus! {

/// Which packages may reach what they do not declare.
#[derive(Clone, Copy, Debug, PartialEq, Eq, Structural)]
pub enum PnpFallbackMode {
    Disabled,
    DependenciesOnly,
    All,
}

/// The settings of the user.
#[derive(Debug)]
pub struct UserConfig {}

/// The settings of the project.
#[derive(Debug)]
pub struct ProjectConfig {
    pub enable_global_cache: Setting<bool>,
    pub enable_immutable_cache: Setting<bool>,
    pub enable_immutable_installs: Setting<bool>,
    pub enable_transparent_workspaces: Setting<bool>,
    pub npm_registry_server: Setting<String>,
    pub global_folder: Setting<String>,
    pub pnp_fallback_mode: Setting<PnpFallbackMode>,
    pub pnp_enable_inlining: Setting<bool>,
    pub pnp_ignore_patterns: Setting<Vec<Glob>>,
    pub pnp_shebang: Setting<String>,
}

impl ProjectConfig {
    /// Whether every setting has the value that holds where nobody set
    /// it.
    pub open spec fn is_default(&self) -> bool {
        &&& !self.enable_global_cache.value
        &&& !self.enable_immutable_cache.value
        &&& !self.enable_immutable_installs.value
        &&& !self.enable_transparent_workspaces.value
        &&& self.npm_registry_server.value@ == "https://registry.npmjs.org"@
        &&& self.global_folder.value@ == ".yarn/zpm"@
        &&& self.pnp_fallback_mode.value == PnpFallbackMode::All
        &&& self.pnp_enable_inlining.value
        &&& self.pnp_ignore_patterns.value@.len() == 0
        &&& self.pnp_shebang.value@ == "#!/usr/bin/env node"@
    }

    /// The settings of a project that sets nothing.
    pub fn default() -> (config: ProjectConfig)
        ensures
            config.is_default(),
            config.npm_registry_server.source == crate::config::SettingSource::Default,
    {
        ProjectConfig {
            enable_global_cache: Setting::new(false),
            enable_immutable_cache: Setting::new(false),
            enable_immutable_installs: Setting::new(false),
            enable_transparent_workspaces: Setting::new(false),
            npm_registry_server: Setting::new(string_of(&chars_of("https://registry.npmjs.org"))),
            global_folder: Setting::new(string_of(&chars_of(".yarn/zpm"))),
            pnp_fallback_mode: Setting::new(PnpFallbackMode::All),
            pnp_enable_inlining: Setting::new(true),
            pnp_ignore_patterns: Setting::new(Vec::new()),
            pnp_shebang: Setting::new(string_of(&chars_of("#!/usr/bin/env node"))),
        }
    }
}

} // verus!
