//! Settings, and where each value came from.
use crate::error::{Error, ErrorKind};
use crate::patterns::{glob_is_match, glob_matches};
use crate::primitives::Ident;
use crate::semver::Version;
use crate::settings::{ProjectConfig, UserConfig};
use crate::text::{append_str, chars_of, is_text, string_of};
use vstd::prelude::*;

verus! {

/// Who set a value.
#[derive(Clone, Copy, Debug, PartialEq, Eq, Structural)]
pub enum SettingSource {
    Default,
    User,
    Project,
    Env,
}

/// A value together with its source.
#[derive(Debug)]
pub struct Setting<T> {
    pub value: T,
    pub source: SettingSource,
}

impl<T> Setting<T> {
    /// A value that nobody set.
    pub fn new(value: T) -> (setting: Setting<T>)
        ensures
            setting.value == value,
            setting.source == SettingSource::Default,
    {
        Setting { value, source: SettingSource::Default }
    }

    /// The value as `source` set it.
    pub fn set(&mut self, value: T, source: SettingSource)
        ensures
            final(self).value == value,
            final(self).source == source,
    {
        self.value = value;
        self.source = source;
    }
}

/// Reading a value from the text of an environment variable.
pub trait HydrateSetting<T> {
    /// Whether the text writes a value.
    spec fn spec_hydrates(raw: Seq<char>) -> bool;

    fn hydrate_setting_from_env(raw: &str) -> (r: Result<T, Error>)
        ensures
            r is Ok == Self::spec_hydrates(raw@),
            r matches Err(e) ==> e@ == (ErrorKind::SerializationError, raw@),
    ;
}

impl HydrateSetting<String> for String {
    open spec fn spec_hydrates(raw: Seq<char>) -> bool {
        true
    }

    fn hydrate_setting_from_env(raw: &str) -> (r: Result<String, Error>)
        ensures
            r matches Ok(s) && s@ == raw@,
    {
        let chars = chars_of(raw);
        Ok(string_of(&chars))
    }
}

/// A pattern for paths, with `*` and the like.
#[derive(Debug)]
pub struct Glob {
    pub pattern: String,
}

impl Glob {
    /// Whether the pattern matches the whole of `text`. A pattern that
    /// cannot be read matches nothing.
    pub open spec fn spec_is_match(pattern: Seq<char>, text: Seq<char>) -> bool {
        glob_matches(pattern, text) == Some(true)
    }

    pub fn is_match(&self, text: &str) -> (r: bool)
        ensures
            r == Self::spec_is_match(self.pattern@, text@),
    {
        match glob_is_match(self.pattern.as_str(), text) {
            Some(found) => found,
            None => false,
        }
    }
}

impl HydrateSetting<Glob> for Glob {
    open spec fn spec_hydrates(raw: Seq<char>) -> bool {
        true
    }

    fn hydrate_setting_from_env(raw: &str) -> (r: Result<Glob, Error>)
        ensures
            r matches Ok(g) && g.pattern@ == raw@,
    {
        let chars = chars_of(raw);
        Ok(Glob { pattern: string_of(&chars) })
    }
}

impl HydrateSetting<bool> for bool {
    open spec fn spec_hydrates(raw: Seq<char>) -> bool {
        raw == "true"@ || raw == "false"@
    }

    fn hydrate_setting_from_env(raw: &str) -> (r: Result<bool, Error>)
        ensures
            r matches Ok(b) ==> b == (raw@ == "true"@),
    {
        let chars = chars_of(raw);
        if is_text(&chars, "true") {
            Ok(true)
        } else if is_text(&chars, "false") {
            proof {
                reveal_strlit("true");
                reveal_strlit("false");
            }
            Ok(false)
        } else {
            Err(Error::new(ErrorKind::SerializationError, raw))
        }
    }
}

/// The settings of the user and of the project.
#[derive(Debug)]
pub struct Config {
    pub user: UserConfig,
    pub project: ProjectConfig,
}

impl Config {
    /// The settings that hold where nobody set anything.
    pub fn default() -> (config: Config)
        ensures
            config.project.is_default(),
    {
        Config { user: UserConfig {  }, project: ProjectConfig::default() }
    }

    /// The registry that serves the package.
    pub fn registry_url_for(&self, _ident: &Ident) -> (url: String)
        ensures
            url@ == self.project.npm_registry_server.value@,
    {
        self.project.npm_registry_server.value.clone()
    }

    /// The address at which a registry keeps the archive of a version:
    /// `<registry>/<ident>/-/<name>-<version>.tgz`.
    pub open spec fn spec_registry_url_for_package_data(
        registry: Seq<char>,
        ident: Seq<char>,
        version: Version,
    ) -> Seq<char> {
        registry + "/"@ + ident + "/-/"@ + Ident::spec_name(ident) + "-"@ + version.spec_text()
            + ".tgz"@
    }

    pub fn registry_url_for_package_data(&self, ident: &Ident, version: &Version) -> (url: String)
        ensures
            url@ == Self::spec_registry_url_for_package_data(
                self.project.npm_registry_server.value@,
                ident@,
                *version,
            ),
    {
        let mut out: Vec<char> = Vec::new();
        append_str(&mut out, self.project.npm_registry_server.value.as_str());
        append_str(&mut out, "/");
        append_str(&mut out, ident.as_str());
        append_str(&mut out, "/-/");
        let name = ident.name();
        append_str(&mut out, name.as_str());
        append_str(&mut out, "-");
        version.push_to(&mut out);
        append_str(&mut out, ".tgz");
        assert(out@ =~= Self::spec_registry_url_for_package_data(
            self.project.npm_registry_server.value@,
            ident@,
            *version,
        ));
        string_of(&out)
    }
}

} // verus!
