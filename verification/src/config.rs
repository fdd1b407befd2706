//! Configuration: API keys, site and profile, resolved from command-line
//! flags, the `DD_*` environment variables and an optional config file with
//! named profiles.
//!
//! Precedence is: flag > environment > profile > default. Reading the
//! environment and the file happens at the edge of the program; the values
//! read are handed to [`resolve`].

use vstd::prelude::*;
use crate::logs::opt_view;
use crate::logs_cli::clone_opt;
use crate::text::{chars_eq_str, chars_of, push_str, string_from_chars, trim, trim_str};
use std::path::PathBuf;

verus! {

#[verifier::external_type_specification]
#[verifier::external_body]
pub struct ExPathBuf(std::path::PathBuf);

/// The site used when nothing else names one.
pub const DEFAULT_SITE: &'static str = "datadoghq.com";

/// Where the resolved credentials came from.
#[derive(Debug, Clone, Copy, PartialEq, Eq, Structural)]
pub enum ConfigSource {
    EnvOnly,
    File,
    FileAndEnv,
}

/// The configuration in effect.
#[derive(Debug)]
pub struct ResolvedConfig {
    pub api_key: String,
    pub app_key: String,
    pub site: String,
    pub profile: Option<String>,
    pub source: ConfigSource,
}

/// One named profile of the config file.
#[derive(Debug)]
pub struct Profile {
    pub api_key: Option<String>,
    pub app_key: Option<String>,
    pub site: Option<String>,
}

/// The config file. `profiles` holds each profile under its name; no name
/// occurs twice (see [`FileConfig::wf`]).
#[derive(Debug)]
pub struct FileConfig {
    pub default_site: Option<String>,
    pub default_profile: Option<String>,
    pub profiles: Vec<(String, Profile)>,
}

/// Values given on the command line.
#[derive(Debug)]
pub struct Overrides {
    pub api_key: Option<String>,
    pub app_key: Option<String>,
    pub site: Option<String>,
    pub profile: Option<String>,
    pub config_path: Option<PathBuf>,
}

/// The `DD_API_KEY`, `DD_APP_KEY`, `DD_SITE` and `DD_PROFILE` variables, each
/// when set.
#[derive(Debug)]
pub struct Environment {
    pub api_key: Option<String>,
    pub app_key: Option<String>,
    pub site: Option<String>,
    pub profile: Option<String>,
}

// ---- Errors -----------------------------------------------------------------

/// Why no configuration could be resolved.
#[derive(Debug, PartialEq, Eq)]
pub enum ConfigError {
    /// The selected profile is not in the config file; holds its name.
    ProfileNotFound(String),
    /// No non-empty API key was given.
    MissingApiKey,
    /// No non-empty application key was given.
    MissingAppKey,
    /// The config file holds a profile whose name is blank.
    EmptyProfileName,
}

/// The mathematical counterpart of [`ConfigError`].
pub enum ConfigFault {
    ProfileNotFound(Seq<char>),
    MissingApiKey,
    MissingAppKey,
    EmptyProfileName,
}

impl View for ConfigError {
    type V = ConfigFault;

    open spec fn view(&self) -> ConfigFault {
        match self {
            ConfigError::ProfileNotFound(n) => ConfigFault::ProfileNotFound(n@),
            ConfigError::MissingApiKey => ConfigFault::MissingApiKey,
            ConfigError::MissingAppKey => ConfigFault::MissingAppKey,
            ConfigError::EmptyProfileName => ConfigFault::EmptyProfileName,
        }
    }
}

/// The message shown for a configuration error.
pub open spec fn config_message(f: ConfigFault) -> Seq<char> {
    match f {
        ConfigFault::ProfileNotFound(n) => "profile '"@ + n + "' not found in config file"@,
        ConfigFault::MissingApiKey => "DD_API_KEY is required (set --api-key, DD_API_KEY env, or profile)"@,
        ConfigFault::MissingAppKey => "DD_APP_KEY is required (set --app-key, DD_APP_KEY env, or profile)"@,
        ConfigFault::EmptyProfileName => "profile names cannot be empty"@,
    }
}

impl ConfigError {
    /// The human-readable message for this error.
    pub fn message(&self) -> (r: String)
        ensures
            r@ == config_message(self@),
    {
        let mut v: Vec<char> = Vec::new();
        match self {
            ConfigError::ProfileNotFound(n) => {
                push_str(&mut v, "profile '");
                push_str(&mut v, n.as_str());
                push_str(&mut v, "' not found in config file");
            },
            ConfigError::MissingApiKey => push_str(
                &mut v,
                "DD_API_KEY is required (set --api-key, DD_API_KEY env, or profile)",
            ),
            ConfigError::MissingAppKey => push_str(
                &mut v,
                "DD_APP_KEY is required (set --app-key, DD_APP_KEY env, or profile)",
            ),
            ConfigError::EmptyProfileName => push_str(&mut v, "profile names cannot be empty"),
        }
        string_from_chars(v.as_slice())
    }
}

// ---- Profiles ---------------------------------------------------------------

/// The profile stored under `name`: the first entry with that name.
pub open spec fn lookup(ps: Seq<(String, Profile)>, name: Seq<char>) -> Option<Profile>
    decreases ps.len(),
{
    if ps.len() == 0 {
        None
    } else if ps[0].0@ == name {
        Some(ps[0].1)
    } else {
        lookup(ps.drop_first(), name)
    }
}

/// No profile name occurs twice.
pub open spec fn names_unique(ps: Seq<(String, Profile)>) -> bool {
    forall|i: int, j: int| 0 <= i < j < ps.len() ==> ps[i].0@ != ps[j].0@
}

proof fn lemma_lookup_absent(ps: Seq<(String, Profile)>, name: Seq<char>)
    requires
        forall|i: int| 0 <= i < ps.len() ==> #[trigger] ps[i].0@ != name,
    ensures
        lookup(ps, name) is None,
    decreases ps.len(),
{
    if ps.len() > 0 {
        assert forall|i: int| 0 <= i < ps.drop_first().len() implies #[trigger] ps.drop_first()[i].0@
            != name by {
            assert(ps.drop_first()[i] == ps[i + 1]);
        }
        lemma_lookup_absent(ps.drop_first(), name);
    }
}

proof fn lemma_lookup_at(ps: Seq<(String, Profile)>, name: Seq<char>, i: int)
    requires
        0 <= i < ps.len(),
        ps[i].0@ == name,
        forall|j: int| 0 <= j < i ==> #[trigger] ps[j].0@ != name,
    ensures
        lookup(ps, name) == Some(ps[i].1),
    decreases i,
{
    if i > 0 {
        assert forall|j: int| 0 <= j < i - 1 implies #[trigger] ps.drop_first()[j].0@ != name by {
            assert(ps.drop_first()[j] == ps[j + 1]);
        }
        lemma_lookup_at(ps.drop_first(), name, i - 1);
    }
}

/// The position of the profile named `name`.
fn find_profile(ps: &Vec<(String, Profile)>, name: &str) -> (r: Option<usize>)
    ensures
        r matches Some(i) ==> i < ps@.len() && ps@[i as int].0@ == name@ && lookup(ps@, name@)
            == Some(ps@[i as int].1),
        r matches Some(i) ==> forall|j: int| 0 <= j < i ==> #[trigger] ps@[j].0@ != name@,
        r is None ==> lookup(ps@, name@) is None,
{
    let mut i: usize = 0;
    while i < ps.len()
        invariant
            i <= ps@.len(),
            forall|j: int| 0 <= j < i ==> #[trigger] ps@[j].0@ != name@,
        decreases ps@.len() - i,
    {
        let key = chars_of(ps[i].0.as_str());
        if chars_eq_str(key.as_slice(), name) {
            proof {
                lemma_lookup_at(ps@, name@, i as int);
            }
            return Some(i);
        }
        i = i + 1;
    }
    proof {
        lemma_lookup_absent(ps@, name@);
    }
    None
}

impl FileConfig {
    /// Profile names are unique.
    pub open spec fn wf(&self) -> bool {
        names_unique(self.profiles@)
    }

    /// A config file without defaults or profiles.
    pub fn empty() -> (r: FileConfig)
        ensures
            r.wf(),
            r.default_site is None,
            r.default_profile is None,
            r.profiles@.len() == 0,
    {
        FileConfig { default_site: None, default_profile: None, profiles: Vec::new() }
    }

    /// The profile named `name`.
    pub fn profile(&self, name: &str) -> (r: Option<&Profile>)
        ensures
            r matches Some(p) ==> lookup(self.profiles@, name@) == Some(*p),
            r is None ==> lookup(self.profiles@, name@) is None,
    {
        match find_profile(&self.profiles, name) {
            Some(i) => Some(&self.profiles[i].1),
            None => None,
        }
    }

    /// Stores `p` under `name`, replacing a profile of that name.
    pub fn set_profile(&mut self, name: String, p: Profile)
        ensures
            old(self).wf() ==> final(self).wf(),
            lookup(final(self).profiles@, name@) == Some(p),
            forall|n: Seq<char>|
                n != name@ ==> #[trigger] lookup(final(self).profiles@, n) == lookup(
                    old(self).profiles@,
                    n,
                ),
            final(self).default_site == old(self).default_site,
            final(self).default_profile == old(self).default_profile,
    {
        let ghost before = self.profiles@;
        let ghost key = name@;
        match find_profile(&self.profiles, name.as_str()) {
            Some(i) => {
                self.profiles.set(i, (name, p));
                proof {
                    let after = self.profiles@;
                    if names_unique(before) {
                        assert forall|a: int, b: int| 0 <= a < b < after.len() implies after[a].0@
                            != after[b].0@ by {
                            assert(before[a].0@ != before[b].0@);
                        }
                    }
                    assert forall|j: int| 0 <= j < i implies #[trigger] after[j].0@ != key by {
                        assert(after[j] == before[j]);
                    }
                    lemma_lookup_at(after, key, i as int);
                    assert forall|n: Seq<char>| n != key implies #[trigger] lookup(after, n)
                        == lookup(before, n) by {
                        lemma_lookup_same(before, after, n, i as int);
                    }
                }
            },
            None => {
                self.profiles.push((name, p));
                proof {
                    let after = self.profiles@;
                    let k = before.len() as int;
                    lemma_lookup_absent_all(before, key);
                    assert forall|j: int| 0 <= j < k implies #[trigger] after[j].0@ != key by {
                        assert(after[j] == before[j]);
                    }
                    if names_unique(before) {
                        assert forall|a: int, b: int| 0 <= a < b < after.len() implies after[a].0@
                            != after[b].0@ by {
                            if b < k {
                                assert(before[a].0@ != before[b].0@);
                            } else {
                                assert(after[a] == before[a]);
                            }
                        }
                    }
                    lemma_lookup_at(after, key, k);
                    assert forall|n: Seq<char>| n != key implies #[trigger] lookup(after, n)
                        == lookup(before, n) by {
                        lemma_lookup_push(before, (after[k].0, after[k].1), n);
                    }
                }
            },
        }
    }
}

proof fn lemma_lookup_absent_all(ps: Seq<(String, Profile)>, name: Seq<char>)
    requires
        lookup(ps, name) is None,
    ensures
        forall|i: int| 0 <= i < ps.len() ==> #[trigger] ps[i].0@ != name,
    decreases ps.len(),
{
    if ps.len() > 0 {
        lemma_lookup_absent_all(ps.drop_first(), name);
        assert forall|i: int| 0 <= i < ps.len() implies #[trigger] ps[i].0@ != name by {
            if i > 0 {
                assert(ps[i] == ps.drop_first()[i - 1]);
            }
        }
    }
}

proof fn lemma_lookup_same(
    before: Seq<(String, Profile)>,
    after: Seq<(String, Profile)>,
    n: Seq<char>,
    i: int,
)
    requires
        0 <= i < before.len(),
        after.len() == before.len(),
        forall|j: int| 0 <= j < before.len() && j != i ==> #[trigger] after[j] == before[j],
        after[i].0@ == before[i].0@,
        before[i].0@ != n,
    ensures
        lookup(after, n) == lookup(before, n),
    decreases before.len(),
{
    if i > 0 {
        assert forall|j: int|
            0 <= j < before.drop_first().len() && j != i - 1 implies #[trigger] after.drop_first()[j]
            == before.drop_first()[j] by {
            assert(after[j + 1] == before[j + 1]);
        }
        if after[0].0@ != n {
            lemma_lookup_same(before.drop_first(), after.drop_first(), n, i - 1);
        } else {
            assert(after[0] == before[0]);
        }
    } else {
        assert(after.drop_first() =~= before.drop_first());
    }
}

proof fn lemma_lookup_push(ps: Seq<(String, Profile)>, e: (String, Profile), n: Seq<char>)
    requires
        e.0@ != n,
    ensures
        lookup(ps.push(e), n) == lookup(ps, n),
    decreases ps.len(),
{
    assert(ps.push(e)[0] == (if ps.len() == 0 { e } else { ps[0] }));
    if ps.len() == 0 {
        assert(ps.push(e).drop_first() =~= Seq::<(String, Profile)>::empty());
        assert(lookup(ps.push(e).drop_first(), n) is None);
    } else {
        assert(ps.push(e).drop_first() =~= ps.drop_first().push(e));
        lemma_lookup_push(ps.drop_first(), e, n);
    }
}

/// Whether some profile name is blank once trimmed.
pub open spec fn has_blank_name(ps: Seq<(String, Profile)>) -> bool {
    exists|i: int| 0 <= i < ps.len() && trim(#[trigger] ps[i].0@).len() == 0
}

/// Checks the profile names of a config file just read: a blank name is
/// refused.
pub fn check_profile_names(file: &FileConfig) -> (r: Result<(), ConfigError>)
    ensures
        r is Ok <==> !has_blank_name(file.profiles@),
        r matches Err(e) ==> e == ConfigError::EmptyProfileName,
{
    let mut i: usize = 0;
    while i < file.profiles.len()
        invariant
            i <= file.profiles@.len(),
            forall|j: int| 0 <= j < i ==> trim(#[trigger] file.profiles@[j].0@).len() > 0,
        decreases file.profiles@.len() - i,
    {
        let t = trim_str(file.profiles[i].0.as_str());
        if t.len() == 0 {
            return Err(ConfigError::EmptyProfileName);
        }
        i = i + 1;
    }
    Ok(())
}

// ---- Resolution -------------------------------------------------------------

/// The first of two optional values that is present.
pub open spec fn pick(a: Option<Seq<char>>, b: Option<Seq<char>>) -> Option<Seq<char>> {
    match a {
        Some(x) => Some(x),
        None => b,
    }
}

/// The default profile named by the file, if one was loaded.
pub open spec fn file_default_profile(file: Option<FileConfig>) -> Option<Seq<char>> {
    match file {
        Some(f) => opt_view(f.default_profile),
        None => None,
    }
}

/// The default site named by the file, if one was loaded.
pub open spec fn file_default_site(file: Option<FileConfig>) -> Option<Seq<char>> {
    match file {
        Some(f) => opt_view(f.default_site),
        None => None,
    }
}

/// The profile of the loaded file named `name`.
pub open spec fn file_profile(file: Option<FileConfig>, name: Seq<char>) -> Option<Profile> {
    match file {
        Some(f) => lookup(f.profiles@, name),
        None => None,
    }
}

/// The selected profile name: `--profile`, then `DD_PROFILE`, then the
/// file's `default_profile`.
pub open spec fn profile_choice(ov: Overrides, env: Environment, file: Option<FileConfig>) -> Option<
    Seq<char>,
> {
    pick(pick(opt_view(ov.profile), opt_view(env.profile)), file_default_profile(file))
}

/// The selected profile, when one is selected and found.
pub open spec fn chosen_profile(ov: Overrides, env: Environment, file: Option<FileConfig>) -> Option<
    Profile,
> {
    match profile_choice(ov, env, file) {
        Some(n) => file_profile(file, n),
        None => None,
    }
}

/// A field of the chosen profile.
pub open spec fn profile_api_key(p: Option<Profile>) -> Option<Seq<char>> {
    match p {
        Some(q) => opt_view(q.api_key),
        None => None,
    }
}

/// A field of the chosen profile.
pub open spec fn profile_app_key(p: Option<Profile>) -> Option<Seq<char>> {
    match p {
        Some(q) => opt_view(q.app_key),
        None => None,
    }
}

/// A field of the chosen profile.
pub open spec fn profile_site(p: Option<Profile>) -> Option<Seq<char>> {
    match p {
        Some(q) => opt_view(q.site),
        None => None,
    }
}

/// The API key before the emptiness check: flag, environment, profile.
pub open spec fn api_key_choice(ov: Overrides, env: Environment, file: Option<FileConfig>) -> Option<
    Seq<char>,
> {
    pick(pick(opt_view(ov.api_key), opt_view(env.api_key)), profile_api_key(chosen_profile(ov, env, file)))
}

/// The application key before the emptiness check: flag, environment,
/// profile.
pub open spec fn app_key_choice(ov: Overrides, env: Environment, file: Option<FileConfig>) -> Option<
    Seq<char>,
> {
    pick(pick(opt_view(ov.app_key), opt_view(env.app_key)), profile_app_key(chosen_profile(ov, env, file)))
}

/// The site: flag, environment, profile, the file's `default_site`, then
/// [`DEFAULT_SITE`].
pub open spec fn site_choice(ov: Overrides, env: Environment, file: Option<FileConfig>) -> Seq<char> {
    match pick(
        pick(pick(opt_view(ov.site), opt_view(env.site)), profile_site(chosen_profile(ov, env, file))),
        file_default_site(file),
    ) {
        Some(s) => s,
        None => "datadoghq.com"@,
    }
}

/// Where the credentials came from: a loaded file, together with `DD_API_KEY`
/// when that is set.
pub open spec fn source_of(env: Environment, file_loaded: bool) -> ConfigSource {
    if file_loaded && env.api_key is Some {
        ConfigSource::FileAndEnv
    } else if file_loaded {
        ConfigSource::File
    } else {
        ConfigSource::EnvOnly
    }
}

/// Whether an optional key is present and not empty.
pub open spec fn usable(k: Option<Seq<char>>) -> bool {
    k matches Some(s) && s.len() > 0
}

/// The error of resolution, if any: an unknown selected profile first, then
/// a missing API key, then a missing application key.
pub open spec fn resolve_fault(ov: Overrides, env: Environment, file: Option<FileConfig>) -> Option<
    ConfigFault,
> {
    match profile_choice(ov, env, file) {
        Some(n) if file_profile(file, n) is None => Some(ConfigFault::ProfileNotFound(n)),
        _ => if !usable(api_key_choice(ov, env, file)) {
            Some(ConfigFault::MissingApiKey)
        } else if !usable(app_key_choice(ov, env, file)) {
            Some(ConfigFault::MissingAppKey)
        } else {
            None
        },
    }
}

fn pick_string(a: &Option<String>, b: &Option<String>) -> (r: Option<String>)
    ensures
        opt_view(r) == pick(opt_view(*a), opt_view(*b)),
{
    match a {
        Some(x) => Some(x.clone()),
        None => clone_opt(b),
    }
}

/// Resolves the configuration from the command-line values, the environment
/// and the config file (`None` when no file was loaded).
pub fn resolve(overrides: &Overrides, env: &Environment, file: &Option<FileConfig>) -> (r: Result<
    ResolvedConfig,
    ConfigError,
>)
    ensures
        match resolve_fault(*overrides, *env, *file) {
            Some(f) => r matches Err(e) && e@ == f,
            None => r matches Ok(c) && {
                &&& Some(c.api_key@) == api_key_choice(*overrides, *env, *file)
                &&& Some(c.app_key@) == app_key_choice(*overrides, *env, *file)
                &&& c.site@ == site_choice(*overrides, *env, *file)
                &&& opt_view(c.profile) == profile_choice(*overrides, *env, *file)
                &&& c.source == source_of(*env, file is Some)
            },
        },
{
    let ghost ov = *overrides;
    let ghost en = *env;
    let ghost fi = *file;
    let from_flags = pick_string(&overrides.profile, &env.profile);
    let profile_name: Option<String> = match from_flags {
        Some(n) => Some(n),
        None => match file {
            Some(f) => clone_opt(&f.default_profile),
            None => None,
        },
    };
    assert(opt_view(profile_name) == profile_choice(ov, en, fi));
    let profile: Option<&Profile> = match &profile_name {
        Some(n) => {
            let found = match file {
                Some(f) => f.profile(n.as_str()),
                None => None,
            };
            match found {
                Some(p) => Some(p),
                None => {
                    return Err(ConfigError::ProfileNotFound(n.clone()));
                },
            }
        },
        None => None,
    };
    assert(match profile {
        Some(p) => chosen_profile(ov, en, fi) == Some(*p),
        None => chosen_profile(ov, en, fi) is None,
    });
    let first_api = pick_string(&overrides.api_key, &env.api_key);
    let api_key: Option<String> = match first_api {
        Some(k) => Some(k),
        None => match profile {
            Some(p) => clone_opt(&p.api_key),
            None => None,
        },
    };
    let first_app = pick_string(&overrides.app_key, &env.app_key);
    let app_key: Option<String> = match first_app {
        Some(k) => Some(k),
        None => match profile {
            Some(p) => clone_opt(&p.app_key),
            None => None,
        },
    };
    let first_site = pick_string(&overrides.site, &env.site);
    let site: String = match first_site {
        Some(s) => s,
        None => {
            let from_profile = match profile {
                Some(p) => clone_opt(&p.site),
                None => None,
            };
            match from_profile {
                Some(s) => s,
                None => {
                    let from_file = match file {
                        Some(f) => clone_opt(&f.default_site),
                        None => None,
                    };
                    match from_file {
                        Some(s) => s,
                        None => DEFAULT_SITE.to_owned(),
                    }
                },
            }
        },
    };
    proof {
        reveal_strlit("datadoghq.com");
    }
    assert(site@ == site_choice(ov, en, fi));
    let api_key = match api_key {
        Some(k) => if k.as_str().is_empty() {
            return Err(ConfigError::MissingApiKey);
        } else {
            k
        },
        None => {
            return Err(ConfigError::MissingApiKey);
        },
    };
    let app_key = match app_key {
        Some(k) => if k.as_str().is_empty() {
            return Err(ConfigError::MissingAppKey);
        } else {
            k
        },
        None => {
            return Err(ConfigError::MissingAppKey);
        },
    };
    let source = match file {
        Some(_) => if env.api_key.is_some() {
            ConfigSource::FileAndEnv
        } else {
            ConfigSource::File
        },
        None => ConfigSource::EnvOnly,
    };
    Ok(ResolvedConfig { api_key, app_key, site, profile: profile_name, source })
}

/// The config file to read: `--config`, then `DD_CONFIG`, then the default
/// location.
pub fn pick_config_path(
    flag: Option<PathBuf>,
    env: Option<PathBuf>,
    default: Option<PathBuf>,
) -> (r: Option<PathBuf>)
    ensures
        r == (if flag is Some {
            flag
        } else if env is Some {
            env
        } else {
            default
        }),
{
    match flag {
        Some(p) => Some(p),
        None => match env {
            Some(p) => Some(p),
            None => default,
        },
    }
}

// ---- Laws -------------------------------------------------------------------

/// A flag beats the environment, the environment beats the profile, and the
/// profile beats the file's default and the built-in default, for the site.
pub proof fn site_precedence(ov: Overrides, env: Environment, file: Option<FileConfig>)
    ensures
        ov.site matches Some(s) ==> site_choice(ov, env, file) == s@,
        env.site matches Some(s) ==> (ov.site is None ==> site_choice(ov, env, file) == s@),
        profile_site(chosen_profile(ov, env, file)) matches Some(s) ==> (ov.site is None
            && env.site is None ==> site_choice(ov, env, file) == s),
        file_default_site(file) matches Some(s) ==> (ov.site is None && env.site is None
            && profile_site(chosen_profile(ov, env, file)) is None ==> site_choice(ov, env, file)
            == s),
        ov.site is None && env.site is None && profile_site(chosen_profile(ov, env, file)) is None
            && file_default_site(file) is None ==> site_choice(ov, env, file) == "datadoghq.com"@,
{
}

/// A flag beats the environment, which beats the profile, for both keys; a
/// resolution that succeeds uses the key so chosen.
pub proof fn key_precedence(ov: Overrides, env: Environment, file: Option<FileConfig>)
    ensures
        ov.api_key matches Some(k) ==> api_key_choice(ov, env, file) == Some(k@),
        env.api_key matches Some(k) ==> (ov.api_key is None ==> api_key_choice(ov, env, file)
            == Some(k@)),
        ov.api_key is None && env.api_key is None ==> api_key_choice(ov, env, file)
            == profile_api_key(chosen_profile(ov, env, file)),
        ov.app_key matches Some(k) ==> app_key_choice(ov, env, file) == Some(k@),
        env.app_key matches Some(k) ==> (ov.app_key is None ==> app_key_choice(ov, env, file)
            == Some(k@)),
        ov.app_key is None && env.app_key is None ==> app_key_choice(ov, env, file)
            == profile_app_key(chosen_profile(ov, env, file)),
        resolve_fault(ov, env, file) is None ==> usable(api_key_choice(ov, env, file)) && usable(
            app_key_choice(ov, env, file),
        ),
{
}

/// The profile flag beats `DD_PROFILE`, which beats the file's default
/// profile; a selected profile that the file lacks is refused by name.
pub proof fn profile_precedence(ov: Overrides, env: Environment, file: Option<FileConfig>)
    ensures
        ov.profile matches Some(n) ==> profile_choice(ov, env, file) == Some(n@),
        env.profile matches Some(n) ==> (ov.profile is None ==> profile_choice(ov, env, file)
            == Some(n@)),
        ov.profile is None && env.profile is None ==> profile_choice(ov, env, file)
            == file_default_profile(file),
        profile_choice(ov, env, file) matches Some(n) ==> (file_profile(file, n) is None
            ==> resolve_fault(ov, env, file) == Some(ConfigFault::ProfileNotFound(n))),
{
}

} // verus!
