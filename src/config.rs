//! The user's configuration: the address of the model service and the
//! directory that holds its models, each resolved by priority (user setting,
//! then environment, then default). Reading the environment and the
//! configuration file is the application's part; it hands the values in.
use vstd::prelude::*;

verus! {

/// Text with leading and trailing white space (Unicode `White_Space`) removed.
pub uninterp spec fn trimmed(s: Seq<char>) -> Seq<char>;

/// Relies on `str::trim`: removes leading and trailing white space.
#[verifier::external_body]
pub(crate) fn trim_str(s: &str) -> (r: &str)
    ensures
        r@ == trimmed(s@),
{
    s.trim()
}

/// Relies on `str::replace` with `char` patterns: every `from` becomes `to`.
#[verifier::external_body]
fn replace_char(s: &str, from: char, to: char) -> (r: String)
    ensures
        r@ == s@.map_values(|c: char| if c == from { to } else { c }),
{
    s.replace(from, &to.to_string())
}

/// Whether `s` begins with `p`.
pub open spec fn has_prefix(s: Seq<char>, p: Seq<char>) -> bool {
    p.len() <= s.len() && s.subrange(0, p.len() as int) == p
}

/// The port the service listens on by default.
pub open spec fn default_port_suffix() -> Seq<char> {
    ":11434"@
}

/// The service address used when neither the user nor the environment gives one.
pub open spec fn default_host() -> Seq<char> {
    "http://127.0.0.1:11434"@
}

/// A host given as an address: kept when it names a protocol, else given
/// `http://`, and the default port when it names none.
pub open spec fn normalized_host(t: Seq<char>) -> Seq<char> {
    if has_prefix(t, "http://"@) || has_prefix(t, "https://"@) {
        t
    } else if t.contains(':') {
        "http://"@ + t
    } else {
        "http://"@ + t + default_port_suffix()
    }
}

/// `s` without the `c` characters at its end.
pub open spec fn strip_trailing(s: Seq<char>, c: char) -> Seq<char>
    decreases s.len(),
{
    if s.len() > 0 && s.last() == c {
        strip_trailing(s.drop_last(), c)
    } else {
        s
    }
}

/// A models directory in the form kept in the configuration: trimmed,
/// backslashes turned into slashes, no trailing slash.
pub open spec fn normalized_models_path(t: Seq<char>) -> Seq<char> {
    strip_trailing(t.map_values(|c: char| if c == '\\' { '/' } else { c }), '/')
}

/// Why a configuration value was refused.
#[derive(Debug, Clone, PartialEq, Eq)]
pub enum ConfigError {
    /// The models directory is empty once white space is trimmed.
    EmptyPath,
}

/// What the user configured; `None` where nothing was set.
#[derive(Debug, Clone, PartialEq, Eq)]
pub struct AppConfig {
    pub ollama_host: Option<String>,
    pub ollama_models_path: Option<String>,
}

impl Default for AppConfig {
    fn default() -> (r: AppConfig)
        ensures
            r.ollama_host is None,
            r.ollama_models_path is None,
    {
        AppConfig { ollama_host: None, ollama_models_path: None }
    }
}

/// A snapshot of the configuration and of what it resolves to.
#[derive(Debug, Clone, PartialEq, Eq)]
pub struct ConfigInfo {
    pub config_path: String,
    pub user_configured_host: Option<String>,
    pub env_host: Option<String>,
    pub effective_host: String,
    pub user_configured_models_path: Option<String>,
    pub env_models_path: Option<String>,
    pub effective_models_path: String,
}

/// The configuration with the path of the file it is kept in.
pub struct ConfigManager {
    config_path: String,
    config: AppConfig,
}

pub open spec fn opt_view(o: Option<String>) -> Option<Seq<char>> {
    match o {
        Some(s) => Some(s@),
        None => None,
    }
}

/// The value a setting resolves to: the user's when non-empty, else the
/// environment's when non-empty, else `None`.
pub open spec fn resolve(user: Option<Seq<char>>, env: Option<Seq<char>>) -> Option<Seq<char>> {
    match user {
        Some(u) if u.len() > 0 => Some(u),
        _ => match env {
            Some(e) if e.len() > 0 => Some(e),
            _ => None,
        },
    }
}

pub(crate) fn has_prefix_exec(s: &str, p: &str) -> (r: bool)
    ensures
        r == has_prefix(s@, p@),
{
    let n = s.unicode_len();
    let m = p.unicode_len();
    if m > n {
        return false;
    }
    let mut i: usize = 0;
    while i < m
        invariant
            m == p@.len(),
            n == s@.len(),
            m <= n,
            i <= m,
            forall|j: int| 0 <= j < i ==> s@[j] == p@[j],
        decreases m - i,
    {
        if s.get_char(i) != p.get_char(i) {
            proof {
                assert(s@.subrange(0, m as int)[i as int] != p@[i as int]);
            }
            return false;
        }
        i = i + 1;
    }
    proof {
        assert(s@.subrange(0, m as int) =~= p@);
    }
    true
}

fn contains_char(s: &str, c: char) -> (r: bool)
    ensures
        r == s@.contains(c),
{
    let n = s.unicode_len();
    let mut i: usize = 0;
    while i < n
        invariant
            n == s@.len(),
            i <= n,
            forall|j: int| 0 <= j < i ==> s@[j] != c,
        decreases n - i,
    {
        if s.get_char(i) == c {
            return true;
        }
        i = i + 1;
    }
    false
}

fn non_empty(s: &Option<String>) -> (r: Option<&String>)
    ensures
        match r {
            Some(v) => *s == Some(*v) && v@.len() > 0,
            None => match s {
                Some(v) => v@.len() == 0,
                None => true,
            },
        },
{
    match s {
        Some(v) => {
            if v.as_str().unicode_len() > 0 {
                Some(v)
            } else {
                None
            }
        },
        None => None,
    }
}

impl ConfigManager {
    /// A manager over a configuration read from `config_path`.
    pub fn with_config(config_path: String, config: AppConfig) -> (r: ConfigManager)
        ensures
            r.config_path()@ == config_path@,
            r.config().ollama_host == config.ollama_host,
            r.config().ollama_models_path == config.ollama_models_path,
    {
        ConfigManager { config_path, config }
    }

    pub closed spec fn config(&self) -> AppConfig {
        self.config
    }

    pub closed spec fn config_path(&self) -> String {
        self.config_path
    }

    /// The configuration, to be written to the file.
    pub fn current(&self) -> (r: &AppConfig)
        ensures
            *r == self.config(),
    {
        &self.config
    }

    /// The path of the configuration file.
    pub fn path(&self) -> (r: &String)
        ensures
            *r == self.config_path(),
    {
        &self.config_path
    }

    /// Trims a host address and brings it to the form `protocol://host:port`.
    pub fn normalize_host(&self, host: &str) -> (r: String)
        ensures
            r@ == normalized_host(trimmed(host@)),
    {
        let t = trim_str(host);
        if has_prefix_exec(t, "http://") || has_prefix_exec(t, "https://") {
            return t.to_owned();
        }
        if contains_char(t, ':') {
            return "http://".to_owned().concat(t);
        }
        "http://".to_owned().concat(t).concat(":11434")
    }

    /// The service address: the user's setting when non-empty, else the
    /// environment's (`env_host`) when non-empty, each normalized; else the
    /// default address.
    pub fn get_ollama_host(&self, env_host: Option<String>) -> (r: String)
        ensures
            r@ == match resolve(opt_view(self.config().ollama_host), opt_view(env_host)) {
                Some(h) => normalized_host(trimmed(h)),
                None => default_host(),
            },
    {
        match non_empty(&self.config.ollama_host) {
            Some(h) => self.normalize_host(h.as_str()),
            None => match non_empty(&env_host) {
                Some(h) => self.normalize_host(h.as_str()),
                None => "http://127.0.0.1:11434".to_owned(),
            },
        }
    }

    /// Sets the user's service address, normalized; an empty one clears it.
    pub fn set_ollama_host(&mut self, host: String)
        ensures
            host@.len() == 0 ==> final(self).config().ollama_host is None,
            host@.len() > 0 ==> opt_view(final(self).config().ollama_host) == Some(
                normalized_host(trimmed(host@)),
            ),
            final(self).config().ollama_models_path == old(self).config().ollama_models_path,
            final(self).config_path() == old(self).config_path(),
    {
        let normalized = if host.as_str().unicode_len() == 0 {
            None
        } else {
            Some(self.normalize_host(host.as_str()))
        };
        self.config.ollama_host = normalized;
    }

    /// Clears the user's service address, so that the environment or the
    /// default applies.
    pub fn clear_ollama_host(&mut self)
        ensures
            final(self).config().ollama_host is None,
            final(self).config().ollama_models_path == old(self).config().ollama_models_path,
            final(self).config_path() == old(self).config_path(),
    {
        self.config.ollama_host = None;
    }

    /// The models directory: the user's setting when non-empty, else the
    /// environment's (`env_path`) when non-empty, else `default_path` (the
    /// platform's default).
    pub fn get_ollama_models_path(&self, env_path: Option<String>, default_path: String) -> (r:
        String)
        ensures
            r@ == match resolve(opt_view(self.config().ollama_models_path), opt_view(env_path)) {
                Some(p) => p,
                None => default_path@,
            },
    {
        match non_empty(&self.config.ollama_models_path) {
            Some(p) => p.clone(),
            None => match non_empty(&env_path) {
                Some(p) => p.clone(),
                None => default_path,
            },
        }
    }

    /// Trims a models directory, turns backslashes into slashes and drops
    /// trailing slashes; fails with `EmptyPath` when only white space is given.
    pub fn normalize_models_path(&self, path: &str) -> (r: Result<String, ConfigError>)
        ensures
            trimmed(path@).len() == 0 ==> (r matches Err(ConfigError::EmptyPath)),
            trimmed(path@).len() > 0 ==> (r matches Ok(p) && p@ == normalized_models_path(
                trimmed(path@),
            )),
    {
        let t = trim_str(path);
        if t.unicode_len() == 0 {
            return Err(ConfigError::EmptyPath);
        }
        let replaced = replace_char(t, '\\', '/');
        let s = replaced.as_str();
        let mut k: usize = s.unicode_len();
        proof {
            assert(s@.subrange(0, k as int) =~= s@);
        }
        while k > 0 && s.get_char(k - 1) == '/'
            invariant
                k <= s@.len(),
                strip_trailing(s@.subrange(0, k as int), '/') == strip_trailing(s@, '/'),
            decreases k,
        {
            proof {
                assert(s@.subrange(0, k as int).drop_last() =~= s@.subrange(0, k - 1));
            }
            k = k - 1;
        }
        proof {
            if k > 0 {
                assert(s@.subrange(0, k as int).last() == s@[k - 1]);
            }
        }
        Ok(s.substring_char(0, k).to_owned())
    }

    /// Sets the user's models directory, normalized; an empty one clears it.
    /// Fails with `EmptyPath`, changing nothing, for a path of white space only.
    pub fn set_ollama_models_path(&mut self, path: String) -> (r: Result<(), ConfigError>)
        ensures
            path@.len() == 0 ==> (r is Ok) && final(self).config().ollama_models_path is None,
            path@.len() > 0 && trimmed(path@).len() == 0 ==> (r matches Err(
                ConfigError::EmptyPath,
            )) && *final(self) == *old(self),
            path@.len() > 0 && trimmed(path@).len() > 0 ==> (r is Ok) && opt_view(
                final(self).config().ollama_models_path,
            ) == Some(normalized_models_path(trimmed(path@))),
            final(self).config().ollama_host == old(self).config().ollama_host,
            final(self).config_path() == old(self).config_path(),
    {
        if path.as_str().unicode_len() == 0 {
            self.config.ollama_models_path = None;
            return Ok(());
        }
        match self.normalize_models_path(path.as_str()) {
            Ok(p) => {
                self.config.ollama_models_path = Some(p);
                Ok(())
            },
            Err(e) => Err(e),
        }
    }

    /// Clears the user's models directory.
    pub fn clear_ollama_models_path(&mut self)
        ensures
            final(self).config().ollama_models_path is None,
            final(self).config().ollama_host == old(self).config().ollama_host,
            final(self).config_path() == old(self).config_path(),
    {
        self.config.ollama_models_path = None;
    }

    /// The configuration next to what it resolves to, given the environment's
    /// values and the platform's default models directory.
    pub fn get_config_info(
        &self,
        env_host: Option<String>,
        env_models_path: Option<String>,
        default_models_path: String,
    ) -> (r: ConfigInfo)
        ensures
            r.config_path == self.config_path(),
            r.user_configured_host == self.config().ollama_host,
            r.env_host == env_host,
            r.effective_host@ == match resolve(
                opt_view(self.config().ollama_host),
                opt_view(env_host),
            ) {
                Some(h) => normalized_host(trimmed(h)),
                None => default_host(),
            },
            r.user_configured_models_path == self.config().ollama_models_path,
            r.env_models_path == env_models_path,
            r.effective_models_path@ == match resolve(
                opt_view(self.config().ollama_models_path),
                opt_view(env_models_path),
            ) {
                Some(p) => p,
                None => default_models_path@,
            },
    {
        let effective_host = self.get_ollama_host(clone_opt(&env_host));
        let effective_models_path = self.get_ollama_models_path(
            clone_opt(&env_models_path),
            default_models_path,
        );
        ConfigInfo {
            config_path: self.config_path.clone(),
            user_configured_host: clone_opt(&self.config.ollama_host),
            env_host,
            effective_host,
            user_configured_models_path: clone_opt(&self.config.ollama_models_path),
            env_models_path,
            effective_models_path,
        }
    }
}

fn clone_opt(o: &Option<String>) -> (r: Option<String>)
    ensures
        r == *o,
{
    match o {
        Some(s) => Some(s.clone()),
        None => None,
    }
}

/// The number of `c` in `s`.
pub open spec fn count_char(s: Seq<char>, c: char) -> nat
    decreases s.len(),
{
    if s.len() == 0 {
        0
    } else {
        count_char(s.drop_last(), c) + if s.last() == c {
            1nat
        } else {
            0nat
        }
    }
}

fn count_char_exec(s: &str, c: char) -> (r: usize)
    ensures
        r == count_char(s@, c),
{
    let n = s.unicode_len();
    let mut k: usize = 0;
    let mut i: usize = 0;
    proof {
        assert(s@.subrange(0, 0) =~= Seq::<char>::empty());
    }
    while i < n
        invariant
            n == s@.len(),
            i <= n,
            k <= i,
            k == count_char(s@.subrange(0, i as int), c),
        decreases n - i,
    {
        proof {
            assert(s@.subrange(0, i + 1).drop_last() =~= s@.subrange(0, i as int));
        }
        if s.get_char(i) == c {
            k = k + 1;
        }
        i = i + 1;
    }
    proof {
        assert(s@.subrange(0, n as int) =~= s@);
    }
    k
}

/// The address that a host check probes: `http://` added when no protocol is
/// named, then the default port when the address has no `:` or is `http://`
/// with no other `:`.
pub open spec fn probe_address(host: Seq<char>) -> Seq<char> {
    let u = if !has_prefix(host, "http://"@) && !has_prefix(host, "https://"@) {
        "http://"@ + host
    } else {
        host
    };
    if !u.contains(':') || (count_char(u, ':') == 1 && has_prefix(u, "http://"@)) {
        u + default_port_suffix()
    } else {
        u
    }
}

/// The version endpoint used to check that a host answers.
pub fn host_check_url(host: &str) -> (r: String)
    ensures
        r@ == probe_address(host@) + "/api/version"@,
{
    let u = if !has_prefix_exec(host, "http://") && !has_prefix_exec(host, "https://") {
        "http://".to_owned().concat(host)
    } else {
        host.to_owned()
    };
    let with_port = if !contains_char(u.as_str(), ':') || (count_char_exec(u.as_str(), ':') == 1
        && has_prefix_exec(u.as_str(), "http://")) {
        u.concat(":11434")
    } else {
        u
    };
    with_port.concat("/api/version")
}

/// The default models directory under a user directory: `/.ollama` appended,
/// and on Windows backslashes turned into slashes first.
pub open spec fn default_models_dir(user_dir: Seq<char>, windows: bool) -> Seq<char> {
    (if windows {
        user_dir.map_values(|c: char| if c == '\\' { '/' } else { c })
    } else {
        user_dir
    }) + "/.ollama"@
}

/// The default models directory under `user_dir` (the home directory, or the
/// platform's fallback when it is unknown).
pub fn default_models_path(user_dir: &str, windows: bool) -> (r: String)
    ensures
        r@ == default_models_dir(user_dir@, windows),
{
    let base = if windows {
        replace_char(user_dir, '\\', '/')
    } else {
        user_dir.to_owned()
    };
    base.concat("/.ollama")
}

} // verus!
