//! Application configuration and the search API configuration.
//!
//! Paths are held as the bytes of the operating system's strings, as
//! `PathBuf` holds them on Unix; the defaults sit under the per-user
//! directories that the `dirs` crate reports, in a `twatch` folder.
use crate::text::to_owned_string;
use std::collections::HashMap;
use vstd::prelude::*;
use vstd::utf8::encode_utf8;

verus! {

// ── Paths ────────────────────────────────────────────────────────────

/// `base.join(part)` for a relative `part` on Unix, over the bytes of the
/// paths: `part` alone when `base` is empty, else `base` and `part` with
/// one `/` between them.
pub open spec fn path_join(base: Seq<u8>, part: Seq<u8>) -> Seq<u8> {
    if base.len() == 0 {
        part
    } else if base.last() == 47u8 {
        base + part
    } else {
        base + seq![47u8] + part
    }
}

/// Joins a relative path part onto a base path (as `Path::join` does on
/// Unix); paths are held as the bytes of the operating system's string.
pub fn join_path(base: &Vec<u8>, part: &str) -> (r: Vec<u8>)
    ensures
        r@ == path_join(base@, encode_utf8(part@)),
{
    let mut out: Vec<u8> = Vec::new();
    let mut i: usize = 0;
    while i < base.len()
        invariant
            i <= base.len(),
            out@ == base@.take(i as int),
        decreases base.len() - i,
    {
        out.push(base[i]);
        i += 1;
        assert(out@ =~= base@.take(i as int));
    }
    assert(base@.take(base.len() as int) =~= base@);
    if base.len() > 0 && base[base.len() - 1] != 47u8 {
        out.push(47u8);
    }
    let head = out.clone();
    let bytes = part.as_bytes();
    let mut k: usize = 0;
    while k < bytes.len()
        invariant
            k <= bytes.len(),
            out@ == head@ + bytes@.take(k as int),
        decreases bytes.len() - k,
    {
        out.push(bytes[k]);
        k += 1;
        assert(out@ =~= head@ + bytes@.take(k as int));
    }
    proof {
        assert(bytes@.take(bytes.len() as int) =~= bytes@);
        if base.len() > 0 {
            assert(base@.last() == base@[base.len() - 1]);
        }
    }
    assert(out@ =~= path_join(base@, encode_utf8(part@)));
    out
}

/// The per-user base directories, as the `dirs` crate reports them
/// (they depend on the environment), each as the bytes of its path;
/// `None` where a directory is unknown.
pub struct BaseDirs {
    pub config: Option<Vec<u8>>,
    pub download: Option<Vec<u8>>,
    pub state: Option<Vec<u8>>,
    pub cache: Option<Vec<u8>>,
}

/// Calls `dirs::config_dir`; the result depends on the environment, so
/// nothing is stated of it.  The path is handed back as its bytes.
#[verifier::external_body]
fn dirs_config_dir() -> Option<Vec<u8>> {
    dirs::config_dir().map(|p| p.into_os_string().into_encoded_bytes())
}

/// Calls `dirs::download_dir`; the result depends on the environment.
#[verifier::external_body]
fn dirs_download_dir() -> Option<Vec<u8>> {
    dirs::download_dir().map(|p| p.into_os_string().into_encoded_bytes())
}

/// Calls `dirs::state_dir`; the result depends on the environment.
#[verifier::external_body]
fn dirs_state_dir() -> Option<Vec<u8>> {
    dirs::state_dir().map(|p| p.into_os_string().into_encoded_bytes())
}

/// Calls `dirs::cache_dir`; the result depends on the environment.
#[verifier::external_body]
fn dirs_cache_dir() -> Option<Vec<u8>> {
    dirs::cache_dir().map(|p| p.into_os_string().into_encoded_bytes())
}

impl BaseDirs {
    /// Asks the `dirs` crate for the current user's base directories.
    pub fn current() -> BaseDirs {
        BaseDirs {
            config: dirs_config_dir(),
            download: dirs_download_dir(),
            state: dirs_state_dir(),
            cache: dirs_cache_dir(),
        }
    }
}

// ── Config ───────────────────────────────────────────────────────────

pub fn default_theme() -> (r: String)
    ensures
        r@ == "tokyonight-dark"@,
{
    to_owned_string("tokyonight-dark")
}

pub fn default_log_level() -> (r: String)
    ensures
        r@ == "info"@,
{
    to_owned_string("info")
}

pub fn default_history_filename() -> (r: String)
    ensures
        r@ == "history.json"@,
{
    to_owned_string("history.json")
}

/// The application's settings.
#[derive(Debug)]
pub struct Config {
    /// Path to the tracing log file (default: `$XDG_STATE_HOME/twatch/twatch.log`).
    pub log_path: Vec<u8>,
    /// Tracing filter level (default: `"info"`).
    pub log_level: String,
    /// Directory for the torrent session state (default: `$XDG_CACHE_HOME/twatch/session`).
    pub session_path: Vec<u8>,
    /// Directory for persistent config/history data (default: `$XDG_CONFIG_HOME/twatch`).
    pub config_dir: Vec<u8>,
    /// Directory for completed downloads (default: `$XDG_DOWNLOAD_DIR/twatch`).
    pub download_dir: Vec<u8>,
    /// Base filename for the history JSON file inside `config_dir` (default: `"history.json"`).
    pub history_filename: String,
    /// Theme name in kebab-case (default: `"tokyonight-dark"`).
    pub theme: String,
}

impl Clone for Config {
    fn clone(&self) -> (r: Self)
        ensures
            r@ == self@,
    {
        Config {
            log_path: self.log_path.clone(),
            log_level: self.log_level.clone(),
            session_path: self.session_path.clone(),
            config_dir: self.config_dir.clone(),
            download_dir: self.download_dir.clone(),
            history_filename: self.history_filename.clone(),
            theme: self.theme.clone(),
        }
    }
}

/// The plain contents of a [`Config`].
pub struct ConfigView {
    pub log_path: Seq<u8>,
    pub log_level: Seq<char>,
    pub session_path: Seq<u8>,
    pub config_dir: Seq<u8>,
    pub download_dir: Seq<u8>,
    pub history_filename: Seq<char>,
    pub theme: Seq<char>,
}

impl View for Config {
    type V = ConfigView;

    open spec fn view(&self) -> ConfigView {
        ConfigView {
            log_path: self.log_path@,
            log_level: self.log_level@,
            session_path: self.session_path@,
            config_dir: self.config_dir@,
            download_dir: self.download_dir@,
            history_filename: self.history_filename@,
            theme: self.theme@,
        }
    }
}

/// A base directory, or the empty path when it is unknown.
pub open spec fn base_or_empty(b: Option<Vec<u8>>) -> Seq<u8> {
    match b {
        Some(s) => s@,
        None => Seq::empty(),
    }
}

/// The bytes of a path written as text.
pub open spec fn path_of(s: Seq<char>) -> Seq<u8> {
    encode_utf8(s)
}

/// The default settings for the given base directories.
pub open spec fn default_config(dirs: BaseDirs) -> ConfigView {
    let app = path_of("twatch"@);
    let state = path_join(base_or_empty(dirs.state), app);
    let cache = path_join(base_or_empty(dirs.cache), app);
    ConfigView {
        log_path: path_join(state, path_of("twatch.log"@)),
        log_level: "info"@,
        session_path: path_join(cache, path_of("session"@)),
        config_dir: path_join(base_or_empty(dirs.config), app),
        download_dir: path_join(base_or_empty(dirs.download), app),
        history_filename: "history.json"@,
        theme: "tokyonight-dark"@,
    }
}

fn base_path(b: &Option<Vec<u8>>) -> (r: Vec<u8>)
    ensures
        r@ == base_or_empty(*b),
{
    match b {
        Some(v) => v.clone(),
        None => Vec::new(),
    }
}

impl Config {
    /// The default settings under the given base directories.
    pub fn from_base_dirs(dirs: &BaseDirs) -> (r: Config)
        ensures
            r@ == default_config(*dirs),
    {
        let state_dir = join_path(&base_path(&dirs.state), "twatch");
        let cache_dir = join_path(&base_path(&dirs.cache), "twatch");
        Config {
            log_path: join_path(&state_dir, "twatch.log"),
            log_level: to_owned_string("info"),
            session_path: join_path(&cache_dir, "session"),
            config_dir: join_path(&base_path(&dirs.config), "twatch"),
            download_dir: join_path(&base_path(&dirs.download), "twatch"),
            history_filename: to_owned_string("history.json"),
            theme: to_owned_string("tokyonight-dark"),
        }
    }

    /// Settings loaded from the configuration file merged over `self`, the
    /// defaults: the log level and theme come from the file, the paths
    /// and the history file name stay the defaults.
    pub fn merged(self, user: Config) -> (r: Config)
        ensures
            r@ == (ConfigView {
                log_level: user@.log_level,
                theme: user@.theme,
                ..self@
            }),
    {
        Config {
            log_path: self.log_path,
            log_level: user.log_level,
            session_path: self.session_path,
            config_dir: self.config_dir,
            download_dir: self.download_dir,
            history_filename: self.history_filename,
            theme: user.theme,
        }
    }
}

impl Default for Config {
    /// The defaults under the current user's base directories.
    fn default() -> (r: Self)
        ensures
            exists|dirs: BaseDirs| r@ == default_config(dirs),
    {
        let dirs = BaseDirs::current();
        Config::from_base_dirs(&dirs)
    }
}

// ── Search API configuration ─────────────────────────────────────────

pub fn default_name() -> (r: String)
    ensures
        r@ == "name"@,
{
    to_owned_string("name")
}

pub fn default_info_hash() -> (r: String)
    ensures
        r@ == "info_hash"@,
{
    to_owned_string("info_hash")
}

pub fn default_seeders() -> (r: String)
    ensures
        r@ == "seeders"@,
{
    to_owned_string("seeders")
}

pub fn default_leechers() -> (r: String)
    ensures
        r@ == "leechers"@,
{
    to_owned_string("leechers")
}

pub fn default_size() -> (r: String)
    ensures
        r@ == "size"@,
{
    to_owned_string("size")
}

pub fn default_username() -> (r: String)
    ensures
        r@ == "username"@,
{
    to_owned_string("username")
}

/// Which JSON field of a search result holds each value.
#[derive(Debug)]
pub struct FieldMap {
    pub name: String,
    pub info_hash: String,
    pub seeders: String,
    pub leechers: String,
    pub size: String,
    pub username: String,
}

impl Clone for FieldMap {
    fn clone(&self) -> (r: Self)
        ensures
            r == *self,
    {
        FieldMap {
            name: self.name.clone(),
            info_hash: self.info_hash.clone(),
            seeders: self.seeders.clone(),
            leechers: self.leechers.clone(),
            size: self.size.clone(),
            username: self.username.clone(),
        }
    }
}

impl Default for FieldMap {
    fn default() -> (r: Self)
        ensures
            r.name@ == "name"@,
            r.info_hash@ == "info_hash"@,
            r.seeders@ == "seeders"@,
            r.leechers@ == "leechers"@,
            r.size@ == "size"@,
            r.username@ == "username"@,
    {
        FieldMap {
            name: default_name(),
            info_hash: default_info_hash(),
            seeders: default_seeders(),
            leechers: default_leechers(),
            size: default_size(),
            username: default_username(),
        }
    }
}

/// A user-configured JSON search API.
#[derive(Debug, Clone)]
pub struct SearchConfig {
    /// The request URL; `{query}` and `{page}` are replaced.
    pub url: String,
    /// Extra request headers.
    pub headers: HashMap<String, String>,
    pub field_map: FieldMap,
    pub page: u32,
}

impl Default for SearchConfig {
    fn default() -> (r: Self)
        ensures
            r.url@ == Seq::<char>::empty(),
            r.headers@ == Map::<String, String>::empty(),
            r.field_map.name@ == "name"@,
            r.field_map.info_hash@ == "info_hash"@,
            r.field_map.seeders@ == "seeders"@,
            r.field_map.leechers@ == "leechers"@,
            r.field_map.size@ == "size"@,
            r.field_map.username@ == "username"@,
            r.page == 0,
    {
        SearchConfig {
            url: String::new(),
            headers: HashMap::new(),
            field_map: FieldMap::default(),
            page: 0,
        }
    }
}

} // verus!
