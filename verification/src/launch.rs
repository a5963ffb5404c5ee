use vstd::prelude::*;
use vstd::string::StringExecFns;
use crate::errors::VerdaccioError;
use crate::text::u64_to_string;
use crate::text::spec_decimal;

verus! {

/// Everything the spawner needs to start the registry server: the entry
/// script, its configuration file, and the socket address to listen on.
#[derive(Debug)]
pub struct LaunchPlan {
    pub entry_path: String,
    pub config_path: String,
    pub listen_addr: String,
    pub port: u16,
}

/// The per-user directory holding the registry's configuration and storage.
pub open spec fn spec_verdaccio_dir(home: Seq<char>) -> Seq<char> {
    home + "/.verdaccio"@
}

/// The registry configuration file inside the per-user directory.
pub open spec fn spec_config_path(home: Seq<char>) -> Seq<char> {
    spec_verdaccio_dir(home) + "/config.yaml"@
}

/// The package storage directory inside the per-user directory.
pub open spec fn spec_storage_path(home: Seq<char>) -> Seq<char> {
    spec_verdaccio_dir(home) + "/storage"@
}

/// The credentials file inside the per-user directory.
pub open spec fn spec_htpasswd_path(home: Seq<char>) -> Seq<char> {
    spec_verdaccio_dir(home) + "/htpasswd"@
}

/// Relies on dirs::home_dir: the user's home directory, when the platform
/// knows one.
#[verifier::external_body]
fn home_dir_string() -> Option<String> {
    dirs::home_dir().map(|p| p.to_string_lossy().to_string())
}

/// The base directory for per-user files: the home directory, or the
/// current directory when the platform names none.
pub fn resolve_home() -> String {
    match home_dir_string() {
        Some(h) => h,
        None => ".".to_owned(),
    }
}

/// The per-user directory holding the registry's configuration and storage.
pub fn get_verdaccio_dir(home: &str) -> (r: String)
    ensures
        r@ == spec_verdaccio_dir(home@),
{
    home.to_owned().concat("/.verdaccio")
}

/// The path of the registry configuration file.
pub fn get_config_path(home: &str) -> (r: String)
    ensures
        r@ == spec_config_path(home@),
{
    let r = get_verdaccio_dir(home).concat("/config.yaml");
    assert(r@ =~= spec_config_path(home@));
    r
}

/// The path of the package storage directory.
pub fn get_storage_path(home: &str) -> (r: String)
    ensures
        r@ == spec_storage_path(home@),
{
    let r = get_verdaccio_dir(home).concat("/storage");
    assert(r@ =~= spec_storage_path(home@));
    r
}

/// The path of the credentials file.
pub fn get_htpasswd_path(home: &str) -> (r: String)
    ensures
        r@ == spec_htpasswd_path(home@),
{
    let r = get_verdaccio_dir(home).concat("/htpasswd");
    assert(r@ =~= spec_htpasswd_path(home@));
    r
}

/// The host the server binds: every interface when LAN access is wanted,
/// loopback only otherwise.
pub open spec fn spec_listen_host(allow_lan: bool) -> Seq<char> {
    if allow_lan {
        "0.0.0.0"@
    } else {
        "127.0.0.1"@
    }
}

/// The `host:port` address handed to the server.
pub open spec fn spec_listen_addr(port: u16, allow_lan: bool) -> Seq<char> {
    spec_listen_host(allow_lan) + ":"@ + spec_decimal(port as nat)
}

/// Computes the listen address for the requested port and LAN policy.
pub fn listen_address(port: u16, allow_lan: bool) -> (r: String)
    ensures
        r@ == spec_listen_addr(port, allow_lan),
{
    let host: &str = if allow_lan {
        "0.0.0.0"
    } else {
        "127.0.0.1"
    };
    let mut s = host.to_owned();
    s.append(":");
    let digits = u64_to_string(port as u64);
    s.append(digits.as_str());
    assert(s@ =~= spec_listen_addr(port, allow_lan));
    s
}

/// The view of an optional path argument.
pub open spec fn opt_view(o: Option<&str>) -> Option<Seq<char>> {
    match o {
        Some(s) => Some(s@),
        None => None,
    }
}

/// The candidate locations for a bundled file, probed in order: the bundled
/// resource tree, a development-mode tree under the working directory, and a
/// tree relative to the running executable's install root.
pub open spec fn spec_candidates(
    resource_dir: Option<Seq<char>>,
    cwd: Option<Seq<char>>,
    exe_root: Option<Seq<char>>,
    rel: Seq<char>,
) -> Seq<Seq<char>> {
    let s1: Seq<Seq<char>> = match resource_dir {
        Some(d) => seq![d + "/"@ + rel],
        None => Seq::empty(),
    };
    let s2: Seq<Seq<char>> = match cwd {
        Some(d) => seq![d + "/resources/"@ + rel],
        None => Seq::empty(),
    };
    let s3: Seq<Seq<char>> = match exe_root {
        Some(d) => seq![d + "/src-tauri/resources/"@ + rel],
        None => Seq::empty(),
    };
    s1 + s2 + s3
}

/// Builds the ordered candidate paths for a file at `rel` inside an install
/// tree, one for each base directory that is known.
pub fn resource_candidates(
    resource_dir: Option<&str>,
    cwd: Option<&str>,
    exe_root: Option<&str>,
    rel: &str,
) -> (r: Vec<String>)
    ensures
        r@.len() == spec_candidates(
            opt_view(resource_dir),
            opt_view(cwd),
            opt_view(exe_root),
            rel@,
        ).len(),
        forall|i: int|
            0 <= i < r@.len() ==> r@[i]@ == spec_candidates(
                opt_view(resource_dir),
                opt_view(cwd),
                opt_view(exe_root),
                rel@,
            )[i],
{
    let mut r: Vec<String> = Vec::new();
    if let Some(d) = resource_dir {
        let c = d.to_owned().concat("/").concat(rel);
        assert(c@ =~= d@ + "/"@ + rel@);
        r.push(c);
    }
    if let Some(d) = cwd {
        let c = d.to_owned().concat("/resources/").concat(rel);
        assert(c@ =~= d@ + "/resources/"@ + rel@);
        r.push(c);
    }
    if let Some(d) = exe_root {
        let c = d.to_owned().concat("/src-tauri/resources/").concat(rel);
        assert(c@ =~= d@ + "/src-tauri/resources/"@ + rel@);
        r.push(c);
    }
    r
}

/// The position of the first `true` at or after `i`.
pub open spec fn first_true_from(bs: Seq<bool>, i: int) -> Option<int>
    decreases bs.len() - i,
{
    if i < 0 || i >= bs.len() {
        None
    } else if bs[i] {
        Some(i)
    } else {
        first_true_from(bs, i + 1)
    }
}

/// The position of the first `true`.
pub open spec fn spec_first_true(bs: Seq<bool>) -> Option<int> {
    first_true_from(bs, 0)
}

/// Picks the first candidate path that exists; the caller reports for each
/// candidate whether it does. When none exists, the remediation-carrying
/// not-found error is returned.
pub fn resolve_existing(candidates: &Vec<String>, exists: &Vec<bool>) -> (r: Result<
    String,
    VerdaccioError,
>)
    requires
        candidates@.len() == exists@.len(),
    ensures
        spec_first_true(exists@) matches Some(i) ==> (r matches Ok(s) && s@ == candidates@[i]@),
        spec_first_true(exists@) is None ==> r == Err::<String, VerdaccioError>(
            VerdaccioError::EntryNotFound,
        ),
{
    let n = candidates.len();
    let mut i: usize = 0;
    while i < n
        invariant
            n == candidates@.len(),
            n == exists@.len(),
            i <= n,
            spec_first_true(exists@) == first_true_from(exists@, i as int),
        decreases n - i,
    {
        if exists[i] {
            return Ok(candidates[i].clone());
        }
        i += 1;
    }
    Err(VerdaccioError::EntryNotFound)
}

/// The configuration document written when none exists yet: local storage,
/// credentials-file auth with unlimited users, the public npm registry as
/// the one upstream, open read and authenticated publish for scoped and
/// unscoped packages with upstream proxying, a keep-alive timeout, the
/// audit middleware, and pretty stdout logging at `http` verbosity.
pub const DEFAULT_CONFIG_TEXT: &'static str = r#"# Verdaccio configuration
storage: ./storage
auth:
  htpasswd:
    file: ./htpasswd
    max_users: -1
uplinks:
  npmjs:
    url: https://registry.npmjs.org/
    cache: true
packages:
  '@*/*':
    access: $all
    publish: $authenticated
    proxy: npmjs
  '**':
    access: $all
    publish: $authenticated
    proxy: npmjs
server:
  keepAliveTimeout: 60
middlewares:
  audit:
    enabled: true
log:
  type: stdout
  format: pretty
  level: http
"#;

/// The document a configuration reset writes: as the default, but with the
/// user count capped and a rule for unproxied `local-` packages.
pub const RESET_CONFIG_TEXT: &'static str = r#"# Verdaccio configuration
storage: ./storage
auth:
  htpasswd:
    file: ./htpasswd
    max_users: 10
uplinks:
  npmjs:
    url: https://registry.npmjs.org/
    cache: true
packages:
  'local-*':
    access: $all
    publish: $authenticated
  '@*/*':
    access: $all
    publish: $authenticated
    proxy: npmjs
  '**':
    access: $all
    publish: $authenticated
    proxy: npmjs
server:
  keepAliveTimeout: 60
middlewares:
  audit:
    enabled: true
log:
  type: stdout
  format: pretty
  level: http
"#;

/// The configuration document written when none exists yet.
pub fn default_config_text() -> (r: String)
    ensures
        r@ == DEFAULT_CONFIG_TEXT@,
{
    DEFAULT_CONFIG_TEXT.to_owned()
}

/// The document a configuration reset writes.
pub fn reset_config_text() -> (r: String)
    ensures
        r@ == RESET_CONFIG_TEXT@,
{
    RESET_CONFIG_TEXT.to_owned()
}

} // verus!
