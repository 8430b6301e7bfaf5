//! User settings and the resolution of the agent binary, held as explicit
//! process-scoped state rather than global caches.
use vstd::prelude::*;
use crate::events::{opt_view, views};
use crate::text::{copy_opt, owned};

verus! {

/// The context window assumed when neither the stream nor the settings give one.
pub const DEFAULT_CONTEXT_WINDOW: usize = 200000;

/// User-configurable settings.
#[derive(Clone, Debug, PartialEq, Eq)]
pub struct HorsemanConfig {
    /// Path to the agent binary.
    pub claude_binary: Option<String>,
    /// Directory of the persisted transcripts.
    pub projects_dir: Option<String>,
    /// Path of the debug log; none disables it.
    pub debug_log_path: Option<String>,
    /// Fallback context window size.
    pub context_window: Option<usize>,
}

impl Default for HorsemanConfig {
    fn default() -> (r: Self)
        ensures
            r.claude_binary is None,
            r.projects_dir is None,
            r.debug_log_path is None,
            r.context_window is None,
    {
        HorsemanConfig { claude_binary: None, projects_dir: None, debug_log_path: None, context_window: None }
    }
}

impl HorsemanConfig {
    /// A field-for-field copy.
    pub fn copy(&self) -> (r: Self)
        ensures
            r == *self,
    {
        HorsemanConfig {
            claude_binary: copy_opt(&self.claude_binary),
            projects_dir: copy_opt(&self.projects_dir),
            debug_log_path: copy_opt(&self.debug_log_path),
            context_window: self.context_window,
        }
    }
}

/// The settings of this process, the name of the agent program, and the
/// agent binary once it was resolved; the resolution is kept for the life of
/// the process.
pub struct ConfigState {
    pub config: HorsemanConfig,
    /// The agent program's file name, looked up on `PATH` as a last resort.
    pub program: String,
    /// How the program is called in messages.
    pub display_name: String,
    pub resolved_binary: Option<String>,
}

impl ConfigState {
    /// State for settings just loaded, nothing resolved yet.
    pub fn new(config: HorsemanConfig, program: String, display_name: String) -> (r: Self)
        ensures
            r.config == config,
            r.program == program,
            r.display_name == display_name,
            r.resolved_binary is None,
    {
        ConfigState { config, program, display_name, resolved_binary: None }
    }
}

/// The current settings.
pub fn get_config(state: &ConfigState) -> (r: HorsemanConfig)
    ensures
        r == state.config,
{
    state.config.copy()
}

/// Replaces the settings; the caller persists what is returned.
pub fn update_config(state: &mut ConfigState, updates: HorsemanConfig) -> (r: HorsemanConfig)
    ensures
        final(state).config == updates,
        r == updates,
        final(state).resolved_binary == old(state).resolved_binary,
        final(state).program == old(state).program,
{
    state.config = updates;
    state.config.copy()
}

/// The binary to launch: the one resolved before, else the configured one,
/// else the one found on a search path, else the bare program name, which the
/// system looks up on `PATH`.
pub open spec fn binary_spec(state: ConfigState, found: Option<String>) -> Seq<char> {
    match state.resolved_binary {
        Some(b) => b@,
        None => match state.config.claude_binary {
            Some(b) => b@,
            None => match found {
                Some(f) => f@,
                None => state.program@,
            },
        },
    }
}

/// Resolves the agent binary, given the first search path that holds one; the
/// answer is kept and returned by every later call.
pub fn resolve_claude_binary(state: &mut ConfigState, found: Option<String>) -> (r: String)
    ensures
        r@ == binary_spec(*old(state), found),
        final(state).resolved_binary == Some(r),
        final(state).config == old(state).config,
        final(state).program == old(state).program,
{
    let r = match &state.resolved_binary {
        Some(b) => b.clone(),
        None => match &state.config.claude_binary {
            Some(b) => b.clone(),
            None => match found {
                Some(f) => f,
                None => state.program.clone(),
            },
        },
    };
    state.resolved_binary = Some(r.clone());
    r
}

/// The agent binary to launch; the same as `resolve_claude_binary`.
pub fn claude_binary(state: &mut ConfigState, found: Option<String>) -> (r: String)
    ensures
        r@ == binary_spec(*old(state), found),
        final(state).resolved_binary == Some(r),
        final(state).config == old(state).config,
        final(state).program == old(state).program,
{
    resolve_claude_binary(state, found)
}

/// The transcripts directory: the configured one, else the default.
pub fn projects_dir(state: &ConfigState, default_dir: &String) -> (r: String)
    ensures
        r@ == match state.config.projects_dir {
            Some(p) => p@,
            None => default_dir@,
        },
{
    match &state.config.projects_dir {
        Some(p) => p.clone(),
        None => default_dir.clone(),
    }
}

/// The fallback context window: the configured one, else 200000.
pub fn context_window(state: &ConfigState) -> (r: usize)
    ensures
        r == match state.config.context_window {
            Some(c) => c,
            None => DEFAULT_CONTEXT_WINDOW,
        },
{
    match state.config.context_window {
        Some(c) => c,
        None => DEFAULT_CONTEXT_WINDOW,
    }
}

/// `rel` under directory `base`, as `Path::join` writes a relative path.
pub open spec fn joined(base: Seq<char>, rel: Seq<char>) -> Seq<char> {
    if base.len() == 0 || base.last() == '/' {
        base + rel
    } else {
        base + "/"@ + rel
    }
}

fn join(base: &String, rel: &String) -> (r: String)
    ensures
        r@ == joined(base@, rel@),
{
    let mut r = base.clone();
    let n = base.as_str().unicode_len();
    if n > 0 && base.as_str().get_char(n - 1) != '/' {
        proof {
            reveal_strlit("/");
        }
        r.append("/");
    }
    r.append(rel.as_str());
    r
}

fn cat(a: &str, b: &str) -> (r: String)
    ensures
        r@ == a@ + b@,
{
    let mut r = owned(a);
    r.append(b);
    r
}

/// The program's own install directory under the home directory, then the
/// usual per-user binary directories, each holding the program.
pub open spec fn home_relative_paths(p: Seq<char>) -> Seq<Seq<char>> {
    seq![
        "."@ + p + "/bin/"@ + p,
        "."@ + p + "/local/bin/"@ + p,
        ".local/bin/"@ + p,
        ".bun/bin/"@ + p,
        ".npm-global/bin/"@ + p,
        ".nvm/current/bin/"@ + p,
        ".volta/bin/"@ + p,
        ".npm/bin/"@ + p,
    ]
}

/// The system-wide binary directories, each holding the program.
pub open spec fn system_paths(p: Seq<char>) -> Seq<Seq<char>> {
    seq!["/opt/homebrew/bin/"@ + p, "/usr/local/bin/"@ + p, "/usr/bin/"@ + p]
}

/// Where the agent binary is looked for, in order: the per-user install
/// locations under the home directory, then the system-wide ones.
pub open spec fn search_paths_spec(home: Option<Seq<char>>, p: Seq<char>) -> Seq<Seq<char>> {
    match home {
        Some(h) => home_relative_paths(p).map_values(|r: Seq<char>| joined(h, r)) + system_paths(p),
        None => system_paths(p),
    }
}

fn own_dir(program: &str, mid: &str) -> (r: String)
    ensures
        r@ == "."@ + program@ + mid@ + program@,
{
    proof {
        reveal_strlit(".");
    }
    let mut r = owned(".");
    r.append(program);
    r.append(mid);
    r.append(program);
    r
}

/// The search paths for the program, given the home directory.
pub fn search_paths_for_home(home: &Option<String>, program: &str) -> (r: Vec<String>)
    ensures
        views(r@) == search_paths_spec(opt_view(*home), program@),
{
    let mut paths: Vec<String> = Vec::new();
    let ghost hv = opt_view(*home);
    let ghost p = program@;
    proof {
        reveal_strlit("/bin/");
        reveal_strlit("/local/bin/");
        reveal_strlit(".local/bin/");
        reveal_strlit(".bun/bin/");
        reveal_strlit(".npm-global/bin/");
        reveal_strlit(".nvm/current/bin/");
        reveal_strlit(".volta/bin/");
        reveal_strlit(".npm/bin/");
        reveal_strlit("/opt/homebrew/bin/");
        reveal_strlit("/usr/local/bin/");
        reveal_strlit("/usr/bin/");
    }
    if let Some(h) = home {
        paths.push(join(h, &own_dir(program, "/bin/")));
        paths.push(join(h, &own_dir(program, "/local/bin/")));
        paths.push(join(h, &cat(".local/bin/", program)));
        paths.push(join(h, &cat(".bun/bin/", program)));
        paths.push(join(h, &cat(".npm-global/bin/", program)));
        paths.push(join(h, &cat(".nvm/current/bin/", program)));
        paths.push(join(h, &cat(".volta/bin/", program)));
        paths.push(join(h, &cat(".npm/bin/", program)));
    }
    let ghost before = views(paths@);
    paths.push(cat("/opt/homebrew/bin/", program));
    paths.push(cat("/usr/local/bin/", program));
    paths.push(cat("/usr/bin/", program));
    proof {
        match hv {
            Some(h) => {
                assert(before =~= home_relative_paths(p).map_values(|r: Seq<char>| joined(h, r)));
            },
            None => {
                assert(before =~= Seq::<Seq<char>>::empty());
            },
        }
        assert(views(paths@) =~= search_paths_spec(hv, p));
    }
    paths
}

/// Relies on `dirs::home_dir`: the current user's home directory, if known;
/// it depends on the environment.
#[verifier::external_body]
fn home_dir() -> (r: Option<String>)
{
    dirs::home_dir().map(|p| p.to_string_lossy().to_string())
}

/// The search paths for the program under the current user's home directory.
pub fn claude_search_paths(program: &str) -> (r: Vec<String>)
    ensures
        exists|h: Option<Seq<char>>| views(r@) == search_paths_spec(h, program@),
{
    let home = home_dir();
    search_paths_for_home(&home, program)
}

/// The searched paths as a list, one `  - <path>` line each.
pub open spec fn bullets(paths: Seq<Seq<char>>) -> Seq<char>
    decreases paths.len(),
{
    if paths.len() == 0 {
        Seq::empty()
    } else if paths.len() == 1 {
        "  - "@ + paths[0]
    } else {
        bullets(paths.drop_last()) + "\n  - "@ + paths.last()
    }
}

/// Where the settings file would be when its place is not known.
pub open spec fn fallback_config_path() -> Seq<char> {
    "~/Library/Application Support/horseman/config.toml"@
}

/// The message for a missing agent binary: where it was looked for, how to
/// install it, and where to configure its path. `name` is how the program is
/// called in prose; the installer lives at `https://<program>.ai` and the
/// Homebrew cask is `<program>-code`.
pub open spec fn not_found_spec(
    program: Seq<char>,
    name: Seq<char>,
    searched: Seq<Seq<char>>,
    config_path: Seq<char>,
) -> Seq<char> {
    name + " CLI not found.\n\nSearched:\n"@ + bullets(searched) + "\n\nTo fix:\n1. Install "@ + name
        + " Code: curl -fsSL https://"@ + program + ".ai/install.sh | bash\n2. Or via Homebrew: brew install --cask "@
        + program + "-code\n3. Or set path manually in:\n   "@ + config_path
        + "\n\n   Add: claude_binary = \"/path/to/"@ + program + "\""@
}

/// The message for a missing agent binary.
pub fn claude_not_found_error(
    program: &str,
    name: &str,
    searched: &Vec<String>,
    config_path: &Option<String>,
) -> (r: String)
    ensures
        r@ == not_found_spec(program@, name@, views(searched@), match *config_path {
            Some(p) => p@,
            None => fallback_config_path(),
        }),
{
    proof {
        reveal_strlit("  - ");
        reveal_strlit("\n  - ");
    }
    let mut list = String::new();
    let mut i: usize = 0;
    assert(views(searched@.take(0)) =~= Seq::<Seq<char>>::empty());
    while i < searched.len()
        invariant
            i <= searched@.len(),
            list@ == bullets(views(searched@.take(i as int))),
        decreases searched@.len() - i,
    {
        let ghost t = views(searched@.take(i + 1));
        assert(t.drop_last() =~= views(searched@.take(i as int)));
        assert(t.last() == searched@[i as int]@);
        if i == 0 {
            assert(t =~= seq![searched@[0]@]);
            list.append("  - ");
        } else {
            list.append("\n  - ");
        }
        list.append(searched[i].as_str());
        i = i + 1;
    }
    assert(searched@.take(searched@.len() as int) =~= searched@);
    proof {
        reveal_strlit(" CLI not found.\n\nSearched:\n");
        reveal_strlit("\n\nTo fix:\n1. Install ");
        reveal_strlit(" Code: curl -fsSL https://");
        reveal_strlit(".ai/install.sh | bash\n2. Or via Homebrew: brew install --cask ");
        reveal_strlit("-code\n3. Or set path manually in:\n   ");
        reveal_strlit("~/Library/Application Support/horseman/config.toml");
        reveal_strlit("\n\n   Add: claude_binary = \"/path/to/");
        reveal_strlit("\"");
    }
    let mut r = owned(name);
    r.append(" CLI not found.\n\nSearched:\n");
    r.append(list.as_str());
    r.append("\n\nTo fix:\n1. Install ");
    r.append(name);
    r.append(" Code: curl -fsSL https://");
    r.append(program);
    r.append(".ai/install.sh | bash\n2. Or via Homebrew: brew install --cask ");
    r.append(program);
    r.append("-code\n3. Or set path manually in:\n   ");
    match config_path {
        Some(p) => r.append(p.as_str()),
        None => r.append("~/Library/Application Support/horseman/config.toml"),
    }
    r.append("\n\n   Add: claude_binary = \"/path/to/");
    r.append(program);
    r.append("\"");
    r
}

} // verus!
