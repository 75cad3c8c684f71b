//! Backends: what can answer a prompt, what can go wrong with it, and how a
//! configured backend becomes one that is run.

pub mod api;
pub mod cli;
pub mod tmuxlet;

use vstd::prelude::*;

use crate::config;
use crate::env::Env;
use crate::json::Json;
use crate::openai::{mode_of, PromptMode};
use crate::text::{
    chars_of, decimal, decimal_text, find_char, listed, opt_view, signed_decimal,
    signed_decimal_text, split, split_text, views,
};

verus! {

/// An answer.
pub struct DispatchResult {
    pub content: String,
    pub model_label: String,
}

/// An answer of the model.
pub ghost struct DispatchView {
    pub content: Seq<char>,
    pub model_label: Seq<char>,
}

impl View for DispatchResult {
    type V = DispatchView;

    open spec fn view(&self) -> DispatchView {
        DispatchView { content: self.content@, model_label: self.model_label@ }
    }
}

/// Why a backend gave no answer. The first field is the backend's name.
pub enum BackendError {
    Timeout(String),
    Spawn(String, String),
    Exit(String, i32, String),
    Backend(String, String),
    /// With the status and the beginning of what the upstream said.
    Http(String, u16, String),
    Parse(String, String),
    /// As many dispatches run as the backend may have.
    Busy(String),
}

/// An error of the model.
pub ghost enum ErrorView {
    Timeout(Seq<char>),
    Spawn(Seq<char>, Seq<char>),
    Exit(Seq<char>, i32, Seq<char>),
    Backend(Seq<char>, Seq<char>),
    Http(Seq<char>, u16, Seq<char>),
    Parse(Seq<char>, Seq<char>),
    Busy(Seq<char>),
}

impl View for BackendError {
    type V = ErrorView;

    open spec fn view(&self) -> ErrorView {
        match self {
            BackendError::Timeout(n) => ErrorView::Timeout(n@),
            BackendError::Spawn(n, e) => ErrorView::Spawn(n@, e@),
            BackendError::Exit(n, c, s) => ErrorView::Exit(n@, *c, s@),
            BackendError::Backend(n, m) => ErrorView::Backend(n@, m@),
            BackendError::Http(n, s, d) => ErrorView::Http(n@, *s, d@),
            BackendError::Parse(n, m) => ErrorView::Parse(n@, m@),
            BackendError::Busy(n) => ErrorView::Busy(n@),
        }
    }
}

/// The backend that an error is about.
pub open spec fn error_name(e: ErrorView) -> Seq<char> {
    match e {
        ErrorView::Timeout(n) => n,
        ErrorView::Spawn(n, _) => n,
        ErrorView::Exit(n, _, _) => n,
        ErrorView::Backend(n, _) => n,
        ErrorView::Http(n, _, _) => n,
        ErrorView::Parse(n, _) => n,
        ErrorView::Busy(n) => n,
    }
}

/// The kind of an error in a word or two.
pub open spec fn error_class(e: ErrorView) -> Seq<char> {
    match e {
        ErrorView::Timeout(_) => "timeout"@,
        ErrorView::Spawn(_, _) => "spawn"@,
        ErrorView::Exit(_, _, _) => "exit"@,
        ErrorView::Backend(_, _) => "backend error"@,
        ErrorView::Http(_, s, _) => if s == 429 {
            "rate limited"@
        } else {
            "http error"@
        },
        ErrorView::Parse(_, _) => "parse error"@,
        ErrorView::Busy(_) => "busy"@,
    }
}

/// What is said of an error, behind the backend's name.
pub open spec fn error_detail(e: ErrorView) -> Seq<char> {
    match e {
        ErrorView::Timeout(_) => "timed out"@,
        ErrorView::Spawn(_, m) => "spawn failed: "@ + m,
        ErrorView::Exit(_, c, s) => "exited with "@ + signed_decimal(c as int) + ": "@ + s,
        ErrorView::Backend(_, m) => "backend error: "@ + m,
        ErrorView::Http(_, s, d) => if d.len() == 0 {
            "HTTP "@ + decimal(s as nat)
        } else {
            "HTTP "@ + decimal(s as nat) + ": "@ + d
        },
        ErrorView::Parse(_, m) => "parse error: "@ + m,
        ErrorView::Busy(_) => "busy (max_concurrent reached)"@,
    }
}

/// What is said of an error.
pub open spec fn error_message(e: ErrorView) -> Seq<char> {
    "["@ + error_name(e) + "] "@ + error_detail(e)
}

impl BackendError {
    /// The backend that the error is about.
    pub fn backend_name(&self) -> (r: &str)
        ensures
            r@ == error_name(self@),
    {
        match self {
            BackendError::Timeout(n) => n.as_str(),
            BackendError::Spawn(n, _) => n.as_str(),
            BackendError::Exit(n, _, _) => n.as_str(),
            BackendError::Backend(n, _) => n.as_str(),
            BackendError::Http(n, _, _) => n.as_str(),
            BackendError::Parse(n, _) => n.as_str(),
            BackendError::Busy(n) => n.as_str(),
        }
    }

    /// The kind of the error in a word or two.
    pub fn class(&self) -> (r: &'static str)
        ensures
            r@ == error_class(self@),
    {
        match self {
            BackendError::Timeout(_) => "timeout",
            BackendError::Spawn(_, _) => "spawn",
            BackendError::Exit(_, _, _) => "exit",
            BackendError::Backend(_, _) => "backend error",
            BackendError::Http(_, s, _) => {
                if *s == 429 {
                    "rate limited"
                } else {
                    "http error"
                }
            },
            BackendError::Parse(_, _) => "parse error",
            BackendError::Busy(_) => "busy",
        }
    }

    /// What is said of the error, behind the backend's name.
    fn detail(&self) -> (r: String)
        ensures
            r@ == error_detail(self@),
    {
        match self {
            BackendError::Timeout(_) => "timed out".to_owned(),
            BackendError::Spawn(_, m) => "spawn failed: ".to_owned().concat(m.as_str()),
            BackendError::Exit(_, c, s) => "exited with ".to_owned().concat(
                signed_decimal_text(*c as i64).as_str(),
            ).concat(": ").concat(s.as_str()),
            BackendError::Backend(_, m) => "backend error: ".to_owned().concat(m.as_str()),
            BackendError::Http(_, s, d) => {
                let status = "HTTP ".to_owned().concat(decimal_text(*s as u128).as_str());
                if chars_of(d.as_str()).len() == 0 {
                    status
                } else {
                    status.concat(": ").concat(d.as_str())
                }
            },
            BackendError::Parse(_, m) => "parse error: ".to_owned().concat(m.as_str()),
            BackendError::Busy(_) => "busy (max_concurrent reached)".to_owned(),
        }
    }

    /// What is said of the error.
    pub fn to_string(&self) -> (r: String)
        ensures
            r@ == error_message(self@),
    {
        "[".to_owned().concat(self.backend_name()).concat("] ").concat(self.detail().as_str())
    }
}

/// An answer or an error as a value of the model.
pub open spec fn outcome_view(r: Result<DispatchResult, BackendError>) -> Result<
    DispatchView,
    ErrorView,
> {
    match r {
        Ok(d) => Ok(d@),
        Err(e) => Err(e@),
    }
}

/// A text or an error as a value of the model.
pub open spec fn text_view(r: Result<String, BackendError>) -> Result<Seq<char>, ErrorView> {
    match r {
        Ok(s) => Ok(s@),
        Err(e) => Err(e@),
    }
}

// ---------------------------------------------------------------------------
// Backends that are run
// ---------------------------------------------------------------------------

/// A backend that runs `tmuxlet`.
pub struct TmuxletBackend {
    pub name: String,
    /// Where `tmuxlet` was found.
    pub bin: String,
    pub target: String,
    pub target_args: Vec<String>,
    pub cwd: String,
    pub allow_empty: bool,
    pub env_pass: Option<Vec<String>>,
    /// Whether the installed `tmuxlet` reads the prompt from standard input.
    pub use_stdin: bool,
    pub max_concurrent: Option<usize>,
    pub prompt_mode: PromptMode,
}

/// A backend that calls an OpenAI-compatible upstream.
pub struct ApiBackend {
    pub name: String,
    pub base_url: String,
    pub model: String,
    pub api_key_env: Option<String>,
    pub extra_body: Json,
    /// A timeout of its own, in seconds.
    pub timeout: Option<u64>,
    pub allow_empty: bool,
    pub max_response_bytes: u64,
    pub max_concurrent: Option<usize>,
    pub ca_file: Option<String>,
}

/// A backend that runs a program.
pub struct CliBackend {
    pub name: String,
    pub bin: String,
    pub args: Vec<String>,
    pub pty: bool,
    pub cwd: String,
    /// Columns and rows of the terminal.
    pub pty_size: (u16, u16),
    pub allow_empty: bool,
    pub env_pass: Option<Vec<String>>,
    pub stdin_prompt: bool,
    pub max_concurrent: Option<usize>,
    pub prompt_mode: PromptMode,
}

/// A backend that can be run.
pub enum Backend {
    Tmuxlet(TmuxletBackend),
    Api(ApiBackend),
    Cli(CliBackend),
}

/// What the server gives every backend.
pub struct ServerDefaults {
    pub max_response_bytes: u64,
    /// The allowlist for backends without their own.
    pub env_pass: Option<Vec<String>>,
    pub tmuxlet_stdin: bool,
}

// ---------------------------------------------------------------------------
// Finding programs
// ---------------------------------------------------------------------------

/// A file in a directory.
pub open spec fn path_in(dir: Seq<char>, file: Seq<char>) -> Seq<char> {
    if dir.len() > 0 && dir.last() == '/' {
        dir + file
    } else {
        dir + "/"@ + file
    }
}

/// Where a program may be found: in each directory of `PATH` that is not empty.
pub open spec fn candidate_paths(dirs: Seq<Seq<char>>, program: Seq<char>) -> Seq<Seq<char>>
    decreases dirs.len(),
{
    if dirs.len() == 0 {
        Seq::empty()
    } else {
        let front = candidate_paths(dirs.drop_last(), program);
        if dirs.last().len() > 0 {
            front.push(path_in(dirs.last(), program))
        } else {
            front
        }
    }
}

/// The directories that `PATH` lists.
pub open spec fn path_dirs(env: Map<Seq<char>, Seq<char>>) -> Seq<Seq<char>> {
    if env.dom().contains("PATH"@) {
        split(env["PATH"@], ':')
    } else {
        Seq::empty()
    }
}

/// The first of `paths` that is among `executables`.
pub open spec fn first_present(
    paths: Seq<Seq<char>>,
    executables: Seq<Seq<char>>,
) -> Option<Seq<char>>
    decreases paths.len(),
{
    if paths.len() == 0 {
        None
    } else if executables.contains(paths[0]) {
        Some(paths[0])
    } else {
        first_present(paths.drop_first(), executables)
    }
}

/// The path that a program is run by: its name where that is a path already,
/// else the first executable file of that name on `PATH`, else its name.
pub open spec fn program_path(
    program: Seq<char>,
    env: Map<Seq<char>, Seq<char>>,
    executables: Seq<Seq<char>>,
) -> Seq<char> {
    if program.contains('/') {
        program
    } else {
        match first_present(candidate_paths(path_dirs(env), program), executables) {
            Some(p) => p,
            None => program,
        }
    }
}

/// A program that is not run by its name is run from an executable file.
pub proof fn law_program_is_executable(
    program: Seq<char>,
    env: Map<Seq<char>, Seq<char>>,
    executables: Seq<Seq<char>>,
)
    ensures
        program_path(program, env, executables) == program || executables.contains(
            program_path(program, env, executables),
        ),
{
    lemma_first_present(candidate_paths(path_dirs(env), program), executables);
}

proof fn lemma_first_present(paths: Seq<Seq<char>>, executables: Seq<Seq<char>>)
    ensures
        first_present(paths, executables) is Some ==> executables.contains(
            first_present(paths, executables)->0,
        ),
    decreases paths.len(),
{
    if paths.len() > 0 {
        lemma_first_present(paths.drop_first(), executables);
    }
}

/// A file in a directory.
fn join_path(dir: &str, file: &str) -> (r: String)
    ensures
        r@ == path_in(dir@, file@),
{
    let v = chars_of(dir);
    if v.len() > 0 && v[v.len() - 1] == '/' {
        dir.to_owned().concat(file)
    } else {
        dir.to_owned().concat("/").concat(file)
    }
}

/// Where a program may be found, in the order of `PATH`.
pub fn program_candidates(program: &str, env: &Env) -> (r: Vec<String>)
    ensures
        views(r@) == candidate_paths(path_dirs(env@), program@),
{
    let mut out: Vec<String> = Vec::new();
    if let Some(path) = env.get("PATH") {
        let dirs = split_text(path, ':');
        let ghost all = views(dirs@);
        let mut i: usize = 0;
        proof {
            assert(views(out@) =~= candidate_paths(all.take(0), program@));
        }
        while i < dirs.len()
            invariant
                i <= dirs@.len(),
                all == views(dirs@),
                views(out@) == candidate_paths(all.take(i as int), program@),
            decreases dirs@.len() - i,
        {
            proof {
                assert(all.take(i + 1).drop_last() =~= all.take(i as int));
                assert(all.take(i + 1).last() == dirs@[i as int]@);
            }
            if chars_of(dirs[i].as_str()).len() > 0 {
                let ghost before = out@;
                let p = join_path(dirs[i].as_str(), program);
                out.push(p);
                proof {
                    assert(views(out@) =~= views(before).push(p@));
                }
            }
            i = i + 1;
        }
        proof {
            assert(all.take(i as int) =~= all);
        }
    } else {
        proof {
            assert(views(out@) =~= candidate_paths(path_dirs(env@), program@));
        }
    }
    out
}

/// Finds the path that a program is run by. `executables` holds those of its
/// candidates that are executable files.
pub fn resolve_program(program: &str, env: &Env, executables: &Vec<String>) -> (r: String)
    ensures
        r@ == program_path(program@, env@, views(executables@)),
{
    let v = chars_of(program);
    let slash: usize = find_char(&v, '/', 0);
    if slash < v.len() {
        proof {
            assert(program@.contains(program@[slash as int]));
        }
        return program.to_owned();
    }
    let paths = program_candidates(program, env);
    let ghost all = views(paths@);
    let ghost here = views(executables@);
    let mut i: usize = 0;
    proof {
        assert(all.skip(0) =~= all);
        assert(!program@.contains('/'));
    }
    while i < paths.len()
        invariant
            i <= paths@.len(),
            all == views(paths@),
            all == candidate_paths(path_dirs(env@), program@),
            !program@.contains('/'),
            here == views(executables@),
            first_present(all, here) == first_present(all.skip(i as int), here),
        decreases paths@.len() - i,
    {
        proof {
            assert(all.skip(i as int)[0] == paths@[i as int]@);
            assert(all.skip(i as int).drop_first() =~= all.skip(i + 1));
        }
        if listed(paths[i].as_str(), executables) {
            return paths[i].clone();
        }
        i = i + 1;
    }
    program.to_owned()
}

// ---------------------------------------------------------------------------
// From the configuration
// ---------------------------------------------------------------------------

/// The texts of an optional list.
pub open spec fn opt_views(o: Option<Vec<String>>) -> Option<Seq<Seq<char>>> {
    match o {
        Some(v) => Some(views(v@)),
        None => None,
    }
}

/// A backend's own allowlist, else the server's.
pub open spec fn effective_pass(
    own: Option<Vec<String>>,
    defaults: ServerDefaults,
) -> Option<Seq<Seq<char>>> {
    if own is Some {
        opt_views(own)
    } else {
        opt_views(defaults.env_pass)
    }
}

/// The working directory: the configured one, else the home directory.
pub open spec fn effective_cwd(own: Option<String>, home: Option<Seq<char>>) -> Seq<char> {
    match own {
        Some(c) => c@,
        None => match home {
            Some(h) => h,
            None => "."@,
        },
    }
}

/// The prompt mode: the configured one, else the default.
pub open spec fn effective_mode(own: Option<String>) -> PromptMode {
    match own {
        Some(m) => match mode_of(m@) {
            Some(p) => p,
            None => PromptMode::Transcript,
        },
        None => PromptMode::Transcript,
    }
}

/// The terminal's size: the configured one where it has two numbers.
pub open spec fn effective_size(own: Option<Vec<u16>>) -> (u16, u16) {
    match own {
        Some(v) => if v@.len() == 2 {
            (v@[0], v@[1])
        } else {
            (200, 50)
        },
        None => (200, 50),
    }
}

/// `b` is what a configured backend becomes when it is run.
pub open spec fn is_runtime(
    b: Backend,
    name: Seq<char>,
    c: config::Backend,
    env: Map<Seq<char>, Seq<char>>,
    defaults: ServerDefaults,
    home: Option<Seq<char>>,
    executables: Seq<Seq<char>>,
) -> bool {
    match c {
        config::Backend::Tmuxlet {
            target,
            target_args,
            cwd,
            allow_empty,
            env_pass,
            max_concurrent,
            prompt_mode,
        } => match b {
            Backend::Tmuxlet(t) => {
                &&& t.name@ == name
                &&& t.bin@ == program_path("tmuxlet"@, env, executables)
                &&& t.target@ == target@
                &&& views(t.target_args@) == views(target_args@)
                &&& t.cwd@ == effective_cwd(cwd, home)
                &&& t.allow_empty == allow_empty
                &&& opt_views(t.env_pass) == effective_pass(env_pass, defaults)
                &&& t.use_stdin == defaults.tmuxlet_stdin
                &&& t.max_concurrent == max_concurrent
                &&& t.prompt_mode == effective_mode(prompt_mode)
            },
            _ => false,
        },
        config::Backend::Api {
            base_url,
            model,
            api_key_env,
            extra_body,
            timeout_secs,
            allow_empty,
            max_concurrent,
            ca_file,
        } => match b {
            Backend::Api(a) => {
                &&& a.name@ == name
                &&& a.base_url@ == base_url@
                &&& a.model@ == model@
                &&& opt_view(a.api_key_env) == opt_view(api_key_env)
                &&& a.extra_body@ == extra_body@
                &&& a.timeout == timeout_secs
                &&& a.allow_empty == allow_empty
                &&& a.max_response_bytes == defaults.max_response_bytes
                &&& a.max_concurrent == max_concurrent
                &&& opt_view(a.ca_file) == opt_view(ca_file)
            },
            _ => false,
        },
        config::Backend::Cli {
            bin,
            args,
            pty,
            cwd,
            pty_size,
            allow_empty,
            env_pass,
            stdin_prompt,
            max_concurrent,
            prompt_mode,
        } => match b {
            Backend::Cli(p) => {
                &&& p.name@ == name
                &&& p.bin@ == bin@
                &&& views(p.args@) == views(args@)
                &&& p.pty == pty
                &&& p.cwd@ == effective_cwd(cwd, home)
                &&& p.pty_size == effective_size(pty_size)
                &&& p.allow_empty == allow_empty
                &&& opt_views(p.env_pass) == effective_pass(env_pass, defaults)
                &&& p.stdin_prompt == stdin_prompt
                &&& p.max_concurrent == max_concurrent
                &&& p.prompt_mode == effective_mode(prompt_mode)
            },
            _ => false,
        },
    }
}

/// A copy of a list of strings.
pub fn copy_list(v: &Vec<String>) -> (r: Vec<String>)
    ensures
        views(r@) == views(v@),
{
    let mut out: Vec<String> = Vec::new();
    let mut i: usize = 0;
    while i < v.len()
        invariant
            i <= v@.len(),
            out@.len() == i,
            forall|k: int| 0 <= k < i ==> #[trigger] out@[k]@ == v@[k]@,
        decreases v@.len() - i,
    {
        out.push(v[i].clone());
        i = i + 1;
    }
    proof {
        assert(views(out@) =~= views(v@));
    }
    out
}

fn copy_opt(o: &Option<String>) -> (r: Option<String>)
    ensures
        opt_view(r) == opt_view(*o),
{
    match o {
        Some(s) => Some(s.clone()),
        None => None,
    }
}

fn pick_pass(own: &Option<Vec<String>>, defaults: &ServerDefaults) -> (r: Option<Vec<String>>)
    ensures
        opt_views(r) == effective_pass(*own, *defaults),
{
    match own {
        Some(v) => Some(copy_list(v)),
        None => match &defaults.env_pass {
            Some(v) => Some(copy_list(v)),
            None => None,
        },
    }
}

fn pick_cwd(own: &Option<String>, home: Option<&str>) -> (r: String)
    ensures
        r@ == effective_cwd(*own, crate::text::opt_str_view(home)),
{
    match own {
        Some(c) => c.clone(),
        None => match home {
            Some(h) => h.to_owned(),
            None => ".".to_owned(),
        },
    }
}

fn pick_mode(own: &Option<String>) -> (r: PromptMode)
    ensures
        r == effective_mode(*own),
{
    match own {
        Some(m) => match PromptMode::parse(m.as_str()) {
            Some(p) => p,
            None => PromptMode::Transcript,
        },
        None => PromptMode::Transcript,
    }
}

fn pick_size(own: &Option<Vec<u16>>) -> (r: (u16, u16))
    ensures
        r == effective_size(*own),
{
    match own {
        Some(v) => {
            if v.len() == 2 {
                (v[0], v[1])
            } else {
                (200, 50)
            }
        },
        None => (200, 50),
    }
}

impl Backend {
    /// Makes a configured backend into one that can be run. `home` is the home
    /// directory, and `executables` holds the candidates for `tmuxlet` that are
    /// executable files.
    pub fn from_config(
        name: &str,
        c: &config::Backend,
        env: &Env,
        defaults: &ServerDefaults,
        home: Option<&str>,
        executables: &Vec<String>,
    ) -> (r: Backend)
        ensures
            is_runtime(
                r,
                name@,
                *c,
                env@,
                *defaults,
                crate::text::opt_str_view(home),
                views(executables@),
            ),
    {
        match c {
            config::Backend::Tmuxlet {
                target,
                target_args,
                cwd,
                allow_empty,
                env_pass,
                max_concurrent,
                prompt_mode,
            } => Backend::Tmuxlet(
                TmuxletBackend {
                    name: name.to_owned(),
                    bin: resolve_program("tmuxlet", env, executables),
                    target: target.clone(),
                    target_args: copy_list(target_args),
                    cwd: pick_cwd(cwd, home),
                    allow_empty: *allow_empty,
                    env_pass: pick_pass(env_pass, defaults),
                    use_stdin: defaults.tmuxlet_stdin,
                    max_concurrent: *max_concurrent,
                    prompt_mode: pick_mode(prompt_mode),
                },
            ),
            config::Backend::Api {
                base_url,
                model,
                api_key_env,
                extra_body,
                timeout_secs,
                allow_empty,
                max_concurrent,
                ca_file,
            } => Backend::Api(
                ApiBackend {
                    name: name.to_owned(),
                    base_url: base_url.clone(),
                    model: model.clone(),
                    api_key_env: copy_opt(api_key_env),
                    extra_body: extra_body.duplicate(),
                    timeout: *timeout_secs,
                    allow_empty: *allow_empty,
                    max_response_bytes: defaults.max_response_bytes,
                    max_concurrent: *max_concurrent,
                    ca_file: copy_opt(ca_file),
                },
            ),
            config::Backend::Cli {
                bin,
                args,
                pty,
                cwd,
                pty_size,
                allow_empty,
                env_pass,
                stdin_prompt,
                max_concurrent,
                prompt_mode,
            } => Backend::Cli(
                CliBackend {
                    name: name.to_owned(),
                    bin: bin.clone(),
                    args: copy_list(args),
                    pty: *pty,
                    cwd: pick_cwd(cwd, home),
                    pty_size: pick_size(pty_size),
                    allow_empty: *allow_empty,
                    env_pass: pick_pass(env_pass, defaults),
                    stdin_prompt: *stdin_prompt,
                    max_concurrent: *max_concurrent,
                    prompt_mode: pick_mode(prompt_mode),
                },
            ),
        }
    }

    /// The backend's name.
    pub open spec fn spec_name(&self) -> Seq<char> {
        match self {
            Backend::Tmuxlet(b) => b.name@,
            Backend::Api(b) => b.name@,
            Backend::Cli(b) => b.name@,
        }
    }

    /// Whether an empty answer is a success.
    pub open spec fn spec_allow_empty(&self) -> bool {
        match self {
            Backend::Tmuxlet(b) => b.allow_empty,
            Backend::Api(b) => b.allow_empty,
            Backend::Cli(b) => b.allow_empty,
        }
    }

    /// The backend's own timeout in seconds; only an API backend has one.
    pub open spec fn spec_timeout_override(&self) -> Option<u64> {
        match self {
            Backend::Api(b) => b.timeout,
            _ => None,
        }
    }

    /// How many dispatches may run at a time.
    pub open spec fn spec_max_concurrent(&self) -> Option<usize> {
        match self {
            Backend::Tmuxlet(b) => b.max_concurrent,
            Backend::Api(b) => b.max_concurrent,
            Backend::Cli(b) => b.max_concurrent,
        }
    }

    /// How prompts are made; an API backend is sent the messages themselves.
    pub open spec fn spec_prompt_mode(&self) -> PromptMode {
        match self {
            Backend::Tmuxlet(b) => b.prompt_mode,
            Backend::Cli(b) => b.prompt_mode,
            Backend::Api(_) => PromptMode::Transcript,
        }
    }

    /// The backend's name.
    pub fn name(&self) -> (r: &str)
        ensures
            r@ == self.spec_name(),
    {
        match self {
            Backend::Tmuxlet(b) => b.name.as_str(),
            Backend::Api(b) => b.name.as_str(),
            Backend::Cli(b) => b.name.as_str(),
        }
    }

    /// Whether an empty answer is a success.
    pub fn allow_empty(&self) -> (r: bool)
        ensures
            r == self.spec_allow_empty(),
    {
        match self {
            Backend::Tmuxlet(b) => b.allow_empty,
            Backend::Api(b) => b.allow_empty,
            Backend::Cli(b) => b.allow_empty,
        }
    }

    /// The backend's own timeout in seconds.
    pub fn timeout_override(&self) -> (r: Option<u64>)
        ensures
            r == self.spec_timeout_override(),
    {
        match self {
            Backend::Api(b) => b.timeout,
            _ => None,
        }
    }

    /// How many dispatches may run at a time.
    pub fn max_concurrent(&self) -> (r: Option<usize>)
        ensures
            r == self.spec_max_concurrent(),
    {
        match self {
            Backend::Tmuxlet(b) => b.max_concurrent,
            Backend::Api(b) => b.max_concurrent,
            Backend::Cli(b) => b.max_concurrent,
        }
    }

    /// How prompts are made.
    pub fn prompt_mode(&self) -> (r: PromptMode)
        ensures
            r == self.spec_prompt_mode(),
    {
        match self {
            Backend::Tmuxlet(b) => b.prompt_mode,
            Backend::Cli(b) => b.prompt_mode,
            Backend::Api(_) => PromptMode::Transcript,
        }
    }
}

/// What has to be done to dispatch to a backend.
pub enum Call {
    Tmuxlet(tmuxlet::TmuxletCall),
    Api(api::ApiCall),
    Cli(cli::CliCall),
}

/// Times up to which a process can be waited for, in nanoseconds.
pub open spec fn is_timeout(nanos: u128) -> bool {
    nanos < 0x1_0000_0000_0000_0000 * 1_000_000_000
}

/// A call is that of its backend for a prompt or for the messages themselves.
pub open spec fn is_call(
    call: Call,
    b: Backend,
    prompt: Seq<char>,
    raw: crate::json::JsonView,
    env: Map<Seq<char>, Seq<char>>,
    timeout: u128,
) -> bool {
    match b {
        Backend::Tmuxlet(t) => call matches Call::Tmuxlet(c) && tmuxlet::is_tmuxlet_call(
            c,
            t,
            prompt,
            timeout,
        ),
        Backend::Api(a) => call matches Call::Api(c) && api::is_api_call(c, a, raw, env),
        Backend::Cli(p) => call matches Call::Cli(c) && (views(c.args@), opt_view(c.stdin))
            == cli::call_plan(p, prompt),
    }
}

impl Backend {
    /// Plans a dispatch: an API backend is sent the messages themselves, the
    /// others the prompt.
    pub fn dispatch(&self, prompt: &str, raw: &Json, env: &Env, timeout: u128) -> (r: Call)
        requires
            is_timeout(timeout),
        ensures
            is_call(r, *self, prompt@, raw@, env@, timeout),
    {
        match self {
            Backend::Tmuxlet(b) => Call::Tmuxlet(tmuxlet::plan_call(b, prompt, timeout)),
            Backend::Api(b) => Call::Api(api::plan_call(b, raw, env)),
            Backend::Cli(b) => Call::Cli(cli::plan_call(b, prompt)),
        }
    }
}

// ---------------------------------------------------------------------------
// Waiting for a child process
// ---------------------------------------------------------------------------

/// What to do next while a child process runs.
#[derive(Clone, Copy, PartialEq, Eq, Structural, Debug)]
pub enum PollStep {
    /// It has ended: collect its output.
    Collect,
    /// It has run out of time: kill it.
    Kill,
    /// Look again a little later.
    Wait,
}

/// Decides the next step of waiting, `elapsed` after the start of a child that
/// may take `limit`, both in nanoseconds.
pub fn poll_step(exited: bool, elapsed: u128, limit: u128) -> (r: PollStep)
    ensures
        r == (if exited {
            PollStep::Collect
        } else if elapsed >= limit {
            PollStep::Kill
        } else {
            PollStep::Wait
        }),
{
    if exited {
        PollStep::Collect
    } else if elapsed >= limit {
        PollStep::Kill
    } else {
        PollStep::Wait
    }
}

/// How a child process came to its end.
pub enum ChildEnd {
    /// It could not be run, for the given reason.
    NotRun(String),
    /// It ran out of time and was killed.
    TimedOut,
    /// It ended by itself.
    Ended { success: bool, code: Option<i32>, stdout: Vec<u8>, stderr: Vec<u8> },
}

/// The code that a process ended with; -1 where it was killed by a signal.
pub open spec fn exit_code(code: Option<i32>) -> i32 {
    match code {
        Some(c) => c,
        None => (-1) as i32,
    }
}

/// The last line of what a child said, or nothing.
pub open spec fn last_line(text: Seq<char>) -> Seq<char> {
    let ls = crate::text::lines(text);
    if ls.len() > 0 {
        ls.last()
    } else {
        Seq::empty()
    }
}

/// The last line of what a child said, or nothing.
pub fn last_line_of(text: &str) -> (r: String)
    ensures
        r@ == last_line(text@),
{
    let ls = crate::text::lines_of(text);
    let n: usize = ls.len();
    proof {
        assert(views(ls@).len() == n);
    }
    if n > 0 {
        proof {
            assert(views(ls@)[n - 1] == ls@[n - 1]@);
        }
        ls[n - 1].clone()
    } else {
        String::new()
    }
}

/// A text holds nothing but white space.
pub open spec fn is_blank(text: Seq<char>) -> bool {
    crate::text::trim(text).len() == 0
}

/// Whether a text holds nothing but white space.
pub fn blank(text: &str) -> (r: bool)
    ensures
        r == is_blank(text@),
{
    chars_of(crate::text::trimmed(text).as_str()).len() == 0
}

} // verus!
