//! Running `tmuxlet`: its arguments, and what its output says.

use vstd::prelude::*;

use super::{
    blank, exit_code, is_blank, is_timeout, last_line, last_line_of, outcome_view, text_view,
    BackendError, ChildEnd, DispatchResult, DispatchView, ErrorView, TmuxletBackend,
};
use crate::json::{field, json_of_text, parse_json, string_of, Json, JsonView};
use crate::text::{
    decimal, decimal_text, gather, read_utf8, same, trim, trimmed, utf8_text, views,
};

verus! {

/// The arguments of `tmuxlet`, of which the last is the prompt or `-`.
pub open spec fn tmuxlet_args(b: TmuxletBackend, prompt: Seq<char>, timeout_secs: u64) -> Seq<
    Seq<char>,
> {
    seq![
        "-p"@,
        "--target"@,
        b.target@,
        "--output-format"@,
        "json"@,
        "-C"@,
        b.cwd@,
        "--timeout"@,
        decimal(timeout_secs as nat),
    ] + gather(views(b.target_args@), |a: Seq<char>| seq!["--target-arg"@, a]) + seq![prompt]
}

/// The arguments of `tmuxlet`.
pub fn build_args(b: &TmuxletBackend, prompt: &str, timeout_secs: u64) -> (r: Vec<String>)
    ensures
        views(r@) == tmuxlet_args(*b, prompt@, timeout_secs),
{
    let mut a: Vec<String> = Vec::new();
    a.push("-p".to_owned());
    a.push("--target".to_owned());
    a.push(b.target.clone());
    a.push("--output-format".to_owned());
    a.push("json".to_owned());
    a.push("-C".to_owned());
    a.push(b.cwd.clone());
    a.push("--timeout".to_owned());
    a.push(decimal_text(timeout_secs as u128));
    let ghost head = views(a@);
    let ghost all = views(b.target_args@);
    let ghost f = |x: Seq<char>| seq!["--target-arg"@, x];
    let mut i: usize = 0;
    proof {
        assert(head =~= seq![
            "-p"@,
            "--target"@,
            b.target@,
            "--output-format"@,
            "json"@,
            "-C"@,
            b.cwd@,
            "--timeout"@,
            decimal(timeout_secs as nat),
        ]);
        assert(views(a@) =~= head + gather(all.take(0), f));
    }
    while i < b.target_args.len()
        invariant
            i <= all.len(),
            all == views(b.target_args@),
            f == (|x: Seq<char>| seq!["--target-arg"@, x]),
            views(a@) == head + gather(all.take(i as int), f),
        decreases all.len() - i,
    {
        let ghost before = views(a@);
        proof {
            assert(all.take(i + 1).drop_last() =~= all.take(i as int));
            assert(all.take(i + 1).last() == b.target_args@[i as int]@);
        }
        a.push("--target-arg".to_owned());
        a.push(b.target_args[i].clone());
        proof {
            let x = b.target_args@[i as int]@;
            assert(views(a@) =~= before + seq!["--target-arg"@, x]);
            assert(views(a@) =~= head + gather(all.take(i + 1), f));
        }
        i = i + 1;
    }
    proof {
        assert(all.take(i as int) =~= all);
    }
    let ghost before = views(a@);
    a.push(prompt.to_owned());
    proof {
        assert(views(a@) =~= before + seq![prompt@]);
    }
    a
}

/// The text of a member of an object, empty where there is none.
pub open spec fn text_member(v: JsonView, k: Seq<char>) -> Seq<char> {
    match field(v, k) {
        Some(m) => match string_of(m) {
            Some(s) => s,
            None => Seq::empty(),
        },
        None => Seq::empty(),
    }
}

/// What the output says: a JSON value is an answer where its status is
/// `completed`, and an error otherwise; any other output is the answer itself.
pub open spec fn output_says(
    name: Seq<char>,
    stdout: Seq<char>,
    read: Result<JsonView, Seq<char>>,
) -> Result<Seq<char>, ErrorView> {
    match read {
        Ok(v) => if text_member(v, "status"@) == "completed"@ {
            Ok(text_member(v, "output"@))
        } else {
            Err(ErrorView::Backend(name, "tmuxlet status="@ + text_member(v, "status"@)))
        },
        Err(_) => Ok(stdout),
    }
}

/// The text of a member of an object, empty where there is none.
fn member_text(v: &Json, k: &str) -> (r: String)
    ensures
        r@ == text_member(v@, k@),
{
    match v.get(k) {
        Some(m) => match m.as_str() {
            Some(s) => s.to_owned(),
            None => String::new(),
        },
        None => String::new(),
    }
}

/// What the output says, given what was read of it as JSON.
pub fn judge_output(name: &str, stdout: &str, read: &Result<Json, String>) -> (r: Result<
    String,
    BackendError,
>)
    ensures
        text_view(r) == output_says(name@, stdout@, crate::json::read_view(*read)),
{
    match read {
        Ok(v) => {
            let status = member_text(v, "status");
            if same(status.as_str(), "completed") {
                Ok(member_text(v, "output"))
            } else {
                Err(
                    BackendError::Backend(
                        name.to_owned(),
                        "tmuxlet status=".to_owned().concat(status.as_str()),
                    ),
                )
            }
        },
        Err(_) => Ok(stdout.to_owned()),
    }
}

/// What the output of `tmuxlet` says.
pub fn parse_output(name: &str, stdout: &str) -> (r: Result<String, BackendError>)
    ensures
        text_view(r) == output_says(name@, stdout@, json_of_text(trim(stdout@))),
{
    let read = parse_json(trimmed(stdout).as_str());
    judge_output(name, stdout, &read)
}

/// How `tmuxlet` is called for a prompt.
pub struct TmuxletCall {
    pub args: Vec<String>,
    /// What is written to its standard input, which is closed where there is
    /// none.
    pub stdin: Option<String>,
    /// How long it may take, in nanoseconds: what it was told itself and five
    /// seconds more.
    pub limit: u128,
}

/// The call of `tmuxlet` for a prompt: where it reads standard input, the
/// prompt goes there and `-` stands in its place.
pub open spec fn is_tmuxlet_call(
    c: TmuxletCall,
    b: TmuxletBackend,
    prompt: Seq<char>,
    timeout: u128,
) -> bool {
    &&& views(c.args@) == tmuxlet_args(
        b,
        if b.use_stdin {
            "-"@
        } else {
            prompt
        },
        (timeout / 1_000_000_000) as u64,
    )
    &&& crate::text::opt_view(c.stdin) == if b.use_stdin {
        Some(prompt)
    } else {
        None
    }
    &&& c.limit == timeout + 5_000_000_000
}

/// Plans a call of `tmuxlet`.
pub fn plan_call(b: &TmuxletBackend, prompt: &str, timeout_nanos: u128) -> (r: TmuxletCall)
    requires
        is_timeout(timeout_nanos),
    ensures
        is_tmuxlet_call(r, *b, prompt@, timeout_nanos),
{
    let secs: u64 = (timeout_nanos / 1_000_000_000) as u64;
    let args = if b.use_stdin {
        build_args(b, "-", secs)
    } else {
        build_args(b, prompt, secs)
    };
    let stdin = if b.use_stdin {
        Some(prompt.to_owned())
    } else {
        None
    };
    TmuxletCall { args, stdin, limit: timeout_nanos + 5_000_000_000 }
}

/// What comes of a call that ended by itself.
pub open spec fn call_outcome(
    b: TmuxletBackend,
    success: bool,
    code: Option<i32>,
    stdout: Seq<char>,
    stderr: Seq<char>,
    read: Result<JsonView, Seq<char>>,
) -> Result<DispatchView, ErrorView> {
    if !success && is_blank(stdout) {
        Err(
            ErrorView::Exit(
                b.name@,
                exit_code(code),
                last_line(stderr),
            ),
        )
    } else {
        match output_says(b.name@, stdout, read) {
            Ok(content) => Ok(DispatchView { content, model_label: b.name@ }),
            Err(e) => Err(e),
        }
    }
}

/// Makes of the output of a call that ended by itself an answer or an error.
pub fn finish_call(
    b: &TmuxletBackend,
    success: bool,
    code: Option<i32>,
    stdout: &[u8],
    stderr: &[u8],
) -> (r: Result<DispatchResult, BackendError>)
    ensures
        outcome_view(r) == call_outcome(
            *b,
            success,
            code,
            utf8_text(stdout@),
            utf8_text(stderr@),
            json_of_text(trim(utf8_text(stdout@))),
        ),
{
    let out = read_utf8(stdout);
    let err = read_utf8(stderr);
    if !success && blank(out.as_str()) {
        let c: i32 = match code {
            Some(c) => c,
            None => -1,
        };
        return Err(BackendError::Exit(b.name.clone(), c, last_line_of(err.as_str())));
    }
    match parse_output(b.name.as_str(), out.as_str()) {
        Ok(content) => Ok(DispatchResult { content, model_label: b.name.clone() }),
        Err(e) => Err(e),
    }
}

/// Makes of how `tmuxlet` came to its end an answer or an error. One that was
/// killed for taking too long is no success, whatever it had printed.
pub fn finish_child(b: &TmuxletBackend, end: &ChildEnd) -> (r: Result<DispatchResult, BackendError>)
    ensures
        match *end {
            ChildEnd::NotRun(e) => outcome_view(r) == Err::<DispatchView, ErrorView>(
                ErrorView::Spawn(b.name@, e@),
            ),
            ChildEnd::TimedOut => outcome_view(r) == Err::<DispatchView, ErrorView>(
                ErrorView::Timeout(b.name@),
            ),
            ChildEnd::Ended { success, code, stdout, stderr } => outcome_view(r) == call_outcome(
                *b,
                success,
                code,
                utf8_text(stdout@),
                utf8_text(stderr@),
                json_of_text(trim(utf8_text(stdout@))),
            ),
        },
{
    match end {
        ChildEnd::NotRun(e) => Err(BackendError::Spawn(b.name.clone(), e.clone())),
        ChildEnd::TimedOut => Err(BackendError::Timeout(b.name.clone())),
        ChildEnd::Ended { success, code, stdout, stderr } => finish_call(
            b,
            *success,
            *code,
            stdout.as_slice(),
            stderr.as_slice(),
        ),
    }
}

} // verus!
