//! Running a program: where the prompt goes, and what its output says.

use vstd::prelude::*;

use super::{
    blank, exit_code, is_blank, last_line, last_line_of, outcome_view, BackendError, ChildEnd,
    CliBackend, DispatchResult, DispatchView, ErrorView,
};
use crate::pty::{clean_output, cleaned};
use crate::text::{contains, has_infix, read_utf8, replace_text, replaced, utf8_text, views};

verus! {

/// What stands for the prompt in an argument.
pub const PROMPT_PLACEHOLDER: &'static str = "{prompt}";

/// What stands for the prompt in an argument.
pub open spec fn placeholder() -> Seq<char> {
    PROMPT_PLACEHOLDER@
}

/// An argument with the prompt in its place.
pub open spec fn filled(arg: Seq<char>, prompt: Seq<char>) -> Seq<char> {
    if has_infix(arg, placeholder()) {
        replaced(arg, placeholder(), prompt)
    } else {
        arg
    }
}

/// The arguments with the prompt in its places.
pub open spec fn filled_args(args: Seq<Seq<char>>, prompt: Seq<char>) -> Seq<Seq<char>> {
    args.map_values(|a: Seq<char>| filled(a, prompt))
}

/// Some argument has a place for the prompt.
pub open spec fn has_place(args: Seq<Seq<char>>) -> bool {
    exists|i: int| 0 <= i < args.len() && has_infix(#[trigger] args[i], placeholder())
}

/// Puts the prompt into its places among the arguments, and says whether there
/// was any: then it is not to be passed in another way as well.
pub fn substitute_prompt(args: &Vec<String>, prompt: &str) -> (r: (Vec<String>, bool))
    ensures
        views(r.0@) == filled_args(views(args@), prompt@),
        r.1 == has_place(views(args@)),
{
    let mut out: Vec<String> = Vec::new();
    let mut found: bool = false;
    let ghost all = views(args@);
    let mut i: usize = 0;
    proof {
        reveal_strlit("{prompt}");
        assert(PROMPT_PLACEHOLDER@.len() == 8);
    }
    while i < args.len()
        invariant
            i <= args@.len(),
            all == views(args@),
            PROMPT_PLACEHOLDER@.len() == 8,
            out@.len() == i,
            forall|k: int| 0 <= k < i ==> #[trigger] out@[k]@ == filled(all[k], prompt@),
            found ==> has_place(all),
            !found ==> forall|k: int| 0 <= k < i ==> !has_infix(#[trigger] all[k], placeholder()),
        decreases args@.len() - i,
    {
        proof {
            assert(all[i as int] == args@[i as int]@);
        }
        if contains(args[i].as_str(), PROMPT_PLACEHOLDER) {
            found = true;
            out.push(replace_text(args[i].as_str(), PROMPT_PLACEHOLDER, prompt));
        } else {
            out.push(args[i].clone());
        }
        i = i + 1;
    }
    proof {
        assert(views(out@) =~= filled_args(all, prompt@));
    }
    (out, found)
}

/// The arguments of a program that takes the prompt among them: in its places,
/// or at the end where it has none.
pub open spec fn plain_arguments(args: Seq<Seq<char>>, prompt: Seq<char>) -> Seq<Seq<char>> {
    if has_place(args) {
        filled_args(args, prompt)
    } else {
        filled_args(args, prompt).push(prompt)
    }
}

/// The arguments of a program that takes the prompt among them.
pub fn plain_args(b: &CliBackend, prompt: &str) -> (r: Vec<String>)
    ensures
        views(r@) == plain_arguments(views(b.args@), prompt@),
{
    let (mut a, found) = substitute_prompt(&b.args, prompt);
    if !found {
        let ghost before = views(a@);
        a.push(prompt.to_owned());
        proof {
            assert(views(a@) =~= before.push(prompt@));
        }
    }
    a
}

/// Without a place for the prompt the arguments stay as they are, and the
/// prompt comes last.
pub proof fn law_prompt_is_passed_once(args: Seq<Seq<char>>, prompt: Seq<char>)
    ensures
        !has_place(args) ==> plain_arguments(args, prompt) == args.push(prompt),
        has_place(args) ==> plain_arguments(args, prompt).len() == args.len(),
{
    if !has_place(args) {
        assert(filled_args(args, prompt) =~= args);
    }
}

/// How a program is called for a prompt.
pub struct CliCall {
    pub args: Vec<String>,
    /// What is written to its standard input; a program in a terminal is sent
    /// this and an end of input, another has it closed where there is none.
    pub stdin: Option<String>,
}

/// The arguments and the standard input of a call.
pub open spec fn call_plan(b: CliBackend, prompt: Seq<char>) -> (Seq<Seq<char>>, Option<Seq<char>>) {
    let args = views(b.args@);
    if b.pty {
        (
            filled_args(args, prompt),
            Some(
                if has_place(args) {
                    Seq::empty()
                } else {
                    prompt
                },
            ),
        )
    } else if b.stdin_prompt && !has_place(args) {
        (filled_args(args, prompt), Some(prompt))
    } else {
        (plain_arguments(args, prompt), None)
    }
}

/// Plans a call. In a terminal the prompt goes to standard input, unless the
/// arguments have a place for it; without one it goes to the arguments, unless
/// the backend is told to use standard input and the arguments have no place.
pub fn plan_call(b: &CliBackend, prompt: &str) -> (r: CliCall)
    ensures
        (views(r.args@), crate::text::opt_view(r.stdin)) == call_plan(*b, prompt@),
{
    let (mut args, found) = substitute_prompt(&b.args, prompt);
    if b.pty {
        let payload = if found {
            String::new()
        } else {
            prompt.to_owned()
        };
        proof {
            if found {
                assert(payload@ =~= Seq::<char>::empty());
            }
        }
        return CliCall { args, stdin: Some(payload) };
    }
    if b.stdin_prompt && !found {
        return CliCall { args, stdin: Some(prompt.to_owned()) };
    }
    if !found {
        let ghost before = views(args@);
        args.push(prompt.to_owned());
        proof {
            assert(views(args@) =~= before.push(prompt@));
        }
    }
    CliCall { args, stdin: None }
}

/// Whether a run in a terminal counts as one that never got its prompt: writing
/// it failed, though there was one and the program was not killed. A program
/// that was killed for taking too long has timed out instead.
pub fn is_write_error(write_failed: bool, killed: bool, prompt_empty: bool) -> (r: bool)
    ensures
        r <==> write_failed && !killed && !prompt_empty,
{
    write_failed && !killed && !prompt_empty
}

/// What comes of a run in a terminal. One that was killed for taking too long
/// is no success, whatever it had printed.
pub open spec fn pty_outcome(
    b: CliBackend,
    timed_out: bool,
    success: bool,
    code: i32,
    output: Seq<char>,
) -> Result<DispatchView, ErrorView> {
    if timed_out {
        Err(ErrorView::Timeout(b.name@))
    } else if !success && is_blank(output) {
        Err(ErrorView::Exit(b.name@, code, Seq::empty()))
    } else {
        Ok(DispatchView { content: output, model_label: b.name@ })
    }
}

/// Makes of a run in a terminal an answer or an error.
pub fn finish_pty(
    b: &CliBackend,
    timed_out: bool,
    success: bool,
    code: i32,
    raw: &[u8],
) -> (r: Result<DispatchResult, BackendError>)
    ensures
        outcome_view(r) == pty_outcome(*b, timed_out, success, code, utf8_text(cleaned(raw@))),
{
    if timed_out {
        return Err(BackendError::Timeout(b.name.clone()));
    }
    let output = clean_output(raw);
    if !success && blank(output.as_str()) {
        let none = String::new();
        proof {
            assert(none@ =~= Seq::<char>::empty());
        }
        return Err(BackendError::Exit(b.name.clone(), code, none));
    }
    Ok(DispatchResult { content: output, model_label: b.name.clone() })
}

/// What comes of a run without a terminal that ended by itself.
pub open spec fn plain_outcome(
    b: CliBackend,
    success: bool,
    code: Option<i32>,
    output: Seq<char>,
    stderr: Seq<char>,
) -> Result<DispatchView, ErrorView> {
    if !success && is_blank(output) {
        Err(
            ErrorView::Exit(
                b.name@,
                exit_code(code),
                last_line(stderr),
            ),
        )
    } else {
        Ok(DispatchView { content: output, model_label: b.name@ })
    }
}

/// Makes of a run without a terminal that ended by itself an answer or an
/// error.
pub fn finish_plain(
    b: &CliBackend,
    success: bool,
    code: Option<i32>,
    stdout: &[u8],
    stderr: &[u8],
) -> (r: Result<DispatchResult, BackendError>)
    ensures
        outcome_view(r) == plain_outcome(
            *b,
            success,
            code,
            utf8_text(cleaned(stdout@)),
            utf8_text(stderr@),
        ),
{
    let output = clean_output(stdout);
    if !success && blank(output.as_str()) {
        let err = read_utf8(stderr);
        let c: i32 = match code {
            Some(c) => c,
            None => -1,
        };
        return Err(BackendError::Exit(b.name.clone(), c, last_line_of(err.as_str())));
    }
    Ok(DispatchResult { content: output, model_label: b.name.clone() })
}

/// Makes of how a program without a terminal came to its end an answer or an error. One that was
/// killed for taking too long is no success, whatever it had printed.
pub fn finish_child(b: &CliBackend, end: &ChildEnd) -> (r: Result<DispatchResult, BackendError>)
    ensures
        match *end {
            ChildEnd::NotRun(e) => outcome_view(r) == Err::<DispatchView, ErrorView>(
                ErrorView::Spawn(b.name@, e@),
            ),
            ChildEnd::TimedOut => outcome_view(r) == Err::<DispatchView, ErrorView>(
                ErrorView::Timeout(b.name@),
            ),
            ChildEnd::Ended { success, code, stdout, stderr } => outcome_view(r) == plain_outcome(
                *b,
                success,
                code,
                utf8_text(cleaned(stdout@)),
                utf8_text(stderr@),
            ),
        },
{
    match end {
        ChildEnd::NotRun(e) => Err(BackendError::Spawn(b.name.clone(), e.clone())),
        ChildEnd::TimedOut => Err(BackendError::Timeout(b.name.clone())),
        ChildEnd::Ended { success, code, stdout, stderr } => finish_plain(
            b,
            *success,
            *code,
            stdout.as_slice(),
            stderr.as_slice(),
        ),
    }
}

} // verus!
