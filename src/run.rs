//! The steps of one invocation: load the environment, run the command, post the
//! comment, and report. Each step is decided here; the caller performs the work
//! that the state asks for and hands back what came of it as an event.
use vstd::prelude::*;
use vstd::string::*;
use vstd::utf8::{decode_utf8, valid_utf8};
use crate::pull_request::{
    comment_api_url, lemma_no_merge_reference, merge_reference_at, pull_request_number, Environment,
};
use crate::template::{build_comment, comment_of, joined_command, template_for, CommandResult};

verus! {

/// A command that ran, and the reason its comment could not be posted, if any.
pub struct Success {
    pub command_result: CommandResult,
    pub error_message: Option<String>,
}

/// Why the command could not be run at all.
pub struct Failure {
    pub message: String,
}

/// Where an invocation stands, and so what the caller is to do next.
pub enum RunState {
    /// Load the environment.
    Loading {
        command_name: String,
        args: Vec<String>,
        exit_zero_template: String,
        exit_non_zero_template: String,
    },
    /// Run the command and capture its output.
    Running {
        environment: Environment,
        command_name: String,
        args: Vec<String>,
        exit_zero_template: String,
        exit_non_zero_template: String,
    },
    /// Post `body` as a comment to `url`, with `authorization` as the header.
    Publishing {
        command_result: CommandResult,
        url: String,
        authorization: String,
        body: String,
    },
    /// Nothing is left to do.
    Done(Result<Success, Failure>),
}

/// What came of the work that a state asked for.
pub enum Event {
    EnvironmentLoaded(Result<Environment, String>),
    CommandExited { exit_status: i32, output: Vec<u8> },
    SpawnFailed(String),
    CommentPosted(Result<(), String>),
}

/// What `String::from_utf8_lossy` makes of `bytes`.
pub uninterp spec fn utf8_lossy(bytes: Seq<u8>) -> Seq<char>;

/// Relies on `String::from_utf8_lossy`: valid UTF-8 is decoded as it stands, and
/// every invalid sequence is replaced rather than refused.
#[verifier::external_body]
fn decode_lossy(bytes: &[u8]) -> (r: String)
    ensures
        r@ == utf8_lossy(bytes@),
        valid_utf8(bytes@) ==> r@ == decode_utf8(bytes@),
{
    String::from_utf8_lossy(bytes).into_owned()
}

pub open spec fn spawn_error(command_name: Seq<char>, reason: Seq<char>) -> Seq<char> {
    "Failed to run `"@ + command_name + "`: "@ + reason
}

pub open spec fn post_error(reason: Seq<char>) -> Seq<char> {
    "Failed to post comment to GitHub: "@ + reason
}

/// `a` and `b` describe the same run of a command.
pub open spec fn same_result(a: CommandResult, b: CommandResult) -> bool {
    a.full_command@ == b.full_command@ && a.result@ == b.result@ && a.exit_status == b.exit_status
}

/// `next` is what follows once `command_result` is known: the comment is posted
/// when the pull request is known, else the invocation ends with the reason.
pub open spec fn after_command(
    environment: Environment,
    exit_zero_template: Seq<char>,
    exit_non_zero_template: Seq<char>,
    command_result: CommandResult,
    next: RunState,
) -> bool {
    let comment = comment_of(
        template_for(command_result.exit_status, exit_zero_template, exit_non_zero_template),
        command_result,
    );
    match pull_request_number(environment.pull_request_url@, environment.last_commit_comment@) {
        Ok(number) => next matches RunState::Publishing { command_result: c, url, authorization, body }
            && same_result(c, command_result)
            && url@ == comment_api_url(environment.username@, environment.reponame@, number)
            && authorization@ == "token "@ + environment.github_access_token@
            && body@ == comment,
        Err(reason) => next matches RunState::Done(Ok(s))
            && same_result(s.command_result, command_result)
            && s.error_message is Some
            && s.error_message->0@ == post_error(reason),
    }
}

/// The step from `state` on `event` to `next`. An event that the state did not
/// ask for leaves it as it is.
pub open spec fn step(state: RunState, event: Event, next: RunState) -> bool {
    match state {
        RunState::Loading { command_name, args, exit_zero_template, exit_non_zero_template } => match event {
            Event::EnvironmentLoaded(Ok(environment)) => next == RunState::Running {
                environment,
                command_name,
                args,
                exit_zero_template,
                exit_non_zero_template,
            },
            Event::EnvironmentLoaded(Err(reason)) => next matches RunState::Done(Err(f))
                && f.message@ == reason@,
            _ => next == state,
        },
        RunState::Running { environment, command_name, args, exit_zero_template, exit_non_zero_template } => match event {
            Event::CommandExited { exit_status, output } => exists|c: CommandResult|
                c.full_command@ == joined_command(command_name@, args@)
                && c.result@ == utf8_lossy(output@)
                && c.exit_status == exit_status
                && after_command(environment, exit_zero_template@, exit_non_zero_template@, c, next),
            Event::SpawnFailed(reason) => next matches RunState::Done(Err(f))
                && f.message@ == spawn_error(command_name@, reason@),
            _ => next == state,
        },
        RunState::Publishing { command_result, .. } => match event {
            Event::CommentPosted(Ok(_)) => next matches RunState::Done(Ok(s))
                && same_result(s.command_result, command_result)
                && s.error_message is None,
            Event::CommentPosted(Err(reason)) => next matches RunState::Done(Ok(s))
                && same_result(s.command_result, command_result)
                && s.error_message is Some
                && s.error_message->0@ == post_error(reason@),
            _ => next == state,
        },
        RunState::Done(_) => next == state,
    }
}

/// Renders the comment for `command_result` and moves on to posting it, or ends
/// the invocation when the pull request cannot be told.
pub fn publish_step(
    environment: &Environment,
    exit_zero_template: &str,
    exit_non_zero_template: &str,
    command_result: CommandResult,
) -> (r: RunState)
    ensures
        after_command(*environment, exit_zero_template@, exit_non_zero_template@, command_result, r),
{
    let body = build_comment(exit_zero_template, exit_non_zero_template, &command_result);
    match environment.get_pull_request_comment_api_url() {
        Ok(url) => {
            let authorization = environment.authorization();
            RunState::Publishing { command_result, url, authorization, body }
        },
        Err(reason) => {
            let message = String::from_str("Failed to post comment to GitHub: ").concat(reason.as_str());
            RunState::Done(Ok(Success { command_result, error_message: Some(message) }))
        },
    }
}

/// Takes one step of an invocation: from `state`, on what came of its work.
pub fn run(state: RunState, event: Event) -> (r: RunState)
    ensures
        step(state, event, r),
{
    match state {
        RunState::Loading { command_name, args, exit_zero_template, exit_non_zero_template } => match event {
            Event::EnvironmentLoaded(Ok(environment)) => RunState::Running {
                environment,
                command_name,
                args,
                exit_zero_template,
                exit_non_zero_template,
            },
            Event::EnvironmentLoaded(Err(reason)) => RunState::Done(Err(Failure { message: reason })),
            _ => RunState::Loading { command_name, args, exit_zero_template, exit_non_zero_template },
        },
        RunState::Running { environment, command_name, args, exit_zero_template, exit_non_zero_template } => match event {
            Event::CommandExited { exit_status, output } => {
                let result = decode_lossy(output.as_slice());
                let command_result = CommandResult::new(command_name.as_str(), &args, exit_status, result);
                publish_step(&environment, exit_zero_template.as_str(), exit_non_zero_template.as_str(), command_result)
            },
            Event::SpawnFailed(reason) => {
                let message = String::from_str("Failed to run `")
                    .concat(command_name.as_str())
                    .concat("`: ")
                    .concat(reason.as_str());
                RunState::Done(Err(Failure { message }))
            },
            _ => RunState::Running { environment, command_name, args, exit_zero_template, exit_non_zero_template },
        },
        RunState::Publishing { command_result, url, authorization, body } => match event {
            Event::CommentPosted(Ok(_)) => RunState::Done(Ok(Success { command_result, error_message: None })),
            Event::CommentPosted(Err(reason)) => {
                let message = String::from_str("Failed to post comment to GitHub: ").concat(reason.as_str());
                RunState::Done(Ok(Success { command_result, error_message: Some(message) }))
            },
            _ => RunState::Publishing { command_result, url, authorization, body },
        },
        RunState::Done(outcome) => RunState::Done(outcome),
    }
}

/// The command's name and its arguments, from the words of a command line.
pub fn parse_command_name_and_args(command_line: &Vec<String>) -> (r: (String, Vec<String>))
    requires
        command_line@.len() > 0,
    ensures
        r.0@ == command_line@[0]@,
        r.1@.len() == command_line@.len() - 1,
        forall|k: int| 0 <= k < r.1@.len() ==> #[trigger] r.1@[k]@ == command_line@[k + 1]@,
{
    let command_name = command_line[0].clone();
    let mut args: Vec<String> = Vec::new();
    let mut k: usize = 1;
    while k < command_line.len()
        invariant
            1 <= k <= command_line@.len(),
            args@.len() == k - 1,
            forall|j: int| 0 <= j < args@.len() ==> #[trigger] args@[j]@ == command_line@[j + 1]@,
        decreases command_line@.len() - k,
    {
        args.push(command_line[k].clone());
        k = k + 1;
    }
    (command_name, args)
}

/// The status the process ends with: the command's own when its comment was
/// posted, else 1; a posting failure is reported as a failure of the run.
pub open spec fn exit_code_of(outcome: Result<Success, Failure>) -> i32 {
    match outcome {
        Ok(s) => if s.error_message is None {
            s.command_result.exit_status
        } else {
            1
        },
        Err(_) => 1,
    }
}

/// The status the process ends with after `outcome`.
pub fn exit_code(outcome: &Result<Success, Failure>) -> (r: i32)
    ensures
        r == exit_code_of(*outcome),
{
    match outcome {
        Ok(s) => if s.error_message.is_none() {
            s.command_result.exit_status
        } else {
            1
        },
        Err(_) => 1,
    }
}

/// When the address is empty and the last commit's subject holds no merge
/// reference, no step ever asks for a comment to be posted: once the command
/// has run, the invocation ends with the reason instead.
pub proof fn lemma_no_post_without_pull_request(state: RunState, event: Event, next: RunState)
    requires
        state matches RunState::Running { environment, .. }
            && environment.pull_request_url@.len() == 0
            && forall|i: int| 0 <= i < environment.last_commit_comment@.len()
                ==> merge_reference_at(environment.last_commit_comment@, i) is None,
        step(state, event, next),
    ensures
        !(next is Publishing),
        event is CommandExited ==> (next matches RunState::Done(Ok(s)) && s.error_message is Some),
{
    if let RunState::Running { environment, .. } = state {
        lemma_no_merge_reference(environment.last_commit_comment@);
    }
}

} // verus!
