use circle_gh_tee::{exit_code, parse_command_name_and_args, publish_step, run, Environment, Event, RunState};

fn environment(pull_request_url: &str, last_commit_comment: &str) -> Environment {
    Environment {
        github_access_token: String::from("t"),
        username: String::from("user"),
        reponame: String::from("repo"),
        pull_request_url: String::from(pull_request_url),
        last_commit_comment: String::from(last_commit_comment),
    }
}

fn loading(command_name: &str, args: &[&str]) -> RunState {
    RunState::Loading {
        command_name: String::from(command_name),
        args: args.iter().map(|a| String::from(*a)).collect(),
        exit_zero_template: String::from(circle_gh_tee::DEFAULT_EXIT_ZERO),
        exit_non_zero_template: String::from(circle_gh_tee::DEFAULT_EXIT_NON_ZERO),
    }
}

#[test]
fn echo_hi_is_posted_and_exits_zero() {
    let env = environment("https://github.com/user/repo/pull/1234", "");
    let state = run(loading("echo", &["hi"]), Event::EnvironmentLoaded(Ok(env)));
    assert!(matches!(state, RunState::Running { .. }));
    let state = run(state, Event::CommandExited { exit_status: 0, output: b"hi\n".to_vec() });
    match &state {
        RunState::Publishing { url, authorization, body, command_result } => {
            assert_eq!(url, "https://api.github.com/repos/user/repo/issues/1234/comments");
            assert_eq!(authorization, "token t");
            assert!(body.contains("`$ echo hi`"));
            assert!(body.contains("hi\n"));
            assert_eq!(command_result.full_command, "echo hi");
        }
        _ => panic!("expected a comment to post"),
    }
    let state = run(state, Event::CommentPosted(Ok(())));
    match state {
        RunState::Done(outcome) => {
            assert_eq!(exit_code(&outcome), 0);
            let s = outcome.ok().unwrap();
            assert_eq!(s.command_result.result, "hi\n");
            assert!(s.error_message.is_none());
        }
        _ => panic!("expected the run to end"),
    }
}

#[test]
fn missing_pull_request_ends_before_the_command() {
    let state = run(
        loading("echo", &["hi"]),
        Event::EnvironmentLoaded(Environment::load(
            String::from("t"),
            String::from("user"),
            String::from("repo"),
            String::new(),
            String::new(),
        )),
    );
    match state {
        RunState::Done(outcome) => {
            assert_eq!(exit_code(&outcome), 1);
            assert_eq!(outcome.err().unwrap().message, "Failed to get the Pull Request number");
        }
        _ => panic!("expected the run to end"),
    }
}

#[test]
fn subject_without_reference_posts_nothing() {
    let env = environment("", "Fix the build");
    let state = run(loading("make", &[]), Event::EnvironmentLoaded(Ok(env)));
    let state = run(state, Event::CommandExited { exit_status: 2, output: b"fail".to_vec() });
    match state {
        RunState::Done(outcome) => {
            assert_eq!(exit_code(&outcome), 1);
            let s = outcome.ok().unwrap();
            assert_eq!(s.command_result.exit_status, 2);
            assert_eq!(
                s.error_message.unwrap(),
                "Failed to post comment to GitHub: Failed to get Pull Request number from last commit comment: Fix the build"
            );
        }
        _ => panic!("expected the run to end without posting"),
    }
}

#[test]
fn spawn_failure_is_fatal() {
    let env = environment("/pull/1", "");
    let state = run(loading("nope", &["x"]), Event::EnvironmentLoaded(Ok(env)));
    let state = run(state, Event::SpawnFailed(String::from("not found")));
    match state {
        RunState::Done(outcome) => {
            assert_eq!(exit_code(&outcome), 1);
            assert_eq!(outcome.err().unwrap().message, "Failed to run `nope`: not found");
        }
        _ => panic!("expected the run to end"),
    }
}

#[test]
fn post_failure_keeps_output_and_exits_one() {
    let env = environment("/pull/1", "");
    let state = run(loading("false", &[]), Event::EnvironmentLoaded(Ok(env)));
    let state = run(state, Event::CommandExited { exit_status: 1, output: Vec::new() });
    let state = run(state, Event::CommentPosted(Err(String::from("timed out"))));
    match state {
        RunState::Done(outcome) => {
            assert_eq!(exit_code(&outcome), 1);
            let s = outcome.ok().unwrap();
            assert_eq!(s.error_message.unwrap(), "Failed to post comment to GitHub: timed out");
        }
        _ => panic!("expected the run to end"),
    }
}

#[test]
fn command_status_is_propagated_after_posting() {
    let env = environment("/pull/1", "");
    let state = run(loading("false", &[]), Event::EnvironmentLoaded(Ok(env)));
    let state = run(state, Event::CommandExited { exit_status: 7, output: Vec::new() });
    let state = run(state, Event::CommentPosted(Ok(())));
    match state {
        RunState::Done(outcome) => assert_eq!(exit_code(&outcome), 7),
        _ => panic!("expected the run to end"),
    }
}

#[test]
fn invalid_output_bytes_are_replaced() {
    let env = environment("/pull/1", "");
    let state = run(loading("cat", &[]), Event::EnvironmentLoaded(Ok(env)));
    let state = run(state, Event::CommandExited { exit_status: 0, output: vec![b'o', b'k', 0xff] });
    match state {
        RunState::Publishing { command_result, .. } => {
            assert_eq!(command_result.result, "ok\u{FFFD}");
        }
        _ => panic!("expected a comment to post"),
    }
}

#[test]
fn unexpected_event_leaves_state_unchanged() {
    let state = run(loading("ls", &[]), Event::CommentPosted(Ok(())));
    assert!(matches!(state, RunState::Loading { .. }));
}

#[test]
fn publish_step_renders_the_selected_template() {
    let env = environment("/pull/99", "");
    let cr = circle_gh_tee::CommandResult {
        full_command: String::from("ls"),
        result: String::from("a"),
        exit_status: 4,
    };
    match publish_step(&env, "ok {{result}}", "bad {{exit_status}} {{result}}", cr) {
        RunState::Publishing { body, url, .. } => {
            assert_eq!(body, "bad 4 a");
            assert_eq!(url, "https://api.github.com/repos/user/repo/issues/99/comments");
        }
        _ => panic!("expected a comment to post"),
    }
}

#[test]
fn command_line_splits_name_from_arguments() {
    let line = vec![String::from("echo"), String::from("hi"), String::from("there")];
    let (name, args) = parse_command_name_and_args(&line);
    assert_eq!(name, "echo");
    assert_eq!(args, vec![String::from("hi"), String::from("there")]);
}
