use circle_gh_tee::{
    build_comment, expand_template_variables, CommandResult, DEFAULT_EXIT_NON_ZERO, DEFAULT_EXIT_ZERO,
};

fn result(full_command: &str, output: &str, exit_status: i32) -> CommandResult {
    CommandResult {
        full_command: String::from(full_command),
        result: String::from(output),
        exit_status,
    }
}

#[test]
fn template_without_placeholders_is_unchanged() {
    let cr = result("echo hi", "hi\n", 0);
    let t = "no {placeholders} here {{other}} {{result}";
    assert_eq!(expand_template_variables(t, &cr), t);
}

#[test]
fn every_placeholder_is_replaced() {
    let cr = result("make test", "ok\n", 3);
    let t = "{{full_command}}|{{result}}|{{exit_status}}|{{full_command}}";
    assert_eq!(expand_template_variables(t, &cr), "make test|ok\n|3|make test");
}

#[test]
fn inserted_text_is_not_replaced_again() {
    let cr = result("echo {{exit_status}}", "{{full_command}}", 2);
    assert_eq!(
        expand_template_variables("{{full_command}} {{result}} {{exit_status}}", &cr),
        "echo {{exit_status}} {{full_command}} 2"
    );
}

#[test]
fn negative_exit_status_is_written_with_sign() {
    let cr = result("x", "", -15);
    assert_eq!(expand_template_variables("{{exit_status}}", &cr), "-15");
    let cr = result("x", "", i32::MIN);
    assert_eq!(expand_template_variables("{{exit_status}}", &cr), "-2147483648");
}

#[test]
fn default_comment_for_status_zero() {
    let cr = result("echo hi", "hi\n", 0);
    let comment = build_comment(DEFAULT_EXIT_ZERO, DEFAULT_EXIT_NON_ZERO, &cr);
    assert_eq!(
        comment,
        ":white_check_mark: `$ echo hi` exited with `0`.\n```\nhi\n\n```"
    );
    assert!(comment.contains("echo hi"));
    assert!(comment.contains('0'));
}

#[test]
fn default_comment_for_status_seven() {
    let cr = result("false", "boom", 7);
    let comment = build_comment(DEFAULT_EXIT_ZERO, DEFAULT_EXIT_NON_ZERO, &cr);
    assert_eq!(
        comment,
        ":no_entry_sign: `$ false` exited with `7`.\n```\nboom\n```"
    );
}

#[test]
fn chosen_template_follows_exit_status() {
    let zero = result("a", "", 0);
    let other = result("a", "", 1);
    assert_eq!(build_comment("Z", "N", &zero), "Z");
    assert_eq!(build_comment("Z", "N", &other), "N");
}

#[test]
fn full_command_joins_arguments_with_spaces() {
    let args = vec![String::from("-la"), String::from("my dir")];
    let cr = CommandResult::new("ls", &args, 0, String::from("out"));
    assert_eq!(cr.full_command, "ls -la my dir");
    assert_eq!(cr.result, "out");
    let cr = CommandResult::new("true", &Vec::new(), 0, String::new());
    assert_eq!(cr.full_command, "true");
}
