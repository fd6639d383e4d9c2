//! What a command did, and the comment text rendered from it.
use vstd::prelude::*;
use vstd::string::*;
use crate::text::{contains, decimal, nat_decimal, occurs_at, occurs_at_exec};

verus! {

/// Comment used when the command exits with status zero.
pub const DEFAULT_EXIT_ZERO: &'static str = ":white_check_mark: `$ {{full_command}}` exited with `0`.\n```\n{{result}}\n```";

/// Comment used when the command exits with any other status.
pub const DEFAULT_EXIT_NON_ZERO: &'static str = ":no_entry_sign: `$ {{full_command}}` exited with `{{exit_status}}`.\n```\n{{result}}\n```";

pub open spec fn full_command_placeholder() -> Seq<char> {
    "{{full_command}}"@
}

pub open spec fn result_placeholder() -> Seq<char> {
    "{{result}}"@
}

pub open spec fn exit_status_placeholder() -> Seq<char> {
    "{{exit_status}}"@
}

/// The template `t` with each placeholder replaced by its value, in one pass from
/// left to right: text that a value brings in is never itself replaced.
pub open spec fn render(t: Seq<char>, full_command: Seq<char>, result: Seq<char>, exit_status: Seq<char>) -> Seq<char>
    decreases t.len()
    via render_decreases
{
    if t.len() == 0 {
        t
    } else if occurs_at(t, 0, full_command_placeholder()) {
        full_command + render(t.skip(full_command_placeholder().len() as int), full_command, result, exit_status)
    } else if occurs_at(t, 0, result_placeholder()) {
        result + render(t.skip(result_placeholder().len() as int), full_command, result, exit_status)
    } else if occurs_at(t, 0, exit_status_placeholder()) {
        exit_status + render(t.skip(exit_status_placeholder().len() as int), full_command, result, exit_status)
    } else {
        seq![t[0]] + render(t.skip(1), full_command, result, exit_status)
    }
}

#[via_fn]
proof fn render_decreases(t: Seq<char>, full_command: Seq<char>, result: Seq<char>, exit_status: Seq<char>) {
    reveal_strlit("{{full_command}}");
    reveal_strlit("{{result}}");
    reveal_strlit("{{exit_status}}");
}

/// A command's full text, its name followed by each argument after one space.
pub open spec fn joined_command(name: Seq<char>, args: Seq<String>) -> Seq<char>
    decreases args.len(),
{
    if args.len() == 0 {
        name
    } else {
        joined_command(name, args.drop_last()) + " "@ + args.last()@
    }
}

/// The outcome of one run of a command.
pub struct CommandResult {
    /// The command name and its arguments, joined by single spaces.
    pub full_command: String,
    /// Everything the command wrote, standard error merged into standard output.
    pub result: String,
    pub exit_status: i32,
}

/// The comment for `cr` rendered from template `t`.
pub open spec fn comment_of(t: Seq<char>, cr: CommandResult) -> Seq<char> {
    render(t, cr.full_command@, cr.result@, decimal(cr.exit_status as int))
}

impl CommandResult {
    pub fn new(command_name: &str, args: &Vec<String>, exit_status: i32, result: String) -> (r: CommandResult)
        ensures
            r.full_command@ == joined_command(command_name@, args@),
            r.result@ == result@,
            r.exit_status == exit_status,
    {
        let mut full_command = String::from_str(command_name);
        let mut k: usize = 0;
        while k < args.len()
            invariant
                k <= args@.len(),
                full_command@ == joined_command(command_name@, args@.take(k as int)),
            decreases args@.len() - k,
        {
            full_command.append(" ");
            full_command.append(args[k].as_str());
            proof {
                assert(args@.take(k + 1).drop_last() =~= args@.take(k as int));
            }
            k = k + 1;
        }
        assert(args@.take(k as int) =~= args@);
        CommandResult { full_command, result, exit_status }
    }
}

/// The comment from the default templates shows the command, and the status: a
/// literal `0` for status zero, the status in decimal otherwise.
pub proof fn lemma_default_comment_shows_command_and_status(command_result: CommandResult)
    ensures
        ({
            let comment = comment_of(
                template_for(command_result.exit_status, DEFAULT_EXIT_ZERO@, DEFAULT_EXIT_NON_ZERO@),
                command_result,
            );
            &&& contains(comment, command_result.full_command@)
            &&& contains(comment, decimal(command_result.exit_status as int))
            &&& command_result.exit_status == 0 ==> contains(comment, "0"@)
        }),
{
    lemma_default_comment(command_result);
    let fc = command_result.full_command@;
    let rs = command_result.result@;
    let es = decimal(command_result.exit_status as int);
    let comment = comment_of(
        template_for(command_result.exit_status, DEFAULT_EXIT_ZERO@, DEFAULT_EXIT_NON_ZERO@),
        command_result,
    );
    if command_result.exit_status == 0 {
        let w1 = ":white_check_mark: `$ "@;
        reveal_strlit(":white_check_mark: `$ ");
        reveal_strlit("` exited with `0`.\n```\n");
        reveal_strlit("0");
        assert(comment.subrange(w1.len() as int, w1.len() + fc.len() as int) =~= fc);
        assert(occurs_at(comment, w1.len() as int, fc));
        let z: int = w1.len() + fc.len() + 15int;
        assert(comment.subrange(z, z + 1) =~= "0"@);
        assert(occurs_at(comment, z, "0"@));
        assert(es =~= "0"@);
    } else {
        let w1 = ":no_entry_sign: `$ "@;
        let w2 = "` exited with `"@;
        assert(comment.subrange(w1.len() as int, w1.len() + fc.len() as int) =~= fc);
        assert(occurs_at(comment, w1.len() as int, fc));
        let z: int = (w1.len() + fc.len() + w2.len()) as int;
        assert(comment.subrange(z, z + es.len()) =~= es);
        assert(occurs_at(comment, z, es));
    }
}

/// The decimal digit `d` for `d < 10`, as text.
fn digit_text(d: u64) -> (r: &'static str)
    requires
        d < 10,
    ensures
        r@ == nat_decimal(d as nat),
{
    let digits = "0123456789";
    proof {
        reveal_strlit("0123456789");
    }
    digits.substring_char(d as usize, d as usize + 1)
}

fn nat_decimal_exec(n: u64) -> (r: String)
    ensures
        r@ == nat_decimal(n as nat),
    decreases n,
{
    if n < 10 {
        String::from_str(digit_text(n))
    } else {
        let head = nat_decimal_exec(n / 10);
        head.concat(digit_text(n % 10))
    }
}

/// `n` written in decimal, with a leading `-` when negative.
pub fn decimal_exec(n: i32) -> (r: String)
    ensures
        r@ == decimal(n as int),
{
    if n < 0 {
        let m: i64 = n as i64;
        String::from_str("-").concat(nat_decimal_exec((-m) as u64).as_str())
    } else {
        nat_decimal_exec(n as u64)
    }
}

/// A pattern occurs at the start of `t.skip(i)` exactly when it occurs in `t` at `i`.
proof fn lemma_occurs_after_skip(t: Seq<char>, i: int, p: Seq<char>)
    requires
        0 <= i <= t.len(),
    ensures
        occurs_at(t.skip(i), 0, p) == occurs_at(t, i, p),
{
    if i + p.len() <= t.len() {
        assert(t.skip(i).subrange(0, p.len() as int) =~= t.subrange(i, i + p.len()));
    }
}

/// Replaces the placeholders of `template` with the given values, in one pass.
fn render_exec(template: &str, full_command: &str, result: &str, exit_status: &str) -> (r: String)
    ensures
        r@ == render(template@, full_command@, result@, exit_status@),
{
    let fc = "{{full_command}}";
    let rs = "{{result}}";
    let es = "{{exit_status}}";
    proof {
        reveal_strlit("{{full_command}}");
        reveal_strlit("{{result}}");
        reveal_strlit("{{exit_status}}");
    }
    let fc_len = fc.unicode_len();
    let rs_len = rs.unicode_len();
    let es_len = es.unicode_len();
    let n = template.unicode_len();
    let ghost t = template@;
    let mut out = String::new();
    let mut i: usize = 0;
    assert(out@ + render(t.skip(0), full_command@, result@, exit_status@) =~= render(t, full_command@, result@, exit_status@)) by {
        assert(t.skip(0) =~= t);
    }
    while i < n
        invariant
            t == template@,
            n == t.len(),
            i <= n,
            fc@ == full_command_placeholder(),
            rs@ == result_placeholder(),
            es@ == exit_status_placeholder(),
            fc_len == 16 == fc@.len(),
            rs_len == 10 == rs@.len(),
            es_len == 15 == es@.len(),
            out@ + render(t.skip(i as int), full_command@, result@, exit_status@)
                == render(t, full_command@, result@, exit_status@),
        decreases n - i,
    {
        let ghost rest = t.skip(i as int);
        proof {
            lemma_occurs_after_skip(t, i as int, fc@);
            lemma_occurs_after_skip(t, i as int, rs@);
            lemma_occurs_after_skip(t, i as int, es@);
        }
        if occurs_at_exec(template, i, fc) {
            out.append(full_command);
            proof {
                assert(rest.skip(16) =~= t.skip(i + 16));
            }
            i = i + fc_len;
        } else if occurs_at_exec(template, i, rs) {
            out.append(result);
            proof {
                assert(rest.skip(10) =~= t.skip(i + 10));
            }
            i = i + rs_len;
        } else if occurs_at_exec(template, i, es) {
            out.append(exit_status);
            proof {
                assert(rest.skip(15) =~= t.skip(i + 15));
            }
            i = i + es_len;
        } else {
            out.append(template.substring_char(i, i + 1));
            proof {
                assert(rest.skip(1) =~= t.skip(i + 1));
                assert(t.subrange(i as int, i + 1) =~= seq![rest[0]]);
            }
            i = i + 1;
        }
    }
    proof {
        assert(t.skip(n as int) =~= Seq::<char>::empty());
        assert(out@ + Seq::<char>::empty() =~= out@);
    }
    out
}

/// The comment text for `command_result`, rendered from `template`.
pub fn expand_template_variables(template: &str, command_result: &CommandResult) -> (r: String)
    ensures
        r@ == comment_of(template@, *command_result),
{
    let exit_status = decimal_exec(command_result.exit_status);
    render_exec(template, command_result.full_command.as_str(), command_result.result.as_str(), exit_status.as_str())
}

/// The template for this exit status: the first for status zero, the second otherwise.
pub open spec fn template_for(exit_status: i32, exit_zero_template: Seq<char>, exit_non_zero_template: Seq<char>) -> Seq<char> {
    if exit_status == 0 {
        exit_zero_template
    } else {
        exit_non_zero_template
    }
}

/// The comment for `command_result`, from the template that its exit status selects.
pub fn build_comment(exit_zero_template: &str, exit_non_zero_template: &str, command_result: &CommandResult) -> (r: String)
    ensures
        r@ == comment_of(
            template_for(command_result.exit_status, exit_zero_template@, exit_non_zero_template@),
            *command_result,
        ),
{
    if command_result.exit_status == 0 {
        expand_template_variables(exit_zero_template, command_result)
    } else {
        expand_template_variables(exit_non_zero_template, command_result)
    }
}

/// A template in which none of the three placeholders occurs renders as itself.
pub proof fn lemma_render_without_placeholders(t: Seq<char>, full_command: Seq<char>, result: Seq<char>, exit_status: Seq<char>)
    requires
        !contains(t, full_command_placeholder()),
        !contains(t, result_placeholder()),
        !contains(t, exit_status_placeholder()),
    ensures
        render(t, full_command, result, exit_status) == t,
    decreases t.len(),
{
    if t.len() > 0 {
        let rest = t.skip(1);
        assert(!occurs_at(t, 0, full_command_placeholder()));
        assert(!occurs_at(t, 0, result_placeholder()));
        assert(!occurs_at(t, 0, exit_status_placeholder()));
        assert forall|p: Seq<char>, i: int| occurs_at(rest, i, p) implies occurs_at(t, i + 1, p) by {
            assert(rest.subrange(i, i + p.len()) =~= t.subrange(i + 1, i + 1 + p.len()));
        }
        lemma_render_without_placeholders(rest, full_command, result, exit_status);
        assert(seq![t[0]] + rest =~= t);
    }
}

/// Text with no `{` passes through rendering unchanged, ahead of what follows it.
proof fn lemma_render_plain_prefix(w: Seq<char>, rest: Seq<char>, full_command: Seq<char>, result: Seq<char>, exit_status: Seq<char>)
    requires
        forall|k: int| 0 <= k < w.len() ==> w[k] != '{',
    ensures
        render(w + rest, full_command, result, exit_status) == w + render(rest, full_command, result, exit_status),
    decreases w.len(),
{
    reveal_strlit("{{full_command}}");
    reveal_strlit("{{result}}");
    reveal_strlit("{{exit_status}}");
    if w.len() > 0 {
        let t = w + rest;
        assert(t[0] == w[0]);
        assert(!occurs_at(t, 0, full_command_placeholder())) by {
            if occurs_at(t, 0, full_command_placeholder()) {
                assert(t.subrange(0, 16)[0] == t[0]);
            }
        }
        assert(!occurs_at(t, 0, result_placeholder())) by {
            if occurs_at(t, 0, result_placeholder()) {
                assert(t.subrange(0, 10)[0] == t[0]);
            }
        }
        assert(!occurs_at(t, 0, exit_status_placeholder())) by {
            if occurs_at(t, 0, exit_status_placeholder()) {
                assert(t.subrange(0, 15)[0] == t[0]);
            }
        }
        lemma_render_plain_prefix(w.skip(1), rest, full_command, result, exit_status);
        assert(t.skip(1) =~= w.skip(1) + rest);
        assert(seq![w[0]] + (w.skip(1) + render(rest, full_command, result, exit_status))
            =~= w + render(rest, full_command, result, exit_status));
    }
}

/// A placeholder at the front of the template is replaced by its value.
proof fn lemma_render_placeholder(rest: Seq<char>, full_command: Seq<char>, result: Seq<char>, exit_status: Seq<char>)
    ensures
        render(full_command_placeholder() + rest, full_command, result, exit_status)
            == full_command + render(rest, full_command, result, exit_status),
        render(result_placeholder() + rest, full_command, result, exit_status)
            == result + render(rest, full_command, result, exit_status),
{
    reveal_strlit("{{full_command}}");
    reveal_strlit("{{result}}");
    let a = full_command_placeholder() + rest;
    assert(a.subrange(0, 16) =~= full_command_placeholder());
    assert(a.skip(16) =~= rest);
    let b = result_placeholder() + rest;
    assert(b.subrange(0, 10) =~= result_placeholder());
    assert(!occurs_at(b, 0, full_command_placeholder())) by {
        if occurs_at(b, 0, full_command_placeholder()) {
            assert(b.subrange(0, 16)[2] == b[2]);
        }
    }
    assert(b.skip(10) =~= rest);
}

/// With status zero the default comment shows the command, a literal `0` and the
/// output; with any other status it shows the command, the status and the output.
pub proof fn lemma_default_comment(command_result: CommandResult)
    ensures
        command_result.exit_status == 0 ==> comment_of(
            template_for(command_result.exit_status, DEFAULT_EXIT_ZERO@, DEFAULT_EXIT_NON_ZERO@),
            command_result,
        ) == ":white_check_mark: `$ "@ + command_result.full_command@ + "` exited with `0`.\n```\n"@
            + command_result.result@ + "\n```"@,
        command_result.exit_status != 0 ==> comment_of(
            template_for(command_result.exit_status, DEFAULT_EXIT_ZERO@, DEFAULT_EXIT_NON_ZERO@),
            command_result,
        ) == ":no_entry_sign: `$ "@ + command_result.full_command@ + "` exited with `"@
            + decimal(command_result.exit_status as int) + "`.\n```\n"@ + command_result.result@ + "\n```"@,
{
    let fc = command_result.full_command@;
    let rs = command_result.result@;
    let es = decimal(command_result.exit_status as int);
    reveal_strlit("{{full_command}}");
    reveal_strlit("{{result}}");
    reveal_strlit("{{exit_status}}");
    reveal_strlit("\n```");
    reveal_strlit("`.\n```\n");
    reveal_strlit(":white_check_mark: `$ ");
    reveal_strlit("` exited with `0`.\n```\n");
    reveal_strlit(":white_check_mark: `$ {{full_command}}` exited with `0`.\n```\n{{result}}\n```");
    reveal_strlit(":no_entry_sign: `$ ");
    reveal_strlit("` exited with `");
    reveal_strlit(":no_entry_sign: `$ {{full_command}}` exited with `{{exit_status}}`.\n```\n{{result}}\n```");
    if command_result.exit_status == 0 {
        let w1 = ":white_check_mark: `$ "@;
        let w2 = "` exited with `0`.\n```\n"@;
        let w3 = "\n```"@;
        assert(DEFAULT_EXIT_ZERO@ =~= w1 + (full_command_placeholder() + (w2 + (result_placeholder() + w3))));
        lemma_render_plain_prefix(w3, seq![], fc, rs, es);
        assert(w3 + seq![] =~= w3);
        assert(w3 + render(seq![], fc, rs, es) =~= w3);
        lemma_render_placeholder(w3, fc, rs, es);
        lemma_render_plain_prefix(w2, result_placeholder() + w3, fc, rs, es);
        lemma_render_placeholder(w2 + (result_placeholder() + w3), fc, rs, es);
        lemma_render_plain_prefix(w1, full_command_placeholder() + (w2 + (result_placeholder() + w3)), fc, rs, es);
        assert(w1 + (fc + (w2 + (rs + w3))) =~= w1 + fc + w2 + rs + w3);
    } else {
        let w1 = ":no_entry_sign: `$ "@;
        let w2 = "` exited with `"@;
        let w3 = "`.\n```\n"@;
        let w4 = "\n```"@;
        let tail = w3 + (result_placeholder() + w4);
        assert(DEFAULT_EXIT_NON_ZERO@ =~= w1 + (full_command_placeholder() + (w2 + (exit_status_placeholder() + tail))));
        lemma_render_plain_prefix(w4, seq![], fc, rs, es);
        assert(w4 + seq![] =~= w4);
        assert(w4 + render(seq![], fc, rs, es) =~= w4);
        lemma_render_placeholder(w4, fc, rs, es);
        lemma_render_plain_prefix(w3, result_placeholder() + w4, fc, rs, es);
        let e = exit_status_placeholder() + tail;
        assert(e.subrange(0, 15) =~= exit_status_placeholder());
        assert(!occurs_at(e, 0, full_command_placeholder())) by {
            if occurs_at(e, 0, full_command_placeholder()) {
                assert(e.subrange(0, 16)[2] == e[2]);
            }
        }
        assert(!occurs_at(e, 0, result_placeholder())) by {
            if occurs_at(e, 0, result_placeholder()) {
                assert(e.subrange(0, 10)[2] == e[2]);
            }
        }
        assert(e.skip(15) =~= tail);
        lemma_render_plain_prefix(w2, e, fc, rs, es);
        lemma_render_placeholder(w2 + e, fc, rs, es);
        lemma_render_plain_prefix(w1, full_command_placeholder() + (w2 + e), fc, rs, es);
        assert(w1 + (fc + (w2 + (es + (w3 + (rs + w4))))) =~= w1 + fc + w2 + es + w3 + rs + w4);
    }
}

} // verus!
