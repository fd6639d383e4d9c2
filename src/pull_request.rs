//! Which pull request a build belongs to, and where its comments are posted.
use vstd::prelude::*;
use vstd::string::*;
use crate::text::{
    all_digits, digit_run, digit_run_len, is_ascii_digit, is_digit, occurs_at, occurs_at_exec,
};

verus! {

/// What a build knows about its repository and the change under test.
pub struct Environment {
    pub github_access_token: String,
    pub username: String,
    pub reponame: String,
    /// The pull request's web address; empty when the build was not given one.
    pub pull_request_url: String,
    /// Subject line of the last commit; may be empty.
    pub last_commit_comment: String,
}

/// The segment that precedes the number in a pull request's address.
pub open spec fn pull_segment() -> Seq<char> {
    "/pull/"@
}

/// Text that starts a merge commit's subject, just before the number.
pub open spec fn merge_prefix() -> Seq<char> {
    "Merge pull request #"@
}

/// Text that follows the number in a merge commit's subject.
pub open spec fn merge_suffix() -> Seq<char> {
    " from"@
}

/// `url` ends with `/pull/` and then `number`, a non-empty run of digits.
pub open spec fn ends_with_pull_number(url: Seq<char>, number: Seq<char>) -> bool {
    &&& number.len() > 0
    &&& all_digits(number)
    &&& url.len() >= number.len() + pull_segment().len()
    &&& url.subrange(url.len() - number.len(), url.len() as int) == number
    &&& occurs_at(url, url.len() - number.len() - pull_segment().len(), pull_segment())
}

/// The number at the end of a pull request's address, if it ends with `/pull/<digits>`.
pub open spec fn number_in_url(url: Seq<char>) -> Option<Seq<char>> {
    if exists|d: Seq<char>| ends_with_pull_number(url, d) {
        Some(choose|d: Seq<char>| ends_with_pull_number(url, d))
    } else {
        None
    }
}

/// The digits of a merge reference `Merge pull request #<digits> from` that starts at `i`.
pub open spec fn merge_reference_at(msg: Seq<char>, i: int) -> Option<Seq<char>> {
    let start = i + merge_prefix().len();
    let n = digit_run_len(msg, start);
    if occurs_at(msg, i, merge_prefix()) && n > 0 && occurs_at(msg, start + n, merge_suffix()) {
        Some(msg.subrange(start, start + n))
    } else {
        None
    }
}

/// The merge reference that starts first at or after position `i`.
pub open spec fn first_merge_reference(msg: Seq<char>, i: int) -> Option<Seq<char>>
    decreases msg.len() - i,
{
    if i < 0 || i >= msg.len() {
        None
    } else if merge_reference_at(msg, i) is Some {
        merge_reference_at(msg, i)
    } else {
        first_merge_reference(msg, i + 1)
    }
}

pub open spec fn url_error(url: Seq<char>) -> Seq<char> {
    "Failed to get Pull Request number from CI_PULL_REQUEST: "@ + url
}

pub open spec fn commit_error(msg: Seq<char>) -> Seq<char> {
    "Failed to get Pull Request number from last commit comment: "@ + msg
}

/// The pull request number: from the address when there is one, else from the
/// last commit's subject; or the reason it cannot be found.
pub open spec fn pull_request_number(url: Seq<char>, msg: Seq<char>) -> Result<Seq<char>, Seq<char>> {
    if url.len() > 0 {
        match number_in_url(url) {
            Some(d) => Ok(d),
            None => Err(url_error(url)),
        }
    } else {
        match first_merge_reference(msg, 0) {
            Some(d) => Ok(d),
            None => Err(commit_error(msg)),
        }
    }
}

/// The API address at which comments on pull request `number` are created.
pub open spec fn comment_api_url(owner: Seq<char>, repo: Seq<char>, number: Seq<char>) -> Seq<char> {
    "https://api.github.com/repos/"@ + owner + "/"@ + repo + "/issues/"@ + number + "/comments"@
}

pub open spec fn load_error() -> Seq<char> {
    "Failed to get the Pull Request number"@
}

/// A pull request address has at most one number at its end.
pub proof fn lemma_pull_number_unique(url: Seq<char>, d1: Seq<char>, d2: Seq<char>)
    requires
        ends_with_pull_number(url, d1),
        ends_with_pull_number(url, d2),
    ensures
        d1 == d2,
{
    reveal_strlit("/pull/");
    if d1.len() < d2.len() {
        // The `/` before `d1` would be a digit of `d2`.
        let p = url.len() - d1.len() - 1;
        assert(url[p] == url.subrange(url.len() - d1.len() - 6, url.len() as int)[5]);
        assert(url[p] == d2[p - (url.len() - d2.len())]);
    } else if d2.len() < d1.len() {
        let p = url.len() - d2.len() - 1;
        assert(url[p] == url.subrange(url.len() - d2.len() - 6, url.len() as int)[5]);
        assert(url[p] == d1[p - (url.len() - d1.len())]);
    } else {
        assert(d1 =~= d2);
    }
}

impl Environment {
    /// An environment holding the given values as they are.
    pub fn new(
        github_access_token: String,
        username: String,
        reponame: String,
        pull_request_url: String,
        last_commit_comment: String,
    ) -> (r: Environment)
        ensures
            r.github_access_token@ == github_access_token@,
            r.username@ == username@,
            r.reponame@ == reponame@,
            r.pull_request_url@ == pull_request_url@,
            r.last_commit_comment@ == last_commit_comment@,
    {
        Environment { github_access_token, username, reponame, pull_request_url, last_commit_comment }
    }

    /// The environment of a build, refused when neither the pull request's address
    /// nor the last commit's subject is known.
    pub fn load(
        github_access_token: String,
        username: String,
        reponame: String,
        pull_request_url: String,
        last_commit_comment: String,
    ) -> (r: Result<Environment, String>)
        ensures
            (pull_request_url@.len() == 0 && last_commit_comment@.len() == 0) <==> r is Err,
            r matches Err(e) ==> e@ == load_error(),
            r matches Ok(env) ==> env.github_access_token@ == github_access_token@
                && env.username@ == username@ && env.reponame@ == reponame@
                && env.pull_request_url@ == pull_request_url@
                && env.last_commit_comment@ == last_commit_comment@,
    {
        if pull_request_url.unicode_len() == 0 && last_commit_comment.unicode_len() == 0 {
            Err(String::from_str("Failed to get the Pull Request number"))
        } else {
            Ok(Environment::new(github_access_token, username, reponame, pull_request_url, last_commit_comment))
        }
    }
}

/// Reading back from the end, the trailing digits of `url` start at `k`.
proof fn lemma_no_pull_number(url: Seq<char>, k: int, d: Seq<char>)
    requires
        0 <= k <= url.len(),
        forall|p: int| k <= p < url.len() ==> is_digit(#[trigger] url[p]),
        k == 0 || !is_digit(url[k - 1]),
        !(k < url.len() && k >= 6 && occurs_at(url, k - 6, pull_segment())),
    ensures
        !ends_with_pull_number(url, d),
{
    reveal_strlit("/pull/");
    if ends_with_pull_number(url, d) {
        let s = url.len() - d.len();
        if s < k {
            assert(url[k - 1] == d[k - 1 - s]);
        } else if s > k {
            assert(url[s - 1] == url.subrange(s - 6, s)[5]);
        } else {
            assert(url.subrange(s - 6, s) == url.subrange(s - 6, s - 6 + 6));
        }
    }
}

/// Positions before `i` hold no merge reference, so the first one is found from `i` on.
proof fn lemma_first_merge_reference_from(msg: Seq<char>, j: int, i: int)
    requires
        0 <= j <= i <= msg.len(),
        forall|p: int| 0 <= p < i ==> merge_reference_at(msg, p) is None,
    ensures
        first_merge_reference(msg, j) == first_merge_reference(msg, i),
    decreases i - j,
{
    if j < i {
        lemma_first_merge_reference_from(msg, j + 1, i);
    }
}

impl Environment {
    /// The pull request number: taken from the pull request's address when that
    /// is not empty (the commit's subject is then not consulted), else from the
    /// first `Merge pull request #<digits> from` in the last commit's subject.
    /// The digits are returned as written, leading zeros included.
    pub fn get_pull_request_number(&self) -> (r: Result<String, String>)
        ensures
            r matches Ok(n) ==> pull_request_number(self.pull_request_url@, self.last_commit_comment@) == Ok::<Seq<char>, Seq<char>>(n@),
            r matches Err(e) ==> pull_request_number(self.pull_request_url@, self.last_commit_comment@) == Err::<Seq<char>, Seq<char>>(e@),
    {
        if self.pull_request_url.unicode_len() > 0 {
            self.get_pull_request_number_from_ci_pull_request()
        } else {
            self.get_pull_request_number_from_last_commit_comment()
        }
    }

    fn get_pull_request_number_from_ci_pull_request(&self) -> (r: Result<String, String>)
        ensures
            r matches Ok(n) ==> number_in_url(self.pull_request_url@) == Some(n@),
            r matches Err(e) ==> number_in_url(self.pull_request_url@) is None
                && e@ == url_error(self.pull_request_url@),
    {
        let url = self.pull_request_url.as_str();
        let n = url.unicode_len();
        let mut k: usize = n;
        while k > 0 && is_ascii_digit(url.get_char(k - 1))
            invariant
                n == url@.len(),
                k <= n,
                forall|p: int| k <= p < n ==> is_digit(#[trigger] url@[p]),
            decreases k,
        {
            k = k - 1;
        }
        let seg = "/pull/";
        proof {
            reveal_strlit("/pull/");
        }
        if k < n && k >= 6 && occurs_at_exec(url, k - 6, seg) {
            let number = url.substring_char(k, n);
            proof {
                let d = number@;
                assert(all_digits(d)) by {
                    assert forall|p: int| 0 <= p < d.len() implies is_digit(#[trigger] d[p]) by {
                        assert(d[p] == url@[k + p]);
                    }
                }
                assert(ends_with_pull_number(url@, d));
                let c = choose|c: Seq<char>| ends_with_pull_number(url@, c);
                lemma_pull_number_unique(url@, c, d);
            }
            Ok(String::from_str(number))
        } else {
            proof {
                assert forall|d: Seq<char>| !ends_with_pull_number(url@, d) by {
                    lemma_no_pull_number(url@, k as int, d);
                }
            }
            Err(String::from_str("Failed to get Pull Request number from CI_PULL_REQUEST: ").concat(url))
        }
    }

    fn get_pull_request_number_from_last_commit_comment(&self) -> (r: Result<String, String>)
        ensures
            r matches Ok(n) ==> first_merge_reference(self.last_commit_comment@, 0) == Some(n@),
            r matches Err(e) ==> first_merge_reference(self.last_commit_comment@, 0) is None
                && e@ == commit_error(self.last_commit_comment@),
    {
        let msg = self.last_commit_comment.as_str();
        let n = msg.unicode_len();
        let prefix = "Merge pull request #";
        let suffix = " from";
        let m = prefix.unicode_len();
        let mut i: usize = 0;
        while i < n
            invariant
                msg@ == self.last_commit_comment@,
                n == msg@.len(),
                m == merge_prefix().len(),
                prefix@ == merge_prefix(),
                suffix@ == merge_suffix(),
                i <= n,
                forall|p: int| 0 <= p < i ==> merge_reference_at(msg@, p) is None,
            decreases n - i,
        {
            if occurs_at_exec(msg, i, prefix) {
                let start = i + m;
                let len = digit_run(msg, start);
                if len > 0 && occurs_at_exec(msg, start + len, suffix) {
                    let number = msg.substring_char(start, start + len);
                    proof {
                        lemma_first_merge_reference_from(msg@, 0, i as int);
                        assert(merge_reference_at(msg@, i as int) == Some(number@));
                        assert(first_merge_reference(msg@, i as int) == Some(number@));
                    }
                    return Ok(String::from_str(number));
                }
            }
            i = i + 1;
        }
        proof {
            lemma_first_merge_reference_from(msg@, 0, n as int);
        }
        Err(String::from_str("Failed to get Pull Request number from last commit comment: ").concat(msg))
    }

    /// The API address at which a comment on this build's pull request is created.
    pub fn get_pull_request_comment_api_url(&self) -> (r: Result<String, String>)
        ensures
            r matches Ok(u) ==> pull_request_number(self.pull_request_url@, self.last_commit_comment@) matches Ok(d)
                && u@ == comment_api_url(self.username@, self.reponame@, d),
            r matches Err(e) ==> pull_request_number(self.pull_request_url@, self.last_commit_comment@) == Err::<Seq<char>, Seq<char>>(e@),
    {
        let number = self.get_pull_request_number()?;
        Ok(String::from_str("https://api.github.com/repos/")
            .concat(self.username.as_str())
            .concat("/")
            .concat(self.reponame.as_str())
            .concat("/issues/")
            .concat(number.as_str())
            .concat("/comments"))
    }

    /// The value of the `Authorization` header that carries the access token.
    pub fn authorization(&self) -> (r: String)
        ensures
            r@ == "token "@ + self.github_access_token@,
    {
        String::from_str("token ").concat(self.github_access_token.as_str())
    }
}

/// An address that ends in `/pull/` and a run of digits resolves to exactly those
/// digits, leading zeros kept, whatever the last commit's subject says.
pub proof fn lemma_number_from_url(prefix: Seq<char>, number: Seq<char>, msg: Seq<char>)
    requires
        number.len() > 0,
        all_digits(number),
    ensures
        pull_request_number(prefix + pull_segment() + number, msg) == Ok::<Seq<char>, Seq<char>>(number),
{
    reveal_strlit("/pull/");
    let url = prefix + pull_segment() + number;
    assert(url.subrange(url.len() - number.len(), url.len() as int) =~= number);
    assert(url.subrange(prefix.len() as int, prefix.len() + 6int) =~= pull_segment());
    assert(ends_with_pull_number(url, number));
    let c = choose|c: Seq<char>| ends_with_pull_number(url, c);
    lemma_pull_number_unique(url, c, number);
}

/// A non-empty address that does not end in `/pull/<digits>` is refused with the
/// address in the reason, and the last commit's subject is not consulted.
pub proof fn lemma_malformed_url(url: Seq<char>, msg: Seq<char>)
    requires
        url.len() > 0,
        forall|prefix: Seq<char>, number: Seq<char>|
            number.len() > 0 && all_digits(number) ==> url != prefix + pull_segment() + number,
    ensures
        pull_request_number(url, msg) == Err::<Seq<char>, Seq<char>>(url_error(url)),
{
    if exists|d: Seq<char>| ends_with_pull_number(url, d) {
        let d = choose|d: Seq<char>| ends_with_pull_number(url, d);
        let prefix = url.subrange(0, url.len() - d.len() - pull_segment().len());
        assert(url =~= prefix + pull_segment() + d);
    }
}

/// A subject with no `Merge pull request #<digits> from` anywhere gives no number.
pub proof fn lemma_no_merge_reference(msg: Seq<char>)
    requires
        forall|i: int| 0 <= i < msg.len() ==> merge_reference_at(msg, i) is None,
    ensures
        first_merge_reference(msg, 0) is None,
{
    lemma_first_merge_reference_from(msg, 0, msg.len() as int);
}

} // verus!
