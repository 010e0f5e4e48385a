//! Links of a spec to the outside: issue references, URLs, and what checking
//! them found.

use vstd::prelude::*;

use crate::pieces::group_holds;
use crate::pieces::holds;
use crate::process::CommandOutput;
use crate::scan::after_last;
use crate::scan::all_digits;
use crate::scan::begins;
use crate::scan::count_of;
use crate::scan::first_index;
use crate::scan::has_prefix;
use crate::scan::index_of;
use crate::scan::law_occurrences_add_up;
use crate::scan::law_the_end_follows_the_last_occurrence;
use crate::scan::law_the_first_occurrence_is_found;
use crate::scan::law_written_numbers_read_back;
use crate::scan::lemma_first_index;
use crate::scan::number_in;
use crate::scan::occurrences;
use crate::scan::only_digits;
use crate::scan::parse_number;
use crate::scan::tail_after;
use crate::scan::trim;
use crate::scan::trimmed;
use crate::text::cat2;
use crate::text::chars_of;
use crate::text::dec;
use crate::text::string_of;
use crate::text::texts;

verus! {

/// `repo` names an owner and a repository with one slash between them.
pub open spec fn is_repo(repo: Seq<char>) -> bool {
    occurrences(repo, '/') == 1 && repo[0] != '/' && repo.last() != '/'
}

/// The repository and the number of an issue reference `owner/repo#123`.
pub open spec fn issue_ref(target: Seq<char>) -> Option<(Seq<char>, Seq<char>)> {
    let k = first_index(target, '#') as int;
    if k < target.len() && is_repo(target.take(k)) && all_digits(target.skip(k + 1))
        && target.skip(k + 1).len() > 0 {
        Some((target.take(k), target.skip(k + 1)))
    } else {
        None
    }
}

/// Parses a GitHub issue reference like `owner/repo#123` into
/// `(owner/repo, 123)`.
pub fn parse_github_issue_ref(target: &str) -> (r: Option<(String, String)>)
    ensures
        r is Some <==> issue_ref(target@) is Some,
        r matches Some(pair) ==> issue_ref(target@) == Some((pair.0@, pair.1@)),
{
    let cs = chars_of(target);
    let k: usize = index_of(&cs, '#');
    if k == cs.len() {
        return None;
    }
    let repo = string_of(&cs, 0, k);
    let number = string_of(&cs, k + 1, cs.len());
    proof {
        assert(repo@ =~= target@.take(k as int));
        assert(number@ =~= target@.skip(k + 1));
    }
    let rs = chars_of(repo.as_str());
    let slashes: usize = count_of(&rs, '/');
    if slashes != 1 {
        return None;
    }
    proof {
        if rs@.len() == 0 {
            assert(occurrences(rs@, '/') == 0);
        }
    }
    if rs[0] != '/' && rs[rs.len() - 1] != '/' && only_digits(number.as_str())
        && cs.len() > k + 1 {
        Some((repo, number))
    } else {
        None
    }
}

/// The number at the end of an issue URL.
pub open spec fn issue_number(url: Seq<char>) -> Option<Seq<char>> {
    let last = after_last(url, '/');
    if all_digits(last) && last.len() > 0 {
        Some(last)
    } else {
        None
    }
}

/// Extracts the issue number from a GitHub issue URL.
///
/// For example, `https://github.com/owner/repo/issues/42` gives `42`.
pub fn extract_issue_number(url: &str) -> (r: Option<String>)
    ensures
        r is Some <==> issue_number(url@) is Some,
        r matches Some(n) ==> issue_number(url@) == Some(n@),
{
    let last = tail_after(url, '/');
    if only_digits(last.as_str()) && !last.as_str().is_empty() {
        Some(last)
    } else {
        None
    }
}

/// How the target of a link is checked.
#[derive(Debug)]
pub enum LinkCheck {
    /// Ask the forge for an issue.
    Issue { repo: String, number: String },
    /// Ask the web server for the head of the page.
    Url,
    /// There is no way to check the target.
    Unsupported,
}

/// Decides how the target of a link is checked: an issue reference before a
/// URL, and nothing else.
pub fn link_check(target: &str) -> (r: LinkCheck)
    ensures
        match r {
            LinkCheck::Issue { repo, number } => issue_ref(target@) == Some((repo@, number@)),
            LinkCheck::Url => issue_ref(target@) is None && (has_prefix(target@, "http://"@)
                || has_prefix(target@, "https://"@)),
            LinkCheck::Unsupported => issue_ref(target@) is None && !has_prefix(
                target@,
                "http://"@,
            ) && !has_prefix(target@, "https://"@),
        },
{
    match parse_github_issue_ref(target) {
        Some((repo, number)) => LinkCheck::Issue { repo, number },
        None => {
            if begins(target, "http://") || begins(target, "https://") {
                LinkCheck::Url
            } else {
                LinkCheck::Unsupported
            }
        },
    }
}

/// A program and its arguments.
#[derive(Debug)]
pub struct LinkCommand {
    pub program: String,
    pub args: Vec<String>,
}

/// The command that checks a target: its program and its arguments.
pub open spec fn check_command(target: Seq<char>) -> Option<(Seq<char>, Seq<Seq<char>>)> {
    match issue_ref(target) {
        Some((repo, number)) => Some(
            ("gh"@, seq!["issue"@, "view"@, number, "--repo"@, repo, "--json"@, "state"@]),
        ),
        None => if has_prefix(target, "http://"@) || has_prefix(target, "https://"@) {
            Some(
                (
                    "curl"@,
                    seq![
                        "--head"@,
                        "--silent"@,
                        "--output"@,
                        "/dev/null"@,
                        "--write-out"@,
                        "%{http_code}"@,
                        "--max-time"@,
                        "10"@,
                        "--location"@,
                        target,
                    ],
                ),
            )
        } else {
            None
        },
    }
}

/// The command that checks the target of a link: `gh issue view` for an issue
/// reference, `curl --head` for a URL, and none for anything else.
pub fn link_command(target: &str) -> (r: Option<LinkCommand>)
    ensures
        match r {
            Some(c) => check_command(target@) == Some((c.program@, texts(c.args@))),
            None => check_command(target@) is None,
        },
{
    let mut args: Vec<String> = Vec::new();
    match link_check(target) {
        LinkCheck::Issue { repo, number } => {
            args.push("issue".to_string());
            args.push("view".to_string());
            let ghost n = number@;
            let ghost of = repo@;
            args.push(number);
            args.push("--repo".to_string());
            args.push(repo);
            args.push("--json".to_string());
            args.push("state".to_string());
            proof {
                assert(texts(args@) =~= seq![
                    "issue"@,
                    "view"@,
                    n,
                    "--repo"@,
                    of,
                    "--json"@,
                    "state"@,
                ]);
            }
            Some(LinkCommand { program: "gh".to_string(), args })
        },
        LinkCheck::Url => {
            args.push("--head".to_string());
            args.push("--silent".to_string());
            args.push("--output".to_string());
            args.push("/dev/null".to_string());
            args.push("--write-out".to_string());
            args.push("%{http_code}".to_string());
            args.push("--max-time".to_string());
            args.push("10".to_string());
            args.push("--location".to_string());
            args.push(target.to_owned());
            proof {
                assert(texts(args@) =~= check_command(target@)->Some_0.1);
            }
            Some(LinkCommand { program: "curl".to_string(), args })
        },
        LinkCheck::Unsupported => None,
    }
}

/// What is said of a target after it was checked.
pub open spec fn link_verdict(
    target: Seq<char>,
    run: Result<CommandOutput, String>,
) -> (bool, Seq<char>) {
    if issue_ref(target) is Some {
        match run {
            Ok(out) => if out.success {
                (true, "issue exists: "@ + trim(out.stdout@))
            } else {
                (false, "gh issue view failed: "@ + trim(out.stderr@))
            },
            Err(e) => (false, "could not run gh: "@ + e@),
        }
    } else if has_prefix(target, "http://"@) || has_prefix(target, "https://"@) {
        match run {
            Ok(out) => if out.success {
                (http_ok(trim(out.stdout@)), "HTTP "@ + trim(out.stdout@))
            } else {
                (false, "curl failed: "@ + trim(out.stderr@))
            },
            Err(e) => (false, "could not run curl: "@ + e@),
        }
    } else {
        (false, "unsupported target format: "@ + target)
    }
}

/// A status code of success or redirection.
pub open spec fn http_ok(code: Seq<char>) -> bool {
    number_in(code, 65535) matches Some(n) && 200 <= n < 400
}

/// Verifies a link target from what came of running its `link_command`; without
/// a command `run` is not looked at.
///
/// Returns whether the target is valid, and a message in detail.
pub fn verify_link_target(target: &str, run: &Result<CommandOutput, String>) -> (r: (bool, String))
    ensures
        (r.0, r.1@) == link_verdict(target@, *run),
{
    match link_check(target) {
        LinkCheck::Issue { repo: _, number: _ } => match run {
            Ok(out) => {
                if out.success {
                    (true, cat2("issue exists: ", trimmed(out.stdout.as_str()).as_str()))
                } else {
                    (false, cat2("gh issue view failed: ", trimmed(out.stderr.as_str()).as_str()))
                }
            },
            Err(e) => (false, cat2("could not run gh: ", e.as_str())),
        },
        LinkCheck::Url => match run {
            Ok(out) => {
                if out.success {
                    let code = trimmed(out.stdout.as_str());
                    let valid = match parse_number(code.as_str(), 65535) {
                        Some(n) => 200 <= n && n < 400,
                        None => false,
                    };
                    (valid, cat2("HTTP ", code.as_str()))
                } else {
                    (false, cat2("curl failed: ", trimmed(out.stderr.as_str()).as_str()))
                }
            },
            Err(e) => (false, cat2("could not run curl: ", e.as_str())),
        },
        LinkCheck::Unsupported => (false, cat2("unsupported target format: ", target)),
    }
}

/// A reference of an owner, a repository and a number is read as it was written.
pub proof fn law_issue_references_are_read(owner: Seq<char>, repo: Seq<char>, number: Seq<char>)
    requires
        owner.len() > 0,
        repo.len() > 0,
        number.len() > 0,
        forall|i: int| 0 <= i < owner.len() ==> owner[i] != '/' && owner[i] != '#',
        forall|i: int| 0 <= i < repo.len() ==> repo[i] != '/' && repo[i] != '#',
        all_digits(number),
    ensures
        issue_ref(owner + seq!['/'] + repo + seq!['#'] + number) == Some(
            (owner + seq!['/'] + repo, number),
        ),
{
    let full = owner + seq!['/'] + repo;
    let target = full + seq!['#'] + number;
    let k = full.len() as int;
    assert forall|i: int| 0 <= i < k implies target[i] != '#' by {
        if i < owner.len() {
            assert(target[i] == owner[i]);
        } else if i > owner.len() {
            assert(target[i] == repo[i - owner.len() - 1]);
        }
    }
    assert(target[k] == '#');
    lemma_first_index(target, '#', k);
    assert(target.take(k) =~= full);
    assert(target.skip(k + 1) =~= number);
    law_occurrences_add_up(owner, seq!['/'], '/', '/');
    law_occurrences_add_up(owner + seq!['/'], repo, '/', '/');
    lemma_no_occurrences(owner, '/');
    lemma_no_occurrences(repo, '/');
    assert(full[0] == owner[0]);
    assert(full.last() == repo.last());
}

proof fn lemma_no_occurrences(s: Seq<char>, c: char)
    requires
        forall|i: int| 0 <= i < s.len() ==> s[i] != c,
    ensures
        occurrences(s, c) == 0,
    decreases s.len(),
{
    if s.len() > 0 {
        lemma_no_occurrences(s.drop_last(), c);
    }
}

/// What is read as a reference is one: the repository, a number sign and the
/// digits of the number make up the target.
pub proof fn law_references_are_made_of_their_parts(target: Seq<char>)
    requires
        issue_ref(target) is Some,
    ensures
        target == issue_ref(target).unwrap().0 + seq!['#'] + issue_ref(target).unwrap().1,
        all_digits(issue_ref(target).unwrap().1),
        issue_ref(target).unwrap().1.len() > 0,
{
    law_the_first_occurrence_is_found(target, '#');
    let k = first_index(target, '#') as int;
    assert(target =~= target.take(k) + seq!['#'] + target.skip(k + 1));
}

/// The number of an issue is what stands behind the last slash of its URL, where
/// that is a number.
pub proof fn law_issue_numbers_end_their_urls(front: Seq<char>, number: Seq<char>)
    requires
        forall|i: int| 0 <= i < number.len() ==> number[i] != '/',
    ensures
        number.len() > 0 && all_digits(number) ==> issue_number(front + seq!['/'] + number) == Some(
            number,
        ),
        number.len() == 0 || !all_digits(number) ==> issue_number(front + seq!['/'] + number) is None,
{
    let url = front + seq!['/'] + number;
    let last = after_last(url, '/');
    law_the_end_follows_the_last_occurrence(url, '/');
    assert(url[front.len() as int] == '/');
    if last.len() > number.len() {
        let i = front.len() - (url.len() - last.len());
        assert(last[i] == url[front.len() as int]);
    }
    if last.len() < number.len() {
        let i = number.len() - last.len() - 1;
        assert(url[url.len() - last.len() - 1] == number[i]);
    }
    assert(last =~= number);
}

/// A page is reached with a status of success or redirection, and with no other;
/// the status is told.
pub proof fn law_pages_are_judged_by_their_status(target: Seq<char>, out: CommandOutput, code: nat)
    requires
        issue_ref(target) is None,
        has_prefix(target, "http://"@) || has_prefix(target, "https://"@),
        trim(out.stdout@) == dec(code),
        code <= 65535,
    ensures
        link_verdict(target, Ok(out)).0 <==> out.success && 200 <= code <= 399,
        out.success ==> link_verdict(target, Ok(out)).1 == "HTTP "@ + dec(code),
        !out.success ==> holds(link_verdict(target, Ok(out)).1, trim(out.stderr@)),
{
    broadcast use group_holds;

    law_written_numbers_read_back(code, 65535);
}

/// An issue exists where the forge shows it; what it shows is told, or why it
/// shows nothing.
pub proof fn law_issues_are_judged_by_the_forge(target: Seq<char>, run: Result<CommandOutput, String>)
    requires
        issue_ref(target) is Some,
    ensures
        link_verdict(target, run).0 <==> run is Ok && run->Ok_0.success,
        run is Ok && run->Ok_0.success ==> holds(
            link_verdict(target, run).1,
            trim(run->Ok_0.stdout@),
        ),
        run is Ok && !run->Ok_0.success ==> holds(
            link_verdict(target, run).1,
            trim(run->Ok_0.stderr@),
        ),
        run is Err ==> holds(link_verdict(target, run).1, run->Err_0@),
{
    broadcast use group_holds;

}

/// Other targets are never valid, and the target is named.
pub proof fn law_other_targets_are_refused(target: Seq<char>, run: Result<CommandOutput, String>)
    requires
        issue_ref(target) is None,
        !has_prefix(target, "http://"@),
        !has_prefix(target, "https://"@),
    ensures
        !link_verdict(target, run).0,
        holds(link_verdict(target, run).1, target),
        check_command(target) is None,
{
    broadcast use group_holds;

}

/// The command that checks a target names it: the repository and the number, or
/// the URL.
pub proof fn law_checks_name_their_target(target: Seq<char>)
    requires
        check_command(target) is Some,
    ensures
        match issue_ref(target) {
            Some((repo, number)) => check_command(target).unwrap().1.contains(repo) && check_command(
                target,
            ).unwrap().1.contains(number),
            None => check_command(target).unwrap().1.contains(target),
        },
{
    let args = check_command(target).unwrap().1;
    match issue_ref(target) {
        Some((repo, number)) => {
            assert(args[4] == repo);
            assert(args[2] == number);
        },
        None => {
            assert(args[9] == target);
        },
    }
}

} // verus!
