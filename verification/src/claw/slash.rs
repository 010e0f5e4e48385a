//! Slash command parsing and dispatch for the interactive session.
//!
//! Supports `/auto`, `/spec`, `/claw`, `/help`, and `/quit` commands.

use vstd::prelude::*;

use crate::pieces::group_holds;
use crate::pieces::holds;
use crate::pieces::lemma_holds_stripped;
use crate::process::CommandOutput;
use crate::scan::all_white;
use crate::scan::begins;
use crate::scan::dropped;
use crate::scan::has_prefix;
use crate::scan::is_digit;
use crate::scan::is_white;
use crate::scan::law_trimmed_text_stays;
use crate::scan::law_trimming_takes_blanks_alone;
use crate::scan::law_trimming_undoes_blanks;
use crate::scan::law_written_numbers_read_back;
use crate::scan::lines;
use crate::scan::lines_of;
use crate::scan::only_digits;
use crate::scan::strip_leading;
use crate::scan::strip_trailing;
use crate::scan::stripped_leading;
use crate::scan::stripped_trailing;
use crate::scan::trim;
use crate::scan::trimmed;
use crate::scan::truncate;
use crate::scan::truncated;
use crate::scan::white;
use crate::text::cat2;
use crate::text::cat3;
use crate::text::cat4;
use crate::text::cat5;
use crate::text::chars_of;
use crate::text::dec;
use crate::text::dec_i64;
use crate::text::dec_int;
use crate::text::dec_usize;
use crate::text::opt_text;
use crate::text::string_of;
use crate::text::text_eq;
use crate::text::text_or;
use crate::text::texts;
use crate::text::unwrap_text;

verus! {

// ---------------------------------------------------------------------------
// Parsing
// ---------------------------------------------------------------------------

/// Parsed slash command.
#[derive(Debug, Clone, PartialEq, Eq)]
pub enum SlashCommand {
    /// `/auto [args]` -- trigger automatic processing.
    Auto { args: String },
    /// `/spec [args]` -- generate or display a spec.
    Spec { args: String },
    /// `/claw [args]` -- claw workspace management within session.
    Claw { args: String },
    /// `/help` -- show available commands.
    Help,
    /// `/quit` -- exit the session.
    Quit,
    /// Unknown slash command.
    Unknown { name: String, args: String },
}

/// A slash command, as plain values.
pub ghost enum SlashView {
    Auto { args: Seq<char> },
    Spec { args: Seq<char> },
    Claw { args: Seq<char> },
    Help,
    Quit,
    Unknown { name: Seq<char>, args: Seq<char> },
}

impl View for SlashCommand {
    type V = SlashView;

    open spec fn view(&self) -> SlashView {
        match *self {
            SlashCommand::Auto { args } => SlashView::Auto { args: args@ },
            SlashCommand::Spec { args } => SlashView::Spec { args: args@ },
            SlashCommand::Claw { args } => SlashView::Claw { args: args@ },
            SlashCommand::Help => SlashView::Help,
            SlashCommand::Quit => SlashView::Quit,
            SlashCommand::Unknown { name, args } => SlashView::Unknown { name: name@, args: args@ },
        }
    }
}

/// The length of the first word of a text that does not start with white space.
pub open spec fn word_len(s: Seq<char>) -> nat
    decreases s.len(),
{
    if s.len() == 0 || is_white(s[0]) {
        0
    } else {
        1 + word_len(s.skip(1))
    }
}

/// The command of the name `name`.
pub open spec fn named_command(name: Seq<char>, args: Seq<char>) -> SlashView {
    if name == "/auto"@ {
        SlashView::Auto { args }
    } else if name == "/spec"@ {
        SlashView::Spec { args }
    } else if name == "/claw"@ {
        SlashView::Claw { args }
    } else if name == "/help"@ {
        SlashView::Help
    } else if name == "/quit"@ || name == "/exit"@ {
        SlashView::Quit
    } else {
        SlashView::Unknown { name, args }
    }
}

/// The command in a line: its first word is the name, the rest are the arguments.
pub open spec fn command_in(line: Seq<char>) -> Option<SlashView> {
    let t = trim(line);
    let n = word_len(t) as int;
    if t.len() == 0 || t[0] != '/' {
        None
    } else {
        Some(
            named_command(
                t.take(n),
                if n < t.len() {
                    trim(t.skip(n + 1))
                } else {
                    trim(seq![])
                },
            ),
        )
    }
}

proof fn lemma_word_len(s: Seq<char>, n: int)
    requires
        0 <= n <= s.len(),
        forall|i: int| 0 <= i < n ==> !is_white(#[trigger] s[i]),
        n == s.len() || is_white(s[n]),
    ensures
        word_len(s) == n,
    decreases n,
{
    if n > 0 {
        let rest = s.skip(1);
        assert forall|i: int| 0 <= i < n - 1 implies !is_white(#[trigger] rest[i]) by {
            assert(rest[i] == s[i + 1]);
        }
        lemma_word_len(rest, n - 1);
    }
}

impl SlashCommand {
    /// Parses a line into a `SlashCommand`, or `None` if it does not start
    /// with `/`.
    pub fn parse(line: &str) -> (r: Option<SlashCommand>)
        ensures
            match r {
                Some(c) => command_in(line@) == Some(c@),
                None => command_in(line@) is None,
            },
    {
        let t = trimmed(line);
        let cs = chars_of(t.as_str());
        if cs.len() == 0 || cs[0] != '/' {
            return None;
        }
        let mut n: usize = 0;
        while n < cs.len() && !white(cs[n])
            invariant
                n <= cs.len(),
                forall|i: int| 0 <= i < n ==> !is_white(#[trigger] cs@[i]),
            decreases cs.len() - n,
        {
            n = n + 1;
        }
        proof {
            lemma_word_len(cs@, n as int);
            assert(cs@.subrange(0, n as int) =~= cs@.take(n as int));
            if n < cs.len() {
                assert(cs@.subrange(n + 1, cs@.len() as int) =~= cs@.skip(n + 1));
            }
        }
        let name = string_of(&cs, 0, n);
        let rest = if n < cs.len() {
            string_of(&cs, n + 1, cs.len())
        } else {
            String::new()
        };
        proof {
            if n == cs.len() {
                assert(rest@ =~= seq![]);
            }
        }
        let args = trimmed(rest.as_str());
        if text_eq(name.as_str(), "/auto") {
            Some(SlashCommand::Auto { args })
        } else if text_eq(name.as_str(), "/spec") {
            Some(SlashCommand::Spec { args })
        } else if text_eq(name.as_str(), "/claw") {
            Some(SlashCommand::Claw { args })
        } else if text_eq(name.as_str(), "/help") {
            Some(SlashCommand::Help)
        } else if text_eq(name.as_str(), "/quit") || text_eq(name.as_str(), "/exit") {
            Some(SlashCommand::Quit)
        } else {
            Some(SlashCommand::Unknown { name, args })
        }
    }
}

/// A line is a command exactly where it starts with a slash, white space aside.
pub proof fn law_commands_start_with_a_slash(line: Seq<char>)
    ensures
        command_in(line) is Some <==> trim(line).len() > 0 && trim(line)[0] == '/',
{
}

// ---------------------------------------------------------------------------
// Members of a JSON object
// ---------------------------------------------------------------------------

/// The value of a member of a JSON object, as far as it is read here: a number
/// is held as an integer where it is one, and nothing is held of what a list or
/// an object contains.
#[derive(Debug, Clone, PartialEq, Eq)]
pub enum JsonValue {
    Null,
    Bool(bool),
    Number(Option<i64>),
    Text(String),
    List,
    Object,
}

/// The value of a member of a JSON object.
pub ghost enum JsonView {
    Null,
    Bool(bool),
    Number(Option<i64>),
    Text(Seq<char>),
    List,
    Object,
}

impl View for JsonValue {
    type V = JsonView;

    open spec fn view(&self) -> JsonView {
        match *self {
            JsonValue::Null => JsonView::Null,
            JsonValue::Bool(b) => JsonView::Bool(b),
            JsonValue::Number(n) => JsonView::Number(n),
            JsonValue::Text(s) => JsonView::Text(s@),
            JsonValue::List => JsonView::List,
            JsonValue::Object => JsonView::Object,
        }
    }
}

/// A member of a JSON object.
#[derive(Debug, Clone, PartialEq, Eq)]
pub struct Member {
    pub key: String,
    pub value: JsonValue,
}

/// The members of a JSON object.
pub open spec fn member_views(v: Seq<Member>) -> Seq<(Seq<char>, JsonView)> {
    Seq::new(v.len(), |i: int| (v[i].key@, v[i].value@))
}

/// The members of the object that a JSON text writes, `None` where it writes
/// something else, or the message of the error.
pub uninterp spec fn json_members(text: Seq<char>) -> Result<
    Option<Seq<(Seq<char>, JsonView)>>,
    Seq<char>,
>;

/// What was read of a JSON text, as plain values.
pub open spec fn reading(r: Result<Option<Vec<Member>>, String>) -> Result<
    Option<Seq<(Seq<char>, JsonView)>>,
    Seq<char>,
> {
    match r {
        Ok(Some(list)) => Ok(Some(member_views(list@))),
        Ok(None) => Ok(None),
        Err(e) => Err(e@),
    }
}

/// `serde_json::from_str` at the type `Value`: the members of the object that
/// the text writes, or `None` for a value of another kind. An error is given by
/// its message. The result depends on the text alone.
#[verifier::external_body]
fn parse_members(text: &str) -> (r: Result<Option<Vec<Member>>, String>)
    ensures
        reading(r) == json_members(text@),
{
    let to_value = |v: serde_json::Value| match v {
        serde_json::Value::Null => JsonValue::Null,
        serde_json::Value::Bool(b) => JsonValue::Bool(b),
        serde_json::Value::Number(n) => JsonValue::Number(n.as_i64()),
        serde_json::Value::String(s) => JsonValue::Text(s),
        serde_json::Value::Array(_) => JsonValue::List,
        serde_json::Value::Object(_) => JsonValue::Object,
    };
    let to_member = |(key, v)| Member { key, value: to_value(v) };
    match serde_json::from_str::<serde_json::Value>(text).map_err(|e| e.to_string())? {
        serde_json::Value::Object(map) => Ok(Some(map.into_iter().map(to_member).collect())),
        _ => Ok(None),
    }
}

/// The value of the member `key`, `Null` where there is none.
pub open spec fn member(v: Seq<(Seq<char>, JsonView)>, key: Seq<char>) -> JsonView
    decreases v.len(),
{
    if v.len() == 0 {
        JsonView::Null
    } else if v[0].0 == key {
        v[0].1
    } else {
        member(v.skip(1), key)
    }
}

/// The string under `key`, if there is one.
pub open spec fn text_under(v: Seq<(Seq<char>, JsonView)>, key: Seq<char>) -> Option<Seq<char>> {
    match member(v, key) {
        JsonView::Text(s) => Some(s),
        _ => None,
    }
}

/// The integer under `key`, if there is one.
pub open spec fn int_under(v: Seq<(Seq<char>, JsonView)>, key: Seq<char>) -> Option<i64> {
    match member(v, key) {
        JsonView::Number(n) => n,
        _ => None,
    }
}

/// The string under `key`, or a default.
pub open spec fn text_under_or(
    v: Seq<(Seq<char>, JsonView)>,
    key: Seq<char>,
    default: Seq<char>,
) -> Seq<char> {
    match text_under(v, key) {
        Some(s) => s,
        None => default,
    }
}

fn find_member<'a>(v: &'a Vec<Member>, key: &str) -> (r: Option<&'a JsonValue>)
    ensures
        match r {
            Some(x) => x@ == member(member_views(v@), key@),
            None => member(member_views(v@), key@) == JsonView::Null,
        },
{
    let ghost all = member_views(v@);
    let mut i: usize = 0;
    proof {
        assert(all.skip(0) =~= all);
    }
    while i < v.len()
        invariant
            i <= v.len(),
            all == member_views(v@),
            member(all, key@) == member(all.skip(i as int), key@),
        decreases v.len() - i,
    {
        proof {
            assert(all.skip(i as int).skip(1) =~= all.skip(i + 1));
        }
        if text_eq(v[i].key.as_str(), key) {
            return Some(&v[i].value);
        }
        i = i + 1;
    }
    None
}

fn find_text(v: &Vec<Member>, key: &str) -> (r: Option<String>)
    ensures
        opt_text(r) == text_under(member_views(v@), key@),
{
    match find_member(v, key) {
        Some(x) => match x {
            JsonValue::Text(s) => Some(s.clone()),
            _ => None,
        },
        None => None,
    }
}

fn find_int(v: &Vec<Member>, key: &str) -> (r: Option<i64>)
    ensures
        r == int_under(member_views(v@), key@),
{
    match find_member(v, key) {
        Some(x) => match x {
            JsonValue::Number(n) => *n,
            _ => None,
        },
        None => None,
    }
}

fn find_text_or(v: &Vec<Member>, key: &str, default: &str) -> (r: String)
    ensures
        r@ == text_under_or(member_views(v@), key@, default@),
{
    let found = find_text(v, key);
    unwrap_text(&found, default)
}

// ---------------------------------------------------------------------------
// Specs
// ---------------------------------------------------------------------------

/// The text is made of digits and number signs alone.
pub open spec fn looks_like_number(s: Seq<char>) -> bool {
    forall|i: int| 0 <= i < s.len() ==> is_digit(#[trigger] s[i]) || s[i] == '#'
}

/// The spec that an argument names.
pub open spec fn spec_id_of(args: Seq<char>) -> Seq<char> {
    let t = trim(args);
    let n = strip_leading(t, '#');
    if !looks_like_number(t) {
        t
    } else if n.len() > 0 && crate::scan::all_digits(n) {
        "spec-issue-"@ + n
    } else {
        n
    }
}

/// Resolves a user-provided argument into a spec ID.
///
/// Accepts a raw spec ID (e.g. `spec-1234567890`), or an issue number with
/// optional `#` prefix (e.g. `42` or `#42`).
///
/// Issue numbers are converted to the `spec-issue-{N}` naming convention used
/// when specs are linked to GitHub issues. If the argument already looks like
/// a spec ID (contains a non-numeric character other than `#`), it is returned
/// as-is.
pub fn resolve_spec_id(args: &str) -> (r: String)
    ensures
        r@ == spec_id_of(args@),
{
    let t = trimmed(args);
    let cs = chars_of(t.as_str());
    let mut i: usize = 0;
    while i < cs.len()
        invariant
            i <= cs.len(),
            cs@ == t@,
            t@ == trim(args@),
            forall|k: int| 0 <= k < i ==> is_digit(#[trigger] cs@[k]) || cs@[k] == '#',
        decreases cs.len() - i,
    {
        let c = cs[i];
        if !('0' <= c && c <= '9') && c != '#' {
            proof {
                assert(!is_digit(t@[i as int]));
            }
            return t;
        }
        i = i + 1;
    }
    let n = stripped_leading(t.as_str(), '#');
    let ns = chars_of(n.as_str());
    if ns.len() > 0 && only_digits(n.as_str()) {
        cat2("spec-issue-", n.as_str())
    } else {
        n
    }
}

/// What is said where a command that shows a spec fails.
pub open spec fn show_fault(output: CommandOutput) -> Seq<char> {
    if trim(output.stderr@).len() == 0 {
        "belt spec show exited with "@ + output.status@
    } else {
        trim(output.stderr@)
    }
}

/// The members that came of reading a JSON text: none of a text that writes no
/// object.
pub open spec fn members_read(
    read: Result<Option<Seq<(Seq<char>, JsonView)>>, Seq<char>>,
) -> Result<Seq<(Seq<char>, JsonView)>, Seq<char>> {
    match read {
        Ok(Some(list)) => Ok(list),
        Ok(None) => Ok(seq![]),
        Err(e) => Err("failed to parse spec JSON: "@ + e),
    }
}

/// The members of a spec, as plain values.
pub open spec fn members_view(r: Result<Vec<Member>, String>) -> Result<
    Seq<(Seq<char>, JsonView)>,
    Seq<char>,
> {
    match r {
        Ok(list) => Ok(member_views(list@)),
        Err(e) => Err(e@),
    }
}

/// What follows from the JSON text of a spec, given what was read of it.
pub fn judge_spec_json(read: Result<Option<Vec<Member>>, String>) -> (r: Result<Vec<Member>, String>)
    ensures
        members_view(r) == members_read(reading(read)),
{
    match read {
        Ok(Some(list)) => Ok(list),
        Ok(None) => {
            let none: Vec<Member> = Vec::new();
            proof {
                assert(member_views(none@) =~= seq![]);
            }
            Ok(none)
        },
        Err(e) => Err(cat2("failed to parse spec JSON: ", e.as_str())),
    }
}

/// The arguments of the command that shows a spec as JSON.
pub fn show_spec_args(spec_id: &str) -> (r: Vec<String>)
    ensures
        texts(r@) == seq!["spec"@, "show"@, spec_id@, "--json"@],
{
    let mut args: Vec<String> = Vec::new();
    args.push("spec".to_string());
    args.push("show".to_string());
    args.push(spec_id.to_owned());
    args.push("--json".to_string());
    proof {
        assert(texts(args@) =~= seq!["spec"@, "show"@, spec_id@, "--json"@]);
    }
    args
}

/// Reads the JSON result of `belt spec show <id> --json`. `run` is the error of
/// a command that could not be started, or what the command gave back.
pub fn fetch_spec_json(run: &Result<CommandOutput, String>) -> (r: Result<Vec<Member>, String>)
    ensures
        members_view(r) == (match *run {
            Err(e) => Err("failed to invoke belt spec show: "@ + e@),
            Ok(output) => if output.success {
                members_read(json_members(trim(output.stdout@)))
            } else {
                Err(show_fault(output))
            },
        }),
{
    match run {
        Err(e) => Err(cat2("failed to invoke belt spec show: ", e.as_str())),
        Ok(output) => {
            if !output.success {
                let msg = trimmed(output.stderr.as_str());
                let cs = chars_of(msg.as_str());
                return Err(
                    if cs.len() == 0 {
                        cat2("belt spec show exited with ", output.status.as_str())
                    } else {
                        msg
                    },
                );
            }
            let text = trimmed(output.stdout.as_str());
            judge_spec_json(parse_members(text.as_str()))
        },
    }
}

/// The content of a spec, empty where it has none.
pub open spec fn content_of(v: Seq<(Seq<char>, JsonView)>) -> Seq<char> {
    text_under_or(v, "content"@, ""@)
}

/// The content of a spec, from which its acceptance criteria are taken.
pub fn spec_content(members: &Vec<Member>) -> (r: String)
    ensures
        r@ == content_of(member_views(members@)),
{
    find_text_or(members, "content", "")
}

/// A blank line.
pub open spec fn is_blank(s: Seq<char>) -> bool {
    trim(s).len() == 0
}

/// The number of blank lines at the beginning.
pub open spec fn blank_lines(ls: Seq<Seq<char>>) -> nat
    decreases ls.len(),
{
    if ls.len() == 0 || !is_blank(ls[0]) {
        0
    } else {
        1 + blank_lines(ls.skip(1))
    }
}

/// The preview of a section, given the lines after its heading: the first line
/// that is not blank, unless that is a heading.
pub open spec fn preview_of(ls: Seq<Seq<char>>) -> Seq<char> {
    let k = blank_lines(ls) as int;
    if k >= ls.len() || trim(ls[k])[0] == '#' {
        seq![]
    } else {
        truncated(trim(ls[k]), 60)
    }
}

/// The lines after the preview of a section; a heading that stands in its place
/// is still among them.
pub open spec fn after_preview(ls: Seq<Seq<char>>) -> Seq<Seq<char>> {
    let k = blank_lines(ls) as int;
    if k >= ls.len() {
        seq![]
    } else if trim(ls[k])[0] == '#' {
        ls.skip(k)
    } else {
        ls.skip(k + 1)
    }
}

/// The sections of some lines: their headings and previews.
pub open spec fn sections_in(ls: Seq<Seq<char>>) -> Seq<(Seq<char>, Seq<char>)>
    decreases ls.len(),
{
    if ls.len() == 0 {
        seq![]
    } else if has_prefix(trim(ls[0]), "## "@) {
        seq![(trim(trim(ls[0]).skip(3)), preview_of(ls.skip(1)))] + sections_in(
            after_preview(ls.skip(1)),
        )
    } else {
        sections_in(ls.skip(1))
    }
}

/// A section: its heading and a preview of its content.
#[derive(Debug, Clone, PartialEq, Eq)]
pub struct Section {
    pub heading: String,
    pub preview: String,
}

/// The contents of a list of sections.
pub open spec fn section_views(v: Seq<Section>) -> Seq<(Seq<char>, Seq<char>)> {
    Seq::new(v.len(), |i: int| (v[i].heading@, v[i].preview@))
}

proof fn lemma_blank_lines(ls: Seq<Seq<char>>, n: int)
    requires
        0 <= n <= ls.len(),
        forall|i: int| 0 <= i < n ==> is_blank(#[trigger] ls[i]),
        n == ls.len() || !is_blank(ls[n]),
    ensures
        blank_lines(ls) == n,
    decreases n,
{
    if n > 0 {
        let rest = ls.skip(1);
        assert forall|i: int| 0 <= i < n - 1 implies is_blank(#[trigger] rest[i]) by {
            assert(rest[i] == ls[i + 1]);
        }
        lemma_blank_lines(rest, n - 1);
    }
}

fn find_text_line(ls: &Vec<String>, at: usize) -> (r: usize)
    requires
        at <= ls.len(),
    ensures
        at <= r <= ls.len(),
        r - at == blank_lines(texts(ls@).skip(at as int)),
        r < ls.len() ==> trim(ls@[r as int]@).len() > 0,
{
    let ghost rest = texts(ls@).skip(at as int);
    let mut i: usize = at;
    while i < ls.len()
        invariant
            at <= i <= ls.len(),
            rest == texts(ls@).skip(at as int),
            forall|k: int| 0 <= k < i - at ==> is_blank(#[trigger] rest[k]),
        decreases ls.len() - i,
    {
        proof {
            assert(rest[i - at] == ls@[i as int]@);
        }
        let t = trimmed(ls[i].as_str());
        let cs = chars_of(t.as_str());
        if cs.len() > 0 {
            proof {
                lemma_blank_lines(rest, i - at);
            }
            return i;
        }
        i = i + 1;
    }
    proof {
        lemma_blank_lines(rest, i - at);
    }
    i
}

/// Extracts level-2 markdown section headings and a short preview of their
/// content (first non-empty line after the heading, truncated to 60 chars).
///
/// A section whose heading is followed by another heading has an empty preview.
pub fn extract_sections(content: &str) -> (r: Vec<Section>)
    ensures
        section_views(r@) == sections_in(lines(content@)),
{
    let ls = lines_of(content);
    let ghost all = lines(content@);
    let mut out: Vec<Section> = Vec::new();
    let mut i: usize = 0;
    proof {
        assert(all.skip(0) =~= all);
        assert(section_views(out@) + sections_in(all) =~= sections_in(all));
    }
    while i < ls.len()
        invariant
            i <= ls.len(),
            all == lines(content@),
            texts(ls@) == all,
            section_views(out@) + sections_in(all.skip(i as int)) == sections_in(all),
        decreases ls.len() - i,
    {
        let ghost before = section_views(out@);
        let ghost rest = all.skip(i as int);
        let t = trimmed(ls[i].as_str());
        proof {
            assert(rest[0] == ls@[i as int]@);
            assert(rest.skip(1) =~= all.skip(i + 1));
            reveal_strlit("## ");
        }
        if begins(t.as_str(), "## ") {
            let tail = dropped(t.as_str(), 3);
            let heading = trimmed(tail.as_str());
            let k: usize = find_text_line(&ls, i + 1);
            let mut preview = String::new();
            let mut next: usize = k;
            let ghost after = all.skip(i + 1);
            proof {
                assert(k - i - 1 == blank_lines(after));
                assert(preview@ =~= seq![]);
            }
            if k < ls.len() {
                proof {
                    assert(after[k - i - 1] == ls@[k as int]@);
                    assert(after.skip(k - i - 1) =~= all.skip(k as int));
                    assert(after.skip(k - i) =~= all.skip(k + 1));
                }
                let line = trimmed(ls[k].as_str());
                let cs = chars_of(line.as_str());
                if cs[0] != '#' {
                    preview = truncate(line.as_str(), 60);
                    next = k + 1;
                }
            } else {
                proof {
                    assert(all.skip(k as int) =~= seq![]);
                }
            }
            let section = Section { heading, preview };
            let ghost old_out = out@;
            out.push(section);
            proof {
                assert(after_preview(after) =~= all.skip(next as int));
                let pair = (section.heading@, section.preview@);
                assert(pair == (trim(trim(rest[0]).skip(3)), preview_of(after)));
                assert(section_views(out@) =~= before.push(pair));
                assert(before + (seq![pair] + sections_in(all.skip(next as int))) =~= section_views(
                    out@,
                ) + sections_in(all.skip(next as int)));
            }
            i = next;
        } else {
            i = i + 1;
        }
    }
    proof {
        assert(all.skip(i as int) =~= seq![]);
        assert(section_views(out@) + sections_in(all.skip(i as int)) =~= section_views(out@));
    }
    out
}

/// The level-2 headings of some lines, in their order.
pub open spec fn headings_in(ls: Seq<Seq<char>>) -> Seq<Seq<char>>
    decreases ls.len(),
{
    if ls.len() == 0 {
        seq![]
    } else if has_prefix(trim(ls[0]), "## "@) {
        seq![trim(trim(ls[0]).skip(3))] + headings_in(ls.skip(1))
    } else {
        headings_in(ls.skip(1))
    }
}

/// The headings of a list of sections.
pub open spec fn section_headings(s: Seq<(Seq<char>, Seq<char>)>) -> Seq<Seq<char>> {
    Seq::new(s.len(), |i: int| s[i].0)
}

/// Each level-2 heading begins a section, and there are no other sections.
pub proof fn law_every_heading_has_a_section(ls: Seq<Seq<char>>)
    ensures
        section_headings(sections_in(ls)) == headings_in(ls),
    decreases ls.len(),
{
    if ls.len() == 0 {
        assert(section_headings(sections_in(ls)) =~= headings_in(ls));
    } else if has_prefix(trim(ls[0]), "## "@) {
        let rest = ls.skip(1);
        let after = after_preview(rest);
        law_every_heading_has_a_section(after);
        lemma_headings_after_preview(rest);
        let first = (trim(trim(ls[0]).skip(3)), preview_of(rest));
        assert(section_headings(seq![first] + sections_in(after)) =~= seq![first.0]
            + section_headings(sections_in(after)));
    } else {
        law_every_heading_has_a_section(ls.skip(1));
    }
}

proof fn lemma_headings_after_preview(ls: Seq<Seq<char>>)
    ensures
        headings_in(after_preview(ls)) == headings_in(ls),
    decreases ls.len(),
{
    reveal_strlit("## ");
    if ls.len() > 0 {
        let rest = ls.skip(1);
        if is_blank(ls[0]) {
            lemma_headings_after_preview(rest);
            let k = blank_lines(rest) as int;
            assert(blank_lines(ls) == k + 1);
            if k < rest.len() {
                assert(ls[k + 1] == rest[k]);
                assert(rest.skip(k) =~= ls.skip(k + 1));
                assert(rest.skip(k + 1) =~= ls.skip(k + 2));
            }
        } else {
            assert(blank_lines(ls) == 0);
            assert(ls.skip(0) =~= ls);
            if has_prefix(trim(ls[0]), "## "@) {
                assert("## "@[0] == '#');
                assert(trim(ls[0])[0] == '#');
            }
        }
    }
}

/// Without headings there are no sections.
pub proof fn law_no_heading_no_section(ls: Seq<Seq<char>>)
    requires
        forall|i: int| 0 <= i < ls.len() ==> !has_prefix(trim(#[trigger] ls[i]), "## "@),
    ensures
        sections_in(ls) == Seq::<(Seq<char>, Seq<char>)>::empty(),
    decreases ls.len(),
{
    if ls.len() > 0 {
        let rest = ls.skip(1);
        assert(!has_prefix(trim(ls[0]), "## "@));
        assert forall|i: int| 0 <= i < rest.len() implies !has_prefix(
            trim(#[trigger] rest[i]),
            "## "@,
        ) by {
            assert(rest[i] == ls[i + 1]);
        }
        law_no_heading_no_section(rest);
    }
}

/// A labelled line for a value that is there.
pub open spec fn labelled(label: Seq<char>, text: Option<Seq<char>>) -> Seq<char> {
    match text {
        Some(s) => label + s + "\n"@,
        None => seq![],
    }
}

/// The head of a spec: its names, its status and what else is known of it.
pub open spec fn spec_head(v: Seq<(Seq<char>, JsonView)>) -> Seq<char> {
    "[spec] "@ + text_under_or(v, "name"@, "?"@) + " ("@ + text_under_or(v, "id"@, "?"@)
        + ")\nStatus: "@ + text_under_or(v, "status"@, "?"@) + "  |  Workspace: "@ + text_under_or(
        v,
        "workspace_id"@,
        "?"@,
    ) + "\n"@ + labelled(
        "Priority: "@,
        match int_under(v, "priority"@) {
            Some(n) => Some(dec_int(n as int)),
            None => None,
        },
    ) + labelled("Labels: "@, text_under(v, "labels"@)) + labelled(
        "Depends On: "@,
        text_under(v, "depends_on"@),
    ) + labelled("Entry Point: "@, text_under(v, "entry_point"@)) + labelled(
        "Decomposed Issues: "@,
        text_under(v, "decomposed_issues"@),
    )
}

/// One section of the list.
pub open spec fn section_line(s: (Seq<char>, Seq<char>)) -> Seq<char> {
    "  - "@ + s.0 + (if s.1.len() == 0 {
        seq![]
    } else {
        "  ("@ + s.1 + ")"@
    }) + "\n"@
}

/// The first `n` sections of the list.
pub open spec fn section_lines(s: Seq<(Seq<char>, Seq<char>)>, n: nat) -> Seq<char>
    decreases n,
{
    if n == 0 {
        seq![]
    } else {
        section_lines(s, (n - 1) as nat) + section_line(s[n - 1])
    }
}

/// The list of the sections, where there are any.
pub open spec fn section_list(s: Seq<(Seq<char>, Seq<char>)>) -> Seq<char> {
    if s.len() == 0 {
        seq![]
    } else {
        "\nSections:\n"@ + section_lines(s, s.len())
    }
}

/// The first `n` criteria, numbered.
pub open spec fn criterion_lines(c: Seq<Seq<char>>, n: nat) -> Seq<char>
    decreases n,
{
    if n == 0 {
        seq![]
    } else {
        criterion_lines(c, (n - 1) as nat) + ("  "@ + dec(n) + ". "@ + c[n - 1] + "\n"@)
    }
}

/// The list of the criteria, where there are any.
pub open spec fn criterion_list(c: Seq<Seq<char>>) -> Seq<char> {
    if c.len() == 0 {
        seq![]
    } else {
        "\nAcceptance Criteria:\n"@ + criterion_lines(c, c.len())
    }
}

/// The summary of a spec.
pub open spec fn spec_output(v: Seq<(Seq<char>, JsonView)>, criteria: Seq<Seq<char>>) -> Seq<char> {
    strip_trailing(
        spec_head(v) + section_list(sections_in(lines(content_of(v)))) + criterion_list(criteria),
        '\n',
    )
}

fn write_labelled(label: &str, text: &Option<String>) -> (r: String)
    ensures
        r@ == labelled(label@, opt_text(*text)),
{
    match text {
        Some(s) => cat3(label, s.as_str(), "\n"),
        None => String::new(),
    }
}

fn write_head(v: &Vec<Member>) -> (r: String)
    ensures
        r@ == spec_head(member_views(v@)),
{
    let mut out = "[spec] ".to_string();
    let name = find_text_or(v, "name", "?");
    out.append(name.as_str());
    out.append(" (");
    let id = find_text_or(v, "id", "?");
    out.append(id.as_str());
    out.append(")\nStatus: ");
    let status = find_text_or(v, "status", "?");
    out.append(status.as_str());
    out.append("  |  Workspace: ");
    let workspace = find_text_or(v, "workspace_id", "?");
    out.append(workspace.as_str());
    out.append("\n");
    let priority = match find_int(v, "priority") {
        Some(n) => Some(dec_i64(n)),
        None => None,
    };
    let priority_line = write_labelled("Priority: ", &priority);
    out.append(priority_line.as_str());
    let labels = write_labelled("Labels: ", &find_text(v, "labels"));
    out.append(labels.as_str());
    let deps = write_labelled("Depends On: ", &find_text(v, "depends_on"));
    out.append(deps.as_str());
    let entry = write_labelled("Entry Point: ", &find_text(v, "entry_point"));
    out.append(entry.as_str());
    let issues = write_labelled("Decomposed Issues: ", &find_text(v, "decomposed_issues"));
    out.append(issues.as_str());
    out
}

fn write_section(s: &Section) -> (r: String)
    ensures
        r@ == section_line((s.heading@, s.preview@)),
{
    let mut out = cat2("  - ", s.heading.as_str());
    let cs = chars_of(s.preview.as_str());
    let note = if cs.len() == 0 {
        String::new()
    } else {
        cat3("  (", s.preview.as_str(), ")")
    };
    out.append(note.as_str());
    out.append("\n");
    out
}

fn write_sections(s: &Vec<Section>) -> (r: String)
    ensures
        r@ == section_list(section_views(s@)),
{
    if s.len() == 0 {
        return String::new();
    }
    let mut rows = String::new();
    let mut i: usize = 0;
    while i < s.len()
        invariant
            i <= s.len(),
            rows@ == section_lines(section_views(s@), i as nat),
        decreases s.len() - i,
    {
        let row = write_section(&s[i]);
        rows.append(row.as_str());
        i = i + 1;
    }
    cat2("\nSections:\n", rows.as_str())
}

fn write_criteria(c: &Vec<String>) -> (r: String)
    ensures
        r@ == criterion_list(texts(c@)),
{
    if c.len() == 0 {
        return String::new();
    }
    let mut rows = String::new();
    let mut i: usize = 0;
    while i < c.len()
        invariant
            i <= c.len(),
            rows@ == criterion_lines(texts(c@), i as nat),
        decreases c.len() - i,
    {
        let number = dec_usize(i + 1);
        let row = cat5("  ", number.as_str(), ". ", c[i].as_str(), "\n");
        rows.append(row.as_str());
        i = i + 1;
    }
    cat2("\nAcceptance Criteria:\n", rows.as_str())
}

/// Formats a spec into a human-readable summary showing metadata, sections,
/// and acceptance criteria.
pub fn format_spec_output(spec: &Vec<Member>, criteria: &Vec<String>) -> (r: String)
    ensures
        r@ == spec_output(member_views(spec@), texts(criteria@)),
{
    let mut out = write_head(spec);
    let content = spec_content(spec);
    let sections = extract_sections(content.as_str());
    let section_text = write_sections(&sections);
    out.append(section_text.as_str());
    let criterion_text = write_criteria(criteria);
    out.append(criterion_text.as_str());
    stripped_trailing(out.as_str(), '\n')
}

// ---------------------------------------------------------------------------
// Dispatch
// ---------------------------------------------------------------------------

/// A spec that was fetched, and its acceptance criteria.
#[derive(Debug, Clone)]
pub struct FetchedSpec {
    pub members: Vec<Member>,
    pub criteria: Vec<String>,
}

/// What came of fetching a spec: its members and its acceptance criteria, or the
/// message of an error.
pub ghost enum FetchView {
    Spec { members: Seq<(Seq<char>, JsonView)>, criteria: Seq<Seq<char>> },
    Fault(Seq<char>),
}

/// What came of fetching a spec, as plain values.
pub open spec fn fetch_view(fetched: Result<FetchedSpec, String>) -> FetchView {
    match fetched {
        Ok(spec) => FetchView::Spec {
            members: member_views(spec.members@),
            criteria: texts(spec.criteria@),
        },
        Err(e) => FetchView::Fault(e@),
    }
}

/// Dispatches parsed slash commands and returns a response string.
#[derive(Debug, Clone)]
pub struct SlashDispatcher {
    /// Current workspace context, if any.
    pub workspace: Option<String>,
}

/// How a session names its workspace.
pub open spec fn workspace_label(workspace: Option<String>) -> Seq<char> {
    text_or(workspace, "(no workspace selected)"@)
}

/// The answer to `/auto`.
pub open spec fn auto_answer(workspace: Option<String>, args: Seq<char>) -> Seq<char> {
    if args.len() == 0 {
        "[auto] Triggering automatic processing for workspace: "@ + workspace_label(workspace)
    } else {
        "[auto] Processing: "@ + args + " (workspace: "@ + workspace_label(workspace) + ")"@
    }
}

/// The answer to `/spec`, given what came of fetching the spec.
pub open spec fn spec_answer(args: Seq<char>, fetched: FetchView) -> Seq<char> {
    if args.len() == 0 {
        "[spec] Usage: /spec <spec-id|issue-number>"@
    } else {
        match fetched {
            FetchView::Spec { members, criteria } => spec_output(members, criteria),
            FetchView::Fault(e) => "[spec] Error fetching "@ + spec_id_of(args) + ": "@ + e,
        }
    }
}

/// The answer to `/claw`.
pub open spec fn claw_answer(workspace: Option<String>, args: Seq<char>) -> Seq<char> {
    if args == ""@ || args == "status"@ {
        "[claw] Claw session active. Workspace: "@ + workspace_label(workspace)
    } else if args == "init"@ {
        "[claw] Re-initializing claw workspace..."@
    } else if args == "rules"@ {
        "[claw] Listing policy rules..."@
    } else {
        "[claw] Unknown subcommand: "@ + args + ". Try: status, init, rules"@
    }
}

/// The answer to `/help`.
pub const HELP: &'static str = "Available commands:
  /auto [args]   Trigger automatic processing for current workspace
  /spec <id>     Show spec details, sections, and acceptance criteria
  /claw [sub]    Claw workspace management (status, init, rules)
  /help          Show this help message
  /quit          Exit the session";

/// The answer to a command.
pub open spec fn answer(workspace: Option<String>, cmd: SlashView, fetched: FetchView) -> Seq<char> {
    match cmd {
        SlashView::Auto { args } => auto_answer(workspace, args),
        SlashView::Spec { args } => spec_answer(args, fetched),
        SlashView::Claw { args } => claw_answer(workspace, args),
        SlashView::Help => HELP@,
        SlashView::Quit => "Goodbye."@,
        SlashView::Unknown { name, .. } => "Unknown command: "@ + name
            + ". Type /help for available commands."@,
    }
}

/// The spec that a command asks for, if it asks for one.
pub open spec fn requested_spec(cmd: SlashView) -> Option<Seq<char>> {
    match cmd {
        SlashView::Spec { args } => if args.len() == 0 {
            None
        } else {
            Some(spec_id_of(args))
        },
        _ => None,
    }
}

/// The spec that has to be fetched before a command is dispatched, if any.
pub fn spec_request(cmd: &SlashCommand) -> (r: Option<String>)
    ensures
        opt_text(r) == requested_spec(cmd@),
{
    match cmd {
        SlashCommand::Spec { args } => {
            let cs = chars_of(args.as_str());
            if cs.len() == 0 {
                None
            } else {
                Some(resolve_spec_id(args.as_str()))
            }
        },
        _ => None,
    }
}

/// Only the answer to a command that asks for a spec depends on what was
/// fetched.
pub proof fn law_fetching_matters_for_specs_alone(
    workspace: Option<String>,
    cmd: SlashView,
    a: FetchView,
    b: FetchView,
)
    requires
        requested_spec(cmd) is None,
    ensures
        answer(workspace, cmd, a) == answer(workspace, cmd, b),
{
}

impl SlashDispatcher {
    /// Creates a new dispatcher.
    pub fn new(workspace: Option<String>) -> (r: SlashDispatcher)
        ensures
            r.workspace == workspace,
    {
        SlashDispatcher { workspace }
    }

    /// Dispatches a slash command and returns the response text. `fetched` is
    /// what came of fetching the spec that the command asks for, if any.
    pub fn dispatch(&self, cmd: &SlashCommand, fetched: &Result<FetchedSpec, String>) -> (r: String)
        ensures
            r@ == answer(self.workspace, cmd@, fetch_view(*fetched)),
    {
        match cmd {
            SlashCommand::Auto { args } => self.handle_auto(args.as_str()),
            SlashCommand::Spec { args } => self.handle_spec(args.as_str(), fetched),
            SlashCommand::Claw { args } => self.handle_claw(args.as_str()),
            SlashCommand::Help => self.handle_help(),
            SlashCommand::Quit => "Goodbye.".to_string(),
            SlashCommand::Unknown { name, .. } => cat3(
                "Unknown command: ",
                name.as_str(),
                ". Type /help for available commands.",
            ),
        }
    }

    fn handle_auto(&self, args: &str) -> (r: String)
        ensures
            r@ == auto_answer(self.workspace, args@),
    {
        let label = unwrap_text(&self.workspace, "(no workspace selected)");
        let cs = chars_of(args);
        if cs.len() == 0 {
            cat2("[auto] Triggering automatic processing for workspace: ", label.as_str())
        } else {
            cat5("[auto] Processing: ", args, " (workspace: ", label.as_str(), ")")
        }
    }

    fn handle_spec(&self, args: &str, fetched: &Result<FetchedSpec, String>) -> (r: String)
        ensures
            r@ == spec_answer(args@, fetch_view(*fetched)),
    {
        let cs = chars_of(args);
        if cs.len() == 0 {
            return "[spec] Usage: /spec <spec-id|issue-number>".to_string();
        }
        match fetched {
            Ok(spec) => format_spec_output(&spec.members, &spec.criteria),
            Err(e) => {
                let id = resolve_spec_id(args);
                cat4("[spec] Error fetching ", id.as_str(), ": ", e.as_str())
            },
        }
    }

    fn handle_claw(&self, args: &str) -> (r: String)
        ensures
            r@ == claw_answer(self.workspace, args@),
    {
        if text_eq(args, "") || text_eq(args, "status") {
            let label = unwrap_text(&self.workspace, "(no workspace selected)");
            cat2("[claw] Claw session active. Workspace: ", label.as_str())
        } else if text_eq(args, "init") {
            "[claw] Re-initializing claw workspace...".to_string()
        } else if text_eq(args, "rules") {
            "[claw] Listing policy rules...".to_string()
        } else {
            cat3("[claw] Unknown subcommand: ", args, ". Try: status, init, rules")
        }
    }

    fn handle_help(&self) -> (r: String)
        ensures
            r@ == HELP@,
    {
        HELP.to_string()
    }
}

// ---------------------------------------------------------------------------
// Laws on what is typed and what is answered
// ---------------------------------------------------------------------------

proof fn lemma_typed_command(name: Seq<char>, gap: Seq<char>, args: Seq<char>)
    requires
        name.len() > 0,
        name[0] == '/',
        forall|i: int| 0 <= i < name.len() ==> !is_white(#[trigger] name[i]),
        gap.len() > 0,
        all_white(gap),
        args.len() > 0,
        !is_white(args[0]),
        !is_white(args.last()),
    ensures
        command_in(name + gap + args) == Some(named_command(name, args)),
{
    let t = name + gap + args;
    law_trimmed_text_stays(t);
    let n = name.len() as int;
    assert forall|i: int| 0 <= i < n implies !is_white(#[trigger] t[i]) by {
        assert(t[i] == name[i]);
    }
    assert(t[n] == gap[0]);
    lemma_word_len(t, n);
    assert(t.take(n) =~= name);
    let more = gap.skip(1);
    assert forall|i: int| 0 <= i < more.len() implies is_white(#[trigger] more[i]) by {
        assert(more[i] == gap[i + 1]);
    }
    law_trimming_undoes_blanks(more, args, seq![]);
    assert(t.skip(n + 1) =~= more + args + seq![]);
}

/// What follows the name of a command is its argument, whole and without the
/// blanks around it. A name that no command has is kept.
pub proof fn law_commands_keep_their_arguments(name: Seq<char>, gap: Seq<char>, args: Seq<char>)
    requires
        gap.len() > 0,
        all_white(gap),
        args.len() > 0,
        !is_white(args[0]),
        !is_white(args.last()),
        name.len() > 0,
        name[0] == '/',
        forall|i: int| 0 <= i < name.len() ==> !is_white(#[trigger] name[i]),
        ![ "/auto"@, "/spec"@, "/claw"@, "/help"@, "/quit"@, "/exit"@ ]@.contains(name),
    ensures
        command_in("/auto"@ + gap + args) == Some(SlashView::Auto { args }),
        command_in("/spec"@ + gap + args) == Some(SlashView::Spec { args }),
        command_in("/claw"@ + gap + args) == Some(SlashView::Claw { args }),
        command_in(name + gap + args) == Some(SlashView::Unknown { name, args }),
{
    reveal_strlit("/auto");
    reveal_strlit("/spec");
    reveal_strlit("/claw");
    lemma_typed_command("/auto"@, gap, args);
    lemma_typed_command("/spec"@, gap, args);
    lemma_typed_command("/claw"@, gap, args);
    lemma_typed_command(name, gap, args);
    assert("/spec"@[1] != "/auto"@[1]);
    assert("/claw"@[1] != "/auto"@[1]);
    assert("/claw"@[1] != "/spec"@[1]);
    let names = [ "/auto"@, "/spec"@, "/claw"@, "/help"@, "/quit"@, "/exit"@ ]@;
    assert(names[0] == "/auto"@);
    assert(names[1] == "/spec"@);
    assert(names[2] == "/claw"@);
    assert(names[3] == "/help"@);
    assert(names[4] == "/quit"@);
    assert(names[5] == "/exit"@);
}

/// Blanks around a line change nothing.
pub proof fn law_blanks_around_a_command_are_nothing(before: Seq<char>, line: Seq<char>, after: Seq<char>)
    requires
        all_white(before),
        all_white(after),
        line.len() > 0,
        !is_white(line[0]),
        !is_white(line.last()),
    ensures
        command_in(before + line + after) == command_in(line),
{
    law_trimming_undoes_blanks(before, line, after);
    law_trimmed_text_stays(line);
}

/// A number names the spec of that issue, with or without a hash before it. Any
/// other text is an id as it stands.
pub proof fn law_issue_numbers_name_specs(number: Seq<char>, id: Seq<char>, i: int)
    requires
        number.len() > 0,
        crate::scan::all_digits(number),
        0 <= i < id.len(),
        !is_digit(id[i]),
        id[i] != '#',
        !is_white(id[0]),
        !is_white(id.last()),
    ensures
        spec_id_of(number) == "spec-issue-"@ + number,
        spec_id_of(seq!['#'] + number) == "spec-issue-"@ + number,
        spec_id_of(id) == id,
{
    assert(is_digit(number[0]));
    assert(is_digit(number.last()));
    law_trimmed_text_stays(number);
    let marked = seq!['#'] + number;
    assert(marked.last() == number.last());
    law_trimmed_text_stays(marked);
    assert(marked.skip(1) =~= number);
    assert(strip_leading(number, '#') == number);
    assert(strip_leading(marked, '#') == strip_leading(marked.skip(1), '#'));
    assert forall|k: int| 0 <= k < marked.len() implies is_digit(#[trigger] marked[k]) || marked[k]
        == '#' by {
        if k > 0 {
            assert(marked[k] == number[k - 1]);
        }
    }
    law_trimmed_text_stays(id);
}

/// Typing `/spec` and a number asks for the spec of that issue.
pub proof fn law_typed_numbers_are_requested(gap: Seq<char>, number: Seq<char>)
    requires
        gap.len() > 0,
        all_white(gap),
        number.len() > 0,
        crate::scan::all_digits(number),
    ensures
        command_in("/spec"@ + gap + number) is Some,
        requested_spec(command_in("/spec"@ + gap + number).unwrap()) == Some(
            "spec-issue-"@ + number,
        ),
{
    reveal_strlit("/spec");
    reveal_strlit("/auto");
    assert(is_digit(number[0]));
    assert(is_digit(number.last()));
    lemma_typed_command("/spec"@, gap, number);
    assert("/spec"@[1] != "/auto"@[1]);
    let id = seq!['x'];
    assert(!is_digit(id[0]));
    law_issue_numbers_name_specs(number, id, 0);
}

/// A member is found by its key, and the first one counts.
pub proof fn law_members_are_found_by_key(v: Seq<(Seq<char>, JsonView)>, key: Seq<char>, i: int)
    requires
        0 <= i <= v.len(),
        forall|j: int| 0 <= j < i ==> (#[trigger] v[j]).0 != key,
        i < v.len() ==> v[i].0 == key,
    ensures
        member(v, key) == (if i < v.len() {
            v[i].1
        } else {
            JsonView::Null
        }),
    decreases i,
{
    if i > 0 {
        let rest = v.skip(1);
        assert(v[0].0 != key);
        assert forall|j: int| 0 <= j < i - 1 implies (#[trigger] rest[j]).0 != key by {
            assert(rest[j] == v[j + 1]);
        }
        law_members_are_found_by_key(rest, key, i - 1);
    }
}

/// A section is shown with the first text below its heading, whole up to sixty
/// characters.
pub proof fn law_previews_show_the_first_text(name: Seq<char>, ls: Seq<Seq<char>>, k: int)
    requires
        name.len() > 0,
        !is_white(name[0]),
        !is_white(name.last()),
        0 <= k < ls.len(),
        forall|i: int| 0 <= i < k ==> all_white(#[trigger] ls[i]),
        !all_white(ls[k]),
        trim(ls[k])[0] != '#',
        trim(ls[k]).len() <= 60,
    ensures
        sections_in(seq!["## "@ + name] + ls).len() > 0,
        sections_in(seq!["## "@ + name] + ls)[0] == (name, trim(ls[k])),
{
    reveal_strlit("## ");
    let h = "## "@ + name;
    law_trimmed_text_stays(h);
    law_trimmed_text_stays(name);
    assert(h.take(3) =~= "## "@);
    assert(h.skip(3) =~= name);
    let all = seq![h] + ls;
    assert(all.skip(1) =~= ls);
    assert forall|i: int| 0 <= i < k implies is_blank(#[trigger] ls[i]) by {
        let r = law_trimming_takes_blanks_alone(ls[i]);
        assert(all_white(ls[i]));
    }
    let r = law_trimming_takes_blanks_alone(ls[k]);
    lemma_blank_lines(ls, k);
}

proof fn lemma_section_lines_hold(s: Seq<(Seq<char>, Seq<char>)>, n: nat, i: int, part: Seq<char>)
    requires
        0 <= i < n <= s.len(),
        holds(section_line(s[i]), part),
    ensures
        holds(section_lines(s, n), part),
    decreases n,
{
    broadcast use group_holds;

    if i < n - 1 {
        lemma_section_lines_hold(s, (n - 1) as nat, i, part);
    }
}

proof fn lemma_criterion_lines_hold(c: Seq<Seq<char>>, n: nat, i: int)
    requires
        0 <= i < n <= c.len(),
    ensures
        holds(criterion_lines(c, n), dec((i + 1) as nat) + ". "@ + c[i]),
    decreases n,
{
    broadcast use group_holds;

    if i < n - 1 {
        lemma_criterion_lines_hold(c, (n - 1) as nat, i);
    } else {
        assert(holds("  "@ + dec(n) + ". "@ + c[i] + "\n"@, dec(n) + ". "@ + c[i]));
    }
}

/// A spec is shown with its name, its id, its status and its workspace.
pub proof fn law_specs_are_shown_by_name(v: Seq<(Seq<char>, JsonView)>, criteria: Seq<Seq<char>>)
    ensures
        text_under(v, "name"@) matches Some(s) ==> holds(
            spec_output(v, criteria),
            "[spec] "@ + s + " ("@,
        ),
        text_under(v, "id"@) matches Some(s) ==> holds(
            spec_output(v, criteria),
            " ("@ + s + ")\nStatus: "@,
        ),
        text_under(v, "status"@) matches Some(s) ==> holds(
            spec_output(v, criteria),
            ")\nStatus: "@ + s + "  |  Workspace: "@,
        ),
        text_under(v, "workspace_id"@) matches Some(s) ==> s.len() > 0 && s.last() != '\n' ==> holds(
            spec_output(v, criteria),
            "  |  Workspace: "@ + s,
        ),
{
    broadcast use group_holds;

    reveal_strlit(" (");
    reveal_strlit(")\nStatus: ");
    reveal_strlit("  |  Workspace: ");
    let head = spec_head(v);
    let all = head + section_list(sections_in(lines(content_of(v)))) + criterion_list(criteria);
    let name = "[spec] "@ + text_under_or(v, "name"@, "?"@) + " ("@;
    let id = " ("@ + text_under_or(v, "id"@, "?"@) + ")\nStatus: "@;
    let status = ")\nStatus: "@ + text_under_or(v, "status"@, "?"@) + "  |  Workspace: "@;
    let place = "  |  Workspace: "@ + text_under_or(v, "workspace_id"@, "?"@);
    assert(holds(head, name));
    assert(holds(head, id));
    assert(holds(head, status));
    assert(holds(head, place));
    assert(holds(all, name));
    assert(holds(all, id));
    assert(holds(all, status));
    assert(holds(all, place));
    lemma_holds_stripped(all, '\n', name);
    lemma_holds_stripped(all, '\n', id);
    lemma_holds_stripped(all, '\n', status);
    if place.last() != '\n' {
        lemma_holds_stripped(all, '\n', place);
    }
}

/// What else is known of a spec is shown under its label.
pub proof fn law_specs_are_shown_with_their_fields(
    v: Seq<(Seq<char>, JsonView)>,
    criteria: Seq<Seq<char>>,
    s: Seq<char>,
)
    requires
        s.len() > 0,
        s.last() != '\n',
    ensures
        int_under(v, "priority"@) matches Some(n) ==> holds(
            spec_output(v, criteria),
            "Priority: "@ + dec_int(n as int),
        ),
        text_under(v, "labels"@) == Some(s) ==> holds(
            spec_output(v, criteria),
            "Labels: "@ + s,
        ),
        text_under(v, "depends_on"@) == Some(s) ==> holds(
            spec_output(v, criteria),
            "Depends On: "@ + s,
        ),
        text_under(v, "entry_point"@) == Some(s) ==> holds(
            spec_output(v, criteria),
            "Entry Point: "@ + s,
        ),
        text_under(v, "decomposed_issues"@) == Some(s) ==> holds(
            spec_output(v, criteria),
            "Decomposed Issues: "@ + s,
        ),
{
    lemma_labelled_is_shown(v, criteria, "Labels: "@, "labels"@, s);
    lemma_labelled_is_shown(v, criteria, "Depends On: "@, "depends_on"@, s);
    lemma_labelled_is_shown(v, criteria, "Entry Point: "@, "entry_point"@, s);
    lemma_labelled_is_shown(v, criteria, "Decomposed Issues: "@, "decomposed_issues"@, s);
    match int_under(v, "priority"@) {
        Some(n) => {
            broadcast use group_holds;

            let p = dec_int(n as int);
            let size = if n < 0 {
                -n
            } else {
                n as int
            };
            law_written_numbers_read_back(size as nat, 0);
            assert(is_digit(dec(size as nat).last()));
            assert(p.last() == dec(size as nat).last());
            let part = "Priority: "@ + p;
            assert(holds(labelled("Priority: "@, Some(p)), part));
            let all = spec_head(v) + section_list(sections_in(lines(content_of(v))))
                + criterion_list(criteria);
            assert(holds(spec_head(v), part));
            assert(holds(all, part));
            lemma_holds_stripped(all, '\n', part);
        },
        None => {},
    }
}

proof fn lemma_labelled_is_shown(
    v: Seq<(Seq<char>, JsonView)>,
    criteria: Seq<Seq<char>>,
    label: Seq<char>,
    key: Seq<char>,
    s: Seq<char>,
)
    requires
        s.len() > 0,
        s.last() != '\n',
        (label == "Labels: "@ && key == "labels"@) || (label == "Depends On: "@ && key
            == "depends_on"@) || (label == "Entry Point: "@ && key == "entry_point"@) || (label
            == "Decomposed Issues: "@ && key == "decomposed_issues"@),
    ensures
        text_under(v, key) == Some(s) ==> holds(spec_output(v, criteria), label + s),
{
    broadcast use group_holds;

    if text_under(v, key) == Some(s) {
        let part = label + s;
        let all = spec_head(v) + section_list(sections_in(lines(content_of(v)))) + criterion_list(
            criteria,
        );
        assert(holds(labelled(label, Some(s)), part));
        assert(holds(spec_head(v), part));
        assert(holds(all, part));
        lemma_holds_stripped(all, '\n', part);
    }
}

/// A spec is shown with every section of its content, its preview behind it, and
/// with every criterion under its number.
pub proof fn law_specs_are_shown_with_all_their_parts(
    v: Seq<(Seq<char>, JsonView)>,
    criteria: Seq<Seq<char>>,
    i: int,
)
    ensures
        ({
            let s = sections_in(lines(content_of(v)));
            &&& 0 <= i < s.len() && s[i].0.len() > 0 && s[i].0.last() != '\n' ==> holds(
                spec_output(v, criteria),
                "  - "@ + s[i].0,
            )
            &&& 0 <= i < s.len() && s[i].1.len() > 0 ==> holds(
                spec_output(v, criteria),
                "  ("@ + s[i].1 + ")"@,
            )
        }),
        0 <= i < criteria.len() && criteria[i].len() > 0 && criteria[i].last() != '\n' ==> holds(
            spec_output(v, criteria),
            dec((i + 1) as nat) + ". "@ + criteria[i],
        ),
{
    broadcast use group_holds;

    reveal_strlit(")");
    let s = sections_in(lines(content_of(v)));
    let all = spec_head(v) + section_list(s) + criterion_list(criteria);
    if 0 <= i < s.len() {
        let heading = "  - "@ + s[i].0;
        let preview = "  ("@ + s[i].1 + ")"@;
        assert(holds(section_line(s[i]), heading));
        lemma_section_lines_hold(s, s.len(), i, heading);
        assert(holds(all, heading));
        if s[i].0.len() > 0 && s[i].0.last() != '\n' {
            lemma_holds_stripped(all, '\n', heading);
        }
        if s[i].1.len() > 0 {
            assert(holds(section_line(s[i]), preview));
            lemma_section_lines_hold(s, s.len(), i, preview);
            assert(holds(all, preview));
            lemma_holds_stripped(all, '\n', preview);
        }
    }
    if 0 <= i < criteria.len() && criteria[i].len() > 0 && criteria[i].last() != '\n' {
        let line = dec((i + 1) as nat) + ". "@ + criteria[i];
        lemma_criterion_lines_hold(criteria, criteria.len(), i);
        assert(holds(all, line));
        lemma_holds_stripped(all, '\n', line);
    }
}

/// Every answer tells what was asked: the argument and the workspace, the spec
/// that was looked for and what went wrong, or the command that is unknown.
pub proof fn law_answers_tell_what_was_asked(
    workspace: String,
    name: Seq<char>,
    args: Seq<char>,
    fault: Seq<char>,
    fetched: FetchView,
)
    requires
        args.len() > 0,
        args != "status"@,
        args != "init"@,
        args != "rules"@,
    ensures
        holds(answer(Some(workspace), SlashView::Auto { args }, fetched), args),
        holds(answer(Some(workspace), SlashView::Auto { args }, fetched), workspace@),
        holds(
            answer(Some(workspace), SlashView::Spec { args }, FetchView::Fault(fault)),
            spec_id_of(args) + ": "@ + fault,
        ),
        holds(answer(Some(workspace), SlashView::Claw { args }, fetched), args),
        holds(answer(Some(workspace), SlashView::Claw { args: "status"@ }, fetched), workspace@),
        holds(answer(Some(workspace), SlashView::Unknown { name, args }, fetched), name),
        answer(Some(workspace), SlashView::Help, fetched) == HELP@,
{
    broadcast use group_holds;

    reveal_strlit("");
}

/// A command is what it looks like, with its whole argument.
pub proof fn law_commands_are_what_they_say(c: SlashCommand)
    ensures
        c matches SlashCommand::Auto { args } ==> c@ == (SlashView::Auto { args: args@ }),
        c matches SlashCommand::Spec { args } ==> c@ == (SlashView::Spec { args: args@ }),
        c matches SlashCommand::Claw { args } ==> c@ == (SlashView::Claw { args: args@ }),
        c is Help <==> c@ is Help,
        c is Quit <==> c@ is Quit,
        c matches SlashCommand::Unknown { name, args } ==> c@ == (SlashView::Unknown {
            name: name@,
            args: args@,
        }),
{
}

/// Members keep their number, their order, their keys and their values.
pub proof fn law_members_keep_their_values(v: Seq<Member>, i: int)
    requires
        0 <= i < v.len(),
    ensures
        member_views(v).len() == v.len(),
        member_views(v)[i].0 == v[i].key@,
        v[i].value matches JsonValue::Text(t) ==> member_views(v)[i].1 == JsonView::Text(t@),
        v[i].value matches JsonValue::Number(n) ==> member_views(v)[i].1 == JsonView::Number(n),
        v[i].value is Null ==> member_views(v)[i].1 is Null,
{
}

/// Sections keep their number, their order, their headings and their previews.
pub proof fn law_sections_keep_their_headings(v: Seq<Section>, i: int)
    requires
        0 <= i < v.len(),
    ensures
        section_views(v).len() == v.len(),
        section_views(v)[i].0 == v[i].heading@,
        section_views(v)[i].1 == v[i].preview@,
{
}

/// What a command printed is read where it succeeded; where it failed, what it said
/// of it is told, or its status where it said nothing. Text that is no JSON is a
/// fault that tells why.
pub proof fn law_faults_are_told(
    output: CommandOutput,
    list: Seq<(Seq<char>, JsonView)>,
    e: Seq<char>,
)
    ensures
        !all_white(output.stderr@) ==> show_fault(output) == trim(output.stderr@),
        all_white(output.stderr@) ==> holds(show_fault(output), output.status@),
        members_read(Ok(Some(list))) == Ok::<Seq<(Seq<char>, JsonView)>, Seq<char>>(list),
        members_read(Ok(None)) is Ok,
        members_read(Err(e)) is Err,
        holds(members_read(Err(e))->Err_0, e),
{
    broadcast use group_holds;

    let r = law_trimming_takes_blanks_alone(output.stderr@);
}

/// Headings are taken in turn: the lines that begin with two hashes and a blank,
/// without them.
pub proof fn law_headings_are_taken_in_turn(a: Seq<Seq<char>>, b: Seq<Seq<char>>, name: Seq<char>)
    requires
        name.len() > 0,
        !is_white(name[0]),
        !is_white(name.last()),
    ensures
        headings_in(a + b) == headings_in(a) + headings_in(b),
        headings_in(seq!["## "@ + name]) == seq![name],
    decreases a.len(),
{
    reveal_strlit("## ");
    let h = "## "@ + name;
    law_trimmed_text_stays(h);
    law_trimmed_text_stays(name);
    assert(h.take(3) =~= "## "@);
    assert(h.skip(3) =~= name);
    assert(seq![h].skip(1) =~= seq![]);
    assert(headings_in(seq![h].skip(1)).len() == 0);
    assert(headings_in(seq![h]) =~= seq![name]);
    if a.len() == 0 {
        assert(a + b =~= b);
        assert(headings_in(a) + headings_in(b) =~= headings_in(b));
    } else {
        law_headings_are_taken_in_turn(a.skip(1), b, name);
        assert((a + b).skip(1) =~= a.skip(1) + b);
        assert(headings_in(a + b) =~= headings_in(a) + headings_in(b));
    }
}

/// What was read is handed on: the members, or why they could not be read.
pub proof fn law_readings_are_handed_on(list: Vec<Member>, e: String, spec: FetchedSpec)
    ensures
        reading(Ok(Some(list))) == Ok::<Option<Seq<(Seq<char>, JsonView)>>, Seq<char>>(
            Some(member_views(list@)),
        ),
        reading(Err(e)) == Err::<Option<Seq<(Seq<char>, JsonView)>>, Seq<char>>(e@),
        members_view(Ok(list)) == Ok::<Seq<(Seq<char>, JsonView)>, Seq<char>>(
            member_views(list@),
        ),
        members_view(Err(e)) == Err::<Seq<(Seq<char>, JsonView)>, Seq<char>>(e@),
        fetch_view(Err(e)) == FetchView::Fault(e@),
        fetch_view(Ok(spec)) == (FetchView::Spec {
            members: member_views(spec.members@),
            criteria: texts(spec.criteria@),
        }),
{
}

} // verus!
