//! The agent command: which actions run, with which rules.

use vstd::prelude::*;

use crate::assistant::settings_dir;
use crate::assistant::Assistant;
use crate::bytes::byte_len;
use crate::bytes::cuts_at;
use crate::bytes::ellipsis;
use crate::bytes::shortened;
use crate::order::earliest_first;
use crate::order::is_order;
use crate::order::lemma_text_lt_asymmetric;
use crate::order::lemma_text_lt_irreflexive;
use crate::order::order_earliest_first;
use crate::order::text_lt;
use crate::paths::path_in;
use crate::paths::under;
use crate::pieces::group_holds;
use crate::pieces::holds;
use crate::scan::ends;
use crate::scan::has_suffix;
use crate::scan::join;
use crate::scan::joined;
use crate::scan::law_a_joined_text_holds_its_parts;
use crate::text::cat2;
use crate::text::cat3;
use crate::text::cat4;
use crate::text::chars_of;
use crate::text::dec;
use crate::text::dec_u32;
use crate::text::dec_usize;
use crate::text::opt_text;
use crate::text::text_eq;
use crate::text::text_or;
use crate::text::texts;
use crate::text::unwrap_text;

verus! {

/// An action that an agent runs.
#[derive(Debug, Clone)]
pub enum Action {
    Prompt { text: String, runtime: Option<String>, model: Option<String> },
    Script { command: String },
}

impl Action {
    /// Whether the action is a prompt.
    pub fn is_prompt(&self) -> (r: bool)
        ensures
            r == (self is Prompt),
    {
        match self {
            Action::Prompt { .. } => true,
            Action::Script { .. } => false,
        }
    }

    /// Whether the action is a script.
    pub fn is_script(&self) -> (r: bool)
        ensures
            r == (self is Script),
    {
        match self {
            Action::Prompt { .. } => false,
            Action::Script { .. } => true,
        }
    }
}

/// What a state of a source does with an item.
#[derive(Debug, Clone)]
pub enum HandlerConfig {
    Prompt { prompt: String, runtime: Option<String>, model: Option<String> },
    Script { script: String },
}

/// A state of a source.
#[derive(Debug, Clone)]
pub struct StateConfig {
    pub handlers: Vec<HandlerConfig>,
}

/// A source of work.
#[derive(Debug, Clone)]
pub struct SourceStates {
    pub states: Vec<StateConfig>,
}

/// The runtime of a name, and the model it is to use.
#[derive(Debug, Clone)]
pub struct RuntimeInstance {
    pub name: String,
    pub model: Option<String>,
}

/// What the agent reads of the configuration of a workspace.
#[derive(Debug, Clone)]
pub struct AgentConfig {
    pub name: String,
    pub sources: Vec<SourceStates>,
    pub default_runtime: String,
    pub runtimes: Vec<RuntimeInstance>,
    pub rules_path: Option<String>,
    pub max_conversation_turns: Option<u32>,
}

// ---------------------------------------------------------------------------
// Rules
// ---------------------------------------------------------------------------

/// The directories that may hold the rules of a workspace, first choice first:
/// the configured one, that of the workspace, and that of all workspaces.
pub open spec fn rules_dirs(
    config: AgentConfig,
    home: Option<String>,
    assistant: Seq<char>,
) -> Seq<Seq<char>> {
    (match config.rules_path {
        Some(path) => seq![path@],
        None => seq![],
    }) + (match home {
        Some(h) => seq![
            path_in(
                path_in(path_in(path_in(h@, "workspaces"@), config.name@), "claw"@),
                "system"@,
            ),
            path_in(path_in(path_in(h@, "claw-workspace"@), settings_dir(assistant)), "rules"@),
        ],
        None => seq![],
    })
}

/// The directories that may hold the rules of a workspace, first choice first.
/// `home` is the home directory of the daemon, if it is known.
pub fn rules_candidates(config: &AgentConfig, home: &Option<String>, assistant: &Assistant) -> (r: Vec<
    String,
>)
    ensures
        texts(r@) == rules_dirs(*config, *home, assistant.name@),
{
    let mut out: Vec<String> = Vec::new();
    match &config.rules_path {
        Some(path) => {
            out.push(path.clone());
        },
        None => {},
    }
    match home {
        Some(h) => {
            let workspaces = under(h.as_str(), "workspaces");
            let own = under(workspaces.as_str(), config.name.as_str());
            let claw = under(own.as_str(), "claw");
            out.push(under(claw.as_str(), "system"));
            let shared = under(h.as_str(), "claw-workspace");
            let dir = assistant.settings_dir();
            let settings = under(shared.as_str(), dir.as_str());
            out.push(under(settings.as_str(), "rules"));
        },
        None => {},
    }
    proof {
        assert(texts(out@) =~= rules_dirs(*config, *home, assistant.name@));
    }
    out
}

/// The first candidate that is a directory.
pub open spec fn first_present(candidates: Seq<Seq<char>>, present: Seq<bool>) -> Option<Seq<char>>
    decreases candidates.len(),
{
    if candidates.len() == 0 || present.len() == 0 {
        None
    } else if present[0] {
        Some(candidates[0])
    } else {
        first_present(candidates.skip(1), present.skip(1))
    }
}

/// Resolves the directory of the rules of a workspace.
///
/// `present` says of each of the candidates whether it is a directory; the first
/// one that is wins. Returns `None` if there is none.
pub fn resolve_rules_dir(candidates: &Vec<String>, present: &Vec<bool>) -> (r: Option<String>)
    requires
        present.len() == candidates.len(),
    ensures
        opt_text(r) == first_present(texts(candidates@), present@),
{
    let ghost all = texts(candidates@);
    let mut i: usize = 0;
    proof {
        assert(all.skip(0) =~= all);
        assert(present@.skip(0) =~= present@);
    }
    while i < candidates.len()
        invariant
            i <= candidates.len(),
            present.len() == candidates.len(),
            all == texts(candidates@),
            first_present(all, present@) == first_present(all.skip(i as int), present@.skip(i as int)),
        decreases candidates.len() - i,
    {
        proof {
            assert(all.skip(i as int).skip(1) =~= all.skip(i + 1));
            assert(present@.skip(i as int).skip(1) =~= present@.skip(i + 1));
        }
        if present[i] {
            return Some(candidates[i].clone());
        }
        i = i + 1;
    }
    None
}

/// A configured directory of rules wins over all others where it exists.
pub proof fn law_configured_rules_win(
    config: AgentConfig,
    home: Option<String>,
    assistant: Seq<char>,
    present: Seq<bool>,
)
    requires
        config.rules_path is Some,
        present.len() == rules_dirs(config, home, assistant).len(),
        present[0],
    ensures
        first_present(rules_dirs(config, home, assistant), present) == Some(config.rules_path.unwrap()@),
{
}

/// The rules of the workspace win over those of all workspaces.
pub proof fn law_own_rules_win_over_shared(
    config: AgentConfig,
    home: Option<String>,
    assistant: Seq<char>,
    present: Seq<bool>,
)
    requires
        home is Some,
        present.len() == rules_dirs(config, home, assistant).len(),
        config.rules_path is Some ==> !present[0],
        present[present.len() - 2],
    ensures
        first_present(rules_dirs(config, home, assistant), present) == Some(
            path_in(
                path_in(
                    path_in(path_in(home.unwrap()@, "workspaces"@), config.name@),
                    "claw"@,
                ),
                "system"@,
            ),
        ),
{
    let dirs = rules_dirs(config, home, assistant);
    if config.rules_path is Some {
        assert(dirs.skip(1)[0] == dirs[1]);
        assert(present.skip(1)[0] == present[1]);
        assert(first_present(dirs.skip(1), present.skip(1)) == Some(dirs[1]));
    }
}

/// No directory is chosen exactly where none of the candidates exists.
pub proof fn law_no_rules_without_a_directory(candidates: Seq<Seq<char>>, present: Seq<bool>)
    requires
        present.len() == candidates.len(),
    ensures
        first_present(candidates, present) is None <==> forall|i: int|
            0 <= i < present.len() ==> !#[trigger] present[i],
    decreases candidates.len(),
{
    if candidates.len() > 0 {
        let rest = present.skip(1);
        law_no_rules_without_a_directory(candidates.skip(1), rest);
        if !present[0] {
            if first_present(candidates, present) is None {
                assert forall|i: int| 0 <= i < present.len() implies !#[trigger] present[i] by {
                    if i > 0 {
                        assert(present[i] == rest[i - 1]);
                    }
                }
            } else {
                let k = choose|k: int| 0 <= k < rest.len() && #[trigger] rest[k];
                assert(present[k + 1]);
            }
        }
    }
}

/// The default maximum of conversation turns in a session.
pub const DEFAULT_MAX_CONVERSATION_TURNS: u32 = 10;

/// The number of turns that a session may take.
pub open spec fn turn_limit(max_turns: Option<u32>) -> nat {
    match max_turns {
        Some(n) => n as nat,
        None => 10,
    }
}

/// The built-in rules.
pub open spec fn claw_rules(max_turns: Option<u32>) -> Seq<char> {
    "# Claw Agent Rules\n\n## Conversation Turn Limit\n- Maximum conversation turns per session: "@
        + dec(turn_limit(max_turns))
        + "\n- If the task cannot be completed within the turn limit, summarize progress and remaining steps before stopping.\n- Each prompt-response pair counts as one turn.\n\n## Response Format\n- Use JSON for structured data output (status reports, action results, diagnostics).\n- Use Markdown for human-readable explanations, plans, and summaries.\n- When both are appropriate, prefer JSON wrapped in a markdown code block.\n- Always include a top-level \"status\" field in JSON responses (\"success\", \"error\", \"partial\").\n\n## Error Handling\n- On transient errors (network, timeout), retry up to 3 times with exponential backoff.\n- On permanent errors (invalid input, missing resource), report immediately without retry.\n- Always include error context: what was attempted, what failed, and suggested next steps.\n- Never silently swallow errors; surface them in the response."@
}

/// Builds the built-in rules: the turn limit, the response format, and the
/// handling of errors. `max_turns` overrides the default turn limit.
pub fn build_claw_rules_prompt(max_turns: Option<u32>) -> (r: String)
    ensures
        r@ == claw_rules(max_turns),
{
    let turns: u32 = match max_turns {
        Some(n) => n,
        None => DEFAULT_MAX_CONVERSATION_TURNS,
    };
    let limit = dec_u32(turns);
    cat3(
        "# Claw Agent Rules\n\n## Conversation Turn Limit\n- Maximum conversation turns per session: ",
        limit.as_str(),
        "\n- If the task cannot be completed within the turn limit, summarize progress and remaining steps before stopping.\n- Each prompt-response pair counts as one turn.\n\n## Response Format\n- Use JSON for structured data output (status reports, action results, diagnostics).\n- Use Markdown for human-readable explanations, plans, and summaries.\n- When both are appropriate, prefer JSON wrapped in a markdown code block.\n- Always include a top-level \"status\" field in JSON responses (\"success\", \"error\", \"partial\").\n\n## Error Handling\n- On transient errors (network, timeout), retry up to 3 times with exponential backoff.\n- On permanent errors (invalid input, missing resource), report immediately without retry.\n- Always include error context: what was attempted, what failed, and suggested next steps.\n- Never silently swallow errors; surface them in the response.",
    )
}

/// An entry of a directory.
#[derive(Debug, Clone)]
pub struct DirEntry {
    pub name: String,
    pub is_file: bool,
}

/// The entry is a Markdown file.
pub open spec fn is_rule(e: DirEntry) -> bool {
    e.is_file && e.name@.len() > 3 && has_suffix(e.name@, ".md"@)
}

/// The names of the Markdown files among the entries, in their order.
pub open spec fn rule_names_in(entries: Seq<DirEntry>) -> Seq<Seq<char>>
    decreases entries.len(),
{
    if entries.len() == 0 {
        seq![]
    } else if is_rule(entries.last()) {
        rule_names_in(entries.drop_last()).push(entries.last().name@)
    } else {
        rule_names_in(entries.drop_last())
    }
}

/// The elements of `s` at the positions `p`.
pub open spec fn picked(s: Seq<Seq<char>>, p: Seq<usize>) -> Seq<Seq<char>> {
    Seq::new(p.len(), |i: int| s[p[i] as int])
}

/// `sorted` holds the elements of `s`, earliest first.
pub open spec fn sorts(sorted: Seq<Seq<char>>, s: Seq<Seq<char>>) -> bool {
    exists|p: Seq<usize>| #[trigger]
        is_order(p, s.len()) && earliest_first(s, p) && sorted == picked(s, p)
}

/// In a sorted list no name comes before one that stands further in front.
pub proof fn law_sorted_names_are_in_order(sorted: Seq<Seq<char>>, s: Seq<Seq<char>>, i: int, j: int)
    requires
        sorts(sorted, s),
        0 <= i < j < sorted.len(),
    ensures
        !text_lt(sorted[j], sorted[i]),
{
    let p = choose|p: Seq<usize>| #[trigger]
        is_order(p, s.len()) && earliest_first(s, p) && sorted == picked(s, p);
    assert(p[i] < s.len() && p[j] < s.len());
    if text_lt(sorted[i], sorted[j]) {
        lemma_text_lt_asymmetric(sorted[i], sorted[j]);
    } else {
        lemma_text_lt_irreflexive(sorted[i]);
    }
}

/// The names in order.
pub fn sorted_names(names: &Vec<String>) -> (r: Vec<String>)
    ensures
        sorts(texts(r@), texts(names@)),
{
    let p = order_earliest_first(names);
    let ghost all = texts(names@);
    let mut out: Vec<String> = Vec::new();
    let mut i: usize = 0;
    while i < p.len()
        invariant
            i <= p.len(),
            all == texts(names@),
            is_order(p@, all.len()),
            out.len() == i,
            forall|k: int| 0 <= k < i ==> #[trigger] out@[k]@ == all[p@[k] as int],
        decreases p.len() - i,
    {
        out.push(names[p[i]].clone());
        i = i + 1;
    }
    proof {
        assert(texts(out@) =~= picked(all, p@));
        assert(is_order(p@, all.len()) && earliest_first(all, p@));
    }
    out
}

/// The names of the rule files among the entries of a directory, sorted.
pub fn rule_files(entries: &Vec<DirEntry>) -> (r: Vec<String>)
    ensures
        sorts(texts(r@), rule_names_in(entries@)),
{
    let mut names: Vec<String> = Vec::new();
    let mut i: usize = 0;
    proof {
        assert(texts(names@) =~= rule_names_in(entries@.take(0)));
    }
    while i < entries.len()
        invariant
            i <= entries.len(),
            texts(names@) == rule_names_in(entries@.take(i as int)),
        decreases entries.len() - i,
    {
        let ghost before = names@;
        let e = &entries[i];
        proof {
            assert(entries@.take(i + 1).drop_last() =~= entries@.take(i as int));
        }
        let cs = chars_of(e.name.as_str());
        if e.is_file && cs.len() > 3 && ends(e.name.as_str(), ".md") {
            names.push(e.name.clone());
            proof {
                assert(texts(names@) =~= texts(before).push(e.name@));
            }
        }
        i = i + 1;
    }
    proof {
        assert(entries@.take(entries@.len() as int) =~= entries@);
    }
    sorted_names(&names)
}

/// One rule under its header.
pub open spec fn rule_part(name: Seq<char>, content: Seq<char>) -> Seq<char> {
    "# Rule: "@ + name + "\n\n"@ + content
}

/// The rules under their headers.
pub open spec fn rule_parts(names: Seq<Seq<char>>, contents: Seq<Option<String>>) -> Seq<Seq<char>> {
    Seq::new(names.len(), |i: int| rule_part(names[i], contents[i].unwrap()@))
}

/// The position of the first file that could not be read, or the number of
/// files.
pub open spec fn first_unread(contents: Seq<Option<String>>) -> nat
    decreases contents.len(),
{
    if contents.len() == 0 || contents[0] is None {
        0
    } else {
        1 + first_unread(contents.skip(1))
    }
}

proof fn lemma_first_unread(contents: Seq<Option<String>>, n: int)
    requires
        0 <= n <= contents.len(),
        forall|i: int| 0 <= i < n ==> (#[trigger] contents[i]) is Some,
        n == contents.len() || contents[n] is None,
    ensures
        first_unread(contents) == n,
    decreases n,
{
    if n > 0 {
        let rest = contents.skip(1);
        assert forall|i: int| 0 <= i < n - 1 implies (#[trigger] rest[i]) is Some by {
            assert(rest[i] == contents[i + 1]);
        }
        lemma_first_unread(rest, n - 1);
    }
}

/// Joins the rules of a directory into one text.
///
/// `names` are the names of the rule files in order, `contents` what they hold,
/// or `None` for a file that could not be read. Each rule stands under a header
/// with its name, and a line divides it from the next. Returns `None` if there
/// are no rules, and an error that names the first file that could not be read.
pub fn load_rules_from_dir(dir: &str, names: &Vec<String>, contents: &Vec<Option<String>>) -> (r:
    Result<Option<String>, String>)
    requires
        names.len() == contents.len(),
    ensures
        r is Ok <==> first_unread(contents@) == contents.len(),
        r matches Ok(rules) ==> opt_text(rules) == (if names.len() == 0 {
            None
        } else {
            Some(join(rule_parts(texts(names@), contents@), "\n\n---\n\n"@))
        }),
        r matches Err(e) ==> e@ == "failed to read rule file: "@ + path_in(
            dir@,
            names@[first_unread(contents@) as int]@,
        ),
{
    let mut parts: Vec<String> = Vec::new();
    let mut i: usize = 0;
    while i < names.len()
        invariant
            i <= names.len(),
            names.len() == contents.len(),
            parts.len() == i,
            forall|k: int| 0 <= k < i ==> (#[trigger] contents@[k]) is Some,
            forall|k: int|
                0 <= k < i ==> #[trigger] parts@[k]@ == rule_part(
                    names@[k]@,
                    contents@[k].unwrap()@,
                ),
        decreases names.len() - i,
    {
        match &contents[i] {
            Some(content) => {
                let part = cat4("# Rule: ", names[i].as_str(), "\n\n", content.as_str());
                parts.push(part);
            },
            None => {
                proof {
                    lemma_first_unread(contents@, i as int);
                }
                let path = under(dir, names[i].as_str());
                return Err(cat2("failed to read rule file: ", path.as_str()));
            },
        }
        i = i + 1;
    }
    proof {
        lemma_first_unread(contents@, i as int);
        assert(texts(parts@) =~= rule_parts(texts(names@), contents@));
    }
    if names.len() == 0 {
        Ok(None)
    } else {
        Ok(Some(joined(&parts, "\n\n---\n\n")))
    }
}

/// The system prompt of the agent.
pub open spec fn agent_prompt(max_turns: Option<u32>, file_rules: Option<String>) -> Seq<char> {
    match file_rules {
        Some(rules) => claw_rules(max_turns) + "\n\n---\n\n"@ + rules@,
        None => claw_rules(max_turns),
    }
}

/// Combines the built-in rules with the rules of the workspace, where it has any.
pub fn build_agent_prompt(max_turns: Option<u32>, file_rules: &Option<String>) -> (r: String)
    ensures
        r@ == agent_prompt(max_turns, *file_rules),
{
    let rules = build_claw_rules_prompt(max_turns);
    match file_rules {
        Some(more) => cat3(rules.as_str(), "\n\n---\n\n", more.as_str()),
        None => rules,
    }
}

// ---------------------------------------------------------------------------
// Actions
// ---------------------------------------------------------------------------

/// What an action does, as plain values.
pub ghost enum ActionView {
    Prompt { text: Seq<char>, runtime: Option<Seq<char>>, model: Option<Seq<char>> },
    Script { command: Seq<char> },
}

impl View for Action {
    type V = ActionView;

    open spec fn view(&self) -> ActionView {
        match *self {
            Action::Prompt { text, runtime, model } => ActionView::Prompt {
                text: text@,
                runtime: opt_text(runtime),
                model: opt_text(model),
            },
            Action::Script { command } => ActionView::Script { command: command@ },
        }
    }
}

/// The action of a handler.
pub open spec fn action_of(h: HandlerConfig) -> ActionView {
    match h {
        HandlerConfig::Prompt { prompt, runtime, model } => ActionView::Prompt {
            text: prompt@,
            runtime: opt_text(runtime),
            model: opt_text(model),
        },
        HandlerConfig::Script { script } => ActionView::Script { command: script@ },
    }
}

/// The actions of the handlers of a state.
pub open spec fn state_actions(s: StateConfig) -> Seq<ActionView> {
    Seq::new(s.handlers.len() as nat, |i: int| action_of(s.handlers@[i]))
}

/// The actions of the first `n` states.
pub open spec fn source_actions(states: Seq<StateConfig>, n: nat) -> Seq<ActionView>
    decreases n,
{
    if n == 0 {
        seq![]
    } else {
        source_actions(states, (n - 1) as nat) + state_actions(states[n - 1])
    }
}

/// The actions of the first `n` sources.
pub open spec fn all_actions(sources: Seq<SourceStates>, n: nat) -> Seq<ActionView>
    decreases n,
{
    if n == 0 {
        seq![]
    } else {
        all_actions(sources, (n - 1) as nat) + source_actions(
            sources[n - 1].states@,
            sources[n - 1].states.len() as nat,
        )
    }
}

/// The contents of a list of actions.
pub open spec fn action_views(v: Seq<Action>) -> Seq<ActionView> {
    Seq::new(v.len(), |i: int| v[i]@)
}

fn to_action(h: &HandlerConfig) -> (r: Action)
    ensures
        r@ == action_of(*h),
{
    match h {
        HandlerConfig::Prompt { prompt, runtime, model } => Action::Prompt {
            text: prompt.clone(),
            runtime: runtime.clone(),
            model: model.clone(),
        },
        HandlerConfig::Script { script } => Action::Script { command: script.clone() },
    }
}

fn actions_of_state(s: &StateConfig) -> (r: Vec<Action>)
    ensures
        action_views(r@) == state_actions(*s),
{
    let mut out: Vec<Action> = Vec::new();
    let mut i: usize = 0;
    while i < s.handlers.len()
        invariant
            i <= s.handlers.len(),
            out.len() == i,
            forall|k: int| 0 <= k < i ==> #[trigger] out@[k]@ == action_of(s.handlers@[k]),
        decreases s.handlers.len() - i,
    {
        out.push(to_action(&s.handlers[i]));
        i = i + 1;
    }
    proof {
        assert(action_views(out@) =~= state_actions(*s));
    }
    out
}

fn actions_of_source(s: &SourceStates) -> (r: Vec<Action>)
    ensures
        action_views(r@) == source_actions(s.states@, s.states.len() as nat),
{
    let mut out: Vec<Action> = Vec::new();
    let mut i: usize = 0;
    proof {
        assert(action_views(out@) =~= source_actions(s.states@, 0));
    }
    while i < s.states.len()
        invariant
            i <= s.states.len(),
            action_views(out@) == source_actions(s.states@, i as nat),
        decreases s.states.len() - i,
    {
        let ghost before = out@;
        let mut more = actions_of_state(&s.states[i]);
        let ghost added = more@;
        out.append(&mut more);
        proof {
            assert(action_views(out@) =~= action_views(before) + action_views(added));
        }
        i = i + 1;
    }
    out
}

/// Collects the actions to run: a given prompt alone, or else the actions of all
/// handlers of all states of all sources.
pub fn collect_actions(config: &AgentConfig, prompt_override: Option<&str>) -> (r: Vec<Action>)
    ensures
        prompt_override matches Some(prompt) ==> action_views(r@) == seq![
            ActionView::Prompt { text: prompt@, runtime: None, model: None },
        ],
        prompt_override is None ==> action_views(r@) == all_actions(
            config.sources@,
            config.sources.len() as nat,
        ),
        prompt_override is Some ==> r.len() == 1,
        prompt_override is None ==> r.len() == handlers_before_source(
            config.sources@,
            config.sources.len() as int,
        ),
{
    let mut out: Vec<Action> = Vec::new();
    proof {
        lemma_all_actions(config.sources@, config.sources@.len(), 0, 0, 0);
    }
    match prompt_override {
        Some(prompt) => {
            out.push(Action::Prompt { text: prompt.to_owned(), runtime: None, model: None });
            proof {
                assert(action_views(out@) =~= seq![
                    ActionView::Prompt { text: prompt@, runtime: None, model: None },
                ]);
            }
            return out;
        },
        None => {},
    }
    let mut i: usize = 0;
    proof {
        assert(action_views(out@) =~= all_actions(config.sources@, 0));
    }
    while i < config.sources.len()
        invariant
            i <= config.sources.len(),
            action_views(out@) == all_actions(config.sources@, i as nat),
        decreases config.sources.len() - i,
    {
        let ghost before = out@;
        let mut more = actions_of_source(&config.sources[i]);
        let ghost added = more@;
        out.append(&mut more);
        proof {
            assert(action_views(out@) =~= action_views(before) + action_views(added));
        }
        i = i + 1;
    }
    out
}

// ---------------------------------------------------------------------------
// Runtimes
// ---------------------------------------------------------------------------

/// The runtimes of an agent: the name of the default one, and the model of the
/// runtime of the assistant.
#[derive(Debug, Clone)]
pub struct Registry {
    pub default_name: String,
    pub assistant_model: Option<String>,
}

/// The model that is configured for the runtime `name`.
pub open spec fn model_of(runtimes: Seq<RuntimeInstance>, name: Seq<char>) -> Option<Seq<char>>
    decreases runtimes.len(),
{
    if runtimes.len() == 0 {
        None
    } else if runtimes[0].name@ == name {
        opt_text(runtimes[0].model)
    } else {
        model_of(runtimes.skip(1), name)
    }
}

/// Chooses the runtimes by the configuration of the workspace.
pub fn build_registry(config: &AgentConfig, assistant: &Assistant) -> (r: Registry)
    ensures
        r.default_name@ == config.default_runtime@,
        opt_text(r.assistant_model) == model_of(config.runtimes@, assistant.name@),
{
    let mut i: usize = 0;
    proof {
        assert(config.runtimes@.skip(0) =~= config.runtimes@);
    }
    while i < config.runtimes.len()
        invariant
            i <= config.runtimes.len(),
            model_of(config.runtimes@, assistant.name@) == model_of(
                config.runtimes@.skip(i as int),
                assistant.name@,
            ),
        decreases config.runtimes.len() - i,
    {
        proof {
            assert(config.runtimes@.skip(i as int).skip(1) =~= config.runtimes@.skip(i + 1));
        }
        if text_eq(config.runtimes[i].name.as_str(), assistant.name.as_str()) {
            return Registry {
                default_name: config.default_runtime.clone(),
                assistant_model: config.runtimes[i].model.clone(),
            };
        }
        i = i + 1;
    }
    Registry { default_name: config.default_runtime.clone(), assistant_model: None }
}

// ---------------------------------------------------------------------------
// The plan
// ---------------------------------------------------------------------------

/// The text of an action is cut between characters, where it is cut.
pub open spec fn cuts_clean(a: Action) -> bool {
    match a {
        Action::Prompt { text, .. } => byte_len(text@) > 80 ==> cuts_at(text@, 77),
        Action::Script { command } => byte_len(command@) > 80 ==> cuts_at(command@, 77),
    }
}

/// One action of the plan; `n` is its number.
pub open spec fn plan_entry(n: nat, a: Action, default_runtime: Seq<char>) -> Seq<char> {
    match a {
        Action::Prompt { text, runtime, model } => "  "@ + dec(n) + ". [prompt] runtime="@
            + text_or(runtime, default_runtime) + " model="@ + text_or(model, "default"@)
            + "\n     "@ + ellipsis(text@, 80, 77) + "\n"@,
        Action::Script { command } => "  "@ + dec(n) + ". [script] "@ + ellipsis(
            command@,
            80,
            77,
        ) + "\n"@,
    }
}

/// The first `n` actions of the plan.
pub open spec fn plan_entries(actions: Seq<Action>, default_runtime: Seq<char>, n: nat) -> Seq<char>
    decreases n,
{
    if n == 0 {
        seq![]
    } else {
        plan_entries(actions, default_runtime, (n - 1) as nat) + plan_entry(
            n,
            actions[n - 1],
            default_runtime,
        )
    }
}

/// What would be executed.
pub open spec fn plan_text(
    config: AgentConfig,
    actions: Seq<Action>,
    rules_dir: Option<String>,
) -> Seq<char> {
    "Plan for workspace: "@ + config.name@ + "\nDefault runtime: "@ + config.default_runtime@
        + "\nRules directory: "@ + text_or(rules_dir, "(none)"@) + "\nActions ("@ + dec(
        actions.len(),
    ) + "):\n"@ + plan_entries(actions, config.default_runtime@, actions.len())
}

fn write_entry(n: usize, a: &Action, default_runtime: &str) -> (r: String)
    requires
        cuts_clean(*a),
    ensures
        r@ == plan_entry(n as nat, *a, default_runtime@),
{
    let mut out = "  ".to_string();
    let number = dec_usize(n);
    out.append(number.as_str());
    match a {
        Action::Prompt { text, runtime, model } => {
            out.append(". [prompt] runtime=");
            let rt = unwrap_text(runtime, default_runtime);
            out.append(rt.as_str());
            out.append(" model=");
            let model_str = unwrap_text(model, "default");
            out.append(model_str.as_str());
            out.append("\n     ");
            let shown = shortened(text.as_str(), 80, 77);
            out.append(shown.as_str());
            out.append("\n");
        },
        Action::Script { command } => {
            out.append(". [script] ");
            let shown = shortened(command.as_str(), 80, 77);
            out.append(shown.as_str());
            out.append("\n");
        },
    }
    out
}

/// Displays what would be executed without running it.
pub fn print_plan(config: &AgentConfig, actions: &Vec<Action>, rules_dir: &Option<String>) -> (r:
    String)
    requires
        forall|i: int| 0 <= i < actions.len() ==> cuts_clean(#[trigger] actions@[i]),
    ensures
        r@ == plan_text(*config, actions@, *rules_dir),
{
    let mut out = "Plan for workspace: ".to_string();
    out.append(config.name.as_str());
    out.append("\nDefault runtime: ");
    out.append(config.default_runtime.as_str());
    out.append("\nRules directory: ");
    let dir = unwrap_text(rules_dir, "(none)");
    out.append(dir.as_str());
    out.append("\nActions (");
    let count = dec_usize(actions.len());
    out.append(count.as_str());
    out.append("):\n");
    let mut rows = String::new();
    let mut i: usize = 0;
    while i < actions.len()
        invariant
            i <= actions.len(),
            forall|k: int| 0 <= k < actions.len() ==> cuts_clean(#[trigger] actions@[k]),
            rows@ == plan_entries(actions@, config.default_runtime@, i as nat),
        decreases actions.len() - i,
    {
        let row = write_entry(i + 1, &actions[i], config.default_runtime.as_str());
        rows.append(row.as_str());
        i = i + 1;
    }
    out.append(rows.as_str());
    out
}

// ---------------------------------------------------------------------------
// Running
// ---------------------------------------------------------------------------

/// The path of the configuration, which must be given.
pub fn required_workspace(workspace_path: Option<String>) -> (r: Result<String, String>)
    ensures
        workspace_path matches Some(path) ==> r == Ok::<String, String>(path),
        workspace_path is None ==> r is Err && r->Err_0@ == "--workspace is required"@,
{
    match workspace_path {
        Some(path) => Ok(path),
        None => Err("--workspace is required".to_string()),
    }
}

/// Why a configuration could not be loaded: it could not be read, or it could
/// not be parsed.
pub fn config_fault(path: &str, was_read: bool) -> (r: String)
    ensures
        r@ == (if was_read {
            "failed to parse workspace config"@
        } else {
            "failed to read workspace config: "@ + path@
        }),
{
    if was_read {
        "failed to parse workspace config".to_string()
    } else {
        cat2("failed to read workspace config: ", path)
    }
}

/// What the agent does with its actions.
#[derive(Debug, Clone, Copy, PartialEq, Eq, Structural)]
pub enum AgentStep {
    ShowPlan,
    Execute,
}

/// Decides what the agent does: nothing without actions, show the plan where it
/// was asked for, else execute.
pub fn agent_step(actions: &Vec<Action>, plan: bool) -> (r: Result<AgentStep, String>)
    ensures
        r is Err <==> actions.len() == 0,
        r matches Err(e) ==> e@ == "no actions found in workspace config"@,
        r matches Ok(step) ==> step == (if plan {
            AgentStep::ShowPlan
        } else {
            AgentStep::Execute
        }),
{
    if actions.len() == 0 {
        return Err("no actions found in workspace config".to_string());
    }
    if plan {
        Ok(AgentStep::ShowPlan)
    } else {
        Ok(AgentStep::Execute)
    }
}

/// What the last action gave back.
#[derive(Debug, Clone)]
pub struct ActionResult {
    pub exit_code: i32,
    pub stdout: String,
    pub stderr: String,
}

/// The exit code of the agent is that of its last action; it is an error if no
/// action was executed.
pub fn agent_outcome(result: &Option<ActionResult>) -> (r: Result<i32, String>)
    ensures
        result matches Some(a) ==> r == Ok::<i32, String>(a.exit_code),
        result is None ==> r is Err && r->Err_0@ == "no actions were executed"@,
{
    match result {
        Some(a) => Ok(a.exit_code),
        None => Err("no actions were executed".to_string()),
    }
}

// ---------------------------------------------------------------------------
// Laws on actions
// ---------------------------------------------------------------------------

/// How many handlers the first `n` states have.
pub open spec fn handlers_before_state(states: Seq<StateConfig>, n: int) -> int
    decreases n,
{
    if n <= 0 {
        0
    } else {
        handlers_before_state(states, n - 1) + states[n - 1].handlers.len()
    }
}

/// How many handlers the states of the first `n` sources have.
pub open spec fn handlers_before_source(sources: Seq<SourceStates>, n: int) -> int
    decreases n,
{
    if n <= 0 {
        0
    } else {
        handlers_before_source(sources, n - 1) + handlers_before_state(
            sources[n - 1].states@,
            sources[n - 1].states.len() as int,
        )
    }
}

proof fn lemma_source_actions(states: Seq<StateConfig>, n: nat, t: int, h: int)
    requires
        n <= states.len(),
    ensures
        source_actions(states, n).len() == handlers_before_state(states, n as int),
        0 <= t < n && 0 <= h < states[t].handlers.len() ==> 0 <= handlers_before_state(states, t) + h
            < source_actions(states, n).len() && source_actions(states, n)[handlers_before_state(
            states,
            t,
        ) + h] == action_of(states[t].handlers@[h]),
    decreases n,
{
    if n > 0 {
        lemma_source_actions(states, (n - 1) as nat, t, h);
        if t == n - 1 {
            lemma_source_actions(states, (n - 1) as nat, 0, 0);
        }
    }
}

proof fn lemma_all_actions(sources: Seq<SourceStates>, n: nat, s: int, t: int, h: int)
    requires
        n <= sources.len(),
    ensures
        all_actions(sources, n).len() == handlers_before_source(sources, n as int),
        0 <= s < n && 0 <= t < sources[s].states.len() && 0 <= h
            < sources[s].states@[t].handlers.len() ==> 0 <= handlers_before_source(sources, s)
            + handlers_before_state(sources[s].states@, t) + h < all_actions(sources, n).len()
            && all_actions(sources, n)[handlers_before_source(sources, s) + handlers_before_state(
            sources[s].states@,
            t,
        ) + h] == action_of(sources[s].states@[t].handlers@[h]),
    decreases n,
{
    if n > 0 {
        lemma_all_actions(sources, (n - 1) as nat, s, t, h);
        lemma_source_actions(sources[n - 1].states@, sources[n - 1].states.len() as nat, t, h);
    }
}

/// Without a prompt of the user, every handler of every state of every source has
/// its action, at a place of its own, in their order; and there are no others.
pub proof fn law_every_handler_has_its_action(
    sources: Seq<SourceStates>,
    s: int,
    t: int,
    h: int,
)
    requires
        0 <= s < sources.len(),
        0 <= t < sources[s].states.len(),
        0 <= h < sources[s].states@[t].handlers.len(),
    ensures
        ({
            let all = all_actions(sources, sources.len());
            let at = handlers_before_source(sources, s) + handlers_before_state(
                sources[s].states@,
                t,
            ) + h;
            &&& all.len() == handlers_before_source(sources, sources.len() as int)
            &&& 0 <= at < all.len()
            &&& match sources[s].states@[t].handlers@[h] {
                HandlerConfig::Prompt { prompt, runtime, model } => all[at] == (ActionView::Prompt {
                    text: prompt@,
                    runtime: opt_text(runtime),
                    model: opt_text(model),
                }),
                HandlerConfig::Script { script } => all[at] == (ActionView::Script {
                    command: script@,
                }),
            }
        }),
{
    lemma_all_actions(sources, sources.len(), s, t, h);
}

/// Sources give no actions exactly where none of their states has a handler.
pub proof fn law_no_handlers_no_actions(sources: Seq<SourceStates>)
    ensures
        all_actions(sources, sources.len()).len() == handlers_before_source(
            sources,
            sources.len() as int,
        ),
{
    lemma_all_actions(sources, sources.len(), 0, 0, 0);
}

// ---------------------------------------------------------------------------
// Laws on what is shown and read
// ---------------------------------------------------------------------------

/// The plan names the workspace, the runtime, the rules and the number of
/// actions.
pub proof fn law_plans_name_the_workspace(
    config: AgentConfig,
    actions: Seq<Action>,
    rules_dir: Option<String>,
)
    ensures
        holds(plan_text(config, actions, rules_dir), config.name@ + "\nDefault runtime: "@),
        holds(
            plan_text(config, actions, rules_dir),
            "\nDefault runtime: "@ + config.default_runtime@,
        ),
        rules_dir is Some ==> holds(
            plan_text(config, actions, rules_dir),
            "\nRules directory: "@ + rules_dir.unwrap()@,
        ),
        holds(plan_text(config, actions, rules_dir), "\nActions ("@ + dec(actions.len())),
{
    broadcast use group_holds;

}

proof fn lemma_plan_entries_hold(
    actions: Seq<Action>,
    default_runtime: Seq<char>,
    n: nat,
    i: int,
    part: Seq<char>,
)
    requires
        0 <= i < n <= actions.len(),
        holds(plan_entry((i + 1) as nat, actions[i], default_runtime), part),
    ensures
        holds(plan_entries(actions, default_runtime, n), part),
    decreases n,
{
    broadcast use group_holds;

    if i < n - 1 {
        lemma_plan_entries_hold(actions, default_runtime, (n - 1) as nat, i, part);
    }
}

/// The plan shows every action under its number: a script with its command, a
/// prompt with its runtime and its text, whole up to eighty bytes.
pub proof fn law_every_action_is_planned(
    config: AgentConfig,
    actions: Seq<Action>,
    rules_dir: Option<String>,
    i: int,
)
    requires
        0 <= i < actions.len(),
    ensures
        match actions[i] {
            Action::Prompt { text, runtime, model } => {
                &&& holds(
                    plan_text(config, actions, rules_dir),
                    dec((i + 1) as nat) + ". [prompt] runtime="@ + text_or(
                        runtime,
                        config.default_runtime@,
                    ),
                )
                &&& byte_len(text@) <= 80 ==> holds(
                    plan_text(config, actions, rules_dir),
                    "\n     "@ + text@ + "\n"@,
                )
            },
            Action::Script { command } => byte_len(command@) <= 80 ==> holds(
                plan_text(config, actions, rules_dir),
                dec((i + 1) as nat) + ". [script] "@ + command@,
            ),
        },
{
    broadcast use group_holds;

    let d = config.default_runtime@;
    let n = actions.len();
    let all = plan_entries(actions, d, n);
    match actions[i] {
        Action::Prompt { text, runtime, model } => {
            let part = dec((i + 1) as nat) + ". [prompt] runtime="@ + text_or(runtime, d);
            assert(holds(plan_entry((i + 1) as nat, actions[i], d), part));
            lemma_plan_entries_hold(actions, d, n, i, part);
            assert(holds(plan_text(config, actions, rules_dir), part));
            if byte_len(text@) <= 80 {
                let shown = "\n     "@ + text@ + "\n"@;
                assert(holds(plan_entry((i + 1) as nat, actions[i], d), shown));
                lemma_plan_entries_hold(actions, d, n, i, shown);
                assert(holds(plan_text(config, actions, rules_dir), shown));
            }
        },
        Action::Script { command } => {
            if byte_len(command@) <= 80 {
                let part = dec((i + 1) as nat) + ". [script] "@ + command@;
                assert(holds(plan_entry((i + 1) as nat, actions[i], d), part));
                lemma_plan_entries_hold(actions, d, n, i, part);
                assert(holds(plan_text(config, actions, rules_dir), part));
            }
        },
    }
}

/// The rules of a directory hold every rule whole, under a header with its name,
/// and in the order of the names.
pub proof fn law_every_rule_is_loaded(names: Seq<Seq<char>>, contents: Seq<Option<String>>, i: int)
    requires
        0 <= i < names.len() == contents.len(),
        contents[i] is Some,
    ensures
        holds(
            join(rule_parts(names, contents), "\n\n---\n\n"@),
            "# Rule: "@ + names[i] + "\n\n"@ + contents[i].unwrap()@,
        ),
{
    law_a_joined_text_holds_its_parts(rule_parts(names, contents), "\n\n---\n\n"@, i);
}

/// The first file that could not be read is found.
pub proof fn law_the_first_unread_file_is_found(contents: Seq<Option<String>>)
    ensures
        first_unread(contents) <= contents.len(),
        forall|i: int| 0 <= i < first_unread(contents) ==> (#[trigger] contents[i]) is Some,
        first_unread(contents) < contents.len() ==> contents[first_unread(contents) as int] is None,
    decreases contents.len(),
{
    if contents.len() > 0 && contents[0] is Some {
        let rest = contents.skip(1);
        law_the_first_unread_file_is_found(rest);
        assert forall|i: int| 0 <= i < first_unread(contents) implies (
        #[trigger] contents[i]) is Some by {
            if i > 0 {
                assert(contents[i] == rest[i - 1]);
            }
        }
    }
}

/// Rules are the Markdown files of a directory, and they are taken in turn.
pub proof fn law_rules_are_markdown_files(a: Seq<DirEntry>, b: Seq<DirEntry>, e: DirEntry, stem: Seq<char>)
    ensures
        rule_names_in(a + b) == rule_names_in(a) + rule_names_in(b),
        e.is_file && stem.len() > 0 && e.name@ == stem + ".md"@ ==> rule_names_in(seq![e]) == seq![
            e.name@,
        ],
        !e.is_file ==> rule_names_in(seq![e]).len() == 0,
        e.name@.len() > 0 && e.name@.last() != 'd' ==> rule_names_in(seq![e]).len() == 0,
    decreases b.len(),
{
    reveal_strlit(".md");
    assert(seq![e].drop_last() =~= seq![]);
    assert(rule_names_in(seq![e].drop_last()).len() == 0);
    if e.is_file && stem.len() > 0 && e.name@ == stem + ".md"@ {
        assert(e.name@.skip(e.name@.len() - 3) =~= ".md"@);
        assert(rule_names_in(seq![e]) =~= seq![e.name@]);
    }
    if e.name@.len() > 0 && e.name@.last() != 'd' && has_suffix(e.name@, ".md"@) {
        assert(e.name@.skip(e.name@.len() - 3)[2] == 'd');
    }
    if b.len() == 0 {
        assert(a + b =~= a);
        assert(rule_names_in(a) + rule_names_in(b) =~= rule_names_in(a));
    } else {
        law_rules_are_markdown_files(a, b.drop_last(), e, stem);
        assert((a + b).drop_last() =~= a + b.drop_last());
        assert(rule_names_in(a + b) =~= rule_names_in(a) + rule_names_in(b));
    }
}

/// The agent is told its limit of turns: the configured one, or ten; and the rules
/// of the workspace, whole, where there are any.
pub proof fn law_prompts_hold_the_rules(max_turns: Option<u32>, rules: String)
    ensures
        max_turns is Some ==> holds(
            agent_prompt(max_turns, Some(rules)),
            dec(max_turns.unwrap() as nat) + "\n"@,
        ),
        holds(agent_prompt(None, Some(rules)), dec(10) + "\n"@),
        holds(agent_prompt(max_turns, Some(rules)), "\n\n---\n\n"@ + rules@),
        holds(agent_prompt(max_turns, Some(rules)), agent_prompt(max_turns, None)),
{
    broadcast use group_holds;

    lemma_limit_is_told(max_turns);
    lemma_limit_is_told(None);
}

proof fn lemma_limit_is_told(max_turns: Option<u32>)
    ensures
        holds(
            claw_rules(max_turns),
            dec(
                match max_turns {
                    Some(n) => n as nat,
                    None => 10,
                },
            ) + "\n"@,
        ),
{
    broadcast use group_holds;

    let n: nat = match max_turns {
        Some(n) => n as nat,
        None => 10,
    };
    let text = claw_rules(max_turns);
    let k = "# Claw Agent Rules\n\n## Conversation Turn Limit\n- Maximum conversation turns per session: "@.len() as int;
    reveal_strlit("\n");
    let tail = text.skip(k + dec(n).len());
    reveal_strlit(
        "\n- If the task cannot be completed within the turn limit, summarize progress and remaining steps before stopping.\n- Each prompt-response pair counts as one turn.\n\n## Response Format\n- Use JSON for structured data output (status reports, action results, diagnostics).\n- Use Markdown for human-readable explanations, plans, and summaries.\n- When both are appropriate, prefer JSON wrapped in a markdown code block.\n- Always include a top-level \"status\" field in JSON responses (\"success\", \"error\", \"partial\").\n\n## Error Handling\n- On transient errors (network, timeout), retry up to 3 times with exponential backoff.\n- On permanent errors (invalid input, missing resource), report immediately without retry.\n- Always include error context: what was attempted, what failed, and suggested next steps.\n- Never silently swallow errors; surface them in the response.",
    );
    let part = dec(n) + "\n"@;
    assert(text.subrange(k, k + part.len()) =~= part);
}

/// The model of a runtime is the one that is configured under its name.
pub proof fn law_models_are_found_by_name(runtimes: Seq<RuntimeInstance>, name: Seq<char>, i: int)
    requires
        0 <= i < runtimes.len(),
        runtimes[i].name@ == name,
        forall|j: int| 0 <= j < i ==> (#[trigger] runtimes[j]).name@ != name,
    ensures
        model_of(runtimes, name) == opt_text(runtimes[i].model),
    decreases i,
{
    if i > 0 {
        let rest = runtimes.skip(1);
        assert(runtimes[0].name@ != name);
        assert forall|j: int| 0 <= j < i - 1 implies (#[trigger] rest[j]).name@ != name by {
            assert(rest[j] == runtimes[j + 1]);
        }
        assert(rest[i - 1] == runtimes[i]);
        law_models_are_found_by_name(rest, name, i - 1);
    }
}

/// The first candidate that exists is chosen, whatever follows it.
pub proof fn law_the_first_directory_wins(candidates: Seq<Seq<char>>, present: Seq<bool>, i: int)
    requires
        0 <= i < candidates.len() == present.len(),
        present[i],
        forall|j: int| 0 <= j < i ==> !(#[trigger] present[j]),
    ensures
        first_present(candidates, present) == Some(candidates[i]),
    decreases i,
{
    if i > 0 {
        let rest = present.skip(1);
        assert(!present[0]);
        assert forall|j: int| 0 <= j < i - 1 implies !(#[trigger] rest[j]) by {
            assert(rest[j] == present[j + 1]);
        }
        law_the_first_directory_wins(candidates.skip(1), rest, i - 1);
    }
}

/// An action is what it looks like, with its whole text.
pub proof fn law_actions_keep_their_text(v: Seq<Action>, i: int)
    requires
        0 <= i < v.len(),
    ensures
        action_views(v).len() == v.len(),
        v[i] matches Action::Script { command } ==> action_views(v)[i] == (ActionView::Script {
            command: command@,
        }),
        v[i] matches Action::Prompt { text, runtime, model } ==> action_views(v)[i]
            == (ActionView::Prompt {
            text: text@,
            runtime: opt_text(runtime),
            model: opt_text(model),
        }),
{
}

} // verus!
