//! The overlays of the dashboard: the key bindings and the details of an item.

use vstd::prelude::*;

use crate::dashboard::panel::line_views;
use crate::dashboard::panel::LinesPanel;
use crate::dashboard::panel::LinesView;
use crate::dashboard::palette::phase_color;
use crate::dashboard::palette::phase_color_of;
use crate::queue::QueueItem;
use crate::style::bold;
use crate::style::colored;
use crate::style::heading;
use crate::style::plain;
use crate::style::Color;
use crate::style::Page;
use crate::style::SpanView;
use crate::text::cat3;
use crate::text::chars_of;
use crate::text::string_of;

verus! {

// ---------------------------------------------------------------------------
// Lines
// ---------------------------------------------------------------------------

fn add_line(lines: &mut Vec<Page>, line: Page)
    ensures
        line_views(final(lines)@) == line_views(old(lines)@).push(line@),
{
    lines.push(line);
    proof {
        assert(line_views(lines@) =~= line_views(old(lines)@).push(line@));
    }
}

fn add_empty(lines: &mut Vec<Page>)
    ensures
        line_views(final(lines)@) == line_views(old(lines)@).push(seq![]),
{
    let line = Page::new();
    proof {
        assert(line@ =~= seq![]);
    }
    add_line(lines, line);
}

fn add_heading(lines: &mut Vec<Page>, text: &str)
    ensures
        line_views(final(lines)@) == line_views(old(lines)@).push(seq![heading(text@)]),
{
    let mut line = Page::new();
    line.heading(text);
    proof {
        assert(line@ =~= seq![heading(text@)]);
    }
    add_line(lines, line);
}

fn add_colored(lines: &mut Vec<Page>, text: &str, c: Color)
    ensures
        line_views(final(lines)@) == line_views(old(lines)@).push(seq![colored(text@, c)]),
{
    let mut line = Page::new();
    line.colored(text, c);
    proof {
        assert(line@ =~= seq![colored(text@, c)]);
    }
    add_line(lines, line);
}

/// A labelled value.
pub open spec fn field(label: Seq<char>, text: Seq<char>) -> Seq<SpanView> {
    seq![bold(label), plain(text)]
}

fn add_field(lines: &mut Vec<Page>, label: &str, text: &str)
    ensures
        line_views(final(lines)@) == line_views(old(lines)@).push(field(label@, text@)),
{
    let mut line = Page::new();
    line.bold(label);
    line.plain(text);
    proof {
        assert(line@ =~= field(label@, text@));
    }
    add_line(lines, line);
}

// ---------------------------------------------------------------------------
// Help
// ---------------------------------------------------------------------------

/// A key and what it does.
pub open spec fn binding(key: Seq<char>, c: Color, text: Seq<char>) -> Seq<SpanView> {
    seq![colored(key, c), plain(text)]
}

fn add_binding(lines: &mut Vec<Page>, key: &str, c: Color, text: &str)
    ensures
        line_views(final(lines)@) == line_views(old(lines)@).push(binding(key@, c, text@)),
{
    let mut line = Page::new();
    line.colored(key, c);
    line.plain(text);
    proof {
        assert(line@ =~= binding(key@, c, text@));
    }
    add_line(lines, line);
}

/// The key bindings of the dashboard.
pub open spec fn help_lines() -> Seq<Seq<SpanView>> {
    seq![
        seq![heading("Key Bindings"@)],
        seq![],
        binding("  d       "@, Color::Yellow, "Switch to Dashboard tab"@),
        binding("  w       "@, Color::Yellow, "Switch to Per-Workspace tab"@),
        binding("  s       "@, Color::Yellow, "Switch to Spec progress tab"@),
        binding("  b       "@, Color::Yellow, "Switch to Board (kanban) tab"@),
        binding("  n       "@, Color::Yellow, "Switch to DataSource status tab"@),
        binding("  x       "@, Color::Yellow, "Switch to Scripts statistics tab"@),
        binding("  h       "@, Color::Yellow, "Show this help"@),
        seq![],
        binding("  j/Down  "@, Color::Cyan, "Move selection down"@),
        binding("  k/Up    "@, Color::Cyan, "Move selection up"@),
        binding("  Left    "@, Color::Cyan, "Previous workspace (Workspace tab)"@),
        binding("  Right   "@, Color::Cyan, "Next workspace (Workspace tab)"@),
        binding("  Tab     "@, Color::Cyan, "Cycle to next tab (Shift+Tab: previous)"@),
        binding("  Enter   "@, Color::Cyan, "Open item detail overlay"@),
        seq![],
        binding("  q/Esc   "@, Color::Red, "Quit / close overlay"@),
        seq![],
        seq![colored("Press any key to close"@, Color::DarkGray)],
    ]
}

/// The help overlay with all key bindings.
pub fn render_help_overlay() -> (r: LinesPanel)
    ensures
        r@ == (LinesView { title: " Help "@, border: Color::Yellow, lines: help_lines() }),
{
    let mut lines: Vec<Page> = Vec::new();
    add_heading(&mut lines, "Key Bindings");
    add_empty(&mut lines);
    add_binding(&mut lines, "  d       ", Color::Yellow, "Switch to Dashboard tab");
    add_binding(&mut lines, "  w       ", Color::Yellow, "Switch to Per-Workspace tab");
    add_binding(&mut lines, "  s       ", Color::Yellow, "Switch to Spec progress tab");
    add_binding(&mut lines, "  b       ", Color::Yellow, "Switch to Board (kanban) tab");
    add_binding(&mut lines, "  n       ", Color::Yellow, "Switch to DataSource status tab");
    add_binding(&mut lines, "  x       ", Color::Yellow, "Switch to Scripts statistics tab");
    add_binding(&mut lines, "  h       ", Color::Yellow, "Show this help");
    add_empty(&mut lines);
    add_binding(&mut lines, "  j/Down  ", Color::Cyan, "Move selection down");
    add_binding(&mut lines, "  k/Up    ", Color::Cyan, "Move selection up");
    add_binding(&mut lines, "  Left    ", Color::Cyan, "Previous workspace (Workspace tab)");
    add_binding(&mut lines, "  Right   ", Color::Cyan, "Next workspace (Workspace tab)");
    add_binding(&mut lines, "  Tab     ", Color::Cyan, "Cycle to next tab (Shift+Tab: previous)");
    add_binding(&mut lines, "  Enter   ", Color::Cyan, "Open item detail overlay");
    add_empty(&mut lines);
    add_binding(&mut lines, "  q/Esc   ", Color::Red, "Quit / close overlay");
    add_empty(&mut lines);
    add_colored(&mut lines, "Press any key to close", Color::DarkGray);
    proof {
        assert(line_views(lines@) =~= help_lines());
    }
    LinesPanel { title: " Help ".to_string(), border: Color::Yellow, lines }
}

// ---------------------------------------------------------------------------
// Times
// ---------------------------------------------------------------------------

/// The position of the first `T`, or the length of the text.
pub open spec fn time_mark(s: Seq<char>) -> nat {
    crate::scan::first_index(s, 'T')
}

/// A character that begins a time zone.
pub open spec fn begins_zone(c: char) -> bool {
    c == '+' || c == '-' || c == 'Z'
}

/// The text up to its time zone.
pub open spec fn before_zone(s: Seq<char>) -> Seq<char>
    decreases s.len(),
{
    if s.len() == 0 || begins_zone(s[0]) {
        seq![]
    } else {
        seq![s[0]] + before_zone(s.drop_first())
    }
}

/// The date and the time of day of a timestamp, without its time zone; a text
/// without a time of day is kept.
pub open spec fn short_time(s: Seq<char>) -> Seq<char> {
    let t = time_mark(s) as int;
    if t < s.len() {
        s.take(t) + " "@ + before_zone(s.skip(t + 1))
    } else {
        s
    }
}

proof fn lemma_before_zone(s: Seq<char>, n: int)
    requires
        0 <= n <= s.len(),
        forall|i: int| 0 <= i < n ==> !begins_zone(#[trigger] s[i]),
        n == s.len() || begins_zone(s[n]),
    ensures
        before_zone(s) == s.take(n),
    decreases n,
{
    if n > 0 {
        let rest = s.drop_first();
        assert forall|i: int| 0 <= i < n - 1 implies !begins_zone(#[trigger] rest[i]) by {
            assert(rest[i] == s[i + 1]);
        }
        lemma_before_zone(rest, n - 1);
        assert(seq![s[0]] + rest.take(n - 1) =~= s.take(n));
    } else {
        assert(s.take(0) =~= seq![]);
    }
}

/// Formats an RFC 3339 timestamp to a shorter display form.
///
/// Shows the date and `HH:MM:SS` for compact display. Falls back to the full
/// timestamp where it holds no time of day.
pub fn format_transition_time(timestamp: &str) -> (r: String)
    ensures
        r@ == short_time(timestamp@),
{
    let cs = chars_of(timestamp);
    let t: usize = crate::scan::index_of(&cs, 'T');
    if t < cs.len() {
        let mut end: usize = t + 1;
        let ghost rest = timestamp@.skip(t + 1);
        while end < cs.len() && cs[end] != '+' && cs[end] != '-' && cs[end] != 'Z'
            invariant
                t < end <= cs.len(),
                cs@ == timestamp@,
                rest == timestamp@.skip(t + 1),
                forall|i: int| 0 <= i < end - t - 1 ==> !begins_zone(#[trigger] rest[i]),
            decreases cs.len() - end,
        {
            proof {
                assert(rest[end - t - 1] == timestamp@[end as int]);
            }
            end = end + 1;
        }
        proof {
            if end < cs.len() {
                assert(rest[end - t - 1] == timestamp@[end as int]);
            }
            lemma_before_zone(rest, end - t - 1);
            assert(timestamp@.subrange(t + 1, end as int) =~= rest.take(end - t - 1));
            assert(timestamp@.subrange(0, t as int) =~= timestamp@.take(t as int));
        }
        let date = string_of(&cs, 0, t);
        let time = string_of(&cs, t + 1, end);
        cat3(date.as_str(), " ", time.as_str())
    } else {
        timestamp.to_owned()
    }
}

// ---------------------------------------------------------------------------
// Details of an item
// ---------------------------------------------------------------------------

/// A change of the state of an item.
#[derive(Debug, Clone)]
pub struct StateChange {
    pub from_state: String,
    pub to_state: String,
    pub timestamp: String,
}

/// What the queue holds of the item `work_id`.
pub open spec fn item_lines(work_id: Seq<char>, item: Option<QueueItem>) -> Seq<Seq<SpanView>> {
    match item {
        Some(item) => {
            let known = seq![
                field("ID: "@, item.work_id@),
                seq![
                    bold("Status: "@),
                    colored(item.phase.name(), phase_color_of(item.phase.name())),
                ],
                field("State: "@, item.state@),
                field("Workspace: "@, item.workspace_id@),
                field("Created: "@, item.created_at@),
                field("Updated: "@, item.updated_at@),
            ];
            match item.title {
                Some(title) => known.push(field("Title: "@, title@)),
                None => known,
            }
        },
        None => seq![
            field("ID: "@, work_id),
            seq![colored("(item not found in database)"@, Color::Red)],
        ],
    }
}

/// One change of state.
pub open spec fn change_line(e: StateChange) -> Seq<SpanView> {
    seq![
        plain("  "@),
        colored(e.from_state@, phase_color_of(e.from_state@)),
        colored(" -> "@, Color::Gray),
        colored(e.to_state@, phase_color_of(e.to_state@)),
        plain("  "@),
        colored(short_time(e.timestamp@), Color::DarkGray),
    ]
}

/// The changes of state, in order.
pub open spec fn timeline(events: Seq<StateChange>) -> Seq<Seq<SpanView>> {
    if events.len() == 0 {
        seq![seq![colored("  (no transitions recorded)"@, Color::DarkGray)]]
    } else {
        events.map_values(|e: StateChange| change_line(e))
    }
}

/// The details of an item.
pub open spec fn detail_lines(
    work_id: Seq<char>,
    item: Option<QueueItem>,
    events: Seq<StateChange>,
) -> Seq<Seq<SpanView>> {
    item_lines(work_id, item) + seq![seq![], seq![heading("Transition Timeline:"@)]] + timeline(
        events,
    ) + seq![seq![], seq![colored("[q/Esc] Close"@, Color::DarkGray)]]
}

fn draw_item(work_id: &str, item: &Option<QueueItem>) -> (r: Vec<Page>)
    ensures
        line_views(r@) == item_lines(work_id@, *item),
{
    let mut lines: Vec<Page> = Vec::new();
    match item {
        Some(item) => {
            add_field(&mut lines, "ID: ", item.work_id.as_str());
            let mut status = Page::new();
            status.bold("Status: ");
            status.colored(item.phase.as_str(), phase_color(item.phase.as_str()));
            proof {
                assert(status@ =~= seq![
                    bold("Status: "@),
                    colored(item.phase.name(), phase_color_of(item.phase.name())),
                ]);
            }
            add_line(&mut lines, status);
            add_field(&mut lines, "State: ", item.state.as_str());
            add_field(&mut lines, "Workspace: ", item.workspace_id.as_str());
            add_field(&mut lines, "Created: ", item.created_at.as_str());
            add_field(&mut lines, "Updated: ", item.updated_at.as_str());
            match &item.title {
                Some(title) => {
                    add_field(&mut lines, "Title: ", title.as_str());
                },
                None => {},
            }
        },
        None => {
            add_field(&mut lines, "ID: ", work_id);
            add_colored(&mut lines, "(item not found in database)", Color::Red);
        },
    }
    proof {
        assert(line_views(lines@) =~= item_lines(work_id@, *item));
    }
    lines
}

fn draw_change(e: &StateChange) -> (r: Page)
    ensures
        r@ == change_line(*e),
{
    let mut line = Page::new();
    line.plain("  ");
    line.colored(e.from_state.as_str(), phase_color(e.from_state.as_str()));
    line.colored(" -> ", Color::Gray);
    line.colored(e.to_state.as_str(), phase_color(e.to_state.as_str()));
    line.plain("  ");
    let time = format_transition_time(e.timestamp.as_str());
    line.colored(time.as_str(), Color::DarkGray);
    line
}

/// Builds the text lines for the item detail overlay.
pub fn build_detail_lines(
    work_id: &str,
    item: &Option<QueueItem>,
    transitions: &Vec<StateChange>,
) -> (r: Vec<Page>)
    ensures
        line_views(r@) == detail_lines(work_id@, *item, transitions@),
{
    let mut lines = draw_item(work_id, item);
    add_empty(&mut lines);
    add_heading(&mut lines, "Transition Timeline:");
    let ghost head = line_views(lines@);
    proof {
        assert(head =~= item_lines(work_id@, *item) + seq![
            seq![],
            seq![heading("Transition Timeline:"@)],
        ]);
    }
    if transitions.len() == 0 {
        add_colored(&mut lines, "  (no transitions recorded)", Color::DarkGray);
    } else {
        let mut i: usize = 0;
        while i < transitions.len()
            invariant
                i <= transitions.len(),
                line_views(lines@) == head + transitions@.take(i as int).map_values(
                    |e: StateChange| change_line(e),
                ),
            decreases transitions.len() - i,
        {
            let ghost before = line_views(lines@);
            add_line(&mut lines, draw_change(&transitions[i]));
            proof {
                assert(head + transitions@.take(i + 1).map_values(
                    |e: StateChange| change_line(e),
                ) =~= before.push(change_line(transitions@[i as int])));
            }
            i = i + 1;
        }
        proof {
            assert(transitions@.take(i as int) =~= transitions@);
        }
    }
    proof {
        assert(line_views(lines@) =~= head + timeline(transitions@));
    }
    add_empty(&mut lines);
    add_colored(&mut lines, "[q/Esc] Close", Color::DarkGray);
    proof {
        assert(line_views(lines@) =~= detail_lines(work_id@, *item, transitions@));
    }
    lines
}

/// The item detail overlay: the metadata of the item and a timeline of its
/// changes of state.
pub fn render_item_detail_overlay(
    work_id: &str,
    item: &Option<QueueItem>,
    transitions: &Vec<StateChange>,
) -> (r: LinesPanel)
    ensures
        r@ == (LinesView {
            title: " Item Details "@,
            border: Color::Yellow,
            lines: detail_lines(work_id@, *item, transitions@),
        }),
{
    let lines = build_detail_lines(work_id, item, transitions);
    LinesPanel { title: " Item Details ".to_string(), border: Color::Yellow, lines }
}

// ---------------------------------------------------------------------------
// Laws
// ---------------------------------------------------------------------------

/// A time is shown as its date, a blank and its clock, without its zone.
pub proof fn law_times_are_shown_without_their_zone(
    date: Seq<char>,
    clock: Seq<char>,
    zone: Seq<char>,
)
    requires
        forall|i: int| 0 <= i < date.len() ==> date[i] != 'T',
        forall|i: int|
            0 <= i < clock.len() ==> clock[i] != '+' && clock[i] != '-' && clock[i] != 'Z',
        zone.len() > 0 ==> zone[0] == '+' || zone[0] == '-' || zone[0] == 'Z',
    ensures
        short_time(date + seq!['T'] + clock + zone) == date + seq![' '] + clock,
{
    let s = date + seq!['T'] + clock + zone;
    let t = date.len() as int;
    crate::scan::lemma_first_index(s, 'T', t);
    assert(s.take(t) =~= date);
    let rest = s.skip(t + 1);
    assert(rest =~= clock + zone);
    lemma_clock(clock, zone);
    reveal_strlit(" ");
    assert(" "@ =~= seq![' ']);
}

proof fn lemma_clock(clock: Seq<char>, zone: Seq<char>)
    requires
        forall|i: int|
            0 <= i < clock.len() ==> clock[i] != '+' && clock[i] != '-' && clock[i] != 'Z',
        zone.len() > 0 ==> zone[0] == '+' || zone[0] == '-' || zone[0] == 'Z',
    ensures
        before_zone(clock + zone) == clock,
    decreases clock.len(),
{
    let s = clock + zone;
    if clock.len() > 0 {
        let rest = clock.drop_first();
        assert forall|i: int| 0 <= i < rest.len() implies rest[i] != '+' && rest[i] != '-' && rest[i]
            != 'Z' by {
            assert(rest[i] == clock[i + 1]);
        }
        lemma_clock(rest, zone);
        assert(s[0] == clock[0]);
        assert(s.drop_first() =~= rest + zone);
        assert(seq![clock[0]] + rest =~= clock);
    }
}

/// A text without a time in it is shown as it is.
pub proof fn law_other_texts_are_kept(s: Seq<char>)
    requires
        forall|i: int| 0 <= i < s.len() ==> s[i] != 'T',
    ensures
        short_time(s) == s,
{
    crate::scan::lemma_first_index(s, 'T', s.len() as int);
}

/// The details of an item are those of the item: each field on its line.
pub proof fn law_details_are_those_of_the_item(work_id: Seq<char>, item: QueueItem)
    ensures
        item_lines(work_id, Some(item))[0][1].text == item.work_id@,
        item_lines(work_id, Some(item))[1][1].text == item.phase.name(),
        item_lines(work_id, Some(item))[2][1].text == item.state@,
        item_lines(work_id, Some(item))[3][1].text == item.workspace_id@,
        item_lines(work_id, Some(item))[4][1].text == item.created_at@,
        item_lines(work_id, Some(item))[5][1].text == item.updated_at@,
        item.title matches Some(t) ==> item_lines(work_id, Some(item)).len() == 7 && item_lines(
            work_id,
            Some(item),
        )[6][1].text == t@,
        item.title is None ==> item_lines(work_id, Some(item)).len() == 6,
        item_lines(work_id, None)[0][1].text == work_id,
{
}

/// Every change of an item stands on its timeline, in their order: from where, to
/// where and when.
pub proof fn law_every_change_is_on_the_timeline(
    work_id: Seq<char>,
    item: Option<QueueItem>,
    events: Seq<StateChange>,
    i: int,
)
    requires
        0 <= i < events.len(),
    ensures
        ({
            let all = detail_lines(work_id, item, events);
            let at = item_lines(work_id, item).len() + 2 + i;
            &&& at < all.len()
            &&& all[at][1].text == events[i].from_state@
            &&& all[at][3].text == events[i].to_state@
            &&& all[at][5].text == short_time(events[i].timestamp@)
            &&& all.len() == item_lines(work_id, item).len() + events.len() + 4
        }),
{
    assert(timeline(events)[i] == change_line(events[i]));
}

/// The help names every key with what it does.
pub proof fn law_the_help_names_every_key()
    ensures
        help_lines()[2] == seq![
            colored("  d       "@, Color::Yellow),
            plain("Switch to Dashboard tab"@),
        ],
        help_lines()[3] == seq![
            colored("  w       "@, Color::Yellow),
            plain("Switch to Per-Workspace tab"@),
        ],
        help_lines()[4] == seq![
            colored("  s       "@, Color::Yellow),
            plain("Switch to Spec progress tab"@),
        ],
        help_lines()[5] == seq![
            colored("  b       "@, Color::Yellow),
            plain("Switch to Board (kanban) tab"@),
        ],
        help_lines()[6] == seq![
            colored("  n       "@, Color::Yellow),
            plain("Switch to DataSource status tab"@),
        ],
        help_lines()[7] == seq![
            colored("  x       "@, Color::Yellow),
            plain("Switch to Scripts statistics tab"@),
        ],
        help_lines()[10][1].text == "Move selection down"@,
        help_lines()[11][1].text == "Move selection up"@,
        help_lines()[15][1].text == "Open item detail overlay"@,
{
}

} // verus!
