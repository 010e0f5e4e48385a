//! What `belt status` and `belt spec status` print, as `text` or `rich`.
//!
//! The rich form is a stream of styled spans; line feeds stand inside the
//! plain spans. A cell whose text is styled carries no padding.

use vstd::prelude::*;

use crate::bytes::byte_len;
use crate::bytes::byte_prefix;
use crate::bytes::bytes_in;
use crate::bytes::cuts_at;
use crate::bytes::exceeds;
use crate::bytes::first_bytes;
use crate::dashboard::palette::phase_color;
use crate::dashboard::palette::phase_color_of;
use crate::numbers::fmt_num;
use crate::numbers::grouped;
use crate::numbers::lemma_dec_short;
use crate::numbers::progress_bar;
use crate::numbers::render_progress_bar;
use crate::order::is_order;
use crate::order::largest_first;
use crate::order::order_largest_first;
use crate::pieces::found_at;
use crate::pieces::group_holds;
use crate::pieces::group_parts;
use crate::pieces::holds;
use crate::pieces::part_of;
use crate::scan::join;
use crate::scan::joined;
use crate::scan::law_a_joined_text_holds_its_parts;
use crate::status::EventSummary;
use crate::status::ItemSummary;
use crate::status::ModelStats;
use crate::status::ModelTokenSummary;
use crate::status::PhaseCount;
use crate::status::RuntimeStats;
use crate::status::SpecStatus;
use crate::status::SystemStatus;
use crate::status::TokenUsageSummary;
use crate::status::WorkspaceSummary;
use crate::style::bold;
use crate::style::bold_colored;
use crate::style::colored;
use crate::style::heading;
use crate::style::plain;
use crate::style::Color;
use crate::style::Page;
use crate::style::SpanView;
use crate::text::dec;
use crate::text::dec_u32;
use crate::text::dec_u64;
use crate::text::dec_usize;
use crate::text::lack;
use crate::text::law_padding_keeps_the_text;
use crate::text::pad_center;
use crate::text::pad_left;
use crate::text::pad_right;
use crate::text::padded_center;
use crate::text::padded_left;
use crate::text::padded_right;
use crate::text::repeat;
use crate::text::repeat_char;
use crate::text::text_eq;
use crate::text::text_or;
use crate::text::texts;
use crate::text::unwrap_text;

verus! {

/// Minimum box width for rich output (characters inside borders).
pub const MIN_BOX_WIDTH: usize = 38;

/// Maximum box width for rich output.
pub const MAX_BOX_WIDTH: usize = 100;

/// The inner box width on a terminal of `tw` columns: two columns of margin
/// and one of border on each side, within the two bounds.
pub open spec fn box_width(tw: int) -> int {
    if tw - 6 < MIN_BOX_WIDTH {
        MIN_BOX_WIDTH as int
    } else if tw - 6 > MAX_BOX_WIDTH {
        MAX_BOX_WIDTH as int
    } else {
        tw - 6
    }
}

/// The inner box width on a terminal of `terminal_width` columns.
///
/// Leaves a 2-column margin on each side of the terminal and clamps the
/// result between [`MIN_BOX_WIDTH`] and [`MAX_BOX_WIDTH`].
pub fn box_content_width(terminal_width: usize) -> (r: usize)
    ensures
        r == box_width(terminal_width as int),
        MIN_BOX_WIDTH <= r <= MAX_BOX_WIDTH,
{
    let inner: usize = terminal_width.saturating_sub(6);
    if inner < MIN_BOX_WIDTH {
        MIN_BOX_WIDTH
    } else if inner > MAX_BOX_WIDTH {
        MAX_BOX_WIDTH
    } else {
        inner
    }
}

/// The colours that the rich output draws; any other is drawn white.
pub open spec fn terminal_color(c: Color) -> Color {
    match c {
        Color::Gray => Color::Gray,
        Color::Blue => Color::Blue,
        Color::Green => Color::Green,
        Color::Cyan => Color::Cyan,
        Color::White => Color::White,
        Color::Yellow => Color::Yellow,
        Color::Red => Color::Red,
        Color::DarkGray => Color::DarkGray,
        _ => Color::White,
    }
}

/// The colour in which the rich output draws `c`.
pub fn to_crossterm_color(c: Color) -> (r: Color)
    ensures
        r == terminal_color(c),
{
    match c {
        Color::Gray => Color::Gray,
        Color::Blue => Color::Blue,
        Color::Green => Color::Green,
        Color::Cyan => Color::Cyan,
        Color::White => Color::White,
        Color::Yellow => Color::Yellow,
        Color::Red => Color::Red,
        Color::DarkGray => Color::DarkGray,
        _ => Color::White,
    }
}

// ---------------------------------------------------------------------------
// The header box
// ---------------------------------------------------------------------------

/// A horizontal border between two corner characters, and a line feed.
pub open spec fn border(left: Seq<char>, w: nat, right: Seq<char>) -> Seq<char> {
    left + repeat('─', w) + right + "\n"@
}

fn border_line(left: &str, w: usize, right: &str) -> (r: String)
    ensures
        r@ == border(left@, w as nat, right@),
{
    let mut out = left.to_owned();
    let rule = repeat_char('─', w);
    out.append(rule.as_str());
    out.append(right);
    out.append("\n");
    out
}

/// The end of a box row: `n` blanks and the right border.
pub open spec fn row_end(n: nat) -> Seq<char> {
    repeat(' ', n) + " │\n"@
}

fn end_of_row(n: usize) -> (r: String)
    ensures
        r@ == row_end(n as nat),
{
    let mut out = repeat_char(' ', n);
    out.append(" │\n");
    out
}

/// The row that says whether the daemon runs.
pub open spec fn daemon_row(running: Option<bool>, w: nat) -> Seq<SpanView> {
    match running {
        None => seq![],
        Some(true) => seq![
            plain("│ Daemon: "@),
            colored("● running"@, Color::Green),
            plain(row_end((w - 17) as nat)),
        ],
        Some(false) => seq![
            plain("│ Daemon: "@),
            colored("○ stopped"@, Color::Red),
            plain(row_end((w - 17) as nat)),
        ],
    }
}

/// The row with the number of items.
pub open spec fn total_row(total: nat, w: nat) -> Seq<char> {
    "│ Total items: "@ + dec(total) + row_end((w - 15 - dec(total).len()) as nat)
}

/// The row with the number of items that wait for a human, if any do.
pub open spec fn hitl_row(count: nat, w: nat) -> Seq<SpanView> {
    if count > 0 {
        seq![
            plain("│ HITL items:  "@),
            colored(dec(count), Color::Yellow),
            plain(row_end((w - 15 - dec(count).len()) as nat)),
        ]
    } else {
        seq![]
    }
}

/// The box with the totals.
pub open spec fn header_box(
    total: nat,
    hitl: nat,
    running: Option<bool>,
    w: nat,
) -> Seq<SpanView> {
    seq![
        plain(border("┌"@, w, "┐"@)),
        plain("│ "@),
        bold(pad_center("Belt System Status"@, (w - 2) as nat)),
        plain(" │\n"@),
        plain(border("├"@, w, "┤"@)),
    ] + daemon_row(running, w) + seq![plain(total_row(total, w))] + hitl_row(hitl, w) + seq![
        plain(border("└"@, w, "┘"@)),
    ]
}

fn draw_daemon_row(running: Option<bool>, w: usize) -> (r: Page)
    requires
        MIN_BOX_WIDTH <= w,
    ensures
        r@ == daemon_row(running, w as nat),
{
    let mut page = Page::new();
    match running {
        None => {},
        Some(true) => {
            page.plain("│ Daemon: ");
            page.colored("● running", Color::Green);
            let end = end_of_row(w - 17);
            page.plain(end.as_str());
        },
        Some(false) => {
            page.plain("│ Daemon: ");
            page.colored("○ stopped", Color::Red);
            let end = end_of_row(w - 17);
            page.plain(end.as_str());
        },
    }
    page
}

fn draw_total_row(total: u32, w: usize) -> (r: Page)
    requires
        MIN_BOX_WIDTH <= w,
    ensures
        r@ == seq![plain(total_row(total as nat, w as nat))],
{
    let digits = dec_u32(total);
    proof {
        lemma_dec_short(total as nat);
    }
    let mut row = "│ Total items: ".to_string();
    row.append(digits.as_str());
    let end = end_of_row(w - 15 - digits.as_str().unicode_len());
    row.append(end.as_str());
    let mut page = Page::new();
    page.plain(row.as_str());
    page
}

fn draw_hitl_row(count: u32, w: usize) -> (r: Page)
    requires
        MIN_BOX_WIDTH <= w,
    ensures
        r@ == hitl_row(count as nat, w as nat),
{
    let mut page = Page::new();
    if count > 0 {
        let digits = dec_u32(count);
        proof {
            lemma_dec_short(count as nat);
        }
        page.plain("│ HITL items:  ");
        page.colored(digits.as_str(), Color::Yellow);
        let end = end_of_row(w - 15 - digits.as_str().unicode_len());
        page.plain(end.as_str());
    }
    page
}

fn draw_header_box(total: u32, hitl: u32, running: Option<bool>, w: usize) -> (r: Page)
    requires
        MIN_BOX_WIDTH <= w,
    ensures
        r@ == header_box(total as nat, hitl as nat, running, w as nat),
{
    let mut page = Page::new();
    let top = border_line("┌", w, "┐");
    page.plain(top.as_str());
    page.plain("│ ");
    let title = padded_center("Belt System Status", w - 2);
    page.bold(title.as_str());
    page.plain(" │\n");
    let middle = border_line("├", w, "┤");
    page.plain(middle.as_str());
    page.append_page(draw_daemon_row(running, w));
    page.append_page(draw_total_row(total, w));
    page.append_page(draw_hitl_row(hitl, w));
    let bottom = border_line("└", w, "┘");
    let mut last = Page::new();
    last.plain(bottom.as_str());
    page.append_page(last);
    page
}

// ---------------------------------------------------------------------------
// Tables
// ---------------------------------------------------------------------------

/// The border between two cells.
pub open spec fn cell_border() -> SpanView {
    colored("│"@, Color::DarkGray)
}

/// A rule under a table head: three crossings with rules of the given widths
/// after them, and a line feed.
pub open spec fn table_rule(a: nat, b: nat, c: nat) -> Seq<SpanView> {
    seq![
        plain("  "@),
        colored("┼"@, Color::DarkGray),
        plain(repeat('─', a)),
        colored("┼"@, Color::DarkGray),
        plain(repeat('─', b)),
        colored("┼"@, Color::DarkGray),
        plain(repeat('─', c) + "\n"@),
    ]
}

/// A table head of three columns.
pub open spec fn table_head(a: Seq<char>, b: Seq<char>, c: Seq<char>) -> Seq<SpanView> {
    seq![
        plain("  "@),
        cell_border(),
        plain(" "@),
        heading(a),
        plain(" "@),
        cell_border(),
        plain(" "@),
        heading(b),
        plain(" "@),
        cell_border(),
        plain(" "@),
        heading(c),
        plain("\n"@),
    ]
}

fn draw_table_rule(a: usize, b: usize, c: usize) -> (r: Page)
    ensures
        r@ == table_rule(a as nat, b as nat, c as nat),
{
    let mut page = Page::new();
    page.plain("  ");
    page.colored("┼", Color::DarkGray);
    let ra = repeat_char('─', a);
    page.plain(ra.as_str());
    page.colored("┼", Color::DarkGray);
    let rb = repeat_char('─', b);
    page.plain(rb.as_str());
    page.colored("┼", Color::DarkGray);
    let mut rc = repeat_char('─', c);
    rc.append("\n");
    page.plain(rc.as_str());
    page
}

fn draw_table_head(a: &str, b: &str, c: &str) -> (r: Page)
    ensures
        r@ == table_head(a@, b@, c@),
{
    let mut page = Page::new();
    page.plain("  ");
    page.colored("│", Color::DarkGray);
    page.plain(" ");
    page.heading(a);
    page.plain(" ");
    page.colored("│", Color::DarkGray);
    page.plain(" ");
    page.heading(b);
    page.plain(" ");
    page.colored("│", Color::DarkGray);
    page.plain(" ");
    page.heading(c);
    page.plain("\n");
    page
}

/// The width of the bars in the phase table.
pub open spec fn phase_bar_width(w: int) -> nat {
    if w - 32 < 8 {
        8
    } else {
        (w - 32) as nat
    }
}

/// One row of the phase table.
pub open spec fn phase_row(pc: PhaseCount, pct: u32, w: int) -> Seq<SpanView> {
    seq![
        plain("  "@),
        cell_border(),
        plain(" "@),
        colored(pad_right(pc.phase@, 14), terminal_color(phase_color_of(pc.phase@))),
        plain(" "@),
        cell_border(),
        plain(" "@ + pad_right(dec(pc.count as nat), 8) + " "@),
        cell_border(),
        plain(
            " "@ + progress_bar(pct as nat, phase_bar_width(w)) + " "@ + pad_left(
                dec(pct as nat),
                3,
            ) + "%\n"@,
        ),
    ]
}

/// The first `n` rows of the phase table.
pub open spec fn phase_rows(
    counts: Seq<PhaseCount>,
    percents: Seq<u32>,
    w: int,
    n: nat,
) -> Seq<SpanView>
    decreases n,
{
    if n == 0 {
        seq![]
    } else {
        phase_rows(counts, percents, w, (n - 1) as nat) + phase_row(
            counts[n - 1],
            percents[n - 1],
            w,
        )
    }
}

/// The phase table: head, rule and one row for each phase.
pub open spec fn phase_table(counts: Seq<PhaseCount>, percents: Seq<u32>, w: int) -> Seq<
    SpanView,
> {
    if counts.len() == 0 {
        seq![]
    } else {
        seq![plain("\n"@)] + table_head("Phase"@, "Count"@, "Progress"@) + table_rule(16, 9, 17)
            + phase_rows(counts, percents, w, counts.len())
    }
}

/// Each percentage leaves room for the arithmetic of its bar.
pub open spec fn bars_fit(percents: Seq<u32>, width: nat) -> bool {
    forall|i: int| 0 <= i < percents.len() ==> (#[trigger] percents[i]) * width <= usize::MAX
}

fn draw_phase_row(pc: &PhaseCount, pct: u32, w: usize) -> (r: Page)
    requires
        w <= MAX_BOX_WIDTH,
        pct * phase_bar_width(w as int) <= usize::MAX,
    ensures
        r@ == phase_row(*pc, pct, w as int),
{
    let width: usize = if w < 40 {
        8
    } else {
        w - 32
    };
    let mut page = Page::new();
    page.plain("  ");
    page.colored("│", Color::DarkGray);
    page.plain(" ");
    let name = padded_right(pc.phase.as_str(), 14);
    page.colored(name.as_str(), to_crossterm_color(phase_color(pc.phase.as_str())));
    page.plain(" ");
    page.colored("│", Color::DarkGray);
    let digits = dec_u32(pc.count);
    let mut count = " ".to_string();
    let cell = padded_right(digits.as_str(), 8);
    count.append(cell.as_str());
    count.append(" ");
    page.plain(count.as_str());
    page.colored("│", Color::DarkGray);
    let mut share = " ".to_string();
    let bar = render_progress_bar(pct, width);
    share.append(bar.as_str());
    share.append(" ");
    let pct_digits = dec_u32(pct);
    let pct_cell = padded_left(pct_digits.as_str(), 3);
    share.append(pct_cell.as_str());
    share.append("%\n");
    page.plain(share.as_str());
    page
}

fn draw_phase_table(counts: &Vec<PhaseCount>, percents: &Vec<u32>, w: usize) -> (r: Page)
    requires
        w <= MAX_BOX_WIDTH,
        percents.len() == counts.len(),
        bars_fit(percents@, phase_bar_width(w as int)),
    ensures
        r@ == phase_table(counts@, percents@, w as int),
{
    let mut page = Page::new();
    if counts.len() > 0 {
        page.plain("\n");
        page.append_page(draw_table_head("Phase", "Count", "Progress"));
        page.append_page(draw_table_rule(16, 9, 17));
        let mut rows = Page::new();
        let mut i: usize = 0;
        while i < counts.len()
            invariant
                i <= counts.len(),
                w <= MAX_BOX_WIDTH,
                percents.len() == counts.len(),
                bars_fit(percents@, phase_bar_width(w as int)),
                rows@ == phase_rows(counts@, percents@, w as int, i as nat),
            decreases counts.len() - i,
        {
            rows.append_page(draw_phase_row(&counts[i], percents[i], w));
            i = i + 1;
        }
        page.append_page(rows);
    }
    page
}

// ---------------------------------------------------------------------------
// Workspaces
// ---------------------------------------------------------------------------

/// The names and counts of the phases, `name:count` each.
pub open spec fn phase_tags(counts: Seq<PhaseCount>) -> Seq<Seq<char>> {
    Seq::new(counts.len(), |i: int| counts[i].phase@ + ":"@ + dec(counts[i].count as nat))
}

/// How wide the column of phases is.
pub open spec fn phases_width(w: int) -> nat {
    if w - 26 < 10 {
        10
    } else {
        (w - 26) as nat
    }
}

/// The phases of a workspace in one line, cut where they exceed the column.
pub open spec fn phases_cell(counts: Seq<PhaseCount>, w: int) -> Seq<char> {
    let full = join(phase_tags(counts), ", "@);
    if byte_len(full) > phases_width(w) {
        byte_prefix(full, (phases_width(w) - 1) as nat) + "…"@
    } else {
        full
    }
}

/// Where the phases of a workspace are cut, no character is split.
pub open spec fn phases_cut_clean(counts: Seq<PhaseCount>, w: int) -> bool {
    let full = join(phase_tags(counts), ", "@);
    byte_len(full) > phases_width(w) ==> cuts_at(full, (phases_width(w) - 1) as nat)
}

/// One row of the workspace table.
pub open spec fn workspace_row(ws: WorkspaceSummary, w: int) -> Seq<SpanView> {
    seq![
        plain("  "@),
        cell_border(),
        plain(" "@ + pad_right(ws.workspace@, 14) + " "@),
        cell_border(),
        plain(" "@ + pad_right(dec(ws.total as nat), 5) + " "@),
        cell_border(),
        plain(" "@),
        colored(phases_cell(ws.phase_counts@, w), Color::DarkGray),
        plain("\n"@),
    ]
}

/// The first `n` rows of the workspace table.
pub open spec fn workspace_rows(all: Seq<WorkspaceSummary>, w: int, n: nat) -> Seq<SpanView>
    decreases n,
{
    if n == 0 {
        seq![]
    } else {
        workspace_rows(all, w, (n - 1) as nat) + workspace_row(all[n - 1], w)
    }
}

/// The workspace table: title, rule, head, rule and one row each.
pub open spec fn workspace_table(all: Seq<WorkspaceSummary>, w: int) -> Seq<SpanView> {
    if all.len() == 0 {
        seq![]
    } else {
        seq![
            plain("\n  "@),
            bold_colored("Per-Workspace Status"@, Color::Cyan),
            plain("\n"@),
        ] + table_rule(16, 7, 24) + table_head("Workspace"@, "Items"@, "Phases"@) + table_rule(
            16,
            7,
            24,
        ) + workspace_rows(all, w, all.len())
    }
}

fn draw_phases_cell(counts: &Vec<PhaseCount>, w: usize) -> (r: String)
    requires
        w <= MAX_BOX_WIDTH,
        phases_cut_clean(counts@, w as int),
    ensures
        r@ == phases_cell(counts@, w as int),
{
    let mut tags: Vec<String> = Vec::new();
    let mut i: usize = 0;
    while i < counts.len()
        invariant
            i <= counts.len(),
            tags.len() == i,
            forall|j: int| 0 <= j < i ==> (#[trigger] tags@[j])@ == phase_tags(counts@)[j],
        decreases counts.len() - i,
    {
        let mut tag = counts[i].phase.clone();
        tag.append(":");
        let digits = dec_u32(counts[i].count);
        tag.append(digits.as_str());
        tags.push(tag);
        i = i + 1;
    }
    proof {
        assert(texts(tags@) =~= phase_tags(counts@));
    }
    let full = joined(&tags, ", ");
    let width: usize = if w < 36 {
        10
    } else {
        w - 26
    };
    if exceeds(full.as_str(), width) {
        let mut cut = first_bytes(full.as_str(), width - 1);
        cut.append("…");
        cut
    } else {
        full
    }
}

fn draw_workspace_row(ws: &WorkspaceSummary, w: usize) -> (r: Page)
    requires
        w <= MAX_BOX_WIDTH,
        phases_cut_clean(ws.phase_counts@, w as int),
    ensures
        r@ == workspace_row(*ws, w as int),
{
    let mut page = Page::new();
    page.plain("  ");
    page.colored("│", Color::DarkGray);
    let mut name = " ".to_string();
    let name_cell = padded_right(ws.workspace.as_str(), 14);
    name.append(name_cell.as_str());
    name.append(" ");
    page.plain(name.as_str());
    page.colored("│", Color::DarkGray);
    let mut total = " ".to_string();
    let digits = dec_u32(ws.total);
    let total_cell = padded_right(digits.as_str(), 5);
    total.append(total_cell.as_str());
    total.append(" ");
    page.plain(total.as_str());
    page.colored("│", Color::DarkGray);
    page.plain(" ");
    let phases = draw_phases_cell(&ws.phase_counts, w);
    page.colored(phases.as_str(), Color::DarkGray);
    page.plain("\n");
    page
}

/// The phases of every workspace are cut between characters.
pub open spec fn all_cut_clean(all: Seq<WorkspaceSummary>, w: int) -> bool {
    forall|i: int| 0 <= i < all.len() ==> phases_cut_clean((#[trigger] all[i]).phase_counts@, w)
}

fn draw_workspace_table(all: &Vec<WorkspaceSummary>, w: usize) -> (r: Page)
    requires
        w <= MAX_BOX_WIDTH,
        all_cut_clean(all@, w as int),
    ensures
        r@ == workspace_table(all@, w as int),
{
    let mut page = Page::new();
    if all.len() > 0 {
        page.plain("\n  ");
        page.bold_colored("Per-Workspace Status", Color::Cyan);
        page.plain("\n");
        page.append_page(draw_table_rule(16, 7, 24));
        page.append_page(draw_table_head("Workspace", "Items", "Phases"));
        page.append_page(draw_table_rule(16, 7, 24));
        let mut rows = Page::new();
        let mut i: usize = 0;
        while i < all.len()
            invariant
                i <= all.len(),
                w <= MAX_BOX_WIDTH,
                all_cut_clean(all@, w as int),
                rows@ == workspace_rows(all@, w as int, i as nat),
            decreases all.len() - i,
        {
            rows.append_page(draw_workspace_row(&all[i], w));
            i = i + 1;
        }
        page.append_page(rows);
    }
    page
}

// ---------------------------------------------------------------------------
// Items and events
// ---------------------------------------------------------------------------

/// The workspace of a running item, in brackets.
pub open spec fn running_row(item: ItemSummary) -> Seq<SpanView> {
    seq![
        plain("    "@),
        colored("●"@, Color::Green),
        plain(" "@ + item.work_id@ + " "@),
        colored("("@ + item.workspace@ + ")"@, Color::DarkGray),
        plain("\n"@),
    ]
}

/// The first `n` running items.
pub open spec fn running_rows(items: Seq<ItemSummary>, n: nat) -> Seq<SpanView>
    decreases n,
{
    if n == 0 {
        seq![]
    } else {
        running_rows(items, (n - 1) as nat) + running_row(items[n - 1])
    }
}

/// The list of running items, if there are any.
pub open spec fn running_list(items: Seq<ItemSummary>) -> Seq<SpanView> {
    if items.len() == 0 {
        seq![]
    } else {
        seq![plain("\n  "@), bold_colored("Running Items"@, Color::Green), plain("\n"@)]
            + running_rows(items, items.len())
    }
}

/// One transition.
pub open spec fn event_row(ev: EventSummary) -> Seq<SpanView> {
    seq![
        plain("    "@),
        colored(ev.from_state@, terminal_color(phase_color_of(ev.from_state@))),
        plain(" → "@),
        colored(ev.to_state@, terminal_color(phase_color_of(ev.to_state@))),
        plain("  "@),
        colored(ev.item_id@, Color::DarkGray),
        plain(" "@),
        colored("["@ + ev.event_type@ + "]"@, Color::DarkGray),
        plain("\n"@),
    ]
}

/// The first `n` transitions.
pub open spec fn event_rows(events: Seq<EventSummary>, n: nat) -> Seq<SpanView>
    decreases n,
{
    if n == 0 {
        seq![]
    } else {
        event_rows(events, (n - 1) as nat) + event_row(events[n - 1])
    }
}

/// The list of recent transitions, if there are any.
pub open spec fn event_list(events: Seq<EventSummary>) -> Seq<SpanView> {
    if events.len() == 0 {
        seq![]
    } else {
        seq![plain("\n  "@), bold("Recent Transitions"@), plain("\n"@)] + event_rows(
            events,
            events.len(),
        )
    }
}

/// An item that needs attention: a sign, its id, its workspace and time.
pub open spec fn alert_row(item: ItemSummary, sign: Seq<char>, c: Color) -> Seq<SpanView> {
    seq![
        plain("    "@),
        colored(sign, c),
        plain(" "@),
        colored(item.work_id@, c),
        plain(" "@),
        colored("("@ + item.workspace@ + ") "@ + item.updated_at@, Color::DarkGray),
        plain("\n"@),
    ]
}

/// The first `n` items that need attention.
pub open spec fn alert_rows(items: Seq<ItemSummary>, sign: Seq<char>, c: Color, n: nat) -> Seq<
    SpanView,
>
    decreases n,
{
    if n == 0 {
        seq![]
    } else {
        alert_rows(items, sign, c, (n - 1) as nat) + alert_row(items[n - 1], sign, c)
    }
}

/// The title of a list of items that need attention, and the items.
pub open spec fn alert_list(
    title: Seq<char>,
    items: Seq<ItemSummary>,
    sign: Seq<char>,
    c: Color,
) -> Seq<SpanView> {
    seq![
        plain("\n  "@),
        bold_colored(title + " ("@ + dec(items.len()) + " items)"@, c),
        plain("\n"@),
    ] + alert_rows(items, sign, c, items.len())
}

/// The call to review `n` waiting items.
pub open spec fn review_call(n: nat) -> Seq<SpanView> {
    seq![
        plain("\n  "@),
        colored(
            dec(n) + " items require human intervention. Run 'belt claw' to review."@,
            Color::Yellow,
        ),
        plain("\n"@),
    ]
}

/// The failed items, if there are any.
pub open spec fn error_list(items: Seq<ItemSummary>) -> Seq<SpanView> {
    if items.len() == 0 {
        seq![]
    } else {
        alert_list("Recent Errors"@, items, "✖"@, Color::Red)
    }
}

/// The waiting items and the call to review them; where only their number is
/// known, the call alone.
pub open spec fn hitl_list(items: Seq<ItemSummary>, count: nat) -> Seq<SpanView> {
    if items.len() > 0 {
        alert_list("HITL Pending"@, items, "⚠"@, Color::Yellow) + review_call(items.len())
    } else if count > 0 {
        review_call(count)
    } else {
        seq![]
    }
}

fn draw_running_list(items: &Vec<ItemSummary>) -> (r: Page)
    ensures
        r@ == running_list(items@),
{
    let mut page = Page::new();
    if items.len() > 0 {
        page.plain("\n  ");
        page.bold_colored("Running Items", Color::Green);
        page.plain("\n");
        let mut rows = Page::new();
        let mut i: usize = 0;
        while i < items.len()
            invariant
                i <= items.len(),
                rows@ == running_rows(items@, i as nat),
            decreases items.len() - i,
        {
            let mut row = Page::new();
            row.plain("    ");
            row.colored("●", Color::Green);
            let mut id = " ".to_string();
            id.append(items[i].work_id.as_str());
            id.append(" ");
            row.plain(id.as_str());
            let mut ws = "(".to_string();
            ws.append(items[i].workspace.as_str());
            ws.append(")");
            row.colored(ws.as_str(), Color::DarkGray);
            row.plain("\n");
            rows.append_page(row);
            i = i + 1;
        }
        page.append_page(rows);
    }
    page
}

fn draw_event_list(events: &Vec<EventSummary>) -> (r: Page)
    ensures
        r@ == event_list(events@),
{
    let mut page = Page::new();
    if events.len() > 0 {
        page.plain("\n  ");
        page.bold("Recent Transitions");
        page.plain("\n");
        let mut rows = Page::new();
        let mut i: usize = 0;
        while i < events.len()
            invariant
                i <= events.len(),
                rows@ == event_rows(events@, i as nat),
            decreases events.len() - i,
        {
            let ev = &events[i];
            let mut row = Page::new();
            row.plain("    ");
            let from = ev.from_state.as_str();
            row.colored(from, to_crossterm_color(phase_color(from)));
            row.plain(" → ");
            let to = ev.to_state.as_str();
            row.colored(to, to_crossterm_color(phase_color(to)));
            row.plain("  ");
            row.colored(ev.item_id.as_str(), Color::DarkGray);
            row.plain(" ");
            let mut kind = "[".to_string();
            kind.append(ev.event_type.as_str());
            kind.append("]");
            row.colored(kind.as_str(), Color::DarkGray);
            row.plain("\n");
            rows.append_page(row);
            i = i + 1;
        }
        page.append_page(rows);
    }
    page
}

fn draw_alert_list(title: &str, items: &Vec<ItemSummary>, sign: &str, c: Color) -> (r: Page)
    ensures
        r@ == alert_list(title@, items@, sign@, c),
{
    let mut page = Page::new();
    page.plain("\n  ");
    let mut head = title.to_owned();
    head.append(" (");
    let digits = dec_usize(items.len());
    head.append(digits.as_str());
    head.append(" items)");
    page.bold_colored(head.as_str(), c);
    page.plain("\n");
    let mut rows = Page::new();
    let mut i: usize = 0;
    while i < items.len()
        invariant
            i <= items.len(),
            rows@ == alert_rows(items@, sign@, c, i as nat),
        decreases items.len() - i,
    {
        let mut row = Page::new();
        row.plain("    ");
        row.colored(sign, c);
        row.plain(" ");
        row.colored(items[i].work_id.as_str(), c);
        row.plain(" ");
        let mut place = "(".to_string();
        place.append(items[i].workspace.as_str());
        place.append(") ");
        place.append(items[i].updated_at.as_str());
        row.colored(place.as_str(), Color::DarkGray);
        row.plain("\n");
        rows.append_page(row);
        i = i + 1;
    }
    page.append_page(rows);
    page
}

fn draw_review_call(n: u64) -> (r: Page)
    ensures
        r@ == review_call(n as nat),
{
    let mut page = Page::new();
    page.plain("\n  ");
    let mut call = dec_u64(n);
    call.append(" items require human intervention. Run 'belt claw' to review.");
    page.colored(call.as_str(), Color::Yellow);
    page.plain("\n");
    page
}

fn draw_hitl_list(items: &Vec<ItemSummary>, count: u32) -> (r: Page)
    ensures
        r@ == hitl_list(items@, count as nat),
{
    if items.len() > 0 {
        let mut page = draw_alert_list("HITL Pending", items, "⚠", Color::Yellow);
        page.append_page(draw_review_call(items.len() as u64));
        page
    } else if count > 0 {
        draw_review_call(count as u64)
    } else {
        Page::new()
    }
}

/// The rich system status.
pub open spec fn rich_status(
    status: SystemStatus,
    percents: Seq<u32>,
    running: Option<bool>,
    w: int,
) -> Seq<SpanView> {
    header_box(status.total_items as nat, status.hitl_count as nat, running, w as nat)
        + phase_table(status.phase_counts@, percents, w) + workspace_table(
        status.workspace_summary@,
        w,
    ) + running_list(status.running_items@) + event_list(status.recent_events@) + error_list(
        status.error_items@,
    ) + hitl_list(status.hitl_items@, status.hitl_count as nat)
}

/// The rich system status on a terminal of `terminal_width` columns.
///
/// `percents` holds the share of each phase in percent. With `daemon_running`
/// the header box says whether the daemon runs.
pub fn print_rich_status(
    status: &SystemStatus,
    percents: &Vec<u32>,
    daemon_running: Option<bool>,
    terminal_width: usize,
) -> (r: Page)
    requires
        percents.len() == status.phase_counts.len(),
        bars_fit(percents@, phase_bar_width(box_width(terminal_width as int))),
        all_cut_clean(status.workspace_summary@, box_width(terminal_width as int)),
    ensures
        r@ == rich_status(
            *status,
            percents@,
            daemon_running,
            box_width(terminal_width as int),
        ),
{
    let w: usize = box_content_width(terminal_width);
    let mut page = draw_header_box(status.total_items, status.hitl_count, daemon_running, w);
    page.append_page(draw_phase_table(&status.phase_counts, percents, w));
    page.append_page(draw_workspace_table(&status.workspace_summary, w));
    page.append_page(draw_running_list(&status.running_items));
    page.append_page(draw_event_list(&status.recent_events));
    if status.error_items.len() > 0 {
        page.append_page(draw_alert_list("Recent Errors", &status.error_items, "✖", Color::Red));
    } else {
        page.append_page(Page::new());
    }
    page.append_page(draw_hitl_list(&status.hitl_items, status.hitl_count));
    page
}

// ---------------------------------------------------------------------------
// Runtime statistics
// ---------------------------------------------------------------------------

/// The totals of the models, in the order in which they are reported.
pub open spec fn model_totals(models: Seq<ModelStats>) -> Seq<u64> {
    Seq::new(models.len(), |i: int| models[i].total_tokens)
}

/// `p` lists the models with the largest total first.
pub open spec fn models_ordered(models: Seq<ModelStats>, p: Seq<usize>) -> bool {
    is_order(p, models.len()) && largest_first(model_totals(models), p)
}

/// The positions of the models, largest total first.
pub fn order_models(models: &Vec<ModelStats>) -> (p: Vec<usize>)
    ensures
        models_ordered(models@, p@),
{
    let mut totals: Vec<u64> = Vec::new();
    let mut i: usize = 0;
    while i < models.len()
        invariant
            i <= models.len(),
            totals.len() == i,
            forall|j: int| 0 <= j < i ==> totals@[j] == models@[j].total_tokens,
        decreases models.len() - i,
    {
        totals.push(models[i].total_tokens);
        i = i + 1;
    }
    proof {
        assert(totals@ =~= model_totals(models@));
    }
    order_largest_first(&totals)
}

/// The average duration, or a dash where there is none.
pub open spec fn average(avg: Option<String>) -> Seq<char> {
    match avg {
        Some(d) => d@ + "ms"@,
        None => "-"@,
    }
}

/// The token totals and the number of runs.
pub open spec fn runtime_totals(stats: RuntimeStats, w: int) -> Seq<SpanView> {
    seq![
        plain("\n  "@),
        bold_colored("Runtime Stats (last 24h)"@, Color::Cyan),
        plain("\n  "@),
        colored(
            repeat(
                '─',
                if w < 60 {
                    w as nat
                } else {
                    60
                },
            ),
            Color::DarkGray,
        ),
        plain("\n  Total tokens:  "@),
        bold(grouped(stats.total_tokens as nat)),
        plain(
            " (in: "@ + grouped(stats.total_tokens_input as nat) + " / out: "@ + grouped(
                stats.total_tokens_output as nat,
            ) + ")\n  Executions:    "@,
        ),
        bold(dec(stats.executions as nat)),
        plain("\n  Avg duration:  "@ + average(stats.avg_duration) + "\n"@),
    ]
}

/// The head of the model table of the runtime statistics.
pub open spec fn runtime_head() -> Seq<SpanView> {
    seq![
        plain("\n  "@),
        heading("Model"@),
        plain(" "@),
        heading("Input"@),
        plain(" "@),
        heading("Output"@),
        plain(" "@),
        heading("Total"@),
        plain(" "@),
        heading("Runs"@),
        plain(" "@),
        heading("Avg ms"@),
        plain("\n  "@),
        colored(repeat('─', 70), Color::DarkGray),
        plain("\n"@),
    ]
}

/// Three token counts, right-aligned in columns of ten.
pub open spec fn token_cells(input: nat, output: nat, total: nat) -> Seq<char> {
    " "@ + pad_left(grouped(input), 10) + " "@ + pad_left(grouped(output), 10) + " "@ + pad_left(
        grouped(total),
        10,
    )
}

/// One row of the model table of the runtime statistics.
pub open spec fn runtime_row(m: ModelStats) -> Seq<SpanView> {
    seq![
        plain("  "@),
        colored(m.model@, Color::Cyan),
        plain(
            token_cells(
                m.input_tokens as nat,
                m.output_tokens as nat,
                m.total_tokens as nat,
            ) + " "@ + pad_left(dec(m.executions as nat), 6) + " "@ + pad_left(
                text_or(m.avg_duration, "-"@),
                10,
            ) + "\n"@,
        ),
    ]
}

/// The first `n` rows of the model table, in the order `p`.
pub open spec fn runtime_rows(models: Seq<ModelStats>, p: Seq<usize>, n: nat) -> Seq<SpanView>
    decreases n,
{
    if n == 0 {
        seq![]
    } else {
        runtime_rows(models, p, (n - 1) as nat) + runtime_row(models[p[n - 1] as int])
    }
}

/// The totals row under the model table, where there is more than one model.
pub open spec fn runtime_sum(stats: RuntimeStats) -> Seq<SpanView> {
    if stats.by_model.len() > 1 {
        seq![
            plain("  "@),
            colored(repeat('─', 70), Color::DarkGray),
            plain("\n  "@),
            bold("Total"@),
            plain(
                token_cells(
                    stats.total_tokens_input as nat,
                    stats.total_tokens_output as nat,
                    stats.total_tokens as nat,
                ) + " "@ + pad_left(dec(stats.executions as nat), 6) + "\n"@,
            ),
        ]
    } else {
        seq![]
    }
}

/// The model table of the runtime statistics, if there are any models.
pub open spec fn runtime_models(stats: RuntimeStats, p: Seq<usize>) -> Seq<SpanView> {
    if stats.by_model.len() == 0 {
        seq![]
    } else {
        runtime_head() + runtime_rows(stats.by_model@, p, stats.by_model.len() as nat)
            + runtime_sum(stats)
    }
}

/// The rich runtime statistics with the models in the order `p`.
pub open spec fn rich_runtime(stats: RuntimeStats, p: Seq<usize>, w: int) -> Seq<SpanView> {
    runtime_totals(stats, w) + runtime_models(stats, p) + seq![plain("\n"@)]
}

fn draw_average(avg: &Option<String>) -> (r: String)
    ensures
        r@ == average(*avg),
{
    match avg {
        Some(d) => {
            let mut out = d.clone();
            out.append("ms");
            out
        },
        None => "-".to_string(),
    }
}

fn draw_runtime_totals(stats: &RuntimeStats, w: usize) -> (r: Page)
    ensures
        r@ == runtime_totals(*stats, w as int),
{
    let mut page = Page::new();
    page.plain("\n  ");
    page.bold_colored("Runtime Stats (last 24h)", Color::Cyan);
    page.plain("\n  ");
    let width: usize = if w < 60 {
        w
    } else {
        60
    };
    let rule = repeat_char('─', width);
    page.colored(rule.as_str(), Color::DarkGray);
    page.plain("\n  Total tokens:  ");
    let total = fmt_num(stats.total_tokens);
    page.bold(total.as_str());
    let mut split = " (in: ".to_string();
    let input = fmt_num(stats.total_tokens_input);
    split.append(input.as_str());
    split.append(" / out: ");
    let output = fmt_num(stats.total_tokens_output);
    split.append(output.as_str());
    split.append(")\n  Executions:    ");
    page.plain(split.as_str());
    let runs = dec_u64(stats.executions);
    page.bold(runs.as_str());
    let mut avg = "\n  Avg duration:  ".to_string();
    let shown = draw_average(&stats.avg_duration);
    avg.append(shown.as_str());
    avg.append("\n");
    page.plain(avg.as_str());
    page
}

fn draw_token_cells(input: u64, output: u64, total: u64) -> (r: String)
    ensures
        r@ == token_cells(input as nat, output as nat, total as nat),
{
    let mut out = " ".to_string();
    let a = fmt_num(input);
    let a_cell = padded_left(a.as_str(), 10);
    out.append(a_cell.as_str());
    out.append(" ");
    let b = fmt_num(output);
    let b_cell = padded_left(b.as_str(), 10);
    out.append(b_cell.as_str());
    out.append(" ");
    let c = fmt_num(total);
    let c_cell = padded_left(c.as_str(), 10);
    out.append(c_cell.as_str());
    out
}

fn draw_runtime_head() -> (r: Page)
    ensures
        r@ == runtime_head(),
{
    let mut page = Page::new();
    page.plain("\n  ");
    page.heading("Model");
    page.plain(" ");
    page.heading("Input");
    page.plain(" ");
    page.heading("Output");
    page.plain(" ");
    page.heading("Total");
    page.plain(" ");
    page.heading("Runs");
    page.plain(" ");
    page.heading("Avg ms");
    page.plain("\n  ");
    let rule = repeat_char('─', 70);
    page.colored(rule.as_str(), Color::DarkGray);
    page.plain("\n");
    page
}

fn draw_runtime_row(m: &ModelStats) -> (r: Page)
    ensures
        r@ == runtime_row(*m),
{
    let mut page = Page::new();
    page.plain("  ");
    page.colored(m.model.as_str(), Color::Cyan);
    let mut cells = draw_token_cells(m.input_tokens, m.output_tokens, m.total_tokens);
    cells.append(" ");
    let runs = dec_u64(m.executions);
    let runs_cell = padded_left(runs.as_str(), 6);
    cells.append(runs_cell.as_str());
    cells.append(" ");
    let avg = unwrap_text(&m.avg_duration, "-");
    let avg_cell = padded_left(avg.as_str(), 10);
    cells.append(avg_cell.as_str());
    cells.append("\n");
    page.plain(cells.as_str());
    page
}

fn draw_runtime_sum(stats: &RuntimeStats) -> (r: Page)
    ensures
        r@ == runtime_sum(*stats),
{
    let mut page = Page::new();
    if stats.by_model.len() > 1 {
        page.plain("  ");
        let rule = repeat_char('─', 70);
        page.colored(rule.as_str(), Color::DarkGray);
        page.plain("\n  ");
        page.bold("Total");
        let mut cells = draw_token_cells(
            stats.total_tokens_input,
            stats.total_tokens_output,
            stats.total_tokens,
        );
        cells.append(" ");
        let runs = dec_u64(stats.executions);
        let runs_cell = padded_left(runs.as_str(), 6);
        cells.append(runs_cell.as_str());
        cells.append("\n");
        page.plain(cells.as_str());
    }
    page
}

/// The runtime statistics for the rich format.
pub fn print_rich_runtime(stats: &RuntimeStats, terminal_width: usize) -> (r: Page)
    ensures
        exists|p: Seq<usize>|
            #[trigger] models_ordered(stats.by_model@, p) && r@ == rich_runtime(
                *stats,
                p,
                box_width(terminal_width as int),
            ),
{
    let w: usize = box_content_width(terminal_width);
    let mut page = draw_runtime_totals(stats, w);
    let p = order_models(&stats.by_model);
    let mut table = Page::new();
    if stats.by_model.len() > 0 {
        table = draw_runtime_head();
        let mut rows = Page::new();
        let mut i: usize = 0;
        while i < p.len()
            invariant
                i <= p.len(),
                models_ordered(stats.by_model@, p@),
                rows@ == runtime_rows(stats.by_model@, p@, i as nat),
            decreases p.len() - i,
        {
            rows.append_page(draw_runtime_row(&stats.by_model[p[i]]));
            i = i + 1;
        }
        table.append_page(rows);
        table.append_page(draw_runtime_sum(stats));
    }
    page.append_page(table);
    let mut end = Page::new();
    end.plain("\n");
    page.append_page(end);
    proof {
        assert(models_ordered(stats.by_model@, p@) && page@ == rich_runtime(
            *stats,
            p@,
            box_width(terminal_width as int),
        ));
    }
    page
}

// ---------------------------------------------------------------------------
// Rich spec status
// ---------------------------------------------------------------------------

/// How many blanks follow a label and a value in a box of width `w`, counting
/// bytes.
pub open spec fn field_gap(label: Seq<char>, value: Seq<char>, w: int) -> nat {
    if w - 2 - byte_len(label) - byte_len(value) < 0 {
        0
    } else {
        (w - 2 - byte_len(label) - byte_len(value)) as nat
    }
}

/// The box with the name, the configuration and the number of items.
pub open spec fn spec_box(status: SpecStatus, w: int) -> Seq<SpanView> {
    seq![
        plain(border("┌"@, w as nat, "┐"@)),
        plain("│ Workspace: "@),
        bold(status.workspace@),
        plain(row_end(field_gap("Workspace: "@, status.workspace@, w))),
        plain(
            "│ Config:    "@ + status.config_path@ + row_end(
                field_gap("Config:    "@, status.config_path@, w),
            ),
        ),
        plain(
            "│ Items:     "@ + dec(status.item_count as nat) + row_end(
                field_gap("Items:     "@, dec(status.item_count as nat), w),
            ),
        ),
        plain(border("└"@, w as nat, "┘"@)),
    ]
}

/// A phase in which the work on an item is over.
pub open spec fn is_finished(phase: Seq<char>) -> bool {
    phase == "done"@ || phase == "completed"@ || phase == "skipped"@
}

/// How many items are finished.
pub open spec fn finished_count(counts: Seq<PhaseCount>) -> nat
    decreases counts.len(),
{
    if counts.len() == 0 {
        0
    } else {
        finished_count(counts.drop_last()) + (if is_finished(counts.last().phase@) {
            counts.last().count as nat
        } else {
            0nat
        })
    }
}

/// The width of the bar that shows the overall completion.
pub open spec fn overall_bar_width(w: int) -> nat {
    if w - 22 < 10 {
        10
    } else {
        (w - 22) as nat
    }
}

/// The number of items that a share is taken of: at least one.
pub open spec fn share_base(items: u32) -> nat {
    if items < 1 {
        1
    } else {
        items as nat
    }
}

/// The overall completion, where there are any phases.
pub open spec fn overall_line(status: SpecStatus, pct: u32, w: int) -> Seq<SpanView> {
    if status.phase_counts.len() == 0 {
        seq![]
    } else {
        seq![
            plain(
                "\n  Overall: "@ + dec(finished_count(status.phase_counts@)) + "/"@ + dec(
                    share_base(status.item_count),
                ) + " "@ + progress_bar(pct as nat, overall_bar_width(w)) + " "@ + pad_left(
                    dec(pct as nat),
                    3,
                ) + "%\n"@,
            ),
        ]
    }
}

/// The token totals of a workspace.
pub open spec fn usage_totals(u: TokenUsageSummary, w: int) -> Seq<SpanView> {
    seq![
        plain("\n  "@),
        bold_colored("Token Usage"@, Color::Cyan),
        plain("\n  "@),
        colored(
            repeat(
                '─',
                if w < 60 {
                    w as nat
                } else {
                    60
                },
            ),
            Color::DarkGray,
        ),
        plain("\n  Total:  "@),
        bold(grouped(u.total_tokens as nat)),
        plain(
            " (in: "@ + grouped(u.total_input as nat) + " / out: "@ + grouped(
                u.total_output as nat,
            ) + ")\n  Executions: "@,
        ),
        bold(dec(u.executions as nat)),
        plain("\n"@),
    ]
}

/// The head of the model table of a workspace.
pub open spec fn usage_head() -> Seq<SpanView> {
    seq![
        plain("\n  "@),
        heading("Model"@),
        plain(" "@),
        heading("Input"@),
        plain(" "@),
        heading("Output"@),
        plain(" "@),
        heading("Total"@),
        plain(" "@),
        heading("Runs"@),
        plain("\n  "@),
        colored(repeat('─', 59), Color::DarkGray),
        plain("\n"@),
    ]
}

/// One row of the model table of a workspace.
pub open spec fn usage_row(m: ModelTokenSummary) -> Seq<SpanView> {
    seq![
        plain("  "@),
        colored(m.model@, Color::Cyan),
        plain(
            token_cells(
                m.input_tokens as nat,
                m.output_tokens as nat,
                m.total_tokens as nat,
            ) + " "@ + pad_left(dec(m.executions as nat), 5) + "\n"@,
        ),
    ]
}

/// The first `n` rows of the model table of a workspace.
pub open spec fn usage_rows(models: Seq<ModelTokenSummary>, n: nat) -> Seq<SpanView>
    decreases n,
{
    if n == 0 {
        seq![]
    } else {
        usage_rows(models, (n - 1) as nat) + usage_row(models[n - 1])
    }
}

/// The totals row under the model table, where there is more than one model.
pub open spec fn usage_sum(u: TokenUsageSummary) -> Seq<SpanView> {
    if u.by_model.len() > 1 {
        seq![
            plain("  "@),
            colored(repeat('─', 59), Color::DarkGray),
            plain("\n  "@),
            bold("Total"@),
            plain(
                token_cells(
                    u.total_input as nat,
                    u.total_output as nat,
                    u.total_tokens as nat,
                ) + " "@ + pad_left(dec(u.executions as nat), 5) + "\n"@,
            ),
        ]
    } else {
        seq![]
    }
}

/// The token usage of a workspace, where any is recorded.
pub open spec fn usage_part(usage: Option<TokenUsageSummary>, w: int) -> Seq<SpanView> {
    match usage {
        None => seq![],
        Some(u) => if u.by_model.len() == 0 {
            usage_totals(u, w)
        } else {
            usage_totals(u, w) + usage_head() + usage_rows(u.by_model@, u.by_model.len() as nat)
                + usage_sum(u)
        },
    }
}

/// The rich status of a workspace.
pub open spec fn rich_spec_status(
    status: SpecStatus,
    percents: Seq<u32>,
    overall: u32,
    w: int,
) -> Seq<SpanView> {
    spec_box(status, w) + phase_table(status.phase_counts@, percents, w) + overall_line(
        status,
        overall,
        w,
    ) + usage_part(status.token_usage, w)
}

fn gap_after(label: &str, value: &str, w: usize) -> (r: usize)
    ensures
        r == field_gap(label@, value@, w as int),
{
    if w < 2 || exceeds(label, w - 2) {
        return 0;
    }
    let used: usize = bytes_in(label);
    let left: usize = w - 2 - used;
    if exceeds(value, left) {
        0
    } else {
        left - bytes_in(value)
    }
}

fn draw_spec_box(status: &SpecStatus, w: usize) -> (r: Page)
    ensures
        r@ == spec_box(*status, w as int),
{
    let mut page = Page::new();
    let top = border_line("┌", w, "┐");
    page.plain(top.as_str());
    page.plain("│ Workspace: ");
    page.bold(status.workspace.as_str());
    let name_end = end_of_row(gap_after("Workspace: ", status.workspace.as_str(), w));
    page.plain(name_end.as_str());
    let mut config = "│ Config:    ".to_string();
    config.append(status.config_path.as_str());
    let config_end = end_of_row(gap_after("Config:    ", status.config_path.as_str(), w));
    config.append(config_end.as_str());
    page.plain(config.as_str());
    let mut items = "│ Items:     ".to_string();
    let digits = dec_u32(status.item_count);
    items.append(digits.as_str());
    let items_end = end_of_row(gap_after("Items:     ", digits.as_str(), w));
    items.append(items_end.as_str());
    page.plain(items.as_str());
    let bottom = border_line("└", w, "┘");
    page.plain(bottom.as_str());
    page
}

proof fn lemma_finished_grows(counts: Seq<PhaseCount>, k: int)
    requires
        0 <= k <= counts.len(),
    ensures
        finished_count(counts.take(k)) <= finished_count(counts),
    decreases counts.len() - k,
{
    if k < counts.len() {
        lemma_finished_grows(counts, k + 1);
        assert(counts.take(k + 1).drop_last() =~= counts.take(k));
    } else {
        assert(counts.take(k) =~= counts);
    }
}

/// How many items are finished.
pub fn count_finished(counts: &Vec<PhaseCount>) -> (r: u32)
    requires
        finished_count(counts@) <= u32::MAX,
    ensures
        r == finished_count(counts@),
{
    let mut n: u32 = 0;
    let mut i: usize = 0;
    while i < counts.len()
        invariant
            i <= counts.len(),
            finished_count(counts@) <= u32::MAX,
            n == finished_count(counts@.take(i as int)),
        decreases counts.len() - i,
    {
        proof {
            assert(counts@.take(i + 1).drop_last() =~= counts@.take(i as int));
            lemma_finished_grows(counts@, i + 1);
        }
        let phase = counts[i].phase.as_str();
        if text_eq(phase, "done") || text_eq(phase, "completed") || text_eq(phase, "skipped") {
            n = n + counts[i].count;
        }
        i = i + 1;
    }
    proof {
        assert(counts@.take(counts@.len() as int) =~= counts@);
    }
    n
}

fn draw_overall_line(status: &SpecStatus, pct: u32, w: usize) -> (r: Page)
    requires
        w <= MAX_BOX_WIDTH,
        pct * overall_bar_width(w as int) <= usize::MAX,
        finished_count(status.phase_counts@) <= u32::MAX,
    ensures
        r@ == overall_line(*status, pct, w as int),
{
    let mut page = Page::new();
    if status.phase_counts.len() > 0 {
        let width: usize = if w < 32 {
            10
        } else {
            w - 22
        };
        let base: u32 = if status.item_count < 1 {
            1
        } else {
            status.item_count
        };
        let mut line = "\n  Overall: ".to_string();
        let finished = dec_u32(count_finished(&status.phase_counts));
        line.append(finished.as_str());
        line.append("/");
        let all = dec_u32(base);
        line.append(all.as_str());
        line.append(" ");
        let bar = render_progress_bar(pct, width);
        line.append(bar.as_str());
        line.append(" ");
        let digits = dec_u32(pct);
        let cell = padded_left(digits.as_str(), 3);
        line.append(cell.as_str());
        line.append("%\n");
        page.plain(line.as_str());
    }
    page
}

fn draw_usage_totals(u: &TokenUsageSummary, w: usize) -> (r: Page)
    ensures
        r@ == usage_totals(*u, w as int),
{
    let mut page = Page::new();
    page.plain("\n  ");
    page.bold_colored("Token Usage", Color::Cyan);
    page.plain("\n  ");
    let width: usize = if w < 60 {
        w
    } else {
        60
    };
    let rule = repeat_char('─', width);
    page.colored(rule.as_str(), Color::DarkGray);
    page.plain("\n  Total:  ");
    let total = fmt_num(u.total_tokens);
    page.bold(total.as_str());
    let mut split = " (in: ".to_string();
    let input = fmt_num(u.total_input);
    split.append(input.as_str());
    split.append(" / out: ");
    let output = fmt_num(u.total_output);
    split.append(output.as_str());
    split.append(")\n  Executions: ");
    page.plain(split.as_str());
    let runs = dec_u64(u.executions);
    page.bold(runs.as_str());
    page.plain("\n");
    page
}

fn draw_usage_head() -> (r: Page)
    ensures
        r@ == usage_head(),
{
    let mut page = Page::new();
    page.plain("\n  ");
    page.heading("Model");
    page.plain(" ");
    page.heading("Input");
    page.plain(" ");
    page.heading("Output");
    page.plain(" ");
    page.heading("Total");
    page.plain(" ");
    page.heading("Runs");
    page.plain("\n  ");
    let rule = repeat_char('─', 59);
    page.colored(rule.as_str(), Color::DarkGray);
    page.plain("\n");
    page
}

fn draw_usage_row(m: &ModelTokenSummary) -> (r: Page)
    ensures
        r@ == usage_row(*m),
{
    let mut page = Page::new();
    page.plain("  ");
    page.colored(m.model.as_str(), Color::Cyan);
    let mut cells = draw_token_cells(m.input_tokens, m.output_tokens, m.total_tokens);
    cells.append(" ");
    let runs = dec_u64(m.executions);
    let runs_cell = padded_left(runs.as_str(), 5);
    cells.append(runs_cell.as_str());
    cells.append("\n");
    page.plain(cells.as_str());
    page
}

fn draw_usage_sum(u: &TokenUsageSummary) -> (r: Page)
    ensures
        r@ == usage_sum(*u),
{
    let mut page = Page::new();
    if u.by_model.len() > 1 {
        page.plain("  ");
        let rule = repeat_char('─', 59);
        page.colored(rule.as_str(), Color::DarkGray);
        page.plain("\n  ");
        page.bold("Total");
        let mut cells = draw_token_cells(u.total_input, u.total_output, u.total_tokens);
        cells.append(" ");
        let runs = dec_u64(u.executions);
        let runs_cell = padded_left(runs.as_str(), 5);
        cells.append(runs_cell.as_str());
        cells.append("\n");
        page.plain(cells.as_str());
    }
    page
}

fn draw_usage_part(usage: &Option<TokenUsageSummary>, w: usize) -> (r: Page)
    ensures
        r@ == usage_part(*usage, w as int),
{
    match usage {
        None => Page::new(),
        Some(u) => {
            let mut page = draw_usage_totals(u, w);
            if u.by_model.len() > 0 {
                page.append_page(draw_usage_head());
                let mut rows = Page::new();
                let mut i: usize = 0;
                while i < u.by_model.len()
                    invariant
                        i <= u.by_model.len(),
                        rows@ == usage_rows(u.by_model@, i as nat),
                    decreases u.by_model.len() - i,
                {
                    rows.append_page(draw_usage_row(&u.by_model[i]));
                    i = i + 1;
                }
                page.append_page(rows);
                page.append_page(draw_usage_sum(u));
            }
            page
        },
    }
}

/// The rich status of a workspace on a terminal of `terminal_width` columns.
///
/// `percents` holds the share of each phase in percent, `overall` that of the
/// finished items.
pub fn print_rich_spec_status(
    status: &SpecStatus,
    percents: &Vec<u32>,
    overall: u32,
    terminal_width: usize,
) -> (r: Page)
    requires
        percents.len() == status.phase_counts.len(),
        bars_fit(percents@, phase_bar_width(box_width(terminal_width as int))),
        overall * overall_bar_width(box_width(terminal_width as int)) <= usize::MAX,
        finished_count(status.phase_counts@) <= u32::MAX,
    ensures
        r@ == rich_spec_status(
            *status,
            percents@,
            overall,
            box_width(terminal_width as int),
        ),
{
    let w: usize = box_content_width(terminal_width);
    let mut page = draw_spec_box(status, w);
    page.append_page(draw_phase_table(&status.phase_counts, percents, w));
    page.append_page(draw_overall_line(status, overall, w));
    page.append_page(draw_usage_part(&status.token_usage, w));
    page
}

// ---------------------------------------------------------------------------
// Plain text
// ---------------------------------------------------------------------------

/// The first `n` phases with their counts, one line each.
pub open spec fn phase_lines(counts: Seq<PhaseCount>, n: nat) -> Seq<char>
    decreases n,
{
    if n == 0 {
        seq![]
    } else {
        phase_lines(counts, (n - 1) as nat) + ("  "@ + pad_right(counts[n - 1].phase@, 12) + " "@
            + dec(counts[n - 1].count as nat) + "\n"@)
    }
}

/// The line with the number of waiting items; in red where there are any.
pub open spec fn hitl_line(count: nat) -> Seq<char> {
    if count > 0 {
        "\u{1b}[31mHITL: "@ + dec(count) + "\u{1b}[0m\n"@
    } else {
        "HITL: 0\n"@
    }
}

/// The phases with their counts, where there are any.
pub open spec fn phase_part(counts: Seq<PhaseCount>) -> Seq<char> {
    if counts.len() == 0 {
        seq![]
    } else {
        "Phase breakdown:\n"@ + phase_lines(counts, counts.len()) + "\n"@
    }
}

/// The first `n` running items, one line each.
pub open spec fn running_lines(items: Seq<ItemSummary>, n: nat) -> Seq<char>
    decreases n,
{
    if n == 0 {
        seq![]
    } else {
        running_lines(items, (n - 1) as nat) + ("  "@ + items[n - 1].work_id@ + " ("@ + items[n
            - 1].workspace@ + "/"@ + items[n - 1].state@ + ")\n"@)
    }
}

/// The running items, or that there are none.
pub open spec fn running_part(items: Seq<ItemSummary>) -> Seq<char> {
    if items.len() == 0 {
        "No items currently running.\n"@
    } else {
        "Running items:\n"@ + running_lines(items, items.len())
    }
}

/// The first `n` transitions, one line each.
pub open spec fn event_lines(events: Seq<EventSummary>, n: nat) -> Seq<char>
    decreases n,
{
    if n == 0 {
        seq![]
    } else {
        event_lines(events, (n - 1) as nat) + ("  "@ + events[n - 1].from_state@ + " -> "@
            + events[n - 1].to_state@ + " ["@ + events[n - 1].event_type@ + "] "@ + events[n
            - 1].item_id@ + " ("@ + events[n - 1].timestamp@ + ")\n"@)
    }
}

/// The recent transitions, where there are any.
pub open spec fn event_part(events: Seq<EventSummary>) -> Seq<char> {
    if events.len() == 0 {
        seq![]
    } else {
        "Recent transitions:\n"@ + event_lines(events, events.len())
    }
}

/// The token totals, where they are known.
pub open spec fn token_part(stats: Option<RuntimeStats>) -> Seq<char> {
    match stats {
        None => seq![],
        Some(s) => "\n  Tokens (24h): "@ + dec(s.total_tokens as nat) + " total, "@ + dec(
            s.executions as nat,
        ) + " executions\n"@,
    }
}

/// The call to review waiting items, where there are any.
pub open spec fn warning_part(count: nat) -> Seq<char> {
    if count > 0 {
        "\n\u{1b}[33m⚠\u{fe0f} "@ + dec(count)
            + " items require human intervention. Run 'belt claw' to review.\u{1b}[0m\n"@
    } else {
        seq![]
    }
}

/// The system status as plain text.
pub open spec fn text_status(status: SystemStatus) -> Seq<char> {
    "Belt System Status\n==================\nTotal items: "@ + dec(status.total_items as nat) + "\n"@
        + hitl_line(status.hitl_count as nat) + "\n"@ + phase_part(status.phase_counts@)
        + running_part(status.running_items@) + "\n"@ + event_part(status.recent_events@)
        + token_part(status.runtime_stats) + warning_part(status.hitl_count as nat)
}

fn write_phase_lines(counts: &Vec<PhaseCount>) -> (r: String)
    ensures
        r@ == phase_lines(counts@, counts.len() as nat),
{
    let mut out = String::new();
    let mut i: usize = 0;
    while i < counts.len()
        invariant
            i <= counts.len(),
            out@ == phase_lines(counts@, i as nat),
        decreases counts.len() - i,
    {
        let mut line = "  ".to_string();
        let name = padded_right(counts[i].phase.as_str(), 12);
        line.append(name.as_str());
        line.append(" ");
        let digits = dec_u32(counts[i].count);
        line.append(digits.as_str());
        line.append("\n");
        out.append(line.as_str());
        i = i + 1;
    }
    out
}

fn write_hitl_line(count: u32) -> (r: String)
    ensures
        r@ == hitl_line(count as nat),
{
    if count > 0 {
        let mut out = "\u{1b}[31mHITL: ".to_string();
        let digits = dec_u32(count);
        out.append(digits.as_str());
        out.append("\u{1b}[0m\n");
        out
    } else {
        "HITL: 0\n".to_string()
    }
}

fn write_phase_part(counts: &Vec<PhaseCount>) -> (r: String)
    ensures
        r@ == phase_part(counts@),
{
    if counts.len() == 0 {
        return String::new();
    }
    let mut out = "Phase breakdown:\n".to_string();
    let lines = write_phase_lines(counts);
    out.append(lines.as_str());
    out.append("\n");
    out
}

fn write_running_part(items: &Vec<ItemSummary>) -> (r: String)
    ensures
        r@ == running_part(items@),
{
    if items.len() == 0 {
        return "No items currently running.\n".to_string();
    }
    let mut lines = String::new();
    let mut i: usize = 0;
    while i < items.len()
        invariant
            i <= items.len(),
            lines@ == running_lines(items@, i as nat),
        decreases items.len() - i,
    {
        let mut line = "  ".to_string();
        line.append(items[i].work_id.as_str());
        line.append(" (");
        line.append(items[i].workspace.as_str());
        line.append("/");
        line.append(items[i].state.as_str());
        line.append(")\n");
        lines.append(line.as_str());
        i = i + 1;
    }
    let mut out = "Running items:\n".to_string();
    out.append(lines.as_str());
    out
}

fn write_event_part(events: &Vec<EventSummary>) -> (r: String)
    ensures
        r@ == event_part(events@),
{
    if events.len() == 0 {
        return String::new();
    }
    let mut lines = String::new();
    let mut i: usize = 0;
    while i < events.len()
        invariant
            i <= events.len(),
            lines@ == event_lines(events@, i as nat),
        decreases events.len() - i,
    {
        let ev = &events[i];
        let mut line = "  ".to_string();
        line.append(ev.from_state.as_str());
        line.append(" -> ");
        line.append(ev.to_state.as_str());
        line.append(" [");
        line.append(ev.event_type.as_str());
        line.append("] ");
        line.append(ev.item_id.as_str());
        line.append(" (");
        line.append(ev.timestamp.as_str());
        line.append(")\n");
        lines.append(line.as_str());
        i = i + 1;
    }
    let mut out = "Recent transitions:\n".to_string();
    out.append(lines.as_str());
    out
}

fn write_token_part(stats: &Option<RuntimeStats>) -> (r: String)
    ensures
        r@ == token_part(*stats),
{
    match stats {
        None => String::new(),
        Some(s) => {
            let mut out = "\n  Tokens (24h): ".to_string();
            let total = dec_u64(s.total_tokens);
            out.append(total.as_str());
            out.append(" total, ");
            let runs = dec_u64(s.executions);
            out.append(runs.as_str());
            out.append(" executions\n");
            out
        },
    }
}

fn write_warning_part(count: u32) -> (r: String)
    ensures
        r@ == warning_part(count as nat),
{
    if count > 0 {
        let mut out = "\n\u{1b}[33m⚠\u{fe0f} ".to_string();
        let digits = dec_u32(count);
        out.append(digits.as_str());
        out.append(" items require human intervention. Run 'belt claw' to review.\u{1b}[0m\n");
        out
    } else {
        String::new()
    }
}

/// The system status as plain text.
pub fn print_text_status(status: &SystemStatus) -> (r: String)
    ensures
        r@ == text_status(*status),
{
    let mut out = "Belt System Status\n==================\nTotal items: ".to_string();
    let total = dec_u32(status.total_items);
    out.append(total.as_str());
    out.append("\n");
    let hitl = write_hitl_line(status.hitl_count);
    out.append(hitl.as_str());
    out.append("\n");
    let phases = write_phase_part(&status.phase_counts);
    out.append(phases.as_str());
    let running = write_running_part(&status.running_items);
    out.append(running.as_str());
    out.append("\n");
    let events = write_event_part(&status.recent_events);
    out.append(events.as_str());
    let tokens = write_token_part(&status.runtime_stats);
    out.append(tokens.as_str());
    let warning = write_warning_part(status.hitl_count);
    out.append(warning.as_str());
    out
}

/// The status of a workspace as plain text.
pub open spec fn text_spec_status(status: SpecStatus) -> Seq<char> {
    "Workspace: "@ + status.workspace@ + "\nConfig:    "@ + status.config_path@ + "\nItems:     "@
        + dec(status.item_count as nat) + "\n\n"@ + (if status.phase_counts.len() == 0 {
        "No items in this workspace.\n"@
    } else {
        "Phase breakdown:\n"@ + phase_lines(
            status.phase_counts@,
            status.phase_counts.len() as nat,
        )
    })
}

/// The status of a workspace as plain text.
pub fn print_text_spec_status(status: &SpecStatus) -> (r: String)
    ensures
        r@ == text_spec_status(*status),
{
    let mut out = "Workspace: ".to_string();
    out.append(status.workspace.as_str());
    out.append("\nConfig:    ");
    out.append(status.config_path.as_str());
    out.append("\nItems:     ");
    let digits = dec_u32(status.item_count);
    out.append(digits.as_str());
    out.append("\n\n");
    if status.phase_counts.len() == 0 {
        out.append("No items in this workspace.\n");
    } else {
        let mut part = "Phase breakdown:\n".to_string();
        let lines = write_phase_lines(&status.phase_counts);
        part.append(lines.as_str());
        out.append(part.as_str());
    }
    out
}

// ---------------------------------------------------------------------------
// Formats
// ---------------------------------------------------------------------------

/// A status in the format that was asked for.
#[derive(Debug)]
pub enum Rendered {
    /// The status is to be serialized as it is.
    Json,
    /// Styled text.
    Rich(Page),
    /// Plain text.
    Text(String),
}

/// The runtime part of a rich status, where the statistics are known.
pub open spec fn rich_runtime_part(stats: Option<RuntimeStats>, p: Seq<usize>, w: int) -> Seq<
    SpanView,
> {
    match stats {
        None => seq![],
        Some(s) => rich_runtime(s, p, w),
    }
}

/// `p` lists the models of the statistics, if there are any, in their order.
pub open spec fn stats_ordered(stats: Option<RuntimeStats>, p: Seq<usize>) -> bool {
    stats matches Some(s) ==> models_ordered(s.by_model@, p)
}

/// The system status in the requested format; an unknown format means `text`.
///
/// With `daemon_running` the header box of the rich form says whether the
/// daemon runs.
pub fn print_status(
    status: &SystemStatus,
    format: &str,
    percents: &Vec<u32>,
    daemon_running: Option<bool>,
    terminal_width: usize,
) -> (r: Rendered)
    requires
        format@ == "rich"@ ==> {
            &&& percents.len() == status.phase_counts.len()
            &&& bars_fit(percents@, phase_bar_width(box_width(terminal_width as int)))
            &&& all_cut_clean(status.workspace_summary@, box_width(terminal_width as int))
        },
    ensures
        r is Json <==> format@ == "json"@,
        r is Rich <==> format@ == "rich"@ && format@ != "json"@,
        r matches Rendered::Rich(page) ==> exists|p: Seq<usize>|
            #[trigger] stats_ordered(status.runtime_stats, p) && page@ == rich_status(
                *status,
                percents@,
                daemon_running,
                box_width(terminal_width as int),
            ) + rich_runtime_part(
                status.runtime_stats,
                p,
                box_width(terminal_width as int),
            ),
        r matches Rendered::Text(t) ==> t@ == text_status(*status),
{
    if text_eq(format, "json") {
        return Rendered::Json;
    }
    if !text_eq(format, "rich") {
        return Rendered::Text(print_text_status(status));
    }
    let mut page = print_rich_status(status, percents, daemon_running, terminal_width);
    let ghost shown = page@;
    match &status.runtime_stats {
        Some(s) => {
            let runtime = print_rich_runtime(s, terminal_width);
            let ghost p = choose|p: Seq<usize>|
                #[trigger] models_ordered(s.by_model@, p) && runtime@ == rich_runtime(
                    *s,
                    p,
                    box_width(terminal_width as int),
                );
            page.append_page(runtime);
            proof {
                assert(stats_ordered(status.runtime_stats, p));
                assert(page@ == shown + rich_runtime_part(
                    status.runtime_stats,
                    p,
                    box_width(terminal_width as int),
                ));
            }
        },
        None => {
            proof {
                let p: Seq<usize> = seq![];
                assert(stats_ordered(status.runtime_stats, p));
                assert(page@ =~= shown + rich_runtime_part(
                    status.runtime_stats,
                    p,
                    box_width(terminal_width as int),
                ));
            }
        },
    }
    Rendered::Rich(page)
}

/// The status of a workspace in the requested format; an unknown format means
/// `text`.
pub fn print_spec_status(
    status: &SpecStatus,
    format: &str,
    percents: &Vec<u32>,
    overall: u32,
    terminal_width: usize,
) -> (r: Rendered)
    requires
        format@ == "rich"@ ==> {
            &&& percents.len() == status.phase_counts.len()
            &&& bars_fit(percents@, phase_bar_width(box_width(terminal_width as int)))
            &&& overall * overall_bar_width(box_width(terminal_width as int)) <= usize::MAX
            &&& finished_count(status.phase_counts@) <= u32::MAX
        },
    ensures
        r is Json <==> format@ == "json"@,
        r is Rich <==> format@ == "rich"@ && format@ != "json"@,
        r matches Rendered::Rich(page) ==> page@ == rich_spec_status(
            *status,
            percents@,
            overall,
            box_width(terminal_width as int),
        ),
        r matches Rendered::Text(t) ==> t@ == text_spec_status(*status),
{
    if text_eq(format, "json") {
        Rendered::Json
    } else if text_eq(format, "rich") {
        Rendered::Rich(print_rich_spec_status(status, percents, overall, terminal_width))
    } else {
        Rendered::Text(print_text_spec_status(status))
    }
}

/// The line that says whether the daemon runs: in the text format it comes
/// before the status; the other formats carry no such line.
pub fn cmd_status(format: &str, daemon_running: bool) -> (r: String)
    ensures
        r@ == (if format@ == "json"@ || format@ == "rich"@ {
            ""@
        } else if daemon_running {
            "Daemon: running\n"@
        } else {
            "Daemon: stopped\n"@
        }),
{
    if text_eq(format, "json") || text_eq(format, "rich") {
        "".to_string()
    } else if daemon_running {
        "Daemon: running\n".to_string()
    } else {
        "Daemon: stopped\n".to_string()
    }
}

// ---------------------------------------------------------------------------
// Laws on what is shown
// ---------------------------------------------------------------------------

/// The box follows the width of the terminal between thirty-eight and a hundred
/// columns.
pub proof fn law_boxes_follow_the_terminal(tw: int)
    ensures
        44 <= tw <= 106 ==> box_width(tw) == tw - 6,
        tw < 44 ==> box_width(tw) == 38,
        tw > 106 ==> box_width(tw) == 100,
{
}

/// Every color that a phase can have is shown as it is.
pub proof fn law_colors_are_kept(c: Color)
    ensures
        !(c is Magenta) ==> terminal_color(c) == c,
        terminal_color(Color::Magenta) == Color::White,
{
}

/// The rows of the box are as wide as its borders.
pub proof fn law_rows_are_as_wide_as_the_box(total: nat, hitl: nat, w: nat)
    requires
        w >= 38,
        dec(total).len() <= 20,
        0 < hitl,
        dec(hitl).len() <= 20,
    ensures
        border("┌"@, w, "┐"@).len() == w + 3,
        total_row(total, w).len() == w + 3,
        hitl_row(hitl, w)[0].text.len() + hitl_row(hitl, w)[1].text.len() + hitl_row(
            hitl,
            w,
        )[2].text.len() == w + 3,
{
    reveal_strlit("┌");
    reveal_strlit("┐");
    reveal_strlit("\n");
    reveal_strlit(" │\n");
    reveal_strlit("│ Total items: ");
    reveal_strlit("│ HITL items:  ");
}

/// The box says how many items there are, how many wait for a human, and whether
/// the daemon runs.
pub proof fn law_the_box_says_how_many(total: nat, hitl: nat, running: Option<bool>, w: nat)
    ensures
        part_of(header_box(total, hitl, running, w), seq![plain(total_row(total, w))]),
        holds(total_row(total, w), "│ Total items: "@ + dec(total)),
        part_of(header_box(total, hitl, running, w), hitl_row(hitl, w)),
        hitl > 0 ==> hitl_row(hitl, w)[1].text == dec(hitl),
        part_of(header_box(total, hitl, running, w), daemon_row(running, w)),
        running == Some(true) ==> daemon_row(running, w)[1] == colored("● running"@, Color::Green),
        running == Some(false) ==> daemon_row(running, w)[1] == colored("○ stopped"@, Color::Red),
        running is None ==> daemon_row(running, w).len() == 0,
{
    broadcast use {group_parts, group_holds};

}

/// The row of a phase shows its name, its count, and its share as a bar and as a
/// number.
pub proof fn law_phase_rows_show_the_phase(pc: PhaseCount, pct: u32, w: int)
    ensures
        phase_row(pc, pct, w)[3].text.take(pc.phase@.len() as int) == pc.phase@,
        phase_row(pc, pct, w)[3].style.fg == Some(terminal_color(phase_color_of(pc.phase@))),
        holds(phase_row(pc, pct, w)[6].text, dec(pc.count as nat)),
        holds(phase_row(pc, pct, w)[8].text, progress_bar(pct as nat, phase_bar_width(w))),
        holds(phase_row(pc, pct, w)[8].text, dec(pct as nat)),
{
    broadcast use group_holds;

    law_padding_keeps_the_text(pc.phase@, 14);
    assert(phase_row(pc, pct, w)[3].text.take(pc.phase@.len() as int) =~= pc.phase@);
    let c = dec(pc.count as nat);
    assert(holds(c + repeat(' ', lack(c, 8)), c));
    let p = dec(pct as nat);
    assert(holds(repeat(' ', lack(p, 3)) + p, p));
}

proof fn lemma_phase_rows(counts: Seq<PhaseCount>, percents: Seq<u32>, w: int, n: nat, i: int)
    requires
        0 <= i < n,
    ensures
        part_of(phase_rows(counts, percents, w, n), phase_row(counts[i], percents[i], w)),
    decreases n,
{
    broadcast use group_parts;

    if i < n - 1 {
        lemma_phase_rows(counts, percents, w, (n - 1) as nat, i);
    }
}

proof fn lemma_workspace_rows(all: Seq<WorkspaceSummary>, w: int, n: nat, i: int)
    requires
        0 <= i < n,
    ensures
        part_of(workspace_rows(all, w, n), workspace_row(all[i], w)),
    decreases n,
{
    broadcast use group_parts;

    if i < n - 1 {
        lemma_workspace_rows(all, w, (n - 1) as nat, i);
    }
}

proof fn lemma_running_rows(items: Seq<ItemSummary>, n: nat, i: int)
    requires
        0 <= i < n,
    ensures
        part_of(running_rows(items, n), running_row(items[i])),
    decreases n,
{
    broadcast use group_parts;

    if i < n - 1 {
        lemma_running_rows(items, (n - 1) as nat, i);
    }
}

proof fn lemma_event_rows(events: Seq<EventSummary>, n: nat, i: int)
    requires
        0 <= i < n,
    ensures
        part_of(event_rows(events, n), event_row(events[i])),
    decreases n,
{
    broadcast use group_parts;

    if i < n - 1 {
        lemma_event_rows(events, (n - 1) as nat, i);
    }
}

proof fn lemma_alert_rows(items: Seq<ItemSummary>, sign: Seq<char>, c: Color, n: nat, i: int)
    requires
        0 <= i < n,
    ensures
        part_of(alert_rows(items, sign, c, n), alert_row(items[i], sign, c)),
    decreases n,
{
    broadcast use group_parts;

    if i < n - 1 {
        lemma_alert_rows(items, sign, c, (n - 1) as nat, i);
    }
}

proof fn lemma_runtime_rows(models: Seq<ModelStats>, p: Seq<usize>, n: nat, i: int)
    requires
        0 <= i < n,
    ensures
        part_of(runtime_rows(models, p, n), runtime_row(models[p[i] as int])),
    decreases n,
{
    broadcast use group_parts;

    if i < n - 1 {
        lemma_runtime_rows(models, p, (n - 1) as nat, i);
    }
}

proof fn lemma_usage_rows(models: Seq<ModelTokenSummary>, n: nat, i: int)
    requires
        0 <= i < n,
    ensures
        part_of(usage_rows(models, n), usage_row(models[i])),
    decreases n,
{
    broadcast use group_parts;

    if i < n - 1 {
        lemma_usage_rows(models, (n - 1) as nat, i);
    }
}

/// The status shows every phase, in a row of its own.
pub proof fn law_every_phase_is_shown(
    status: SystemStatus,
    percents: Seq<u32>,
    running: Option<bool>,
    w: int,
    i: int,
)
    requires
        0 <= i < status.phase_counts.len(),
    ensures
        part_of(
            rich_status(status, percents, running, w),
            phase_row(status.phase_counts@[i], percents[i], w),
        ),
{
    broadcast use group_parts;

    let part = phase_row(status.phase_counts@[i], percents[i], w);
    lemma_phase_rows(status.phase_counts@, percents, w, status.phase_counts.len() as nat, i);
    assert(part_of(phase_table(status.phase_counts@, percents, w), part));
}

/// The status shows every workspace, in a row of its own.
pub proof fn law_every_workspace_is_shown(
    status: SystemStatus,
    percents: Seq<u32>,
    running: Option<bool>,
    w: int,
    i: int,
)
    requires
        0 <= i < status.workspace_summary.len(),
    ensures
        part_of(
            rich_status(status, percents, running, w),
            workspace_row(status.workspace_summary@[i], w),
        ),
{
    broadcast use group_parts;

    let part = workspace_row(status.workspace_summary@[i], w);
    lemma_workspace_rows(status.workspace_summary@, w, status.workspace_summary.len() as nat, i);
    assert(part_of(workspace_table(status.workspace_summary@, w), part));
}

/// The row of a workspace shows its name, how many items it has, and its phases,
/// whole where they fit.
pub proof fn law_workspace_rows_show_the_workspace(ws: WorkspaceSummary, w: int, i: int)
    ensures
        holds(workspace_row(ws, w)[2].text, ws.workspace@),
        holds(workspace_row(ws, w)[4].text, dec(ws.total as nat)),
        0 <= i < ws.phase_counts.len() && byte_len(join(phase_tags(ws.phase_counts@), ", "@))
            <= phases_width(w) ==> holds(
            workspace_row(ws, w)[7].text,
            ws.phase_counts@[i].phase@ + ":"@ + dec(ws.phase_counts@[i].count as nat),
        ),
{
    broadcast use group_holds;

    let name = ws.workspace@;
    assert(holds(name + repeat(' ', lack(name, 14)), name));
    let c = dec(ws.total as nat);
    assert(holds(c + repeat(' ', lack(c, 5)), c));
    if 0 <= i < ws.phase_counts.len() {
        law_a_joined_text_holds_its_parts(phase_tags(ws.phase_counts@), ", "@, i);
    }
}

/// The status shows every running item with its id and its workspace.
pub proof fn law_every_running_item_is_shown(
    status: SystemStatus,
    percents: Seq<u32>,
    running: Option<bool>,
    w: int,
    i: int,
)
    requires
        0 <= i < status.running_items.len(),
    ensures
        part_of(
            rich_status(status, percents, running, w),
            seq![
                plain("    "@),
                colored("●"@, Color::Green),
                plain(" "@ + status.running_items@[i].work_id@ + " "@),
                colored("("@ + status.running_items@[i].workspace@ + ")"@, Color::DarkGray),
                plain("\n"@),
            ],
        ),
{
    broadcast use group_parts;

    let part = running_row(status.running_items@[i]);
    lemma_running_rows(status.running_items@, status.running_items.len() as nat, i);
    assert(part_of(running_list(status.running_items@), part));
}

/// The status shows every recent event: from where, to where, and of which item.
pub proof fn law_every_event_is_shown(
    status: SystemStatus,
    percents: Seq<u32>,
    running: Option<bool>,
    w: int,
    i: int,
)
    requires
        0 <= i < status.recent_events.len(),
    ensures
        part_of(
            rich_status(status, percents, running, w),
            event_row(status.recent_events@[i]),
        ),
        event_row(status.recent_events@[i])[1].text == status.recent_events@[i].from_state@,
        event_row(status.recent_events@[i])[3].text == status.recent_events@[i].to_state@,
        event_row(status.recent_events@[i])[5].text == status.recent_events@[i].item_id@,
        holds(
            event_row(status.recent_events@[i])[7].text,
            status.recent_events@[i].event_type@,
        ),
{
    broadcast use {group_parts, group_holds};

    let part = event_row(status.recent_events@[i]);
    lemma_event_rows(status.recent_events@, status.recent_events.len() as nat, i);
    assert(part_of(event_list(status.recent_events@), part));
}

/// The status shows every failed item and every one that waits for a human, with
/// its id, its workspace and when it changed, and says how many there are.
pub proof fn law_every_alert_is_shown(
    status: SystemStatus,
    percents: Seq<u32>,
    running: Option<bool>,
    w: int,
    i: int,
)
    ensures
        0 <= i < status.error_items.len() ==> part_of(
            rich_status(status, percents, running, w),
            alert_row(status.error_items@[i], "✖"@, Color::Red),
        ),
        0 <= i < status.hitl_items.len() ==> part_of(
            rich_status(status, percents, running, w),
            alert_row(status.hitl_items@[i], "⚠"@, Color::Yellow),
        ),
        status.hitl_items.len() > 0 ==> part_of(
            rich_status(status, percents, running, w),
            review_call(status.hitl_items.len() as nat),
        ),
        status.hitl_items.len() == 0 && status.hitl_count > 0 ==> part_of(
            rich_status(status, percents, running, w),
            review_call(status.hitl_count as nat),
        ),
{
    broadcast use group_parts;

    if 0 <= i < status.error_items.len() {
        let part = alert_row(status.error_items@[i], "✖"@, Color::Red);
        lemma_alert_rows(
            status.error_items@,
            "✖"@,
            Color::Red,
            status.error_items.len() as nat,
            i,
        );
        assert(part_of(error_list(status.error_items@), part));
    }
    if 0 <= i < status.hitl_items.len() {
        let part = alert_row(status.hitl_items@[i], "⚠"@, Color::Yellow);
        lemma_alert_rows(
            status.hitl_items@,
            "⚠"@,
            Color::Yellow,
            status.hitl_items.len() as nat,
            i,
        );
        assert(part_of(
            alert_list("HITL Pending"@, status.hitl_items@, "⚠"@, Color::Yellow),
            part,
        ));
        assert(part_of(hitl_list(status.hitl_items@, status.hitl_count as nat), part));
    }
}

/// The row of an alert shows the id, the workspace and the time of its item, and
/// the call to review how many there are.
pub proof fn law_alerts_show_their_item(item: ItemSummary, sign: Seq<char>, c: Color, n: nat)
    ensures
        alert_row(item, sign, c)[1] == colored(sign, c),
        alert_row(item, sign, c)[3] == colored(item.work_id@, c),
        holds(alert_row(item, sign, c)[5].text, item.workspace@ + ") "@ + item.updated_at@),
        holds(review_call(n)[1].text, dec(n)),
{
    broadcast use group_holds;

}

/// The totals of the runtime are shown with their parts.
pub proof fn law_runtime_totals_are_shown(stats: RuntimeStats, p: Seq<usize>, w: int)
    ensures
        part_of(rich_runtime(stats, p, w), runtime_totals(stats, w)),
        runtime_totals(stats, w)[5].text == grouped(stats.total_tokens as nat),
        holds(
            runtime_totals(stats, w)[6].text,
            " (in: "@ + grouped(stats.total_tokens_input as nat) + " / out: "@,
        ),
        holds(
            runtime_totals(stats, w)[6].text,
            " / out: "@ + grouped(stats.total_tokens_output as nat),
        ),
        runtime_totals(stats, w)[7].text == dec(stats.executions as nat),
        stats.avg_duration matches Some(d) ==> holds(
            runtime_totals(stats, w)[8].text,
            d@ + "ms"@,
        ),
{
    broadcast use {group_parts, group_holds};

}

/// Numbers of tokens are shown in three columns, flush right.
pub proof fn law_token_cells_have_their_columns(input: nat, output: nat, total: nat)
    requires
        grouped(input).len() <= 10,
        grouped(output).len() <= 10,
        grouped(total).len() <= 10,
    ensures
        found_at(token_cells(input, output, total), 11 - grouped(input).len(), grouped(input)),
        found_at(token_cells(input, output, total), 22 - grouped(output).len(), grouped(output)),
        found_at(token_cells(input, output, total), 33 - grouped(total).len(), grouped(total)),
{
    reveal_strlit(" ");
    let row = token_cells(input, output, total);
    assert(row.subrange(11 - grouped(input).len(), 11) =~= grouped(input));
    assert(row.subrange(22 - grouped(output).len(), 22) =~= grouped(output));
    assert(row.subrange(33 - grouped(total).len(), 33) =~= grouped(total));
}

/// The runtime is shown with a row for every model, in the order that is given:
/// its name, its tokens and its runs.
pub proof fn law_every_model_is_shown(stats: RuntimeStats, p: Seq<usize>, w: int, i: int)
    requires
        p.len() == stats.by_model.len(),
        0 <= i < p.len(),
    ensures
        ({
            let m = stats.by_model@[p[i] as int];
            &&& part_of(rich_runtime(stats, p, w), runtime_row(m))
            &&& runtime_row(m)[1].text == m.model@
            &&& holds(
                runtime_row(m)[2].text,
                token_cells(
                    m.input_tokens as nat,
                    m.output_tokens as nat,
                    m.total_tokens as nat,
                ),
            )
            &&& holds(runtime_row(m)[2].text, dec(m.executions as nat))
        }),
{
    broadcast use {group_parts, group_holds};

    let m = stats.by_model@[p[i] as int];
    lemma_runtime_rows(stats.by_model@, p, p.len(), i);
    assert(part_of(runtime_models(stats, p), runtime_row(m)));
    let e = dec(m.executions as nat);
    assert(holds(repeat(' ', lack(e, 6)) + e, e));
}

/// The status of a workspace shows its name, its configuration and its items, and
/// every phase.
pub proof fn law_spec_status_shows_the_workspace(
    status: SpecStatus,
    percents: Seq<u32>,
    overall: u32,
    w: int,
    i: int,
)
    ensures
        part_of(rich_spec_status(status, percents, overall, w), spec_box(status, w)),
        spec_box(status, w)[2].text == status.workspace@,
        holds(spec_box(status, w)[4].text, "│ Config:    "@ + status.config_path@),
        holds(spec_box(status, w)[5].text, "│ Items:     "@ + dec(status.item_count as nat)),
        0 <= i < status.phase_counts.len() ==> part_of(
            rich_spec_status(status, percents, overall, w),
            phase_row(status.phase_counts@[i], percents[i], w),
        ),
{
    broadcast use {group_parts, group_holds};

    if 0 <= i < status.phase_counts.len() {
        let part = phase_row(status.phase_counts@[i], percents[i], w);
        lemma_phase_rows(status.phase_counts@, percents, w, status.phase_counts.len() as nat, i);
        assert(part_of(phase_table(status.phase_counts@, percents, w), part));
    }
}

/// Items that are done, completed or skipped are finished, and no others; they are
/// counted phase by phase.
pub proof fn law_finished_items_add_up(a: Seq<PhaseCount>, b: Seq<PhaseCount>, c: PhaseCount)
    ensures
        finished_count(a + b) == finished_count(a) + finished_count(b),
        c.phase@ == "done"@ || c.phase@ == "completed"@ || c.phase@ == "skipped"@
            ==> finished_count(seq![c]) == c.count,
        !(c.phase@ == "done"@ || c.phase@ == "completed"@ || c.phase@ == "skipped"@)
            ==> finished_count(seq![c]) == 0,
    decreases b.len(),
{
    assert(seq![c].drop_last() =~= seq![]);
    assert(finished_count(seq![c].drop_last()) == 0);
    if b.len() == 0 {
        assert(a + b =~= a);
    } else {
        law_finished_items_add_up(a, b.drop_last(), c);
        assert((a + b).drop_last() =~= a + b.drop_last());
    }
}

/// The share that is finished is told as a fraction, as a bar and as a number.
pub proof fn law_the_finished_share_is_told(status: SpecStatus, pct: u32, w: int)
    requires
        status.phase_counts.len() > 0,
    ensures
        overall_line(status, pct, w).len() == 1,
        status.item_count > 0 ==> holds(
            overall_line(status, pct, w)[0].text,
            dec(finished_count(status.phase_counts@)) + "/"@ + dec(status.item_count as nat),
        ),
        holds(
            overall_line(status, pct, w)[0].text,
            progress_bar(pct as nat, overall_bar_width(w)),
        ),
        holds(overall_line(status, pct, w)[0].text, dec(pct as nat)),
{
    broadcast use group_holds;

    let p = dec(pct as nat);
    assert(holds(repeat(' ', lack(p, 3)) + p, p));
}

/// The tokens of a workspace are shown with their totals, and with a row for every
/// model.
pub proof fn law_token_usage_is_shown(u: TokenUsageSummary, w: int, i: int)
    ensures
        part_of(usage_part(Some(u), w), usage_totals(u, w)),
        usage_totals(u, w)[5].text == grouped(u.total_tokens as nat),
        holds(
            usage_totals(u, w)[6].text,
            " (in: "@ + grouped(u.total_input as nat) + " / out: "@,
        ),
        holds(usage_totals(u, w)[6].text, " / out: "@ + grouped(u.total_output as nat)),
        usage_totals(u, w)[7].text == dec(u.executions as nat),
        0 <= i < u.by_model.len() ==> ({
            let m = u.by_model@[i];
            &&& part_of(usage_part(Some(u), w), usage_row(m))
            &&& usage_row(m)[1].text == m.model@
            &&& holds(
                usage_row(m)[2].text,
                token_cells(
                    m.input_tokens as nat,
                    m.output_tokens as nat,
                    m.total_tokens as nat,
                ),
            )
            &&& holds(usage_row(m)[2].text, dec(m.executions as nat))
        }),
        usage_part(None, w).len() == 0,
{
    broadcast use {group_parts, group_holds};

    if 0 <= i < u.by_model.len() {
        let m = u.by_model@[i];
        lemma_usage_rows(u.by_model@, u.by_model.len() as nat, i);
        assert(part_of(usage_part(Some(u), w), usage_row(m)));
        let e = dec(m.executions as nat);
        assert(holds(repeat(' ', lack(e, 5)) + e, e));
    }
}

proof fn lemma_phase_lines(counts: Seq<PhaseCount>, n: nat, i: int)
    requires
        0 <= i < n,
    ensures
        holds(
            phase_lines(counts, n),
            "  "@ + pad_right(counts[i].phase@, 12) + " "@ + dec(counts[i].count as nat) + "\n"@,
        ),
    decreases n,
{
    broadcast use group_holds;

    if i < n - 1 {
        lemma_phase_lines(counts, (n - 1) as nat, i);
    }
}

proof fn lemma_running_lines(items: Seq<ItemSummary>, n: nat, i: int)
    requires
        0 <= i < n,
    ensures
        holds(
            running_lines(items, n),
            "  "@ + items[i].work_id@ + " ("@ + items[i].workspace@ + "/"@ + items[i].state@
                + ")\n"@,
        ),
    decreases n,
{
    broadcast use group_holds;

    if i < n - 1 {
        lemma_running_lines(items, (n - 1) as nat, i);
    }
}

proof fn lemma_event_lines(events: Seq<EventSummary>, n: nat, i: int)
    requires
        0 <= i < n,
    ensures
        holds(
            event_lines(events, n),
            "  "@ + events[i].from_state@ + " -> "@ + events[i].to_state@ + " ["@
                + events[i].event_type@ + "] "@ + events[i].item_id@ + " ("@ + events[i].timestamp@
                + ")\n"@,
        ),
    decreases n,
{
    broadcast use group_holds;

    if i < n - 1 {
        lemma_event_lines(events, (n - 1) as nat, i);
    }
}

/// The text of the status tells the totals, every phase, every running item and
/// every event.
pub proof fn law_the_text_tells_all(status: SystemStatus, i: int)
    ensures
        holds(text_status(status), dec(status.total_items as nat) + "\n"@),
        status.hitl_count > 0 ==> holds(
            text_status(status),
            "\u{1b}[31mHITL: "@ + dec(status.hitl_count as nat) + "\u{1b}[0m\n"@,
        ),
        status.hitl_count > 0 ==> holds(
            text_status(status),
            dec(status.hitl_count as nat)
                + " items require human intervention. Run 'belt claw' to review.\u{1b}[0m\n"@,
        ),
        0 <= i < status.phase_counts.len() ==> holds(
            text_status(status),
            "  "@ + pad_right(status.phase_counts@[i].phase@, 12) + " "@ + dec(
                status.phase_counts@[i].count as nat,
            ) + "\n"@,
        ),
        0 <= i < status.running_items.len() ==> holds(
            text_status(status),
            "  "@ + status.running_items@[i].work_id@ + " ("@ + status.running_items@[i].workspace@
                + "/"@ + status.running_items@[i].state@ + ")\n"@,
        ),
        0 <= i < status.recent_events.len() ==> holds(
            text_status(status),
            "  "@ + status.recent_events@[i].from_state@ + " -> "@
                + status.recent_events@[i].to_state@ + " ["@ + status.recent_events@[i].event_type@
                + "] "@ + status.recent_events@[i].item_id@ + " ("@
                + status.recent_events@[i].timestamp@ + ")\n"@,
        ),
        status.runtime_stats matches Some(s) ==> holds(
            text_status(status),
            dec(s.total_tokens as nat) + " total, "@ + dec(s.executions as nat),
        ),
{
    broadcast use group_holds;

    if status.hitl_count > 0 {
        let n = dec(status.hitl_count as nat);
        assert(holds(
            hitl_line(status.hitl_count as nat),
            "\u{1b}[31mHITL: "@ + n + "\u{1b}[0m\n"@,
        ));
        assert(holds(
            warning_part(status.hitl_count as nat),
            n + " items require human intervention. Run 'belt claw' to review.\u{1b}[0m\n"@,
        ));
    }
    if 0 <= i < status.phase_counts.len() {
        lemma_phase_lines(status.phase_counts@, status.phase_counts.len() as nat, i);
    }
    if 0 <= i < status.running_items.len() {
        lemma_running_lines(status.running_items@, status.running_items.len() as nat, i);
    }
    if 0 <= i < status.recent_events.len() {
        lemma_event_lines(status.recent_events@, status.recent_events.len() as nat, i);
    }
    match status.runtime_stats {
        Some(s) => {
            assert(holds(
                token_part(Some(s)),
                dec(s.total_tokens as nat) + " total, "@ + dec(s.executions as nat),
            ));
        },
        None => {},
    }
}

/// The text of the status of a workspace tells its name, its configuration, its
/// items and every phase.
pub proof fn law_the_text_tells_the_workspace(status: SpecStatus, i: int)
    ensures
        holds(text_spec_status(status), "Workspace: "@ + status.workspace@),
        holds(text_spec_status(status), "\nConfig:    "@ + status.config_path@),
        holds(text_spec_status(status), "\nItems:     "@ + dec(status.item_count as nat)),
        0 <= i < status.phase_counts.len() ==> holds(
            text_spec_status(status),
            "  "@ + pad_right(status.phase_counts@[i].phase@, 12) + " "@ + dec(
                status.phase_counts@[i].count as nat,
            ) + "\n"@,
        ),
{
    broadcast use group_holds;

    if 0 <= i < status.phase_counts.len() {
        lemma_phase_lines(status.phase_counts@, status.phase_counts.len() as nat, i);
    }
}

/// Models are shown from the one with the most tokens down, each once.
pub proof fn law_the_largest_model_comes_first(models: Seq<ModelStats>, p: Seq<usize>, i: int, j: int)
    requires
        models_ordered(models, p),
        0 <= i < j < p.len(),
    ensures
        p.len() == models.len(),
        p[i] != p[j],
        p[i] < models.len(),
        models[p[i] as int].total_tokens >= models[p[j] as int].total_tokens,
{
    let keys = model_totals(models);
    assert(p[j] < models.len());
    assert(keys[p[i] as int] >= keys[p[j] as int]);
}

/// Where there are runtime statistics they are shown, and otherwise nothing is.
pub proof fn law_the_runtime_is_shown_where_known(s: RuntimeStats, p: Seq<usize>, w: int)
    ensures
        rich_runtime_part(Some(s), p, w) == rich_runtime(s, p, w),
        rich_runtime_part(None, p, w).len() == 0,
{
}

} // verus!
