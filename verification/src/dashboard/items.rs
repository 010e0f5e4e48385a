//! The tabs that show queue items: the dashboard, a workspace, the board.

use vstd::prelude::*;

use crate::bytes::byte_len;
use crate::bytes::exceeds;
use crate::dashboard::keys::column;
use crate::dashboard::keys::lemma_column_len;
use crate::dashboard::panel::row_style;
use crate::dashboard::panel::style_of_row;
use crate::dashboard::panel::titles4;
use crate::dashboard::panel::LinesPanel;
use crate::dashboard::panel::LinesView;
use crate::dashboard::panel::RowView;
use crate::dashboard::panel::TablePanel;
use crate::dashboard::panel::TableView;
use crate::dashboard::palette::phase_color;
use crate::dashboard::palette::phase_color_of;
use crate::dashboard::state::board_phase;
use crate::dashboard::state::board_phases;
use crate::dashboard::state::DashboardTab;
use crate::order::is_order;
use crate::order::latest_first;
use crate::order::order_latest_first;
use crate::pieces::group_holds;
use crate::pieces::holds;
use crate::queue::count_phase;
use crate::queue::items_in;
use crate::queue::QueueItem;
use crate::queue::QueuePhase;
use crate::status::count_for;
use crate::status::count_named;
use crate::status::sum_counts;
use crate::status::total_count;
use crate::status::PhaseCount;
use crate::status::WorkspaceRow;
use crate::style::bold;
use crate::style::bold_colored;
use crate::style::colored;
use crate::style::plain;
use crate::style::Color;
use crate::style::Page;
use crate::style::SpanView;
use crate::style::Style;
use crate::text::cat2;
use crate::text::cat3;
use crate::text::cat5;
use crate::text::chars_of;
use crate::text::dec;
use crate::text::dec_u32;
use crate::text::dec_usize;
use crate::text::string_of;
use crate::text::texts;

verus! {

// ---------------------------------------------------------------------------
// Fitting text
// ---------------------------------------------------------------------------

/// `s` made to fit a width: below four columns its beginning, else the whole
/// where it takes no more bytes than that, else its beginning and two dots.
pub open spec fn fitted(s: Seq<char>, max: nat) -> Seq<char> {
    if max < 4 {
        if s.len() <= max {
            s
        } else {
            s.take(max as int)
        }
    } else if byte_len(s) <= max {
        s
    } else if s.len() <= max - 2 {
        s + ".."@
    } else {
        s.take(max - 2) + ".."@
    }
}

fn beginning(s: &str, n: usize) -> (r: String)
    ensures
        r@ == (if s@.len() <= n {
            s@
        } else {
            s@.take(n as int)
        }),
{
    let cs = chars_of(s);
    if cs.len() <= n {
        s.to_owned()
    } else {
        proof {
            assert(cs@.subrange(0, n as int) =~= cs@.take(n as int));
        }
        string_of(&cs, 0, n)
    }
}

/// Truncates a string to fit within a given width.
pub fn truncate_str(s: &str, max_width: usize) -> (r: String)
    ensures
        r@ == fitted(s@, max_width as nat),
{
    if max_width < 4 {
        beginning(s, max_width)
    } else if !exceeds(s, max_width) {
        s.to_owned()
    } else {
        let mut out = beginning(s, max_width - 2);
        out.append("..");
        out
    }
}

/// A text takes at least as many bytes as it has characters.
proof fn lemma_chars_within_bytes(s: Seq<char>)
    ensures
        s.len() <= byte_len(s),
    decreases s.len(),
{
    if s.len() > 0 {
        lemma_chars_within_bytes(s.drop_last());
    }
}

/// A fitted text has at most as many characters as there are columns.
pub proof fn law_fitted_text_fits(s: Seq<char>, max: nat)
    ensures
        fitted(s, max).len() <= max,
{
    lemma_chars_within_bytes(s);
    reveal_strlit("..");
}

// ---------------------------------------------------------------------------
// Tab bar
// ---------------------------------------------------------------------------

/// One entry of the tab bar.
pub open spec fn tab_entry(label: Seq<char>, tab: DashboardTab, active: DashboardTab) -> SpanView {
    if tab == active {
        SpanView {
            text: label,
            style: Style { fg: Some(Color::Yellow), bg: None, bold: true, underlined: true },
        }
    } else {
        colored(label, Color::DarkGray)
    }
}

/// The tab bar, with the active tab highlighted.
pub open spec fn tab_bar(active: DashboardTab) -> Seq<SpanView> {
    seq![
        tab_entry("[d] Dashboard"@, DashboardTab::Dashboard, active),
        plain("  "@),
        tab_entry("[w] Workspace"@, DashboardTab::PerWorkspace, active),
        plain("  "@),
        tab_entry("[s] Spec"@, DashboardTab::Spec, active),
        plain("  "@),
        tab_entry("[b] Board"@, DashboardTab::Board, active),
        plain("  "@),
        tab_entry("[n] DataSource"@, DashboardTab::DataSource, active),
        plain("  "@),
        tab_entry("[x] Scripts"@, DashboardTab::Scripts, active),
        plain("    "@),
        colored("[h] Help  [Tab/Shift+Tab] Cycle"@, Color::DarkGray),
    ]
}

fn put_tab(page: &mut Page, label: &str, tab: DashboardTab, active: DashboardTab)
    ensures
        final(page)@ == old(page)@.push(tab_entry(label@, tab, active)),
{
    if tab == active {
        page.active(label);
    } else {
        page.colored(label, Color::DarkGray);
    }
}

/// The tab bar showing available tabs with the active one highlighted.
pub fn render_tab_bar(active: DashboardTab) -> (r: LinesPanel)
    ensures
        r@ == (LinesView {
            title: " Belt TUI "@,
            border: Color::Cyan,
            lines: seq![tab_bar(active)],
        }),
{
    let mut bar = Page::new();
    put_tab(&mut bar, "[d] Dashboard", DashboardTab::Dashboard, active);
    bar.plain("  ");
    put_tab(&mut bar, "[w] Workspace", DashboardTab::PerWorkspace, active);
    bar.plain("  ");
    put_tab(&mut bar, "[s] Spec", DashboardTab::Spec, active);
    bar.plain("  ");
    put_tab(&mut bar, "[b] Board", DashboardTab::Board, active);
    bar.plain("  ");
    put_tab(&mut bar, "[n] DataSource", DashboardTab::DataSource, active);
    bar.plain("  ");
    put_tab(&mut bar, "[x] Scripts", DashboardTab::Scripts, active);
    bar.plain("    ");
    bar.colored("[h] Help  [Tab/Shift+Tab] Cycle", Color::DarkGray);
    proof {
        assert(bar@ =~= tab_bar(active));
    }
    let mut panel = LinesPanel::new(" Belt TUI ", Color::Cyan);
    panel.line(bar);
    panel
}

// ---------------------------------------------------------------------------
// Board
// ---------------------------------------------------------------------------

/// One card of a board column.
pub open spec fn card(item: QueueItem, selected: bool, width: nat) -> Seq<SpanView> {
    if selected {
        seq![bold_colored("> "@ + fitted(item.work_id@, (width - 4) as nat), Color::Yellow)]
    } else {
        seq![colored("  "@ + fitted(item.work_id@, (width - 4) as nat), Color::White)]
    }
}

/// The cards of a board column; `row` is the selected one, if any.
pub open spec fn cards(items: Seq<QueueItem>, row: Option<usize>, width: nat) -> Seq<
    Seq<SpanView>,
> {
    if items.len() == 0 {
        seq![seq![colored("  (empty)"@, Color::DarkGray)]]
    } else {
        card_list(items, row, width)
    }
}

/// The cards of the items.
pub open spec fn card_list(items: Seq<QueueItem>, row: Option<usize>, width: nat) -> Seq<
    Seq<SpanView>,
> {
    Seq::new(items.len(), |i: int| card(items[i], row == Some(i as usize), width))
}

/// One column of the board.
pub open spec fn board_column(
    all: Seq<QueueItem>,
    p: QueuePhase,
    row: Option<usize>,
    width: nat,
) -> LinesView {
    LinesView {
        title: " "@ + p.name() + " ("@ + dec(column(all, p).len()) + ") "@,
        border: if row is Some {
            phase_color_of(p.name())
        } else {
            Color::DarkGray
        },
        lines: cards(column(all, p), row, width),
    }
}

/// One column of the board of the given width in columns: the items in the
/// phase of column `col`. `row` is the selected card where the column is the
/// selected one.
pub fn render_board_column(all: &Vec<QueueItem>, col: usize, row: Option<usize>, width: usize) -> (r:
    LinesPanel)
    requires
        col < 7,
        items_in(all@, board_phases()[col as int]) > 0 ==> width >= 4,
    ensures
        r@ == board_column(all@, board_phases()[col as int], row, width as nat),
{
    let p = board_phase(col);
    let n: usize = count_phase(all, p);
    let count = dec_usize(n);
    proof {
        crate::dashboard::keys::lemma_column_len(all@, p);
    }
    let title = cat5(" ", p.as_str(), " (", count.as_str(), ") ");
    let border = if row.is_some() {
        phase_color(p.as_str())
    } else {
        Color::DarkGray
    };
    let mut panel = LinesPanel::new(title.as_str(), border);
    let ghost full = column(all@, p);
    let mut seen: usize = 0;
    let mut i: usize = 0;
    while i < all.len()
        invariant
            i <= all.len(),
            seen <= i,
            p == board_phases()[col as int],
            col < 7,
            items_in(all@, p) > 0 ==> width >= 4,
            full == column(all@, p),
            seen == column(all@.take(i as int), p).len(),
            panel@.title == " "@ + p.name() + " ("@ + dec(full.len()) + ") "@,
            panel@.border == border,
            panel@.lines == card_list(column(all@.take(i as int), p), row, width as nat),
        decreases all.len() - i,
    {
        let ghost before = column(all@.take(i as int), p);
        proof {
            assert(all@.take(i + 1).drop_last() =~= all@.take(i as int));
        }
        if all[i].phase == p {
            proof {
                lemma_in_phase(all@, p, i as int);
            }
            let shown = truncate_str(all[i].work_id.as_str(), width - 4);
            let chosen = match row {
                Some(k) => k == seen,
                None => false,
            };
            let mut line = Page::new();
            if chosen {
                let text = cat2("> ", shown.as_str());
                line.bold_colored(text.as_str(), Color::Yellow);
            } else {
                let text = cat2("  ", shown.as_str());
                line.colored(text.as_str(), Color::White);
            }
            let ghost drawn = line@;
            panel.line(line);
            proof {
                let now = column(all@.take(i + 1), p);
                assert(now =~= before.push(all@[i as int]));
                assert(drawn =~= card(all@[i as int], row == Some(seen), width as nat));
                assert(panel@.lines =~= card_list(now, row, width as nat));
            }
            seen = seen + 1;
        }
        i = i + 1;
    }
    proof {
        assert(all@.take(all@.len() as int) =~= all@);
    }
    if seen == 0 {
        let mut line = Page::new();
        line.colored("  (empty)", Color::DarkGray);
        proof {
            assert(line@ =~= seq![colored("  (empty)"@, Color::DarkGray)]);
        }
        panel.line(line);
    }
    proof {
        assert(panel@.lines =~= cards(full, row, width as nat));
    }
    panel
}

proof fn lemma_in_phase(all: Seq<QueueItem>, p: QueuePhase, i: int)
    requires
        0 <= i < all.len(),
        all[i].phase == p,
    ensures
        items_in(all, p) > 0,
    decreases all.len(),
{
    if i < all.len() - 1 {
        lemma_in_phase(all.drop_last(), p, i);
    }
}

// ---------------------------------------------------------------------------
// Recent items
// ---------------------------------------------------------------------------

/// How many recent items are shown.
pub const RECENT_ITEMS: usize = 8;

/// The times of the last changes of the items.
pub open spec fn update_times(items: Seq<QueueItem>) -> Seq<Seq<char>> {
    Seq::new(items.len(), |i: int| items[i].updated_at@)
}

/// `p` lists the items with the latest change first; items that changed at the
/// same time keep their order.
pub open spec fn recency_order(items: Seq<QueueItem>, p: Seq<usize>) -> bool {
    is_order(p, items.len()) && latest_first(update_times(items), p)
}

/// The first items of `all` in the order `p`, at most `RECENT_ITEMS`.
pub open spec fn picked(all: Seq<QueueItem>, p: Seq<usize>) -> Seq<QueueItem> {
    Seq::new(
        if p.len() < RECENT_ITEMS {
            p.len()
        } else {
            RECENT_ITEMS as nat
        },
        |i: int| all[p[i] as int],
    )
}

fn copy_item(item: &QueueItem) -> (r: QueueItem)
    ensures
        r == *item,
{
    QueueItem {
        work_id: item.work_id.clone(),
        source_id: item.source_id.clone(),
        workspace_id: item.workspace_id.clone(),
        state: item.state.clone(),
        phase: item.phase,
        title: item.title.clone(),
        created_at: item.created_at.clone(),
        updated_at: item.updated_at.clone(),
        hitl_created_at: item.hitl_created_at.clone(),
        hitl_reason: item.hitl_reason,
        hitl_reason_name: item.hitl_reason_name.clone(),
        hitl_respondent: item.hitl_respondent.clone(),
        hitl_notes: item.hitl_notes.clone(),
        hitl_timeout_at: item.hitl_timeout_at.clone(),
        hitl_terminal_action: item.hitl_terminal_action.clone(),
        replan_count: item.replan_count,
    }
}

/// Collects recent completed/failed/done items, sorted by `updated_at`
/// descending.
pub fn collect_recent_items(
    done: Vec<QueueItem>,
    failed: Vec<QueueItem>,
    completed: Vec<QueueItem>,
) -> (r: Vec<QueueItem>)
    ensures
        exists|p: Seq<usize>|
            #[trigger] recency_order(done@ + failed@ + completed@, p) && r@ == picked(
                done@ + failed@ + completed@,
                p,
            ),
{
    let ghost merged = done@ + failed@ + completed@;
    let mut all = done;
    let mut rest = failed;
    all.append(&mut rest);
    let mut last = completed;
    all.append(&mut last);
    let mut times: Vec<String> = Vec::new();
    let mut k: usize = 0;
    while k < all.len()
        invariant
            k <= all.len(),
            times.len() == k,
            forall|j: int| 0 <= j < k ==> (#[trigger] times@[j])@ == all@[j].updated_at@,
        decreases all.len() - k,
    {
        times.push(all[k].updated_at.clone());
        k = k + 1;
    }
    proof {
        assert(texts(times@) =~= update_times(all@));
    }
    let p = order_latest_first(&times);
    let mut out: Vec<QueueItem> = Vec::new();
    let mut i: usize = 0;
    while i < p.len() && i < RECENT_ITEMS
        invariant
            i <= p.len(),
            i <= RECENT_ITEMS,
            is_order(p@, all.len() as nat),
            out.len() == i,
            forall|j: int| 0 <= j < i ==> #[trigger] out@[j] == all@[p@[j] as int],
        decreases p.len() - i,
    {
        out.push(copy_item(&all[p[i]]));
        i = i + 1;
    }
    proof {
        assert(all@ =~= merged);
        assert(out@ =~= picked(merged, p@));
        assert(recency_order(merged, p@));
    }
    out
}

/// Recent items come latest first, and there are at most `RECENT_ITEMS`.
pub proof fn law_recent_items_are_latest_first(all: Seq<QueueItem>, p: Seq<usize>, i: int, j: int)
    requires
        recency_order(all, p),
        0 <= i < j < picked(all, p).len(),
    ensures
        picked(all, p).len() <= RECENT_ITEMS,
        !crate::order::text_lt(picked(all, p)[i].updated_at@, picked(all, p)[j].updated_at@),
{
    let keys = update_times(all);
    let a = keys[p[i] as int];
    let b = keys[p[j] as int];
    if crate::order::text_lt(b, a) {
        crate::order::lemma_text_lt_asymmetric(b, a);
    } else {
        crate::order::lemma_text_lt_irreflexive(a);
    }
}

/// What is left out of the recent items is no later than what is shown.
pub proof fn law_recent_items_are_the_latest(all: Seq<QueueItem>, p: Seq<usize>, i: int, k: int)
    requires
        recency_order(all, p),
        0 <= i < picked(all, p).len(),
        picked(all, p).len() <= k < p.len(),
    ensures
        !crate::order::text_lt(picked(all, p)[i].updated_at@, all[p[k] as int].updated_at@),
{
    let keys = update_times(all);
    let a = keys[p[i] as int];
    let b = keys[p[k] as int];
    if crate::order::text_lt(b, a) {
        crate::order::lemma_text_lt_asymmetric(b, a);
    } else {
        crate::order::lemma_text_lt_irreflexive(a);
    }
}

// ---------------------------------------------------------------------------
// Tables of items
// ---------------------------------------------------------------------------

/// The cells of a running item.
pub open spec fn running_cells(item: QueueItem) -> Seq<SpanView> {
    seq![
        plain(item.work_id@),
        plain(item.workspace_id@),
        plain(item.state@),
        plain(item.updated_at@),
    ]
}

/// The cells of a recent item.
pub open spec fn recent_cells(item: QueueItem) -> Seq<SpanView> {
    seq![
        plain(item.work_id@),
        colored(item.phase.name(), phase_color_of(item.phase.name())),
        plain(item.workspace_id@),
        plain(item.updated_at@),
    ]
}

/// The cells of an item of a workspace.
pub open spec fn workspace_cells(item: QueueItem) -> Seq<SpanView> {
    seq![
        plain(item.work_id@),
        colored(item.phase.name(), phase_color_of(item.phase.name())),
        plain(item.state@),
        plain(item.updated_at@),
    ]
}

/// The rows of the running items that the phase picks out of `all`.
pub open spec fn running_rows(items: Seq<QueueItem>, is_active: bool, selected: int) -> Seq<
    RowView,
> {
    Seq::new(
        items.len(),
        |i: int| RowView {
            cells: running_cells(items[i]),
            style: row_style(is_active && i == selected),
        },
    )
}

/// The rows of the recent items.
pub open spec fn recent_rows(items: Seq<QueueItem>, is_active: bool, selected: int) -> Seq<
    RowView,
> {
    Seq::new(
        items.len(),
        |i: int| RowView {
            cells: recent_cells(items[i]),
            style: row_style(is_active && i == selected),
        },
    )
}

/// The rows of the items of a workspace.
pub open spec fn workspace_rows(items: Seq<QueueItem>, selected: int) -> Seq<RowView> {
    Seq::new(
        items.len(),
        |i: int| RowView { cells: workspace_cells(items[i]), style: row_style(i == selected) },
    )
}

/// The running items table with optional selection highlight.
pub fn render_running_items_stateful(items: &Vec<QueueItem>, is_active: bool, selected: usize) -> (r:
    TablePanel)
    ensures
        r@ == (TableView {
            title: " Running Items "@,
            border: if is_active {
                Color::Green
            } else {
                Color::DarkGray
            },
            header: seq!["Work ID"@, "Workspace"@, "State"@, "Updated"@],
            header_color: Color::Yellow,
            rows: running_rows(items@, is_active, selected as int),
        }),
{
    let border = if is_active {
        Color::Green
    } else {
        Color::DarkGray
    };
    let header = titles4("Work ID", "Workspace", "State", "Updated");
    let mut table = TablePanel::new(" Running Items ", border, header, Color::Yellow);
    let ghost blank = table@;
    let mut i: usize = 0;
    proof {
        assert(table@.rows =~= running_rows(items@.take(0), is_active, selected as int));
    }
    while i < items.len()
        invariant
            i <= items.len(),
            table@ == (TableView {
                rows: running_rows(items@.take(i as int), is_active, selected as int),
                ..blank
            }),
        decreases items.len() - i,
    {
        let mut cells = Page::new();
        cells.plain(items[i].work_id.as_str());
        cells.plain(items[i].workspace_id.as_str());
        cells.plain(items[i].state.as_str());
        cells.plain(items[i].updated_at.as_str());
        proof {
            assert(cells@ =~= running_cells(items@[i as int]));
        }
        table.row(cells, style_of_row(is_active && i == selected));
        proof {
            assert(table@.rows =~= running_rows(
                items@.take(i + 1),
                is_active,
                selected as int,
            ));
        }
        i = i + 1;
    }
    proof {
        assert(items@.take(items@.len() as int) =~= items@);
    }
    table
}

/// The recent items table with optional selection highlight.
pub fn render_recent_items_stateful(items: &Vec<QueueItem>, is_active: bool, selected: usize) -> (r:
    TablePanel)
    ensures
        r@ == (TableView {
            title: " Recent Completed/Failed "@,
            border: if is_active {
                Color::Magenta
            } else {
                Color::DarkGray
            },
            header: seq!["Work ID"@, "Phase"@, "Workspace"@, "Updated"@],
            header_color: Color::Yellow,
            rows: recent_rows(items@, is_active, selected as int),
        }),
{
    let border = if is_active {
        Color::Magenta
    } else {
        Color::DarkGray
    };
    let header = titles4("Work ID", "Phase", "Workspace", "Updated");
    let mut table = TablePanel::new(" Recent Completed/Failed ", border, header, Color::Yellow);
    let ghost blank = table@;
    let mut i: usize = 0;
    proof {
        assert(table@.rows =~= recent_rows(items@.take(0), is_active, selected as int));
    }
    while i < items.len()
        invariant
            i <= items.len(),
            table@ == (TableView {
                rows: recent_rows(items@.take(i as int), is_active, selected as int),
                ..blank
            }),
        decreases items.len() - i,
    {
        let phase = items[i].phase.as_str();
        let mut cells = Page::new();
        cells.plain(items[i].work_id.as_str());
        cells.colored(phase, phase_color(phase));
        cells.plain(items[i].workspace_id.as_str());
        cells.plain(items[i].updated_at.as_str());
        proof {
            assert(cells@ =~= recent_cells(items@[i as int]));
        }
        table.row(cells, style_of_row(is_active && i == selected));
        proof {
            assert(table@.rows =~= recent_rows(items@.take(i + 1), is_active, selected as int));
        }
        i = i + 1;
    }
    proof {
        assert(items@.take(items@.len() as int) =~= items@);
    }
    table
}

fn render_workspace_items(name: &str, items: &Vec<QueueItem>, selected: usize) -> (r: TablePanel)
    ensures
        r@ == (TableView {
            title: " Items ["@ + name@ + "] "@,
            border: Color::Green,
            header: seq!["Work ID"@, "Phase"@, "State"@, "Updated"@],
            header_color: Color::Yellow,
            rows: workspace_rows(items@, selected as int),
        }),
{
    let title = cat3(" Items [", name, "] ");
    let header = titles4("Work ID", "Phase", "State", "Updated");
    let mut table = TablePanel::new(title.as_str(), Color::Green, header, Color::Yellow);
    let ghost blank = table@;
    let mut i: usize = 0;
    proof {
        assert(table@.rows =~= workspace_rows(items@.take(0), selected as int));
    }
    while i < items.len()
        invariant
            i <= items.len(),
            table@ == (TableView {
                rows: workspace_rows(items@.take(i as int), selected as int),
                ..blank
            }),
        decreases items.len() - i,
    {
        let phase = items[i].phase.as_str();
        let mut cells = Page::new();
        cells.plain(items[i].work_id.as_str());
        cells.colored(phase, phase_color(phase));
        cells.plain(items[i].state.as_str());
        cells.plain(items[i].updated_at.as_str());
        proof {
            assert(cells@ =~= workspace_cells(items@[i as int]));
        }
        table.row(cells, style_of_row(i == selected));
        proof {
            assert(table@.rows =~= workspace_rows(items@.take(i + 1), selected as int));
        }
        i = i + 1;
    }
    proof {
        assert(items@.take(items@.len() as int) =~= items@);
    }
    table
}

// ---------------------------------------------------------------------------
// Phase summaries
// ---------------------------------------------------------------------------

/// One phase of the summary of all items.
pub open spec fn phase_total(counts: Seq<PhaseCount>, name: Seq<char>) -> SpanView {
    bold_colored(name + ": "@ + dec(count_named(counts, name) as nat), phase_color_of(name))
}

/// The summary of all items by phase.
pub open spec fn phase_summary(counts: Seq<PhaseCount>) -> Seq<SpanView> {
    seq![
        phase_total(counts, "pending"@),
        plain("  "@),
        phase_total(counts, "ready"@),
        plain("  "@),
        phase_total(counts, "running"@),
        plain("  "@),
        phase_total(counts, "completed"@),
        plain("  "@),
        phase_total(counts, "done"@),
        plain("  "@),
        phase_total(counts, "hitl"@),
        plain("  "@),
        phase_total(counts, "failed"@),
        plain("  "@),
        phase_total(counts, "skipped"@),
        plain("  "@),
        bold("total: "@ + dec(sum_counts(counts))),
    ]
}

fn put_total(page: &mut Page, counts: &Vec<PhaseCount>, name: &str)
    ensures
        final(page)@ == old(page)@.push(phase_total(counts@, name@)),
{
    let n = dec_u32(count_for(counts, name));
    let text = cat3(name, ": ", n.as_str());
    page.bold_colored(text.as_str(), phase_color(name));
}

/// The summary of all items by phase.
pub fn render_phase_summary(counts: &Vec<PhaseCount>) -> (r: LinesPanel)
    requires
        sum_counts(counts@) <= u32::MAX,
    ensures
        r@ == (LinesView {
            title: " Phase Summary "@,
            border: Color::Cyan,
            lines: seq![phase_summary(counts@)],
        }),
{
    let mut page = Page::new();
    put_total(&mut page, counts, "pending");
    page.plain("  ");
    put_total(&mut page, counts, "ready");
    page.plain("  ");
    put_total(&mut page, counts, "running");
    page.plain("  ");
    put_total(&mut page, counts, "completed");
    page.plain("  ");
    put_total(&mut page, counts, "done");
    page.plain("  ");
    put_total(&mut page, counts, "hitl");
    page.plain("  ");
    put_total(&mut page, counts, "failed");
    page.plain("  ");
    put_total(&mut page, counts, "skipped");
    page.plain("  ");
    let n = dec_u32(total_count(counts));
    let total = cat2("total: ", n.as_str());
    page.bold(total.as_str());
    proof {
        assert(page@ =~= phase_summary(counts@));
    }
    let mut panel = LinesPanel::new(" Phase Summary ", Color::Cyan);
    panel.line(page);
    panel
}

/// One phase of the summary of a workspace.
pub open spec fn phase_tag(items: Seq<QueueItem>, p: QueuePhase) -> SpanView {
    colored(p.name() + ":"@ + dec(items_in(items, p)), phase_color_of(p.name()))
}

/// The summary of the items of a workspace by phase.
pub open spec fn workspace_phase_summary(items: Seq<QueueItem>) -> Seq<SpanView> {
    seq![
        phase_tag(items, QueuePhase::Pending),
        plain(" "@),
        phase_tag(items, QueuePhase::Ready),
        plain(" "@),
        phase_tag(items, QueuePhase::Running),
        plain(" "@),
        phase_tag(items, QueuePhase::Completed),
        plain(" "@),
        phase_tag(items, QueuePhase::Done),
        plain(" "@),
        phase_tag(items, QueuePhase::Hitl),
        plain(" "@),
        phase_tag(items, QueuePhase::Failed),
        plain(" "@),
        bold("total:"@ + dec(items.len())),
    ]
}

fn put_tag(page: &mut Page, items: &Vec<QueueItem>, p: QueuePhase)
    ensures
        final(page)@ == old(page)@.push(phase_tag(items@, p)),
{
    let n = dec_usize(count_phase(items, p));
    let text = cat3(p.as_str(), ":", n.as_str());
    page.colored(text.as_str(), phase_color(p.as_str()));
}

/// A compact phase summary for a single workspace's items.
pub fn render_workspace_phase_summary(items: &Vec<QueueItem>) -> (r: LinesPanel)
    ensures
        r@ == (LinesView {
            title: " Phase Summary "@,
            border: Color::Cyan,
            lines: seq![workspace_phase_summary(items@)],
        }),
{
    let mut page = Page::new();
    put_tag(&mut page, items, QueuePhase::Pending);
    page.plain(" ");
    put_tag(&mut page, items, QueuePhase::Ready);
    page.plain(" ");
    put_tag(&mut page, items, QueuePhase::Running);
    page.plain(" ");
    put_tag(&mut page, items, QueuePhase::Completed);
    page.plain(" ");
    put_tag(&mut page, items, QueuePhase::Done);
    page.plain(" ");
    put_tag(&mut page, items, QueuePhase::Hitl);
    page.plain(" ");
    put_tag(&mut page, items, QueuePhase::Failed);
    page.plain(" ");
    let n = dec_usize(items.len());
    let total = cat2("total:", n.as_str());
    page.bold(total.as_str());
    proof {
        assert(page@ =~= workspace_phase_summary(items@));
    }
    let mut panel = LinesPanel::new(" Phase Summary ", Color::Cyan);
    panel.line(page);
    panel
}

// ---------------------------------------------------------------------------
// Workspace tab
// ---------------------------------------------------------------------------

/// The name of a workspace in the selector bar.
pub open spec fn workspace_name(name: Seq<char>, selected: bool) -> SpanView {
    if selected {
        bold_colored(name, Color::Yellow)
    } else {
        colored(name, Color::White)
    }
}

/// The first `n` workspaces of the selector bar.
pub open spec fn workspace_bar(ws: Seq<WorkspaceRow>, selected: int, n: nat) -> Seq<SpanView>
    decreases n,
{
    if n == 0 {
        seq![]
    } else {
        let before = workspace_bar(ws, selected, (n - 1) as nat);
        let name = workspace_name(ws[n - 1].name@, n - 1 == selected);
        if n == 1 {
            before.push(name)
        } else {
            before.push(plain("  "@)).push(name)
        }
    }
}

/// The selector bar of the workspace tab.
pub open spec fn workspace_selector(ws: Seq<WorkspaceRow>, selected: int) -> LinesView {
    LinesView {
        title: " Workspaces [<-/->] "@,
        border: Color::Cyan,
        lines: seq![
            if ws.len() == 0 {
                seq![colored("(no workspaces registered)"@, Color::DarkGray)]
            } else {
                workspace_bar(ws, selected, ws.len())
            },
        ],
    }
}

fn render_workspace_selector(ws: &Vec<WorkspaceRow>, selected: usize) -> (r: LinesPanel)
    ensures
        r@ == workspace_selector(ws@, selected as int),
{
    let mut bar = Page::new();
    if ws.len() == 0 {
        bar.colored("(no workspaces registered)", Color::DarkGray);
    } else {
        let mut i: usize = 0;
        while i < ws.len()
            invariant
                i <= ws.len(),
                bar@ == workspace_bar(ws@, selected as int, i as nat),
            decreases ws.len() - i,
        {
            if i > 0 {
                bar.plain("  ");
            }
            if i == selected {
                bar.bold_colored(ws[i].name.as_str(), Color::Yellow);
            } else {
                bar.colored(ws[i].name.as_str(), Color::White);
            }
            i = i + 1;
        }
    }
    let mut panel = LinesPanel::new(" Workspaces [<-/->] ", Color::Cyan);
    panel.line(bar);
    panel
}

/// The parts of the workspace tab below the selector bar.
#[derive(Debug)]
pub struct WorkspaceBody {
    pub phases: LinesPanel,
    pub items: TablePanel,
}

/// The per-workspace tab: the selector bar, and below it the phase summary and
/// the items of the selected workspace, where any workspace is registered.
///
/// `items` are the items of the selected workspace, `row` the selected one.
pub fn render_per_workspace_tab(
    ws: &Vec<WorkspaceRow>,
    selected: usize,
    items: &Vec<QueueItem>,
    row: usize,
) -> (r: (LinesPanel, Option<WorkspaceBody>))
    requires
        ws.len() > 0 ==> selected < ws.len(),
    ensures
        r.0@ == workspace_selector(ws@, selected as int),
        r.1 is Some <==> ws.len() > 0,
        r.1 matches Some(body) ==> {
            &&& body.phases@ == (LinesView {
                title: " Phase Summary "@,
                border: Color::Cyan,
                lines: seq![workspace_phase_summary(items@)],
            })
            &&& body.items@ == (TableView {
                title: " Items ["@ + ws@[selected as int].name@ + "] "@,
                border: Color::Green,
                header: seq!["Work ID"@, "Phase"@, "State"@, "Updated"@],
                header_color: Color::Yellow,
                rows: workspace_rows(items@, row as int),
            })
        },
{
    let bar = render_workspace_selector(ws, selected);
    if ws.len() == 0 {
        return (bar, None);
    }
    let phases = render_workspace_phase_summary(items);
    let table = render_workspace_items(ws[selected].name.as_str(), items, row);
    (bar, Some(WorkspaceBody { phases, items: table }))
}

// ---------------------------------------------------------------------------
// Laws on what is shown
// ---------------------------------------------------------------------------

/// A text that fits is shown whole; of one that does not the beginning is shown,
/// and two dots.
pub proof fn law_fitting_text_is_shown_whole(s: Seq<char>, max: nat)
    ensures
        byte_len(s) <= max && max >= 4 ==> fitted(s, max) == s,
        s.len() <= max && max < 4 ==> fitted(s, max) == s,
        byte_len(s) > max && max >= 4 ==> fitted(s, max).len() >= 2 && fitted(s, max).last() == '.'
            && fitted(s, max)[fitted(s, max).len() - 2] == '.' && fitted(s, max).take(
            fitted(s, max).len() - 2,
        ) == s.take(fitted(s, max).len() - 2),
        byte_len(s) > max && max >= 4 && s.len() > max - 2 ==> fitted(s, max).len() == max,
{
    reveal_strlit("..");
    if byte_len(s) > max && max >= 4 {
        let f = fitted(s, max);
        let k = f.len() - 2;
        assert(f.take(k) =~= s.take(k));
    }
}

/// Of the six tabs the active one alone is highlighted.
pub proof fn law_the_active_tab_is_highlighted(active: DashboardTab)
    ensures
        tab_bar(active)[0].style.bold <==> active is Dashboard,
        tab_bar(active)[2].style.bold <==> active is PerWorkspace,
        tab_bar(active)[4].style.bold <==> active is Spec,
        tab_bar(active)[6].style.bold <==> active is Board,
        tab_bar(active)[8].style.bold <==> active is DataSource,
        tab_bar(active)[10].style.bold <==> active is Scripts,
        tab_bar(active)[0].text == "[d] Dashboard"@,
        tab_bar(active)[2].text == "[w] Workspace"@,
        tab_bar(active)[4].text == "[s] Spec"@,
        tab_bar(active)[6].text == "[b] Board"@,
        tab_bar(active)[8].text == "[n] DataSource"@,
        tab_bar(active)[10].text == "[x] Scripts"@,
{
}

/// Every item of a column has its card, and the one that is selected is marked.
pub proof fn law_every_item_has_its_card(
    items: Seq<QueueItem>,
    row: Option<usize>,
    width: nat,
    i: int,
)
    requires
        0 <= i < items.len() <= usize::MAX,
        width >= 8,
    ensures
        cards(items, row, width).len() == items.len(),
        cards(items, row, width)[i].len() == 1,
        cards(items, row, width)[i][0].text[0] == '>' <==> row == Some(i as usize),
        byte_len(items[i].work_id@) <= width - 4 ==> holds(
            cards(items, row, width)[i][0].text,
            items[i].work_id@,
        ),
{
    broadcast use group_holds;

    reveal_strlit("> ");
    reveal_strlit("  ");
    law_fitting_text_is_shown_whole(items[i].work_id@, (width - 4) as nat);
}

/// A column is named after its phase, and says how many items stand in it.
pub proof fn law_columns_say_how_many(
    all: Seq<QueueItem>,
    p: QueuePhase,
    row: Option<usize>,
    width: nat,
)
    ensures
        holds(
            board_column(all, p, row, width).title,
            p.name() + " ("@ + dec(items_in(all, p)),
        ),
        items_in(all, p) > 0 ==> board_column(all, p, row, width).lines.len() == items_in(all, p),
{
    broadcast use group_holds;

    lemma_column_len(all, p);
}

/// Up to eight items are recent, and each is one of those that ended.
pub proof fn law_recent_items_are_eight_at_most(all: Seq<QueueItem>, p: Seq<usize>, i: int)
    requires
        recency_order(all, p),
    ensures
        all.len() <= 8 ==> picked(all, p).len() == all.len(),
        all.len() > 8 ==> picked(all, p).len() == 8,
        0 <= i < picked(all, p).len() ==> all.contains(picked(all, p)[i]),
{
    if 0 <= i < picked(all, p).len() {
        assert(p[i] < all.len());
        assert(all[p[i] as int] == picked(all, p)[i]);
    }
}

/// Every running item has its row with its four fields; the selected row alone is
/// marked, and only in the active table.
pub proof fn law_every_running_item_has_its_row(
    items: Seq<QueueItem>,
    is_active: bool,
    selected: int,
    i: int,
)
    requires
        0 <= i < items.len(),
    ensures
        running_rows(items, is_active, selected).len() == items.len(),
        running_rows(items, is_active, selected)[i].cells.len() == 4,
        running_rows(items, is_active, selected)[i].cells[0].text == items[i].work_id@,
        running_rows(items, is_active, selected)[i].cells[1].text == items[i].workspace_id@,
        running_rows(items, is_active, selected)[i].cells[2].text == items[i].state@,
        running_rows(items, is_active, selected)[i].cells[3].text == items[i].updated_at@,
        running_rows(items, is_active, selected)[i].style.bold <==> is_active && i == selected,
{
}

/// Every recent item has its row with its four fields; the selected row alone is
/// marked, and only in the active table.
pub proof fn law_every_recent_item_has_its_row(
    items: Seq<QueueItem>,
    is_active: bool,
    selected: int,
    i: int,
)
    requires
        0 <= i < items.len(),
    ensures
        recent_rows(items, is_active, selected).len() == items.len(),
        recent_rows(items, is_active, selected)[i].cells.len() == 4,
        recent_rows(items, is_active, selected)[i].cells[0].text == items[i].work_id@,
        recent_rows(items, is_active, selected)[i].cells[1].text == items[i].phase.name(),
        recent_rows(items, is_active, selected)[i].cells[2].text == items[i].workspace_id@,
        recent_rows(items, is_active, selected)[i].cells[3].text == items[i].updated_at@,
        recent_rows(items, is_active, selected)[i].style.bold <==> is_active && i == selected,
{
}

/// Every item of a workspace has its row with its four fields; the selected row
/// alone is marked.
pub proof fn law_every_workspace_item_has_its_row(items: Seq<QueueItem>, selected: int, i: int)
    requires
        0 <= i < items.len(),
    ensures
        workspace_rows(items, selected).len() == items.len(),
        workspace_rows(items, selected)[i].cells.len() == 4,
        workspace_rows(items, selected)[i].cells[0].text == items[i].work_id@,
        workspace_rows(items, selected)[i].cells[1].text == items[i].phase.name(),
        workspace_rows(items, selected)[i].cells[2].text == items[i].state@,
        workspace_rows(items, selected)[i].cells[3].text == items[i].updated_at@,
        workspace_rows(items, selected)[i].style.bold <==> i == selected,
{
}

/// The position of a phase among those that a summary names.
pub open spec fn phase_place(p: QueuePhase) -> int {
    match p {
        QueuePhase::Pending => 0,
        QueuePhase::Ready => 1,
        QueuePhase::Running => 2,
        QueuePhase::Completed => 3,
        QueuePhase::Done => 4,
        QueuePhase::Hitl => 5,
        QueuePhase::Failed => 6,
        QueuePhase::Skipped => 7,
    }
}

/// The summary says of every phase how many items it has, and how many there are
/// in all.
pub proof fn law_summaries_count_every_phase(counts: Seq<PhaseCount>, p: QueuePhase)
    ensures
        phase_summary(counts)[2 * phase_place(p)].text == p.name() + ": "@ + dec(
            count_named(counts, p.name()) as nat,
        ),
        phase_summary(counts).last().text == "total: "@ + dec(sum_counts(counts)),
{
}

/// The summary of a workspace says of every phase but the skipped one how many
/// items it has, and how many there are in all.
pub proof fn law_workspace_summaries_count_every_phase(items: Seq<QueueItem>, p: QueuePhase)
    requires
        !(p is Skipped),
    ensures
        workspace_phase_summary(items)[2 * phase_place(p)].text == p.name() + ":"@ + dec(
            items_in(items, p),
        ),
        workspace_phase_summary(items).last().text == "total:"@ + dec(items.len()),
{
}

/// Every workspace has its place in the bar, and the selected one alone is
/// highlighted.
pub proof fn law_every_workspace_is_in_the_bar(
    ws: Seq<WorkspaceRow>,
    selected: int,
    n: nat,
    i: int,
)
    requires
        0 <= i < n <= ws.len(),
    ensures
        workspace_bar(ws, selected, n).len() == 2 * n - 1,
        workspace_bar(ws, selected, n)[2 * i].text == ws[i].name@,
        workspace_bar(ws, selected, n)[2 * i].style.bold <==> i == selected,
    decreases n,
{
    if n == 1 {
        assert(workspace_bar(ws, selected, 0).len() == 0);
    } else if i < n - 1 {
        law_every_workspace_is_in_the_bar(ws, selected, (n - 1) as nat, i);
    } else {
        law_every_workspace_is_in_the_bar(ws, selected, (n - 1) as nat, 0);
    }
}

/// The selector shows the workspaces, or says that there are none.
pub proof fn law_the_selector_shows_the_workspaces(ws: Seq<WorkspaceRow>, selected: int, i: int)
    ensures
        0 <= i < ws.len() ==> workspace_selector(ws, selected).lines[0][2 * i].text == ws[i].name@,
        0 <= i < ws.len() ==> (workspace_selector(ws, selected).lines[0][2 * i].style.bold <==> i
            == selected),
        ws.len() == 0 ==> workspace_selector(ws, selected).lines[0][0].text
            == "(no workspaces registered)"@,
{
    if 0 <= i < ws.len() {
        law_every_workspace_is_in_the_bar(ws, selected, ws.len(), i);
    }
}

} // verus!
