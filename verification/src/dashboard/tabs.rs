//! What the tabs of the dashboard are made of.

use vstd::prelude::*;

use crate::dashboard::items::board_column;
use crate::dashboard::items::phase_summary;
use crate::dashboard::items::recent_rows;
use crate::dashboard::items::render_board_column;
use crate::dashboard::items::render_phase_summary;
use crate::dashboard::items::render_recent_items_stateful;
use crate::dashboard::items::render_running_items_stateful;
use crate::dashboard::items::running_rows;
use crate::dashboard::keys::column;
use crate::dashboard::keys::focus;
use crate::dashboard::panel::LinesPanel;
use crate::dashboard::panel::LinesView;
use crate::dashboard::panel::TablePanel;
use crate::dashboard::panel::TableView;
use crate::dashboard::runtime::panel_ordered;
use crate::dashboard::runtime::panel_rows;
use crate::dashboard::runtime::render_runtime_panel_tui;
use crate::dashboard::scripts::render_recent_executions;
use crate::dashboard::scripts::render_scripts_stats_table;
use crate::dashboard::scripts::render_scripts_summary;
use crate::dashboard::scripts::run_rows;
use crate::dashboard::scripts::script_rows;
use crate::dashboard::scripts::sums_fit;
use crate::dashboard::scripts::totals_line;
use crate::dashboard::scripts::Rate;
use crate::dashboard::scripts::ScriptRun;
use crate::dashboard::scripts::ScriptStats;
use crate::dashboard::state::board_phases;
use crate::dashboard::state::ActivePanel;
use crate::dashboard::state::DashboardState;
use crate::dashboard::state::StateView;
use crate::queue::items_in;
use crate::queue::QueueItem;
use crate::queue::QueuePhase;
use crate::status::sum_counts;
use crate::status::PhaseCount;
use crate::status::RuntimeStats;
use crate::style::colored;
use crate::style::Color;
use crate::text::dec;

verus! {

// ---------------------------------------------------------------------------
// Dashboard
// ---------------------------------------------------------------------------

/// The items in a phase, in order.
pub fn items_in_phase(all: Vec<QueueItem>, p: QueuePhase) -> (r: Vec<QueueItem>)
    ensures
        r@ == column(all@, p),
{
    let mut rest = all;
    let mut picked: Vec<QueueItem> = Vec::new();
    let ghost whole = rest@;
    let ghost mut left = rest@;
    while rest.len() > 0
        invariant
            rest@ == left,
            left.len() <= whole.len(),
            left == whole.take(left.len() as int),
            column(whole, p) == column(left, p) + picked@.reverse(),
        decreases rest.len(),
    {
        let item = rest.pop();
        match item {
            Some(item) => {
                proof {
                    let shorter = left.drop_last();
                    assert(shorter =~= whole.take(shorter.len() as int));
                    if item.phase == p {
                        assert(picked@.push(item).reverse() =~= seq![item] + picked@.reverse());
                        assert(column(shorter, p).push(item) + picked@.reverse() =~= column(
                            shorter,
                            p,
                        ) + (seq![item] + picked@.reverse()));
                    }
                    left = shorter;
                }
                if item.phase == p {
                    picked.push(item);
                }
            },
            None => {},
        }
    }
    proof {
        assert(left =~= seq![]);
        assert(column(left, p) + picked@.reverse() =~= picked@.reverse());
    }
    let mut out: Vec<QueueItem> = Vec::new();
    let ghost back = picked@;
    while picked.len() > 0
        invariant
            picked.len() <= back.len(),
            picked@ == back.take(picked.len() as int),
            out@ == back.skip(picked.len() as int).reverse(),
        decreases picked.len(),
    {
        let ghost n = picked.len() as int;
        let item = picked.pop();
        match item {
            Some(item) => {
                out.push(item);
                proof {
                    assert(picked@ =~= back.take(n - 1));
                    assert(out@ =~= back.skip(n - 1).reverse());
                }
            },
            None => {},
        }
    }
    proof {
        assert(back.skip(0) =~= back);
    }
    out
}

/// The panels of the dashboard tab.
#[derive(Debug)]
pub struct DashboardPanels {
    pub summary: LinesPanel,
    pub running: TablePanel,
    pub recent: TablePanel,
    pub runtime: TablePanel,
}

/// The colour of a border: its own where the panel has the focus.
pub open spec fn focus_border(has_focus: bool, c: Color) -> Color {
    if has_focus {
        c
    } else {
        Color::DarkGray
    }
}

/// The dashboard tab: the number of items by phase, the running and the recent
/// items, of which one panel has the focus, and the use of tokens.
pub fn render_dashboard_tab(
    counts: &Vec<PhaseCount>,
    running: &Vec<QueueItem>,
    recent: &Vec<QueueItem>,
    stats: &Option<RuntimeStats>,
    state: &DashboardState,
) -> (r: DashboardPanels)
    requires
        state@.wf(),
        sum_counts(counts@) <= u32::MAX,
    ensures
        r.summary@ == (LinesView {
            title: " Phase Summary "@,
            border: Color::Cyan,
            lines: seq![phase_summary(counts@)],
        }),
        r.running@ == (TableView {
            title: " Running Items "@,
            border: focus_border(focus(state@.current()) == ActivePanel::Running, Color::Green),
            header: seq!["Work ID"@, "Workspace"@, "State"@, "Updated"@],
            header_color: Color::Yellow,
            rows: running_rows(
                running@,
                focus(state@.current()) == ActivePanel::Running,
                state@.current().selected_index as int,
            ),
        }),
        r.recent@ == (TableView {
            title: " Recent Completed/Failed "@,
            border: focus_border(focus(state@.current()) == ActivePanel::Recent, Color::Magenta),
            header: seq!["Work ID"@, "Phase"@, "Workspace"@, "Updated"@],
            header_color: Color::Yellow,
            rows: recent_rows(
                recent@,
                focus(state@.current()) == ActivePanel::Recent,
                state@.current().selected_index as int,
            ),
        }),
        exists|p: Seq<usize>| #[trigger]
            panel_ordered(*stats, p) && r.runtime@ == (TableView {
                title: " Runtime Stats (24h) "@,
                border: Color::Magenta,
                header: seq!["Model"@, "Input"@, "Output"@, "Total"@, "Runs"@, "Avg ms"@],
                header_color: Color::Cyan,
                rows: panel_rows(*stats, p),
            }),
{
    let tab_state = state.current_tab_state();
    let active = match tab_state.active_panel {
        Some(p) => p,
        None => ActivePanel::Running,
    };
    let i: usize = tab_state.selected_index;
    let summary = render_phase_summary(counts);
    let running_table = render_running_items_stateful(running, active == ActivePanel::Running, i);
    let recent_table = render_recent_items_stateful(recent, active == ActivePanel::Recent, i);
    let runtime = render_runtime_panel_tui(stats);
    DashboardPanels { summary, running: running_table, recent: recent_table, runtime }
}

// ---------------------------------------------------------------------------
// Board
// ---------------------------------------------------------------------------

/// The selected row in column `col` of the board, if that column is selected.
pub open spec fn selected_row(s: StateView, col: int) -> Option<usize> {
    if s.col == col {
        Some(s.row as usize)
    } else {
        None
    }
}

/// The columns that hold items are wide enough to show them.
pub open spec fn wide_enough(all: Seq<QueueItem>, widths: Seq<usize>) -> bool {
    forall|c: int|
        0 <= c < 7 && items_in(all, #[trigger] board_phases()[c]) > 0 ==> widths[c] >= 4
}

/// The first `n` columns of the board.
pub open spec fn board_panels(
    all: Seq<QueueItem>,
    widths: Seq<usize>,
    s: StateView,
    n: nat,
) -> Seq<LinesView>
    decreases n,
{
    if n == 0 {
        seq![]
    } else {
        board_panels(all, widths, s, (n - 1) as nat).push(
            board_column(
                all,
                board_phases()[n - 1],
                selected_row(s, n - 1),
                widths[n - 1] as nat,
            ),
        )
    }
}

/// The contents of a list of panels.
pub open spec fn panel_views(v: Seq<LinesPanel>) -> Seq<LinesView> {
    Seq::new(v.len(), |i: int| v[i]@)
}

/// The board: one column for each phase that it shows, of the given widths.
pub fn render_board_tab(all: &Vec<QueueItem>, widths: &Vec<usize>, state: &DashboardState) -> (r:
    Vec<LinesPanel>)
    requires
        widths.len() == 7,
        wide_enough(all@, widths@),
    ensures
        panel_views(r@) == board_panels(all@, widths@, state@, 7),
{
    let mut out: Vec<LinesPanel> = Vec::new();
    let mut col: usize = 0;
    proof {
        assert(panel_views(out@) =~= board_panels(all@, widths@, state@, 0));
    }
    while col < 7
        invariant
            col <= 7,
            widths.len() == 7,
            wide_enough(all@, widths@),
            panel_views(out@) == board_panels(all@, widths@, state@, col as nat),
        decreases 7 - col,
    {
        let row = if state.board_selected_col == col {
            Some(state.board_selected_row)
        } else {
            None
        };
        proof {
            assert(row == selected_row(state@, col as int));
            let shown = board_phases()[col as int];
            assert(items_in(all@, shown) > 0 ==> widths@[col as int] >= 4);
        }
        let panel = render_board_column(all, col, row, widths[col]);
        let ghost before = out@;
        out.push(panel);
        proof {
            assert(panel_views(out@) =~= panel_views(before).push(panel@));
        }
        col = col + 1;
    }
    out
}

// ---------------------------------------------------------------------------
// Scripts
// ---------------------------------------------------------------------------

/// The panels of the scripts tab.
#[derive(Debug)]
pub struct ScriptPanels {
    pub summary: LinesPanel,
    pub stats: TablePanel,
    pub recent: TablePanel,
}

/// The scripts tab: the sums over all scripts, the statistics of each script,
/// and the recent executions. `rate` is the share of successes among all runs.
pub fn render_scripts_tab(
    stats: &Vec<ScriptStats>,
    rate: &Rate,
    recent: &Vec<ScriptRun>,
    selected: usize,
) -> (r: ScriptPanels)
    requires
        sums_fit(stats@),
    ensures
        r.summary@ == (LinesView {
            title: " Scripts Execution Summary "@,
            border: Color::Cyan,
            lines: seq![
                totals_line(stats@, *rate),
                seq![],
                seq![colored("Scripts: "@ + dec(stats.len() as nat), Color::Cyan)],
            ],
        }),
        r.stats@ == (TableView {
            title: " Per-Script Statistics "@,
            border: Color::Green,
            header: seq!["Script"@, "Runs"@, "OK"@, "Fail"@, "Rate"@, "Avg ms"@],
            header_color: Color::Yellow,
            rows: script_rows(stats@, selected as int),
        }),
        r.recent@ == (TableView {
            title: " Recent Executions (last 10) "@,
            border: Color::Magenta,
            header: seq!["Script"@, "Work ID"@, "Status"@, "Attempt"@, "Time"@],
            header_color: Color::Cyan,
            rows: run_rows(recent@),
        }),
{
    ScriptPanels {
        summary: render_scripts_summary(stats, rate),
        stats: render_scripts_stats_table(stats, selected),
        recent: render_recent_executions(recent),
    }
}

/// The board has a column for each of its phases, and the selection is shown in
/// the selected column alone.
pub proof fn law_every_phase_has_its_column(
    all: Seq<QueueItem>,
    widths: Seq<usize>,
    s: StateView,
    n: nat,
    c: int,
)
    requires
        0 <= c < n <= 7,
    ensures
        board_panels(all, widths, s, n).len() == n,
        s.col == c ==> board_panels(all, widths, s, n)[c] == board_column(
            all,
            board_phases()[c],
            Some(s.row as usize),
            widths[c] as nat,
        ),
        s.col != c ==> board_panels(all, widths, s, n)[c] == board_column(
            all,
            board_phases()[c],
            None,
            widths[c] as nat,
        ),
    decreases n,
{
    if n == 1 {
        assert(board_panels(all, widths, s, 0).len() == 0);
    } else if c < n - 1 {
        law_every_phase_has_its_column(all, widths, s, (n - 1) as nat, c);
    } else {
        law_every_phase_has_its_column(all, widths, s, (n - 1) as nat, 0);
    }
}

/// The panel with the focus alone has its color at the border.
pub proof fn law_the_focus_is_shown(c: Color)
    ensures
        focus_border(true, c) == c,
        focus_border(false, c) == Color::DarkGray,
{
}

/// Panels keep their number and their order.
pub proof fn law_lists_of_panels_keep_their_order(v: Seq<LinesPanel>, i: int)
    requires
        0 <= i < v.len(),
    ensures
        panel_views(v).len() == v.len(),
        panel_views(v)[i] == v[i]@,
{
}

} // verus!
