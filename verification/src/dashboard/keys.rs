//! The loop of the dashboard: keeping selections in range, and keys.

use vstd::prelude::*;

use crate::dashboard::state::board_phase;
use crate::dashboard::state::board_phases;
use crate::dashboard::state::ActivePanel;
use crate::dashboard::state::DashboardState;
use crate::dashboard::state::DashboardTab;
use crate::dashboard::state::StateView;
use crate::dashboard::state::TabState;
use crate::queue::count_phase;
use crate::queue::items_in;
use crate::queue::QueueItem;
use crate::queue::QueuePhase;
use crate::status::WorkspaceRow;
use crate::text::opt_text;
use crate::text::text_eq;

verus! {

/// What the dashboard shows, read anew before each drawing.
#[derive(Debug)]
pub struct DashboardData {
    pub all_items: Vec<QueueItem>,
    pub recent_items: Vec<QueueItem>,
    pub workspaces: Vec<WorkspaceRow>,
    /// The items of the selected workspace, as the queue lists them.
    pub workspace_items: Vec<QueueItem>,
    pub spec_count: usize,
    pub source_count: usize,
    pub script_count: usize,
}

/// The items in the phase `p`, in their order.
pub open spec fn column(items: Seq<QueueItem>, p: QueuePhase) -> Seq<QueueItem>
    decreases items.len(),
{
    if items.len() == 0 {
        seq![]
    } else if items.last().phase == p {
        column(items.drop_last(), p).push(items.last())
    } else {
        column(items.drop_last(), p)
    }
}

/// A column is as long as there are items in its phase.
pub proof fn lemma_column_len(items: Seq<QueueItem>, p: QueuePhase)
    ensures
        column(items, p).len() == items_in(items, p),
    decreases items.len(),
{
    if items.len() > 0 {
        lemma_column_len(items.drop_last(), p);
    }
}

proof fn lemma_column_prefix(items: Seq<QueueItem>, p: QueuePhase, k: int, i: int)
    requires
        0 <= k <= items.len(),
        0 <= i < column(items.take(k), p).len(),
    ensures
        i < column(items, p).len(),
        column(items, p)[i] == column(items.take(k), p)[i],
    decreases items.len() - k,
{
    if k < items.len() {
        assert(items.take(k + 1).drop_last() =~= items.take(k));
        lemma_column_prefix(items, p, k + 1, i);
    } else {
        assert(items.take(k) =~= items);
    }
}

/// The work id of the item at `row` in the column of the phase `p`.
pub fn work_id_in(items: &Vec<QueueItem>, p: QueuePhase, row: usize) -> (r: Option<String>)
    ensures
        opt_text(r) == (if row < column(items@, p).len() {
            Some(column(items@, p)[row as int].work_id@)
        } else {
            None
        }),
{
    let mut seen: usize = 0;
    let mut i: usize = 0;
    while i < items.len()
        invariant
            i <= items.len(),
            seen <= i,
            seen <= row,
            seen == column(items@.take(i as int), p).len(),
        decreases items.len() - i,
    {
        proof {
            assert(items@.take(i + 1).drop_last() =~= items@.take(i as int));
        }
        if items[i].phase == p {
            if seen == row {
                proof {
                    lemma_column_prefix(items@, p, i + 1, row as int);
                }
                return Some(items[i].work_id.clone());
            }
            seen = seen + 1;
        }
        i = i + 1;
    }
    proof {
        assert(items@.take(items@.len() as int) =~= items@);
    }
    None
}

/// How many of the items belong to the workspace `name`.
pub open spec fn items_of(items: Seq<QueueItem>, name: Seq<char>) -> nat
    decreases items.len(),
{
    if items.len() == 0 {
        0
    } else {
        items_of(items.drop_last(), name) + (if items.last().workspace_id@ == name {
            1nat
        } else {
            0nat
        })
    }
}

/// How many of the items belong to the workspace `name`.
pub fn count_workspace(items: &Vec<QueueItem>, name: &str) -> (r: usize)
    ensures
        r == items_of(items@, name@),
{
    let mut n: usize = 0;
    let mut i: usize = 0;
    while i < items.len()
        invariant
            i <= items.len(),
            n <= i,
            n == items_of(items@.take(i as int), name@),
        decreases items.len() - i,
    {
        proof {
            assert(items@.take(i + 1).drop_last() =~= items@.take(i as int));
        }
        if text_eq(items[i].workspace_id.as_str(), name) {
            n = n + 1;
        }
        i = i + 1;
    }
    proof {
        assert(items@.take(items@.len() as int) =~= items@);
    }
    n
}

// ---------------------------------------------------------------------------
// Keeping selections in range
// ---------------------------------------------------------------------------

/// The panel that has the focus: the running items unless another was chosen.
pub open spec fn focus(t: TabState) -> ActivePanel {
    match t.active_panel {
        Some(p) => p,
        None => ActivePanel::Running,
    }
}

/// The length of the list that the active tab selects from.
pub open spec fn list_len(s: StateView, d: DashboardData) -> int {
    match s.tab {
        DashboardTab::Dashboard => match focus(s.current()) {
            ActivePanel::Running => items_in(d.all_items@, QueuePhase::Running) as int,
            ActivePanel::Recent => d.recent_items.len() as int,
        },
        DashboardTab::PerWorkspace => if s.workspace < d.workspaces.len() {
            items_of(d.all_items@, d.workspaces@[s.workspace].name@) as int
        } else {
            0
        },
        DashboardTab::Spec => d.spec_count as int,
        DashboardTab::Board => 0,
        DashboardTab::DataSource => d.source_count as int,
        DashboardTab::Scripts => d.script_count as int,
    }
}

/// `i`, or the last position of a list of length `len` where it is beyond.
pub open spec fn clamp_index(i: int, len: int) -> int {
    if len == 0 {
        0
    } else if i >= len {
        len - 1
    } else {
        i
    }
}

/// The selection that Down moves can be counted one further.
pub open spec fn has_room(s: StateView) -> bool {
    if s.tab == DashboardTab::Board {
        s.row < usize::MAX
    } else {
        s.current().selected_index < usize::MAX
    }
}

/// The state with every selection in range of what is shown.
pub open spec fn clamped(s: StateView, d: DashboardData) -> StateView {
    let t = if s.tab == DashboardTab::Board {
        s
    } else {
        s.with_index(clamp_index(s.current().selected_index as int, list_len(s, d)))
    };
    let col = if s.col >= 7 {
        0
    } else {
        s.col
    };
    StateView {
        workspace: if d.workspaces.len() > 0 && s.workspace >= d.workspaces.len() {
            d.workspaces.len() - 1
        } else {
            s.workspace
        },
        col,
        row: clamp_index(s.row, items_in(d.all_items@, board_phases()[col]) as int),
        ..t
    }
}

fn clamp_to(i: usize, len: usize) -> (r: usize)
    ensures
        r == clamp_index(i as int, len as int),
{
    if len == 0 {
        0
    } else if i >= len {
        len - 1
    } else {
        i
    }
}

impl DashboardState {
    fn focused_panel(&self) -> (r: ActivePanel)
        requires
            self@.wf(),
        ensures
            r == focus(self@.current()),
    {
        match self.current_tab_state().active_panel {
            Some(p) => p,
            None => ActivePanel::Running,
        }
    }

    /// The length of the list that the active tab selects from.
    pub fn active_list_len(&self, d: &DashboardData) -> (r: usize)
        requires
            self@.wf(),
        ensures
            r == list_len(self@, *d),
    {
        match self.active_tab {
            DashboardTab::Dashboard => match self.focused_panel() {
                ActivePanel::Running => count_phase(&d.all_items, QueuePhase::Running),
                ActivePanel::Recent => d.recent_items.len(),
            },
            DashboardTab::PerWorkspace => {
                if self.selected_workspace < d.workspaces.len() {
                    count_workspace(
                        &d.all_items,
                        d.workspaces[self.selected_workspace].name.as_str(),
                    )
                } else {
                    0
                }
            },
            DashboardTab::Spec => d.spec_count,
            DashboardTab::Board => 0,
            DashboardTab::DataSource => d.source_count,
            DashboardTab::Scripts => d.script_count,
        }
    }

    /// Brings every selection in range of what is shown; gives the length of
    /// the list that the active tab selects from.
    pub fn clamp_selection(&mut self, d: &DashboardData) -> (len: usize)
        requires
            old(self)@.wf(),
        ensures
            final(self)@ == clamped(old(self)@, *d),
            final(self)@.wf(),
            has_room(final(self)@),
            len == list_len(old(self)@, *d),
    {
        let len: usize = self.active_list_len(d);
        if self.active_tab != DashboardTab::Board {
            let t = self.current_tab_state_mut();
            t.selected_index = clamp_to(t.selected_index, len);
        }
        if d.workspaces.len() > 0 && self.selected_workspace >= d.workspaces.len() {
            self.selected_workspace = d.workspaces.len() - 1;
        }
        if self.board_selected_col >= 7 {
            self.board_selected_col = 0;
        }
        let col_len: usize = count_phase(&d.all_items, board_phase(self.board_selected_col));
        self.board_selected_row = clamp_to(self.board_selected_row, col_len);
        len
    }
}

/// After every selection was brought in range, each points into its list,
/// unless the list is empty.
pub proof fn law_clamped_selections_are_in_range(s: StateView, d: DashboardData)
    requires
        s.wf(),
        s.workspace >= 0,
        s.col >= 0,
        s.row >= 0,
        list_len(s, d) <= usize::MAX,
    ensures
        ({
            let c = clamped(s, d);
            &&& c.wf()
            &&& c.tab == s.tab
            &&& c.tab != DashboardTab::Board && list_len(s, d) > 0 ==> c.current().selected_index
                < list_len(s, d)
            &&& c.tab != DashboardTab::Board && list_len(s, d) == 0
                ==> c.current().selected_index == 0
            &&& d.workspaces.len() > 0 ==> 0 <= c.workspace < d.workspaces.len()
            &&& 0 <= c.col < 7
            &&& (0 <= c.row < items_in(d.all_items@, board_phases()[c.col]) || c.row == 0)
        }),
{
    let i = clamp_index(s.current().selected_index as int, list_len(s, d));
    let t = s.with_index(i);
    assert(t.tabs[s.tab.key()].selected_index == i as usize);
    assert(list_len(s, d) >= 0);
    assert forall|k: u8| k < 6 implies #[trigger] clamped(s, d).tabs.contains_key(k) by {
        assert(s.tabs.contains_key(k));
    }
}

/// Bringing selections in range does not touch the other tabs.
pub proof fn law_clamping_keeps_other_tabs(s: StateView, d: DashboardData, tab: DashboardTab)
    requires
        tab != s.tab,
    ensures
        clamped(s, d).tabs[tab.key()] == s.tabs[tab.key()],
{
}

// ---------------------------------------------------------------------------
// Moving
// ---------------------------------------------------------------------------

/// One less, but not below zero.
pub open spec fn step_back(i: int) -> int {
    if i > 0 {
        i - 1
    } else {
        0
    }
}

/// One more, but not beyond the last position of a list of length `len`.
pub open spec fn step_on(i: int, len: int) -> int {
    if i + 1 < len {
        i + 1
    } else {
        len - 1
    }
}

/// The state after Up or `k`.
pub open spec fn moved_up(s: StateView) -> StateView {
    if s.tab == DashboardTab::Board {
        StateView { row: step_back(s.row), ..s }
    } else {
        s.with_index(step_back(s.current().selected_index as int))
    }
}

/// The state after Down or `j`.
pub open spec fn moved_down(s: StateView, len: int, items: Seq<QueueItem>) -> StateView {
    if s.tab == DashboardTab::Board {
        let col_len = if s.col < 7 {
            items_in(items, board_phases()[s.col]) as int
        } else {
            0
        };
        if col_len > 0 {
            StateView { row: step_on(s.row, col_len), ..s }
        } else {
            s
        }
    } else if len > 0 {
        s.with_index(step_on(s.current().selected_index as int, len))
    } else {
        s
    }
}

/// With the focus on a panel of the dashboard tab, from its top.
pub open spec fn focused(s: StateView, p: ActivePanel) -> StateView {
    s.with_current(TabState { selected_index: 0, active_panel: Some(p) })
}

/// The state after Left.
pub open spec fn moved_left(s: StateView) -> StateView {
    match s.tab {
        DashboardTab::Dashboard => focused(s, ActivePanel::Running),
        DashboardTab::PerWorkspace => if s.workspace > 0 {
            StateView { workspace: s.workspace - 1, ..s.with_index(0) }
        } else {
            s
        },
        DashboardTab::Board => StateView { col: step_back(s.col), row: 0, ..s },
        _ => s,
    }
}

/// The state after Right.
pub open spec fn moved_right(s: StateView, workspaces: int) -> StateView {
    match s.tab {
        DashboardTab::Dashboard => focused(s, ActivePanel::Recent),
        DashboardTab::PerWorkspace => if workspaces > 0 && s.workspace < workspaces - 1 {
            StateView { workspace: s.workspace + 1, ..s.with_index(0) }
        } else {
            s
        },
        DashboardTab::Board => if s.col < 6 {
            StateView { col: s.col + 1, row: 0, ..s }
        } else {
            s
        },
        _ => s,
    }
}

/// The work id of the selected item, where the active tab has one.
pub open spec fn selected_id(s: StateView, d: DashboardData) -> Option<Seq<char>> {
    let i = s.current().selected_index as int;
    match s.tab {
        DashboardTab::Dashboard => match focus(s.current()) {
            ActivePanel::Running => if i < column(d.all_items@, QueuePhase::Running).len() {
                Some(column(d.all_items@, QueuePhase::Running)[i].work_id@)
            } else {
                None
            },
            ActivePanel::Recent => if i < d.recent_items.len() {
                Some(d.recent_items@[i].work_id@)
            } else {
                None
            },
        },
        DashboardTab::PerWorkspace => if s.workspace < d.workspaces.len() && i
            < d.workspace_items.len() {
            Some(d.workspace_items@[i].work_id@)
        } else {
            None
        },
        DashboardTab::Board => if s.col < 7 && s.row < column(
            d.all_items@,
            board_phases()[s.col],
        ).len() {
            Some(column(d.all_items@, board_phases()[s.col])[s.row].work_id@)
        } else {
            None
        },
        _ => None,
    }
}

/// The state after Enter: the details of the selected item are open, where one
/// is selected.
pub open spec fn entered(s: StateView, d: DashboardData) -> StateView {
    match selected_id(s, d) {
        Some(id) => StateView { overlay: Some(id), ..s },
        None => s,
    }
}

impl DashboardState {
    /// Handles Up or `k`.
    pub fn handle_nav_up(&mut self)
        requires
            old(self)@.wf(),
        ensures
            final(self)@ == moved_up(old(self)@),
            final(self)@.wf(),
    {
        match self.active_tab {
            DashboardTab::Board => {
                self.board_selected_row = self.board_selected_row.saturating_sub(1);
            },
            _ => {
                let t = self.current_tab_state_mut();
                t.selected_index = t.selected_index.saturating_sub(1);
            },
        }
    }

    /// Handles Down or `j` with a list of `active_list_len` rows.
    pub fn handle_nav_down(&mut self, active_list_len: usize, d: &DashboardData)
        requires
            old(self)@.wf(),
            has_room(old(self)@),
        ensures
            final(self)@ == moved_down(old(self)@, active_list_len as int, d.all_items@),
            final(self)@.wf(),
    {
        match self.active_tab {
            DashboardTab::Board => {
                if self.board_selected_col < 7 {
                    let col_len: usize = count_phase(
                        &d.all_items,
                        board_phase(self.board_selected_col),
                    );
                    if col_len > 0 {
                        self.board_selected_row = if self.board_selected_row + 1 < col_len {
                            self.board_selected_row + 1
                        } else {
                            col_len - 1
                        };
                    }
                }
            },
            _ => {
                if active_list_len > 0 {
                    let t = self.current_tab_state_mut();
                    t.selected_index = if t.selected_index + 1 < active_list_len {
                        t.selected_index + 1
                    } else {
                        active_list_len - 1
                    };
                }
            },
        }
    }

    /// Handles Left.
    pub fn handle_nav_left(&mut self)
        requires
            old(self)@.wf(),
        ensures
            final(self)@ == moved_left(old(self)@),
            final(self)@.wf(),
    {
        match self.active_tab {
            DashboardTab::Dashboard => {
                let t = self.current_tab_state_mut();
                t.active_panel = Some(ActivePanel::Running);
                t.selected_index = 0;
            },
            DashboardTab::PerWorkspace => {
                if self.selected_workspace > 0 {
                    self.selected_workspace = self.selected_workspace - 1;
                    let t = self.current_tab_state_mut();
                    t.selected_index = 0;
                }
            },
            DashboardTab::Board => {
                self.board_selected_col = self.board_selected_col.saturating_sub(1);
                self.board_selected_row = 0;
            },
            _ => {},
        }
    }

    /// Handles Right with `workspaces` registered workspaces.
    pub fn handle_nav_right(&mut self, workspaces: usize)
        requires
            old(self)@.wf(),
        ensures
            final(self)@ == moved_right(old(self)@, workspaces as int),
            final(self)@.wf(),
    {
        match self.active_tab {
            DashboardTab::Dashboard => {
                let t = self.current_tab_state_mut();
                t.active_panel = Some(ActivePanel::Recent);
                t.selected_index = 0;
            },
            DashboardTab::PerWorkspace => {
                if workspaces > 0 && self.selected_workspace < workspaces - 1 {
                    self.selected_workspace = self.selected_workspace + 1;
                    let t = self.current_tab_state_mut();
                    t.selected_index = 0;
                }
            },
            DashboardTab::Board => {
                if self.board_selected_col < 6 {
                    self.board_selected_col = self.board_selected_col + 1;
                    self.board_selected_row = 0;
                }
            },
            _ => {},
        }
    }

    /// The work id of the selected item, where the active tab has one.
    pub fn selected_item(&self, d: &DashboardData) -> (r: Option<String>)
        requires
            self@.wf(),
        ensures
            opt_text(r) == selected_id(self@, *d),
    {
        let i: usize = self.current_tab_state().selected_index;
        match self.active_tab {
            DashboardTab::Dashboard => match self.focused_panel() {
                ActivePanel::Running => work_id_in(&d.all_items, QueuePhase::Running, i),
                ActivePanel::Recent => {
                    if i < d.recent_items.len() {
                        Some(d.recent_items[i].work_id.clone())
                    } else {
                        None
                    }
                },
            },
            DashboardTab::PerWorkspace => {
                if self.selected_workspace < d.workspaces.len() && i < d.workspace_items.len() {
                    Some(d.workspace_items[i].work_id.clone())
                } else {
                    None
                }
            },
            DashboardTab::Board => {
                if self.board_selected_col < 7 {
                    work_id_in(
                        &d.all_items,
                        board_phase(self.board_selected_col),
                        self.board_selected_row,
                    )
                } else {
                    None
                }
            },
            _ => None,
        }
    }

    /// Handles Enter: opens the details of the selected item.
    pub fn handle_enter(&mut self, d: &DashboardData)
        requires
            old(self)@.wf(),
        ensures
            final(self)@ == entered(old(self)@, *d),
            final(self)@.wf(),
            old(self).active_tab == DashboardTab::PerWorkspace && old(self).selected_workspace
                < d.workspaces.len() && old(self)@.tabs[1].selected_index < d.workspace_items.len()
                ==> final(self).overlay_item is Some && final(self).overlay_item.unwrap()@
                == d.workspace_items@[old(self)@.tabs[1].selected_index as int].work_id@,
            old(self).active_tab == DashboardTab::Dashboard && old(self)@.tabs[0].active_panel
                == Some(ActivePanel::Recent) && old(self)@.tabs[0].selected_index
                < d.recent_items.len() ==> final(self).overlay_item is Some
                && final(self).overlay_item.unwrap()@ == d.recent_items@[old(self)@.tabs[0].selected_index as int].work_id@,
            final(self).active_tab == old(self).active_tab,
            final(self)@.tabs == old(self)@.tabs,
            final(self).show_help == old(self).show_help,
            final(self).selected_workspace == old(self).selected_workspace,
            final(self).board_selected_col == old(self).board_selected_col,
            final(self).board_selected_row == old(self).board_selected_row,
    {
        match self.selected_item(d) {
            Some(id) => {
                self.overlay_item = Some(id);
            },
            None => {},
        }
    }
}

// ---------------------------------------------------------------------------
// Keys
// ---------------------------------------------------------------------------

/// The keys that the dashboard knows.
#[derive(Clone, Copy, Debug, PartialEq, Eq, Structural)]
pub enum Key {
    Char(char),
    Esc,
    Tab,
    BackTab,
    Up,
    Down,
    Left,
    Right,
    Enter,
    Other,
}

/// The tab that a key jumps to: its letter, or the number of one of the first
/// three tabs.
pub open spec fn jump_target(key: Key) -> Option<DashboardTab> {
    match key {
        Key::Char(c) => if c == 'd' || c == '1' {
            Some(DashboardTab::Dashboard)
        } else if c == 'w' || c == '2' {
            Some(DashboardTab::PerWorkspace)
        } else if c == 's' || c == '3' {
            Some(DashboardTab::Spec)
        } else if c == 'b' {
            Some(DashboardTab::Board)
        } else if c == 'n' {
            Some(DashboardTab::DataSource)
        } else if c == 'x' {
            Some(DashboardTab::Scripts)
        } else {
            None
        },
        Key::Tab | Key::BackTab | Key::Esc | Key::Up | Key::Down | Key::Left | Key::Right
        | Key::Enter | Key::Other => None,
    }
}

/// A key that closes what is open: an overlay, or the dashboard.
pub open spec fn closes(key: Key) -> bool {
    key == Key::Char('q') || key == Key::Esc
}

/// The state after a key, with a list of `len` rows in the active tab. The help
/// closes on any key; the details of an item close on `q` or Esc and let no
/// other key through.
pub open spec fn pressed(s: StateView, key: Key, len: int, d: DashboardData) -> StateView {
    if s.help {
        StateView { help: false, ..s }
    } else if s.overlay is Some {
        if closes(key) {
            StateView { overlay: None, ..s }
        } else {
            s
        }
    } else if closes(key) {
        s
    } else if jump_target(key) is Some {
        StateView { tab: jump_target(key)->0, ..s }
    } else if key == Key::Char('h') {
        StateView { help: true, ..s }
    } else if key == Key::Tab {
        StateView { tab: s.tab.after(), ..s }
    } else if key == Key::BackTab {
        StateView { tab: s.tab.before(), ..s }
    } else if key == Key::Up || key == Key::Char('k') {
        moved_up(s)
    } else if key == Key::Down || key == Key::Char('j') {
        moved_down(s, len, d.all_items@)
    } else if key == Key::Left {
        moved_left(s)
    } else if key == Key::Right {
        moved_right(s, d.workspaces.len() as int)
    } else if key == Key::Enter {
        entered(s, d)
    } else {
        s
    }
}

/// A key ends the dashboard: `q` or Esc while nothing lies over it.
pub open spec fn quits(s: StateView, key: Key) -> bool {
    !s.help && s.overlay is None && closes(key)
}

fn jump_to(key: Key) -> (r: Option<DashboardTab>)
    ensures
        r == jump_target(key),
{
    match key {
        Key::Char(c) => {
            if c == 'd' || c == '1' {
                Some(DashboardTab::Dashboard)
            } else if c == 'w' || c == '2' {
                Some(DashboardTab::PerWorkspace)
            } else if c == 's' || c == '3' {
                Some(DashboardTab::Spec)
            } else if c == 'b' {
                Some(DashboardTab::Board)
            } else if c == 'n' {
                Some(DashboardTab::DataSource)
            } else if c == 'x' {
                Some(DashboardTab::Scripts)
            } else {
                None
            }
        },
        _ => None,
    }
}

impl DashboardState {
    /// Handles one key that was pressed, with `active_list_len` rows in the
    /// active tab. Returns whether the dashboard ends.
    pub fn handle_key(&mut self, key: Key, active_list_len: usize, d: &DashboardData) -> (quit: bool)
        requires
            old(self)@.wf(),
            has_room(old(self)@),
        ensures
            quit == quits(old(self)@, key),
            final(self)@ == pressed(old(self)@, key, active_list_len as int, *d),
            final(self)@.wf(),
    {
        if self.show_help {
            self.show_help = false;
            return false;
        }
        let close = key == Key::Char('q') || key == Key::Esc;
        if self.overlay_item.is_some() {
            if close {
                self.overlay_item = None;
            }
            return false;
        }
        if close {
            return true;
        }
        match jump_to(key) {
            Some(tab) => {
                self.active_tab = tab;
                return false;
            },
            None => {},
        }
        if key == Key::Char('h') {
            self.show_help = true;
        } else if key == Key::Tab {
            self.active_tab = self.active_tab.next();
        } else if key == Key::BackTab {
            self.active_tab = self.active_tab.prev();
        } else if key == Key::Up || key == Key::Char('k') {
            self.handle_nav_up();
        } else if key == Key::Down || key == Key::Char('j') {
            self.handle_nav_down(active_list_len, d);
        } else if key == Key::Left {
            self.handle_nav_left();
        } else if key == Key::Right {
            self.handle_nav_right(d.workspaces.len());
        } else if key == Key::Enter {
            self.handle_enter(d);
        }
        false
    }

    /// One round of the dashboard: brings the selections in range of what is
    /// shown and handles the key that was pressed, if any. Returns whether the
    /// dashboard ends.
    pub fn run_loop(&mut self, d: &DashboardData, key: Option<Key>) -> (quit: bool)
        requires
            old(self)@.wf(),
        ensures
            final(self)@.wf(),
            ({
                let c = clamped(old(self)@, *d);
                match key {
                    None => !quit && final(self)@ == c,
                    Some(k) => quit == quits(c, k) && final(self)@ == pressed(
                        c,
                        k,
                        list_len(old(self)@, *d),
                        *d,
                    ),
                }
            }),
    {
        let len: usize = self.clamp_selection(d);
        match key {
            None => false,
            Some(k) => {
                self.handle_key(k, len, d)
            },
        }
    }
}

/// A key that changes the tab changes nothing else: the selections of all tabs,
/// of the workspaces and of the board stay as they were.
pub proof fn law_switching_tabs_keeps_selections(s: StateView, key: Key, len: int, d: DashboardData)
    requires
        !s.help,
        s.overlay is None,
        jump_target(key) is Some || key == Key::Tab || key == Key::BackTab,
    ensures
        pressed(s, key, len, d) == (StateView { tab: pressed(s, key, len, d).tab, ..s }),
{
}

/// No key changes the selection of a tab that is not active.
pub proof fn law_keys_keep_other_tabs(
    s: StateView,
    key: Key,
    len: int,
    d: DashboardData,
    tab: DashboardTab,
)
    requires
        tab != s.tab,
    ensures
        pressed(s, key, len, d).tabs[tab.key()] == s.tabs[tab.key()],
{
}

/// Any key closes the help, and does nothing else.
pub proof fn law_any_key_closes_the_help(s: StateView, key: Key, len: int, d: DashboardData)
    requires
        s.help,
    ensures
        pressed(s, key, len, d) == (StateView { help: false, ..s }),
        !quits(s, key),
{
}

/// While the details of an item are open, no key reaches the dashboard below.
pub proof fn law_overlay_lets_no_key_through(s: StateView, key: Key, len: int, d: DashboardData)
    requires
        !s.help,
        s.overlay is Some,
    ensures
        !quits(s, key),
        pressed(s, key, len, d) == s || pressed(s, key, len, d) == (StateView {
            overlay: None,
            ..s
        }),
        pressed(s, key, len, d).overlay is None <==> closes(key),
{
}

/// Moving up or down stays in the list that is selected from.
pub proof fn law_moving_stays_in_range(s: StateView, len: int, items: Seq<QueueItem>)
    requires
        s.tab != DashboardTab::Board,
        0 < len <= usize::MAX,
        s.current().selected_index < len,
    ensures
        moved_up(s).current().selected_index < len,
        moved_down(s, len, items).current().selected_index < len,
{
}

/// Moving on the board stays on the board.
pub proof fn law_board_moves_stay_on_the_board(s: StateView, items: Seq<QueueItem>, len: int)
    requires
        s.tab == DashboardTab::Board,
        0 <= s.col < 7,
        0 <= s.row,
    ensures
        0 <= moved_left(s).col < 7,
        0 <= moved_right(s, 0).col < 7,
        items_in(items, board_phases()[s.col]) > 0 ==> 0 <= moved_down(s, len, items).row
            < items_in(items, board_phases()[s.col]),
        0 <= moved_up(s).row <= s.row,
{
}

/// The item at position `k` is in the phase `p`, and `row` items before it are.
pub open spec fn stands_in_row(items: Seq<QueueItem>, p: QueuePhase, k: int, row: int) -> bool {
    &&& 0 <= k < items.len()
    &&& items[k].phase == p
    &&& items_in(items.take(k), p) == row
}

/// A column holds the items of its phase in their order: an item that has `row`
/// others of its phase before it stands in that row.
pub proof fn law_columns_keep_the_order(items: Seq<QueueItem>, p: QueuePhase, k: int, row: int)
    requires
        stands_in_row(items, p, k, row),
    ensures
        row < column(items, p).len(),
        column(items, p)[row] == items[k],
{
    assert(items.take(k + 1).drop_last() =~= items.take(k));
    lemma_column_len(items.take(k), p);
    lemma_column_prefix(items, p, k + 1, row);
}

/// A column holds nothing else.
pub proof fn law_columns_hold_their_phase(items: Seq<QueueItem>, p: QueuePhase, row: int) -> (k: int)
    requires
        0 <= row < column(items, p).len(),
    ensures
        stands_in_row(items, p, k, row),
        column(items, p)[row] == items[k],
    decreases items.len(),
{
    let shorter = items.drop_last();
    lemma_column_len(shorter, p);
    if items.last().phase == p && row == column(shorter, p).len() {
        assert(items.take(items.len() - 1) =~= shorter);
        items.len() - 1
    } else {
        let k = law_columns_hold_their_phase(shorter, p, row);
        assert(shorter.take(k) =~= items.take(k));
        k
    }
}

/// Enter opens the item in the selected row of the list that has the focus: the
/// recent items, the items of the workspace, the running items, or the column of
/// the board. It changes nothing else.
pub proof fn law_enter_opens_the_selected_row(s: StateView, d: DashboardData, k: int)
    ensures
        s.tab == DashboardTab::PerWorkspace && 0 <= s.workspace < d.workspaces.len()
            && s.tabs[1].selected_index < d.workspace_items.len() ==> entered(s, d).overlay == Some(
            d.workspace_items@[s.tabs[1].selected_index as int].work_id@,
        ),
        s.tab == DashboardTab::Dashboard && s.tabs[0].active_panel == Some(ActivePanel::Recent)
            && s.tabs[0].selected_index < d.recent_items.len() ==> entered(s, d).overlay == Some(
            d.recent_items@[s.tabs[0].selected_index as int].work_id@,
        ),
        s.tab == DashboardTab::Dashboard && s.tabs[0].active_panel != Some(ActivePanel::Recent)
            && stands_in_row(
            d.all_items@,
            QueuePhase::Running,
            k,
            s.tabs[0].selected_index as int,
        ) ==> entered(s, d).overlay == Some(d.all_items@[k].work_id@),
        s.tab == DashboardTab::Board && 0 <= s.col < 7 && stands_in_row(
            d.all_items@,
            board_phases()[s.col],
            k,
            s.row,
        ) ==> entered(s, d).overlay == Some(d.all_items@[k].work_id@),
        entered(s, d) == (StateView { overlay: entered(s, d).overlay, ..s }),
        s.tab == DashboardTab::Spec || s.tab == DashboardTab::DataSource || s.tab
            == DashboardTab::Scripts ==> entered(s, d) == s,
{
    if stands_in_row(d.all_items@, QueuePhase::Running, k, s.tabs[0].selected_index as int) {
        law_columns_keep_the_order(
            d.all_items@,
            QueuePhase::Running,
            k,
            s.tabs[0].selected_index as int,
        );
    }
    if 0 <= s.col < 7 && stands_in_row(d.all_items@, board_phases()[s.col], k, s.row) {
        law_columns_keep_the_order(d.all_items@, board_phases()[s.col], k, s.row);
    }
}

/// Two rows with different items open different details.
pub proof fn law_different_rows_open_different_items(s: StateView, t: StateView, d: DashboardData)
    requires
        s.tab == DashboardTab::PerWorkspace,
        t.tab == DashboardTab::PerWorkspace,
        0 <= s.workspace < d.workspaces.len(),
        0 <= t.workspace < d.workspaces.len(),
        s.tabs[1].selected_index < d.workspace_items.len(),
        t.tabs[1].selected_index < d.workspace_items.len(),
        d.workspace_items@[s.tabs[1].selected_index as int].work_id@
            != d.workspace_items@[t.tabs[1].selected_index as int].work_id@,
    ensures
        entered(s, d).overlay != entered(t, d).overlay,
{
}

/// A selection in range is kept; one beyond the end moves to the last row.
pub proof fn law_clamping_keeps_selections_in_range(s: StateView, d: DashboardData)
    requires
        list_len(s, d) <= usize::MAX,
    ensures
        s.tab != DashboardTab::Board && s.current().selected_index < list_len(s, d) ==> clamped(
            s,
            d,
        ).current() == s.current(),
        s.tab != DashboardTab::Board && 0 < list_len(s, d) <= s.current().selected_index ==> clamped(
            s,
            d,
        ).current().selected_index == list_len(s, d) - 1,
        0 <= s.workspace < d.workspaces.len() ==> clamped(s, d).workspace == s.workspace,
        0 <= s.col < 7 ==> clamped(s, d).col == s.col,
        0 <= s.col < 7 && 0 <= s.row < items_in(d.all_items@, board_phases()[s.col]) ==> clamped(
            s,
            d,
        ).row == s.row,
        clamped(s, d).overlay == s.overlay,
        clamped(s, d).help == s.help,
{
}

/// The rows that a tab selects from are those that it shows.
pub proof fn law_lists_are_as_long_as_what_is_shown(s: StateView, d: DashboardData)
    ensures
        s.tab == DashboardTab::Dashboard && s.tabs[0].active_panel == Some(ActivePanel::Recent)
            ==> list_len(s, d) == d.recent_items.len(),
        s.tab == DashboardTab::Dashboard && s.tabs[0].active_panel != Some(ActivePanel::Recent)
            ==> list_len(s, d) == column(d.all_items@, QueuePhase::Running).len(),
        s.tab == DashboardTab::Spec ==> list_len(s, d) == d.spec_count,
        s.tab == DashboardTab::DataSource ==> list_len(s, d) == d.source_count,
        s.tab == DashboardTab::Scripts ==> list_len(s, d) == d.script_count,
        s.tab == DashboardTab::PerWorkspace && 0 <= s.workspace < d.workspaces.len() ==> list_len(
            s,
            d,
        ) == items_of(d.all_items@, d.workspaces@[s.workspace].name@),
{
    lemma_column_len(d.all_items@, QueuePhase::Running);
}

/// The items of a workspace are counted: those that carry its name.
pub proof fn law_workspace_items_are_counted(items: Seq<QueueItem>, name: Seq<char>)
    ensures
        items_of(items, name) == items.filter(|i: QueueItem| i.workspace_id@ == name).len(),
    decreases items.len(),
{
    reveal(Seq::filter);
    if items.len() > 0 {
        law_workspace_items_are_counted(items.drop_last(), name);
    }
}

/// Up undoes Down within a list, and Down undoes Up; each moves by one row.
pub proof fn law_up_and_down_undo_each_other(s: StateView, len: int, items: Seq<QueueItem>)
    requires
        s.tab != DashboardTab::Board,
        s.tabs.contains_key(s.tab.key()),
        s.current().selected_index + 1 < len <= usize::MAX,
    ensures
        moved_down(s, len, items).current().selected_index == s.current().selected_index + 1,
        moved_up(moved_down(s, len, items)).current() == s.current(),
        s.current().selected_index > 0 ==> moved_up(s).current().selected_index
            == s.current().selected_index - 1,
        moved_up(s).workspace == s.workspace && moved_up(s).overlay == s.overlay && moved_up(s).tab
            == s.tab,
        moved_down(s, len, items).workspace == s.workspace && moved_down(s, len, items).overlay
            == s.overlay && moved_down(s, len, items).tab == s.tab,
{
}

/// On the board Up and Down move by one row in the column, Left and Right by one
/// column, to its top.
pub proof fn law_the_board_is_walked_step_by_step(s: StateView, len: int, items: Seq<QueueItem>)
    requires
        s.tab == DashboardTab::Board,
        0 <= s.col < 7,
        0 <= s.row,
    ensures
        s.row + 1 < items_in(items, board_phases()[s.col]) ==> moved_down(s, len, items)
            == (StateView { row: s.row + 1, ..s }),
        s.row > 0 ==> moved_up(s) == (StateView { row: s.row - 1, ..s }),
        s.col > 0 ==> moved_left(s) == (StateView { col: s.col - 1, row: 0, ..s }),
        s.col < 6 ==> moved_right(s, 0) == (StateView { col: s.col + 1, row: 0, ..s }),
        s.col == 6 ==> moved_right(s, 0) == s,
{
}

/// Left and Right choose the panel of the dashboard and the workspace of the
/// workspace tab, and start at the top.
pub proof fn law_left_and_right_choose_what_is_shown(s: StateView, workspaces: int)
    ensures
        s.tab == DashboardTab::Dashboard ==> moved_left(s).tabs[0] == (TabState {
            selected_index: 0,
            active_panel: Some(ActivePanel::Running),
        }),
        s.tab == DashboardTab::Dashboard ==> moved_right(s, workspaces).tabs[0] == (TabState {
            selected_index: 0,
            active_panel: Some(ActivePanel::Recent),
        }),
        s.tab == DashboardTab::PerWorkspace && s.workspace > 0 ==> moved_left(s).workspace
            == s.workspace - 1 && moved_left(s).tabs[1].selected_index == 0,
        s.tab == DashboardTab::PerWorkspace && 0 <= s.workspace < workspaces - 1 ==> moved_right(
            s,
            workspaces,
        ).workspace == s.workspace + 1 && moved_right(s, workspaces).tabs[1].selected_index == 0,
        s.tab == DashboardTab::PerWorkspace && s.workspace == workspaces - 1 ==> moved_right(
            s,
            workspaces,
        ) == s,
{
}

/// Each tab has a letter of its own, and the first three a number; Tab and
/// Shift+Tab walk through them. `h` opens the help, and `q` and Esc end the
/// dashboard while nothing lies over it.
pub proof fn law_keys_lead_to_their_tabs(s: StateView, len: int, d: DashboardData)
    requires
        !s.help,
        s.overlay is None,
    ensures
        pressed(s, Key::Char('d'), len, d).tab == DashboardTab::Dashboard,
        pressed(s, Key::Char('1'), len, d).tab == DashboardTab::Dashboard,
        pressed(s, Key::Char('w'), len, d).tab == DashboardTab::PerWorkspace,
        pressed(s, Key::Char('2'), len, d).tab == DashboardTab::PerWorkspace,
        pressed(s, Key::Char('s'), len, d).tab == DashboardTab::Spec,
        pressed(s, Key::Char('3'), len, d).tab == DashboardTab::Spec,
        pressed(s, Key::Char('b'), len, d).tab == DashboardTab::Board,
        pressed(s, Key::Char('n'), len, d).tab == DashboardTab::DataSource,
        pressed(s, Key::Char('x'), len, d).tab == DashboardTab::Scripts,
        pressed(s, Key::Tab, len, d).tab == s.tab.after(),
        pressed(s, Key::BackTab, len, d).tab == s.tab.before(),
        pressed(s, Key::Char('h'), len, d) == (StateView { help: true, ..s }),
        pressed(s, Key::Enter, len, d) == entered(s, d),
        pressed(s, Key::Up, len, d) == moved_up(s) && pressed(s, Key::Char('k'), len, d) == moved_up(
            s,
        ),
        pressed(s, Key::Down, len, d) == moved_down(s, len, d.all_items@) && pressed(
            s,
            Key::Char('j'),
            len,
            d,
        ) == moved_down(s, len, d.all_items@),
        pressed(s, Key::Left, len, d) == moved_left(s),
        pressed(s, Key::Right, len, d) == moved_right(s, d.workspaces.len() as int),
        pressed(s, Key::Other, len, d) == s,
        forall|key: Key| #[trigger] quits(s, key) <==> key == Key::Char('q') || key == Key::Esc,
{
}

} // verus!
