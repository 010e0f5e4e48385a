//! The state of the dashboard.

use std::collections::HashMap;

use vstd::prelude::*;

use crate::queue::QueuePhase;
use crate::text::opt_text;

verus! {

broadcast use vstd::std_specs::hash::group_hash_axioms;

/// Which panel is currently focused for item selection.
#[derive(Debug, Clone, Copy, PartialEq, Eq, Structural)]
pub enum ActivePanel {
    Running,
    Recent,
}

/// Which top-level tab is displayed.
#[derive(Debug, Clone, Copy, PartialEq, Eq, Structural)]
pub enum DashboardTab {
    /// Main dashboard with phase summary + running/recent items.
    Dashboard,
    /// Per-workspace view showing items grouped by workspace.
    PerWorkspace,
    /// Spec progress view showing specs and their statuses.
    Spec,
    /// Kanban board with columns per queue phase.
    Board,
    /// DataSource connection status panel.
    DataSource,
    /// Scripts execution statistics panel.
    Scripts,
}

impl DashboardTab {
    /// The next tab in forward order.
    pub open spec fn after(self) -> DashboardTab {
        match self {
            DashboardTab::Dashboard => DashboardTab::PerWorkspace,
            DashboardTab::PerWorkspace => DashboardTab::Spec,
            DashboardTab::Spec => DashboardTab::Board,
            DashboardTab::Board => DashboardTab::DataSource,
            DashboardTab::DataSource => DashboardTab::Scripts,
            DashboardTab::Scripts => DashboardTab::Dashboard,
        }
    }

    /// The previous tab in reverse order.
    pub open spec fn before(self) -> DashboardTab {
        match self {
            DashboardTab::Dashboard => DashboardTab::Scripts,
            DashboardTab::PerWorkspace => DashboardTab::Dashboard,
            DashboardTab::Spec => DashboardTab::PerWorkspace,
            DashboardTab::Board => DashboardTab::Spec,
            DashboardTab::DataSource => DashboardTab::Board,
            DashboardTab::Scripts => DashboardTab::DataSource,
        }
    }

    /// Returns the next tab in forward order (Tab key).
    pub fn next(self) -> (r: DashboardTab)
        ensures
            r == self.after(),
    {
        match self {
            DashboardTab::Dashboard => DashboardTab::PerWorkspace,
            DashboardTab::PerWorkspace => DashboardTab::Spec,
            DashboardTab::Spec => DashboardTab::Board,
            DashboardTab::Board => DashboardTab::DataSource,
            DashboardTab::DataSource => DashboardTab::Scripts,
            DashboardTab::Scripts => DashboardTab::Dashboard,
        }
    }

    /// Returns the previous tab in reverse order (Shift+Tab).
    pub fn prev(self) -> (r: DashboardTab)
        ensures
            r == self.before(),
    {
        match self {
            DashboardTab::Dashboard => DashboardTab::Scripts,
            DashboardTab::PerWorkspace => DashboardTab::Dashboard,
            DashboardTab::Spec => DashboardTab::PerWorkspace,
            DashboardTab::Board => DashboardTab::Spec,
            DashboardTab::DataSource => DashboardTab::Board,
            DashboardTab::Scripts => DashboardTab::DataSource,
        }
    }

    /// The number under which the state of the tab is kept.
    pub open spec fn key(self) -> u8 {
        match self {
            DashboardTab::Dashboard => 0,
            DashboardTab::PerWorkspace => 1,
            DashboardTab::Spec => 2,
            DashboardTab::Board => 3,
            DashboardTab::DataSource => 4,
            DashboardTab::Scripts => 5,
        }
    }
}

/// Going forward and going back undo each other.
pub proof fn law_next_and_prev_are_inverse(tab: DashboardTab)
    ensures
        tab.after().before() == tab,
        tab.before().after() == tab,
{
}

/// Six steps in one direction lead back to where they began.
pub proof fn law_six_tabs_make_a_cycle(tab: DashboardTab)
    ensures
        tab.after().after().after().after().after().after() == tab,
        tab.before().before().before().before().before().before() == tab,
{
}

/// Every tab keeps its state under a number of its own.
pub proof fn law_tab_keys_differ(a: DashboardTab, b: DashboardTab)
    ensures
        a.key() == b.key() ==> a == b,
        a.key() < 6,
{
}

/// Board view columns corresponding to queue phases.
pub const BOARD_COLUMNS: [QueuePhase; 7] = [
    QueuePhase::Pending,
    QueuePhase::Ready,
    QueuePhase::Running,
    QueuePhase::Completed,
    QueuePhase::Done,
    QueuePhase::Hitl,
    QueuePhase::Failed,
];

/// The phases of the board columns.
pub open spec fn board_phases() -> Seq<QueuePhase> {
    seq![
        QueuePhase::Pending,
        QueuePhase::Ready,
        QueuePhase::Running,
        QueuePhase::Completed,
        QueuePhase::Done,
        QueuePhase::Hitl,
        QueuePhase::Failed,
    ]
}

/// The phase of a board column.
pub fn board_phase(col: usize) -> (r: QueuePhase)
    requires
        col < 7,
    ensures
        r == board_phases()[col as int],
{
    BOARD_COLUMNS[col]
}

/// Per-tab scroll/selection state, preserved across tab switches.
#[derive(Debug, Clone, Copy)]
pub struct TabState {
    /// Selected row index within the primary list.
    pub selected_index: usize,
    /// For Dashboard tab: which sub-panel is focused.
    pub active_panel: Option<ActivePanel>,
}

impl Default for TabState {
    fn default() -> (r: TabState)
        ensures
            r == (TabState { selected_index: 0, active_panel: None }),
    {
        TabState { selected_index: 0, active_panel: None }
    }
}

/// Dashboard UI state for navigation and overlay management.
pub struct DashboardState {
    /// Which top-level tab is active.
    pub active_tab: DashboardTab,
    /// Per-tab state (scroll positions preserved on tab switch).
    pub tab_states: HashMap<u8, TabState>,
    /// When set, the item detail overlay is shown for this work_id.
    pub overlay_item: Option<String>,
    /// Whether the help overlay is visible.
    pub show_help: bool,
    /// Selected workspace index (used in PerWorkspace tab).
    pub selected_workspace: usize,
    /// Currently selected column in Board view.
    pub board_selected_col: usize,
    /// Currently selected row within the selected Board column.
    pub board_selected_row: usize,
}

/// The state of the dashboard as plain values.
pub ghost struct StateView {
    pub tab: DashboardTab,
    pub tabs: Map<u8, TabState>,
    pub overlay: Option<Seq<char>>,
    pub help: bool,
    pub workspace: int,
    pub col: int,
    pub row: int,
}

impl View for DashboardState {
    type V = StateView;

    open spec fn view(&self) -> StateView {
        StateView {
            tab: self.active_tab,
            tabs: self.tab_states@,
            overlay: opt_text(self.overlay_item),
            help: self.show_help,
            workspace: self.selected_workspace as int,
            col: self.board_selected_col as int,
            row: self.board_selected_row as int,
        }
    }
}

impl StateView {
    /// There is a state for every tab.
    pub open spec fn wf(self) -> bool {
        forall|k: u8| k < 6 ==> #[trigger] self.tabs.contains_key(k)
    }

    /// The state of the active tab.
    pub open spec fn current(self) -> TabState {
        self.tabs[self.tab.key()]
    }

    /// With another state of the active tab.
    pub open spec fn with_current(self, t: TabState) -> StateView {
        StateView { tabs: self.tabs.insert(self.tab.key(), t), ..self }
    }

    /// With another selection in the active tab.
    pub open spec fn with_index(self, i: int) -> StateView {
        self.with_current(TabState { selected_index: i as usize, ..self.current() })
    }
}

/// The dashboard when it is opened.
pub open spec fn initial_view() -> StateView {
    let blank = TabState { selected_index: 0, active_panel: None };
    StateView {
        tab: DashboardTab::Dashboard,
        tabs: Map::empty().insert(
            0u8,
            TabState { selected_index: 0, active_panel: Some(ActivePanel::Running) },
        ).insert(1u8, blank).insert(2u8, blank).insert(3u8, blank).insert(4u8, blank).insert(
            5u8,
            blank,
        ),
        overlay: None,
        help: false,
        workspace: 0,
        col: 0,
        row: 0,
    }
}

impl DashboardState {
    /// The dashboard when it is opened.
    pub fn new() -> (r: DashboardState)
        ensures
            r@ == initial_view(),
            r@.wf(),
    {
        let mut tab_states: HashMap<u8, TabState> = HashMap::new();
        tab_states.insert(
            0,
            TabState { selected_index: 0, active_panel: Some(ActivePanel::Running) },
        );
        tab_states.insert(1, TabState { selected_index: 0, active_panel: None });
        tab_states.insert(2, TabState { selected_index: 0, active_panel: None });
        tab_states.insert(3, TabState { selected_index: 0, active_panel: None });
        tab_states.insert(4, TabState { selected_index: 0, active_panel: None });
        tab_states.insert(5, TabState { selected_index: 0, active_panel: None });
        DashboardState {
            active_tab: DashboardTab::Dashboard,
            tab_states,
            overlay_item: None,
            show_help: false,
            selected_workspace: 0,
            board_selected_col: 0,
            board_selected_row: 0,
        }
    }

    /// The number under which the state of the active tab is kept.
    pub fn tab_key(&self) -> (r: u8)
        ensures
            r == self@.tab.key(),
    {
        match self.active_tab {
            DashboardTab::Dashboard => 0,
            DashboardTab::PerWorkspace => 1,
            DashboardTab::Spec => 2,
            DashboardTab::Board => 3,
            DashboardTab::DataSource => 4,
            DashboardTab::Scripts => 5,
        }
    }

    /// The state of the active tab.
    pub fn current_tab_state(&self) -> (r: &TabState)
        requires
            self@.wf(),
        ensures
            *r == self@.current(),
    {
        let key: u8 = self.tab_key();
        self.tab_states.get(&key).unwrap()
    }

    /// The state of the active tab, to be changed; a blank one where there was
    /// none.
    pub fn current_tab_state_mut(&mut self) -> (r: &mut TabState)
        ensures
            *r == (if old(self)@.tabs.contains_key(old(self)@.tab.key()) {
                old(self)@.current()
            } else {
                TabState { selected_index: 0, active_panel: None }
            }),
            final(self)@ == old(self)@.with_current(*final(r)),
    {
        let key: u8 = self.tab_key();
        self.tab_states.entry(key).or_insert(TabState { selected_index: 0, active_panel: None })
    }
}

/// The tabs follow each other in the order in which they are shown, from the
/// dashboard over workspaces, specs, board and sources to the scripts.
pub proof fn law_tabs_follow_their_numbers(tab: DashboardTab)
    ensures
        DashboardTab::Dashboard.key() == 0,
        DashboardTab::Scripts.key() == 5,
        tab.key() < 5 ==> tab.after().key() == tab.key() + 1,
        tab.key() > 0 ==> tab.before().key() == tab.key() - 1,
{
}

/// The columns of the board are the phases of the belt but the skipped one, each
/// once: first those before an item runs, last those that went wrong.
pub proof fn law_board_columns_differ(i: int, j: int)
    requires
        0 <= i < j < 7,
    ensures
        board_phases().len() == 7,
        board_phases()[i] != board_phases()[j],
        board_phases()[i] != QueuePhase::Skipped,
        board_phases()[0] == QueuePhase::Pending,
        board_phases()[2] == QueuePhase::Running,
        board_phases()[6] == QueuePhase::Failed,
{
}

/// The dashboard opens on its first tab, with the first row of everything
/// selected and nothing lying over it.
pub proof fn law_the_dashboard_opens_at_the_top(tab: DashboardTab)
    ensures
        initial_view().tab == DashboardTab::Dashboard,
        initial_view().tabs[tab.key()].selected_index == 0,
        initial_view().overlay is None && !initial_view().help,
        initial_view().workspace == 0 && initial_view().col == 0 && initial_view().row == 0,
{
}

/// What is known of a state is what it holds.
pub proof fn law_states_are_what_they_hold(s: DashboardState)
    ensures
        s@.tab == s.active_tab,
        s@.tabs == s.tab_states@,
        s@.overlay is Some <==> s.overlay_item is Some,
        s.overlay_item matches Some(t) ==> s@.overlay == Some(t@),
        s@.help == s.show_help,
        s@.workspace == s.selected_workspace,
        s@.col == s.board_selected_col,
        s@.row == s.board_selected_row,
{
}

} // verus!
