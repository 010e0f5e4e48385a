//! The tab that shows the data sources and whether they are active.

use vstd::prelude::*;

use crate::bytes::byte_len;
use crate::dashboard::items::fitted;
use crate::dashboard::items::law_fitting_text_is_shown_whole;
use crate::dashboard::items::truncate_str;
use crate::dashboard::panel::row_style;
use crate::dashboard::panel::style_of_row;
use crate::dashboard::panel::titles6;
use crate::dashboard::panel::LinesPanel;
use crate::dashboard::panel::LinesView;
use crate::dashboard::panel::RowView;
use crate::dashboard::panel::TablePanel;
use crate::dashboard::panel::TableView;
use crate::pieces::group_holds;
use crate::pieces::holds;
use crate::queue::QueueItem;
use crate::queue::QueuePhase;
use crate::scan::begins;
use crate::scan::has_prefix;
use crate::style::colored;
use crate::style::plain;
use crate::style::Color;
use crate::style::Page;
use crate::style::SpanView;
use crate::text::cat2;
use crate::text::cat3;
use crate::text::dec;
use crate::text::dec_u64;
use crate::text::dec_usize;
use crate::text::text_eq;
use crate::text::texts;

verus! {

/// Connection status of a data source.
#[derive(Debug, Clone, Copy, PartialEq, Eq, Structural)]
pub enum DataSourceConnectionStatus {
    /// The source is connected and has recent activity.
    Connected,
    /// The source is configured but has no recent activity.
    Disconnected,
    /// The configuration of the source could not be loaded.
    Error,
}

impl DataSourceConnectionStatus {
    /// The label of the status.
    pub open spec fn label_text(self) -> Seq<char> {
        match self {
            DataSourceConnectionStatus::Connected => "Connected"@,
            DataSourceConnectionStatus::Disconnected => "Disconnected"@,
            DataSourceConnectionStatus::Error => "Error"@,
        }
    }

    /// The colour of the status.
    pub open spec fn shown_color(self) -> Color {
        match self {
            DataSourceConnectionStatus::Connected => Color::Green,
            DataSourceConnectionStatus::Disconnected => Color::DarkGray,
            DataSourceConnectionStatus::Error => Color::Red,
        }
    }

    /// The sign of the status.
    pub open spec fn sign(self) -> Seq<char> {
        match self {
            DataSourceConnectionStatus::Connected => "●"@,
            DataSourceConnectionStatus::Disconnected => "○"@,
            DataSourceConnectionStatus::Error => "✗"@,
        }
    }

    /// Returns a human-readable label for display.
    pub fn label(self) -> (r: &'static str)
        ensures
            r@ == self.label_text(),
    {
        match self {
            DataSourceConnectionStatus::Connected => "Connected",
            DataSourceConnectionStatus::Disconnected => "Disconnected",
            DataSourceConnectionStatus::Error => "Error",
        }
    }

    /// Returns the display color for this status.
    pub fn color(self) -> (r: Color)
        ensures
            r == self.shown_color(),
    {
        match self {
            DataSourceConnectionStatus::Connected => Color::Green,
            DataSourceConnectionStatus::Disconnected => Color::DarkGray,
            DataSourceConnectionStatus::Error => Color::Red,
        }
    }

    /// Returns a status indicator symbol.
    pub fn indicator(self) -> (r: &'static str)
        ensures
            r@ == self.sign(),
    {
        match self {
            DataSourceConnectionStatus::Connected => "●",
            DataSourceConnectionStatus::Disconnected => "○",
            DataSourceConnectionStatus::Error => "✗",
        }
    }
}

/// Status information for a single data source.
#[derive(Debug, Clone)]
pub struct DataSourceStatusEntry {
    /// Workspace name this source belongs to.
    pub workspace: String,
    /// Source type name (e.g. "github").
    pub source_name: String,
    /// Source URL.
    pub url: String,
    /// Number of configured states/triggers.
    pub state_count: usize,
    /// Scan interval in seconds.
    pub scan_interval_secs: u64,
    /// Current connection status.
    pub status: DataSourceConnectionStatus,
    /// Number of active (non-terminal) items from this source.
    pub active_item_count: usize,
}

/// Status information for a single data source.
pub ghost struct EntryView {
    pub workspace: Seq<char>,
    pub source_name: Seq<char>,
    pub url: Seq<char>,
    pub state_count: nat,
    pub scan_interval_secs: nat,
    pub status: DataSourceConnectionStatus,
    pub active_item_count: nat,
}

impl View for DataSourceStatusEntry {
    type V = EntryView;

    open spec fn view(&self) -> EntryView {
        EntryView {
            workspace: self.workspace@,
            source_name: self.source_name@,
            url: self.url@,
            state_count: self.state_count as nat,
            scan_interval_secs: self.scan_interval_secs as nat,
            status: self.status,
            active_item_count: self.active_item_count as nat,
        }
    }
}

/// The contents of a list of entries.
pub open spec fn entry_views(v: Seq<DataSourceStatusEntry>) -> Seq<EntryView> {
    Seq::new(v.len(), |i: int| v[i]@)
}

/// A data source as a workspace configures it.
#[derive(Debug, Clone)]
pub struct SourceInfo {
    pub name: String,
    pub url: String,
    pub state_count: usize,
    pub scan_interval_secs: u64,
}

/// A workspace and its data sources, where its configuration could be loaded.
#[derive(Debug, Clone)]
pub struct WorkspaceSources {
    pub name: String,
    pub config_path: String,
    pub sources: Option<Vec<SourceInfo>>,
}

// ---------------------------------------------------------------------------
// Collecting
// ---------------------------------------------------------------------------

/// An id of the source `source`: its name, alone or with a colon and the id of
/// something within the source behind it.
pub open spec fn comes_from(source_id: Seq<char>, source: Seq<char>) -> bool {
    source_id == source || has_prefix(source_id, source + ":"@)
}

/// The item belongs to the workspace `name`, comes from its source `source`, and
/// its work is not over.
pub open spec fn is_active_in(item: QueueItem, name: Seq<char>, source: Seq<char>) -> bool {
    item.workspace_id@ == name && comes_from(item.source_id@, source) && item.phase
        != QueuePhase::Done && item.phase != QueuePhase::Failed && item.phase
        != QueuePhase::Completed
}

/// How many active items a workspace has from a source.
pub open spec fn active_count(items: Seq<QueueItem>, name: Seq<char>, source: Seq<char>) -> nat
    decreases items.len(),
{
    if items.len() == 0 {
        0
    } else {
        active_count(items.drop_last(), name, source) + (if is_active_in(
            items.last(),
            name,
            source,
        ) {
            1nat
        } else {
            0nat
        })
    }
}

/// A source is connected where its workspace has active items from it.
pub open spec fn connection(active: nat) -> DataSourceConnectionStatus {
    if active > 0 {
        DataSourceConnectionStatus::Connected
    } else {
        DataSourceConnectionStatus::Disconnected
    }
}

/// The entry of a source of the workspace `name`.
pub open spec fn source_entry(name: Seq<char>, source: SourceInfo, items: Seq<QueueItem>) -> EntryView {
    EntryView {
        workspace: name,
        source_name: source.name@,
        url: source.url@,
        state_count: source.state_count as nat,
        scan_interval_secs: source.scan_interval_secs as nat,
        status: connection(active_count(items, name, source.name@)),
        active_item_count: active_count(items, name, source.name@),
    }
}

/// The entries of the first `n` sources of a workspace.
pub open spec fn source_entries(
    name: Seq<char>,
    sources: Seq<SourceInfo>,
    items: Seq<QueueItem>,
    n: nat,
) -> Seq<EntryView>
    decreases n,
{
    if n == 0 {
        seq![]
    } else {
        source_entries(name, sources, items, (n - 1) as nat).push(
            source_entry(name, sources[n - 1], items),
        )
    }
}

/// The entries of a workspace: one for each source, or one for the error where
/// its configuration could not be loaded.
pub open spec fn workspace_entries(ws: WorkspaceSources, items: Seq<QueueItem>) -> Seq<EntryView> {
    match ws.sources {
        None => seq![
            EntryView {
                workspace: ws.name@,
                source_name: "(unknown)"@,
                url: ws.config_path@,
                state_count: 0,
                scan_interval_secs: 0,
                status: DataSourceConnectionStatus::Error,
                active_item_count: 0,
            },
        ],
        Some(list) => source_entries(ws.name@, list@, items, list.len() as nat),
    }
}

/// The entries of the first `n` workspaces.
pub open spec fn all_entries(wss: Seq<WorkspaceSources>, items: Seq<QueueItem>, n: nat) -> Seq<
    EntryView,
>
    decreases n,
{
    if n == 0 {
        seq![]
    } else {
        all_entries(wss, items, (n - 1) as nat) + workspace_entries(wss[n - 1], items)
    }
}

fn is_from(source_id: &str, source: &str) -> (r: bool)
    ensures
        r == comes_from(source_id@, source@),
{
    let prefix = cat2(source, ":");
    text_eq(source_id, source) || begins(source_id, prefix.as_str())
}

fn count_active_in(items: &Vec<QueueItem>, name: &str, source: &str) -> (r: usize)
    ensures
        r == active_count(items@, name@, source@),
{
    let mut n: usize = 0;
    let mut i: usize = 0;
    while i < items.len()
        invariant
            i <= items.len(),
            n <= i,
            n == active_count(items@.take(i as int), name@, source@),
        decreases items.len() - i,
    {
        proof {
            assert(items@.take(i + 1).drop_last() =~= items@.take(i as int));
        }
        let item = &items[i];
        if text_eq(item.workspace_id.as_str(), name) && is_from(item.source_id.as_str(), source)
            && item.phase != QueuePhase::Done && item.phase != QueuePhase::Failed && item.phase
            != QueuePhase::Completed {
            n = n + 1;
        }
        i = i + 1;
    }
    proof {
        assert(items@.take(items@.len() as int) =~= items@);
    }
    n
}

fn entries_of(ws: &WorkspaceSources, items: &Vec<QueueItem>) -> (r: Vec<DataSourceStatusEntry>)
    ensures
        entry_views(r@) == workspace_entries(*ws, items@),
{
    let mut out: Vec<DataSourceStatusEntry> = Vec::new();
    match &ws.sources {
        None => {
            out.push(
                DataSourceStatusEntry {
                    workspace: ws.name.clone(),
                    source_name: "(unknown)".to_string(),
                    url: ws.config_path.clone(),
                    state_count: 0,
                    scan_interval_secs: 0,
                    status: DataSourceConnectionStatus::Error,
                    active_item_count: 0,
                },
            );
            proof {
                assert(entry_views(out@) =~= workspace_entries(*ws, items@));
            }
        },
        Some(list) => {
            let mut i: usize = 0;
            proof {
                assert(entry_views(out@) =~= source_entries(ws.name@, list@, items@, 0));
            }
            while i < list.len()
                invariant
                    i <= list.len(),
                    entry_views(out@) == source_entries(ws.name@, list@, items@, i as nat),
                decreases list.len() - i,
            {
                let ghost before = out@;
                let active: usize = count_active_in(
                    items,
                    ws.name.as_str(),
                    list[i].name.as_str(),
                );
                let status = if active > 0 {
                    DataSourceConnectionStatus::Connected
                } else {
                    DataSourceConnectionStatus::Disconnected
                };
                let entry = DataSourceStatusEntry {
                    workspace: ws.name.clone(),
                    source_name: list[i].name.clone(),
                    url: list[i].url.clone(),
                    state_count: list[i].state_count,
                    scan_interval_secs: list[i].scan_interval_secs,
                    status,
                    active_item_count: active,
                };
                out.push(entry);
                proof {
                    assert(entry_views(out@) =~= entry_views(before).push(entry@));
                }
                i = i + 1;
            }
        },
    }
    out
}

/// Collects the status of the data sources of all workspaces.
///
/// The connection status says whether the workspace has active queue items from
/// that source; a workspace whose configuration could not be loaded gives one
/// entry in error.
pub fn collect_datasource_status(wss: &Vec<WorkspaceSources>, items: &Vec<QueueItem>) -> (r: Vec<
    DataSourceStatusEntry,
>)
    ensures
        entry_views(r@) == all_entries(wss@, items@, wss.len() as nat),
{
    let mut out: Vec<DataSourceStatusEntry> = Vec::new();
    let mut i: usize = 0;
    proof {
        assert(entry_views(out@) =~= all_entries(wss@, items@, 0));
    }
    while i < wss.len()
        invariant
            i <= wss.len(),
            entry_views(out@) == all_entries(wss@, items@, i as nat),
        decreases wss.len() - i,
    {
        let ghost before = out@;
        let mut more = entries_of(&wss[i], items);
        let ghost added = more@;
        out.append(&mut more);
        proof {
            assert(entry_views(out@) =~= entry_views(before) + entry_views(added));
        }
        i = i + 1;
    }
    out
}

// ---------------------------------------------------------------------------
// Rendering
// ---------------------------------------------------------------------------

/// How many entries have the status `s`.
pub open spec fn entries_with(es: Seq<EntryView>, s: DataSourceConnectionStatus) -> nat
    decreases es.len(),
{
    if es.len() == 0 {
        0
    } else {
        entries_with(es.drop_last(), s) + (if es.last().status == s {
            1nat
        } else {
            0nat
        })
    }
}

fn count_status(es: &Vec<DataSourceStatusEntry>, s: DataSourceConnectionStatus) -> (r: usize)
    ensures
        r == entries_with(entry_views(es@), s),
{
    let mut n: usize = 0;
    let mut i: usize = 0;
    let ghost all = entry_views(es@);
    while i < es.len()
        invariant
            i <= es.len(),
            all == entry_views(es@),
            n <= i,
            n == entries_with(all.take(i as int), s),
        decreases es.len() - i,
    {
        proof {
            assert(all.take(i + 1).drop_last() =~= all.take(i as int));
        }
        if es[i].status == s {
            n = n + 1;
        }
        i = i + 1;
    }
    proof {
        assert(all.take(all.len() as int) =~= all);
    }
    n
}

/// The interval between two scans: in minutes from one minute on.
pub open spec fn interval_text(secs: nat) -> Seq<char> {
    if secs >= 60 {
        dec(secs / 60) + "m"@
    } else {
        dec(secs) + "s"@
    }
}

fn write_interval(secs: u64) -> (r: String)
    ensures
        r@ == interval_text(secs as nat),
{
    if secs >= 60 {
        let n = dec_u64(secs / 60);
        cat2(n.as_str(), "m")
    } else {
        let n = dec_u64(secs);
        cat2(n.as_str(), "s")
    }
}

/// How many sources have which status.
pub open spec fn source_summary(es: Seq<EntryView>) -> Seq<SpanView> {
    seq![
        colored(
            " "@ + dec(entries_with(es, DataSourceConnectionStatus::Connected)) + " Connected  "@,
            Color::Green,
        ),
        colored(
            " "@ + dec(entries_with(es, DataSourceConnectionStatus::Disconnected))
                + " Disconnected  "@,
            Color::DarkGray,
        ),
        colored(
            " "@ + dec(entries_with(es, DataSourceConnectionStatus::Error)) + " Error "@,
            Color::Red,
        ),
    ]
}

/// The cells of one source.
pub open spec fn source_cells(e: EntryView) -> Seq<SpanView> {
    seq![
        colored(e.status.sign() + " "@ + e.status.label_text(), e.status.shown_color()),
        plain(e.workspace),
        plain(e.source_name),
        plain(fitted(e.url, 40)),
        plain(dec(e.state_count)),
        plain(interval_text(e.scan_interval_secs)),
        plain(dec(e.active_item_count)),
    ]
}

/// The rows of the sources.
pub open spec fn source_rows(es: Seq<EntryView>, selected: int) -> Seq<RowView> {
    Seq::new(
        es.len(),
        |i: int| RowView { cells: source_cells(es[i]), style: row_style(i == selected) },
    )
}

fn draw_source_cells(e: &DataSourceStatusEntry) -> (r: Page)
    ensures
        r@ == source_cells(e@),
{
    let mut cells = Page::new();
    let status = cat3(e.status.indicator(), " ", e.status.label());
    cells.colored(status.as_str(), e.status.color());
    cells.plain(e.workspace.as_str());
    cells.plain(e.source_name.as_str());
    let url = truncate_str(e.url.as_str(), 40);
    cells.plain(url.as_str());
    let states = dec_usize(e.state_count);
    cells.plain(states.as_str());
    let interval = write_interval(e.scan_interval_secs);
    cells.plain(interval.as_str());
    let active = dec_usize(e.active_item_count);
    cells.plain(active.as_str());
    cells
}

fn source_titles() -> (r: Vec<String>)
    ensures
        texts(r@) == seq![
            "Status"@,
            "Workspace"@,
            "Source"@,
            "URL"@,
            "States"@,
            "Interval"@,
            "Active"@,
        ],
{
    let mut v = titles6("Status", "Workspace", "Source", "URL", "States", "Interval");
    let ghost before = v@;
    v.push("Active".to_string());
    proof {
        assert(texts(v@) =~= texts(before).push("Active"@));
    }
    v
}

/// The data source tab: how many sources have which status, and a table of all
/// sources with the selected one marked.
pub fn render_datasource_tab(es: &Vec<DataSourceStatusEntry>, selected: usize) -> (r: (
    LinesPanel,
    TablePanel,
))
    ensures
        r.0@ == (LinesView {
            title: " DataSource Status Summary "@,
            border: Color::Cyan,
            lines: seq![source_summary(entry_views(es@))],
        }),
        r.1@ == (TableView {
            title: " DataSource ("@ + dec(es.len() as nat) + ") "@,
            border: Color::Cyan,
            header: seq![
                "Status"@,
                "Workspace"@,
                "Source"@,
                "URL"@,
                "States"@,
                "Interval"@,
                "Active"@,
            ],
            header_color: Color::Yellow,
            rows: source_rows(entry_views(es@), selected as int),
        }),
{
    let mut line = Page::new();
    let connected = dec_usize(count_status(es, DataSourceConnectionStatus::Connected));
    let connected_text = cat3(" ", connected.as_str(), " Connected  ");
    line.colored(connected_text.as_str(), Color::Green);
    let disconnected = dec_usize(count_status(es, DataSourceConnectionStatus::Disconnected));
    let disconnected_text = cat3(" ", disconnected.as_str(), " Disconnected  ");
    line.colored(disconnected_text.as_str(), Color::DarkGray);
    let error = dec_usize(count_status(es, DataSourceConnectionStatus::Error));
    let error_text = cat3(" ", error.as_str(), " Error ");
    line.colored(error_text.as_str(), Color::Red);
    proof {
        assert(line@ =~= source_summary(entry_views(es@)));
    }
    let mut summary = LinesPanel::new(" DataSource Status Summary ", Color::Cyan);
    summary.line(line);

    let count = dec_usize(es.len());
    let title = cat3(" DataSource (", count.as_str(), ") ");
    let mut table = TablePanel::new(title.as_str(), Color::Cyan, source_titles(), Color::Yellow);
    let ghost blank = table@;
    let ghost all = entry_views(es@);
    let mut i: usize = 0;
    proof {
        assert(table@.rows =~= source_rows(all.take(0), selected as int));
    }
    while i < es.len()
        invariant
            i <= es.len(),
            all == entry_views(es@),
            table@ == (TableView {
                rows: source_rows(all.take(i as int), selected as int),
                ..blank
            }),
        decreases es.len() - i,
    {
        let cells = draw_source_cells(&es[i]);
        table.row(cells, style_of_row(i == selected));
        proof {
            assert(table@.rows =~= source_rows(all.take(i + 1), selected as int));
        }
        i = i + 1;
    }
    proof {
        assert(all.take(all.len() as int) =~= all);
    }
    (summary, table)
}

// ---------------------------------------------------------------------------
// Laws
// ---------------------------------------------------------------------------

/// An item comes from a source if its id is the name of the source, or that name,
/// a colon and more. An id that only begins alike does not count.
pub proof fn law_items_come_from_their_source(source: Seq<char>, rest: Seq<char>, c: char)
    ensures
        comes_from(source, source),
        comes_from(source + seq![':'] + rest, source),
        c != ':' ==> !comes_from(source + seq![c] + rest, source),
{
    reveal_strlit(":");
    let a = source + seq![':'] + rest;
    let n = source.len() as int + 1;
    assert(a.take(n) =~= source + ":"@);
    let b = source + seq![c] + rest;
    if c != ':' && has_prefix(b, source + ":"@) {
        assert(b.take(n)[source.len() as int] == c);
        assert((source + ":"@)[source.len() as int] == ':');
    }
}

/// The active items of a source are counted one by one: those of its workspace
/// that came from it and have not ended.
pub proof fn law_active_items_are_counted(
    a: Seq<QueueItem>,
    b: Seq<QueueItem>,
    item: QueueItem,
    name: Seq<char>,
    source: Seq<char>,
)
    ensures
        active_count(a + b, name, source) == active_count(a, name, source) + active_count(
            b,
            name,
            source,
        ),
        item.workspace_id@ != name ==> active_count(seq![item], name, source) == 0,
        item.workspace_id@ == name && item.source_id@ == source && (item.phase is Pending
            || item.phase is Ready || item.phase is Running || item.phase is Hitl
            || item.phase is Skipped) ==> active_count(seq![item], name, source) == 1,
        item.phase is Done || item.phase is Failed || item.phase is Completed ==> active_count(
            seq![item],
            name,
            source,
        ) == 0,
        !comes_from(item.source_id@, source) ==> active_count(seq![item], name, source) == 0,
    decreases b.len(),
{
    assert(seq![item].drop_last() =~= seq![]);
    assert(active_count(seq![item].drop_last(), name, source) == 0);
    assert(seq![item].last() == item);
    if b.len() == 0 {
        assert(a + b =~= a);
    } else {
        law_active_items_are_counted(a, b.drop_last(), item, name, source);
        assert((a + b).drop_last() =~= a + b.drop_last());
    }
}

/// A source is connected if and only if it has active items.
pub proof fn law_sources_with_items_are_connected(
    name: Seq<char>,
    source: SourceInfo,
    items: Seq<QueueItem>,
)
    ensures
        source_entry(name, source, items).status is Connected <==> source_entry(
            name,
            source,
            items,
        ).active_item_count > 0,
        source_entry(name, source, items).status is Disconnected <==> source_entry(
            name,
            source,
            items,
        ).active_item_count == 0,
        source_entry(name, source, items).workspace == name,
        source_entry(name, source, items).source_name == source.name@,
        source_entry(name, source, items).url == source.url@,
        source_entry(name, source, items).state_count == source.state_count,
        source_entry(name, source, items).scan_interval_secs == source.scan_interval_secs,
{
}

proof fn lemma_source_entries(
    name: Seq<char>,
    sources: Seq<SourceInfo>,
    items: Seq<QueueItem>,
    n: nat,
    i: int,
)
    requires
        0 <= i < n <= sources.len(),
    ensures
        source_entries(name, sources, items, n).len() == n,
        source_entries(name, sources, items, n)[i] == source_entry(name, sources[i], items),
    decreases n,
{
    if n == 1 {
        assert(source_entries(name, sources, items, 0).len() == 0);
    } else if i < n - 1 {
        lemma_source_entries(name, sources, items, (n - 1) as nat, i);
    } else {
        lemma_source_entries(name, sources, items, (n - 1) as nat, 0);
    }
}

/// Every source of every workspace has its entry. A workspace whose configuration
/// cannot be read has one too, and it is an error.
pub proof fn law_every_source_has_its_entry(
    wss: Seq<WorkspaceSources>,
    items: Seq<QueueItem>,
    n: nat,
    w: int,
    i: int,
)
    requires
        0 <= w < n <= wss.len(),
    ensures
        wss[w].sources is None ==> exists|k: int|
            0 <= k < all_entries(wss, items, n).len() && (#[trigger] all_entries(
                wss,
                items,
                n,
            )[k]).status is Error && all_entries(wss, items, n)[k].workspace == wss[w].name@
                && all_entries(wss, items, n)[k].url == wss[w].config_path@,
        wss[w].sources matches Some(list) ==> 0 <= i < list.len() ==> all_entries(
            wss,
            items,
            n,
        ).contains(source_entry(wss[w].name@, list@[i], items)),
    decreases n,
{
    let before = all_entries(wss, items, (n - 1) as nat);
    let own = workspace_entries(wss[n - 1], items);
    let all = all_entries(wss, items, n);
    assert(all == before + own);
    if w < n - 1 {
        law_every_source_has_its_entry(wss, items, (n - 1) as nat, w, i);
        match wss[w].sources {
            None => {
                let k = choose|k: int|
                    0 <= k < before.len() && (#[trigger] before[k]).status is Error
                        && before[k].workspace == wss[w].name@ && before[k].url
                        == wss[w].config_path@;
                assert(all[k] == before[k]);
            },
            Some(list) => {
                if 0 <= i < list.len() {
                    let e = source_entry(wss[w].name@, list@[i], items);
                    let k = choose|k: int| 0 <= k < before.len() && before[k] == e;
                    assert(all[k] == e);
                }
            },
        }
    } else {
        let at = before.len() as int;
        match wss[w].sources {
            None => {
                assert(all[at] == own[0]);
            },
            Some(list) => {
                if 0 <= i < list.len() {
                    lemma_source_entries(wss[w].name@, list@, items, list.len() as nat, i);
                    assert(all[at + i] == own[i]);
                }
            },
        }
    }
}

/// Entries are counted by their status, one by one.
pub proof fn law_entries_are_counted_by_status(
    a: Seq<EntryView>,
    b: Seq<EntryView>,
    e: EntryView,
    s: DataSourceConnectionStatus,
)
    ensures
        entries_with(a + b, s) == entries_with(a, s) + entries_with(b, s),
        entries_with(seq![e], s) == (if e.status == s {
            1nat
        } else {
            0nat
        }),
    decreases b.len(),
{
    assert(seq![e].drop_last() =~= seq![]);
    assert(entries_with(seq![e].drop_last(), s) == 0);
    if b.len() == 0 {
        assert(a + b =~= a);
    } else {
        law_entries_are_counted_by_status(a, b.drop_last(), e, s);
        assert((a + b).drop_last() =~= a + b.drop_last());
    }
}

/// The summary says how many sources are connected, disconnected and in error.
pub proof fn law_source_summaries_count_every_status(es: Seq<EntryView>)
    ensures
        source_summary(es)[0].text == " "@ + dec(
            entries_with(es, DataSourceConnectionStatus::Connected),
        ) + " Connected  "@,
        source_summary(es)[1].text == " "@ + dec(
            entries_with(es, DataSourceConnectionStatus::Disconnected),
        ) + " Disconnected  "@,
        source_summary(es)[2].text == " "@ + dec(
            entries_with(es, DataSourceConnectionStatus::Error),
        ) + " Error "@,
{
}

/// An interval under a minute is told in seconds, any other in whole minutes.
pub proof fn law_intervals_are_told_in_minutes(minutes: nat, secs: nat)
    requires
        secs < 60,
    ensures
        minutes > 0 ==> interval_text(minutes * 60 + secs) == dec(minutes) + "m"@,
        interval_text(secs) == dec(secs) + "s"@,
{
    assert((minutes * 60 + secs) / 60 == minutes);
}

/// Every entry has its row with its seven fields, and the selected one is marked.
pub proof fn law_every_entry_has_its_row(es: Seq<EntryView>, selected: int, i: int)
    requires
        0 <= i < es.len(),
    ensures
        source_rows(es, selected).len() == es.len(),
        source_rows(es, selected)[i].cells.len() == 7,
        holds(source_rows(es, selected)[i].cells[0].text, es[i].status.label_text()),
        source_rows(es, selected)[i].cells[1].text == es[i].workspace,
        source_rows(es, selected)[i].cells[2].text == es[i].source_name,
        byte_len(es[i].url) <= 40 ==> source_rows(es, selected)[i].cells[3].text == es[i].url,
        source_rows(es, selected)[i].cells[4].text == dec(es[i].state_count),
        source_rows(es, selected)[i].cells[5].text == interval_text(es[i].scan_interval_secs),
        source_rows(es, selected)[i].cells[6].text == dec(es[i].active_item_count),
        source_rows(es, selected)[i].style.bold <==> i == selected,
{
    broadcast use group_holds;

    law_fitting_text_is_shown_whole(es[i].url, 40);
}

/// The three states of a connection are told apart by their text, their sign and
/// their color.
pub proof fn law_connections_are_told_apart(
    a: DataSourceConnectionStatus,
    b: DataSourceConnectionStatus,
)
    ensures
        a.label_text() == b.label_text() ==> a == b,
        a.shown_color() == b.shown_color() ==> a == b,
        a.sign() == b.sign() ==> a == b,
        DataSourceConnectionStatus::Error.shown_color() == Color::Red,
        DataSourceConnectionStatus::Connected.shown_color() == Color::Green,
{
    reveal_strlit("Connected");
    reveal_strlit("Disconnected");
    reveal_strlit("Error");
    reveal_strlit("●");
    reveal_strlit("○");
    reveal_strlit("✗");
    if a.label_text() == b.label_text() {
        assert(a.label_text()[0] == b.label_text()[0]);
    }
    if a.sign() == b.sign() {
        assert(a.sign()[0] == b.sign()[0]);
    }
}

/// An entry shows what it holds.
pub proof fn law_entries_keep_their_fields(v: Seq<DataSourceStatusEntry>, i: int)
    requires
        0 <= i < v.len(),
    ensures
        entry_views(v).len() == v.len(),
        entry_views(v)[i].workspace == v[i].workspace@,
        entry_views(v)[i].source_name == v[i].source_name@,
        entry_views(v)[i].url == v[i].url@,
        entry_views(v)[i].state_count == v[i].state_count,
        entry_views(v)[i].scan_interval_secs == v[i].scan_interval_secs,
        entry_views(v)[i].status == v[i].status,
        entry_views(v)[i].active_item_count == v[i].active_item_count,
{
}

} // verus!
