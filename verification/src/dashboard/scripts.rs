//! The tab that shows how scripts were executed.

use vstd::prelude::*;

use crate::dashboard::overlay::format_transition_time;
use crate::dashboard::overlay::short_time;
use crate::dashboard::panel::row_style;
use crate::dashboard::panel::style_of_row;
use crate::dashboard::panel::titles5;
use crate::dashboard::panel::titles6;
use crate::dashboard::panel::LinesPanel;
use crate::dashboard::panel::LinesView;
use crate::dashboard::panel::RowView;
use crate::dashboard::panel::TablePanel;
use crate::dashboard::panel::TableView;
use crate::pieces::group_holds;
use crate::pieces::holds;
use crate::style::bold;
use crate::style::bold_colored;
use crate::style::colored;
use crate::style::plain;
use crate::style::Color;
use crate::style::Page;
use crate::style::SpanView;
use crate::text::cat2;
use crate::text::cat3;
use crate::text::dec;
use crate::text::dec_int;
use crate::text::dec_i64;
use crate::text::dec_u64;
use crate::text::dec_usize;
use crate::text::text_eq;
use crate::text::text_or;
use crate::text::unwrap_text;

verus! {

/// How good a success rate is: from 90 percent on, from 70 percent on, or less.
#[derive(Debug, Clone, Copy, PartialEq, Eq, Structural)]
pub enum RateBand {
    Good,
    Fair,
    Poor,
}

impl RateBand {
    /// The colour of a success rate.
    pub open spec fn shown_color(self) -> Color {
        match self {
            RateBand::Good => Color::Green,
            RateBand::Fair => Color::Yellow,
            RateBand::Poor => Color::Red,
        }
    }

    /// The colour of a success rate.
    pub fn color(self) -> (r: Color)
        ensures
            r == self.shown_color(),
    {
        match self {
            RateBand::Good => Color::Green,
            RateBand::Fair => Color::Yellow,
            RateBand::Poor => Color::Red,
        }
    }
}

/// A success rate: its percentage with one decimal, and how good it is.
#[derive(Debug, Clone)]
pub struct Rate {
    pub text: String,
    pub band: RateBand,
}

/// Statistics of the executions of one script.
#[derive(Debug, Clone)]
pub struct ScriptStats {
    pub state: String,
    pub total_runs: u64,
    pub success_count: u64,
    pub fail_count: u64,
    pub rate: Rate,
    /// The average duration in whole milliseconds, as it is shown.
    pub avg_duration: Option<String>,
}

/// One execution of a script.
#[derive(Debug, Clone)]
pub struct ScriptRun {
    pub state: String,
    pub work_id: String,
    pub status: String,
    pub attempt: i64,
    pub created_at: String,
}

// ---------------------------------------------------------------------------
// Summary
// ---------------------------------------------------------------------------

/// The number of executions.
pub open spec fn runs(stats: Seq<ScriptStats>) -> nat
    decreases stats.len(),
{
    if stats.len() == 0 {
        0
    } else {
        runs(stats.drop_last()) + stats.last().total_runs as nat
    }
}

/// The number of executions that succeeded.
pub open spec fn successes(stats: Seq<ScriptStats>) -> nat
    decreases stats.len(),
{
    if stats.len() == 0 {
        0
    } else {
        successes(stats.drop_last()) + stats.last().success_count as nat
    }
}

/// The number of executions that failed.
pub open spec fn failures(stats: Seq<ScriptStats>) -> nat
    decreases stats.len(),
{
    if stats.len() == 0 {
        0
    } else {
        failures(stats.drop_last()) + stats.last().fail_count as nat
    }
}

/// The three sums fit the counters.
pub open spec fn sums_fit(stats: Seq<ScriptStats>) -> bool {
    runs(stats) <= u64::MAX && successes(stats) <= u64::MAX && failures(stats) <= u64::MAX
}

/// The sums over all scripts.
#[derive(Debug, Clone, Copy)]
pub struct ScriptTotals {
    pub runs: u64,
    pub successes: u64,
    pub failures: u64,
}

proof fn lemma_sums_grow(stats: Seq<ScriptStats>, n: int)
    requires
        0 <= n <= stats.len(),
    ensures
        runs(stats.take(n)) <= runs(stats),
        successes(stats.take(n)) <= successes(stats),
        failures(stats.take(n)) <= failures(stats),
    decreases stats.len(),
{
    if n < stats.len() {
        lemma_sums_grow(stats.drop_last(), n);
        assert(stats.drop_last().take(n) =~= stats.take(n));
    } else {
        assert(stats.take(n) =~= stats);
    }
}

/// The sums over all scripts.
pub fn script_totals(stats: &Vec<ScriptStats>) -> (r: ScriptTotals)
    requires
        sums_fit(stats@),
    ensures
        r.runs == runs(stats@),
        r.successes == successes(stats@),
        r.failures == failures(stats@),
{
    let mut total: u64 = 0;
    let mut good: u64 = 0;
    let mut bad: u64 = 0;
    let mut i: usize = 0;
    while i < stats.len()
        invariant
            i <= stats.len(),
            sums_fit(stats@),
            total == runs(stats@.take(i as int)),
            good == successes(stats@.take(i as int)),
            bad == failures(stats@.take(i as int)),
        decreases stats.len() - i,
    {
        proof {
            assert(stats@.take(i + 1).drop_last() =~= stats@.take(i as int));
            lemma_sums_grow(stats@, i + 1);
        }
        total = total + stats[i].total_runs;
        good = good + stats[i].success_count;
        bad = bad + stats[i].fail_count;
        i = i + 1;
    }
    proof {
        assert(stats@.take(stats@.len() as int) =~= stats@);
    }
    ScriptTotals { runs: total, successes: good, failures: bad }
}

/// The sums in one line; `rate` is the share of successes among all runs.
pub open spec fn totals_line(stats: Seq<ScriptStats>, rate: Rate) -> Seq<SpanView> {
    seq![
        bold("Total Runs: "@ + dec(runs(stats))),
        plain("  "@),
        colored("Success: "@ + dec(successes(stats)), Color::Green),
        plain("  "@),
        colored("Failed: "@ + dec(failures(stats)), Color::Red),
        plain("  "@),
        bold_colored("Rate: "@ + rate.text@ + "%"@, rate.band.shown_color()),
    ]
}

/// The overall summary of script executions; `rate` is the share of successes
/// among all runs.
pub fn render_scripts_summary(stats: &Vec<ScriptStats>, rate: &Rate) -> (r: LinesPanel)
    requires
        sums_fit(stats@),
    ensures
        r@ == (LinesView {
            title: " Scripts Execution Summary "@,
            border: Color::Cyan,
            lines: seq![
                totals_line(stats@, *rate),
                seq![],
                seq![colored("Scripts: "@ + dec(stats.len() as nat), Color::Cyan)],
            ],
        }),
{
    let totals = script_totals(stats);
    let mut line = Page::new();
    let all = dec_u64(totals.runs);
    let all_text = cat2("Total Runs: ", all.as_str());
    line.bold(all_text.as_str());
    line.plain("  ");
    let good = dec_u64(totals.successes);
    let good_text = cat2("Success: ", good.as_str());
    line.colored(good_text.as_str(), Color::Green);
    line.plain("  ");
    let bad = dec_u64(totals.failures);
    let bad_text = cat2("Failed: ", bad.as_str());
    line.colored(bad_text.as_str(), Color::Red);
    line.plain("  ");
    let rate_text = cat3("Rate: ", rate.text.as_str(), "%");
    line.bold_colored(rate_text.as_str(), rate.band.color());

    let gap = Page::new();
    let mut last = Page::new();
    let count = dec_usize(stats.len());
    let count_text = cat2("Scripts: ", count.as_str());
    last.colored(count_text.as_str(), Color::Cyan);
    proof {
        assert(line@ =~= totals_line(stats@, *rate));
        assert(gap@ =~= seq![]);
        assert(last@ =~= seq![colored("Scripts: "@ + dec(stats.len() as nat), Color::Cyan)]);
    }
    let mut panel = LinesPanel::new(" Scripts Execution Summary ", Color::Cyan);
    panel.line(line);
    panel.line(gap);
    panel.line(last);
    proof {
        assert(panel@.lines =~= seq![
            totals_line(stats@, *rate),
            seq![],
            seq![colored("Scripts: "@ + dec(stats.len() as nat), Color::Cyan)],
        ]);
    }
    panel
}

// ---------------------------------------------------------------------------
// Tables
// ---------------------------------------------------------------------------

/// The cells of one script.
pub open spec fn script_cells(s: ScriptStats) -> Seq<SpanView> {
    seq![
        plain(s.state@),
        plain(dec(s.total_runs as nat)),
        colored(dec(s.success_count as nat), Color::Green),
        colored(dec(s.fail_count as nat), Color::Red),
        colored(s.rate.text@ + "%"@, s.rate.band.shown_color()),
        plain(text_or(s.avg_duration, "-"@)),
    ]
}

/// The rows of the scripts.
pub open spec fn script_rows(stats: Seq<ScriptStats>, selected: int) -> Seq<RowView> {
    Seq::new(
        stats.len(),
        |i: int| RowView { cells: script_cells(stats[i]), style: row_style(i == selected) },
    )
}

fn draw_script_cells(s: &ScriptStats) -> (r: Page)
    ensures
        r@ == script_cells(*s),
{
    let mut cells = Page::new();
    cells.plain(s.state.as_str());
    let total = dec_u64(s.total_runs);
    cells.plain(total.as_str());
    let good = dec_u64(s.success_count);
    cells.colored(good.as_str(), Color::Green);
    let bad = dec_u64(s.fail_count);
    cells.colored(bad.as_str(), Color::Red);
    let rate = cat2(s.rate.text.as_str(), "%");
    cells.colored(rate.as_str(), s.rate.band.color());
    let avg = unwrap_text(&s.avg_duration, "-");
    cells.plain(avg.as_str());
    cells
}

/// The statistics of each script as a table, with the selected one marked.
pub fn render_scripts_stats_table(stats: &Vec<ScriptStats>, selected: usize) -> (r: TablePanel)
    ensures
        r@ == (TableView {
            title: " Per-Script Statistics "@,
            border: Color::Green,
            header: seq!["Script"@, "Runs"@, "OK"@, "Fail"@, "Rate"@, "Avg ms"@],
            header_color: Color::Yellow,
            rows: script_rows(stats@, selected as int),
        }),
{
    let header = titles6("Script", "Runs", "OK", "Fail", "Rate", "Avg ms");
    let mut table = TablePanel::new(
        " Per-Script Statistics ",
        Color::Green,
        header,
        Color::Yellow,
    );
    let ghost blank = table@;
    let mut i: usize = 0;
    proof {
        assert(table@.rows =~= script_rows(stats@.take(0), selected as int));
    }
    while i < stats.len()
        invariant
            i <= stats.len(),
            table@ == (TableView {
                rows: script_rows(stats@.take(i as int), selected as int),
                ..blank
            }),
        decreases stats.len() - i,
    {
        let cells = draw_script_cells(&stats[i]);
        table.row(cells, style_of_row(i == selected));
        proof {
            assert(table@.rows =~= script_rows(stats@.take(i + 1), selected as int));
        }
        i = i + 1;
    }
    proof {
        assert(stats@.take(stats@.len() as int) =~= stats@);
    }
    table
}

/// The cells of one execution.
pub open spec fn run_cells(e: ScriptRun) -> Seq<SpanView> {
    seq![
        plain(e.state@),
        plain(e.work_id@),
        colored(
            e.status@,
            if e.status@ == "success"@ {
                Color::Green
            } else {
                Color::Red
            },
        ),
        plain(dec_int(e.attempt as int)),
        plain(short_time(e.created_at@)),
    ]
}

/// The rows of the executions.
pub open spec fn run_rows(events: Seq<ScriptRun>) -> Seq<RowView> {
    Seq::new(
        events.len(),
        |i: int| RowView { cells: run_cells(events[i]), style: row_style(false) },
    )
}

fn draw_run_cells(e: &ScriptRun) -> (r: Page)
    ensures
        r@ == run_cells(*e),
{
    let mut cells = Page::new();
    cells.plain(e.state.as_str());
    cells.plain(e.work_id.as_str());
    let color = if text_eq(e.status.as_str(), "success") {
        Color::Green
    } else {
        Color::Red
    };
    cells.colored(e.status.as_str(), color);
    let attempt = dec_i64(e.attempt);
    cells.plain(attempt.as_str());
    let time = format_transition_time(e.created_at.as_str());
    cells.plain(time.as_str());
    cells
}

/// The log of recent script executions.
pub fn render_recent_executions(events: &Vec<ScriptRun>) -> (r: TablePanel)
    ensures
        r@ == (TableView {
            title: " Recent Executions (last 10) "@,
            border: Color::Magenta,
            header: seq!["Script"@, "Work ID"@, "Status"@, "Attempt"@, "Time"@],
            header_color: Color::Cyan,
            rows: run_rows(events@),
        }),
{
    let header = titles5("Script", "Work ID", "Status", "Attempt", "Time");
    let mut table = TablePanel::new(
        " Recent Executions (last 10) ",
        Color::Magenta,
        header,
        Color::Cyan,
    );
    let ghost blank = table@;
    let mut i: usize = 0;
    proof {
        assert(table@.rows =~= run_rows(events@.take(0)));
    }
    while i < events.len()
        invariant
            i <= events.len(),
            table@ == (TableView { rows: run_rows(events@.take(i as int)), ..blank }),
        decreases events.len() - i,
    {
        let cells = draw_run_cells(&events[i]);
        table.row(cells, style_of_row(false));
        proof {
            assert(table@.rows =~= run_rows(events@.take(i + 1)));
        }
        i = i + 1;
    }
    proof {
        assert(events@.take(events@.len() as int) =~= events@);
    }
    table
}

/// Runs, successes and failures are added script by script.
pub proof fn law_runs_add_up(a: Seq<ScriptStats>, b: Seq<ScriptStats>, s: ScriptStats)
    ensures
        runs(a + b) == runs(a) + runs(b),
        successes(a + b) == successes(a) + successes(b),
        failures(a + b) == failures(a) + failures(b),
        runs(seq![s]) == s.total_runs,
        successes(seq![s]) == s.success_count,
        failures(seq![s]) == s.fail_count,
    decreases b.len(),
{
    assert(seq![s].drop_last() =~= seq![]);
    assert(runs(seq![s].drop_last()) == 0);
    assert(successes(seq![s].drop_last()) == 0);
    assert(failures(seq![s].drop_last()) == 0);
    if b.len() == 0 {
        assert(a + b =~= a);
    } else {
        law_runs_add_up(a, b.drop_last(), s);
        assert((a + b).drop_last() =~= a + b.drop_last());
    }
}

/// The totals are shown: the runs, the successes, the failures and the rate.
pub proof fn law_totals_are_shown(stats: Seq<ScriptStats>, rate: Rate)
    ensures
        totals_line(stats, rate)[0].text == "Total Runs: "@ + dec(runs(stats)),
        totals_line(stats, rate)[2].text == "Success: "@ + dec(successes(stats)),
        totals_line(stats, rate)[4].text == "Failed: "@ + dec(failures(stats)),
        holds(totals_line(stats, rate)[6].text, rate.text@),
        totals_line(stats, rate)[6].style.fg == Some(Color::Green) <==> rate.band is Good,
        totals_line(stats, rate)[6].style.fg == Some(Color::Yellow) <==> rate.band is Fair,
        totals_line(stats, rate)[6].style.fg == Some(Color::Red) <==> rate.band is Poor,
{
    broadcast use group_holds;

}

/// Every script has its row with its six fields, and the selected one is marked.
pub proof fn law_every_script_has_its_row(stats: Seq<ScriptStats>, selected: int, i: int)
    requires
        0 <= i < stats.len(),
    ensures
        script_rows(stats, selected).len() == stats.len(),
        script_rows(stats, selected)[i].cells.len() == 6,
        script_rows(stats, selected)[i].cells[0].text == stats[i].state@,
        script_rows(stats, selected)[i].cells[1].text == dec(stats[i].total_runs as nat),
        script_rows(stats, selected)[i].cells[2].text == dec(stats[i].success_count as nat),
        script_rows(stats, selected)[i].cells[3].text == dec(stats[i].fail_count as nat),
        holds(script_rows(stats, selected)[i].cells[4].text, stats[i].rate.text@),
        stats[i].avg_duration matches Some(d) ==> script_rows(stats, selected)[i].cells[5].text
            == d@,
        script_rows(stats, selected)[i].style.bold <==> i == selected,
{
    broadcast use group_holds;

}

/// Every run has its row with its five fields; one that succeeded is green, any
/// other red.
pub proof fn law_every_run_has_its_row(events: Seq<ScriptRun>, i: int)
    requires
        0 <= i < events.len(),
    ensures
        run_rows(events).len() == events.len(),
        run_rows(events)[i].cells.len() == 5,
        run_rows(events)[i].cells[0].text == events[i].state@,
        run_rows(events)[i].cells[1].text == events[i].work_id@,
        run_rows(events)[i].cells[2].text == events[i].status@,
        run_rows(events)[i].cells[2].style.fg == Some(Color::Green) <==> events[i].status@
            == "success"@,
        run_rows(events)[i].cells[2].style.fg == Some(Color::Red) <==> events[i].status@
            != "success"@,
        run_rows(events)[i].cells[3].text == dec_int(events[i].attempt as int),
        run_rows(events)[i].cells[4].text == short_time(events[i].created_at@),
{
}

} // verus!
