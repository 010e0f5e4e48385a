//! The tab that shows the progress of specs.

use vstd::prelude::*;

use crate::dashboard::panel::row_style;
use crate::dashboard::panel::style_of_row;
use crate::dashboard::panel::titles4;
use crate::dashboard::panel::LinesPanel;
use crate::dashboard::panel::LinesView;
use crate::dashboard::panel::RowView;
use crate::dashboard::panel::TablePanel;
use crate::dashboard::panel::TableView;
use crate::dashboard::palette::spec_status_color;
use crate::dashboard::palette::spec_status_color_of;
use crate::pieces::group_holds;
use crate::pieces::holds;
use crate::specs::Spec;
use crate::specs::SpecState;
use crate::style::bold;
use crate::style::bold_colored;
use crate::style::colored;
use crate::style::plain;
use crate::style::Color;
use crate::style::Page;
use crate::style::SpanView;
use crate::text::cat2;
use crate::text::cat3;
use crate::text::dec;
use crate::text::dec_usize;
use crate::text::repeat;
use crate::text::repeat_char;

verus! {

/// How many specs have the status `s`.
pub open spec fn specs_in(specs: Seq<Spec>, s: SpecState) -> nat
    decreases specs.len(),
{
    if specs.len() == 0 {
        0
    } else {
        specs_in(specs.drop_last(), s) + (if specs.last().status == s {
            1nat
        } else {
            0nat
        })
    }
}

/// How many specs have the status `s`.
pub fn count_status(specs: &Vec<Spec>, s: SpecState) -> (r: usize)
    ensures
        r == specs_in(specs@, s),
        r <= specs.len(),
{
    let mut n: usize = 0;
    let mut i: usize = 0;
    while i < specs.len()
        invariant
            i <= specs.len(),
            n <= i,
            n == specs_in(specs@.take(i as int), s),
        decreases specs.len() - i,
    {
        proof {
            assert(specs@.take(i + 1).drop_last() =~= specs@.take(i as int));
        }
        if specs[i].status == s {
            n = n + 1;
        }
        i = i + 1;
    }
    proof {
        assert(specs@.take(specs@.len() as int) =~= specs@);
    }
    n
}

/// Aggregate counts of spec statuses.
#[derive(Debug)]
pub struct SpecStatusCounts {
    pub draft: usize,
    pub active: usize,
    pub paused: usize,
    pub completing: usize,
    pub completed: usize,
}

/// Counts the specs by status; archived specs are not counted.
pub fn count_spec_statuses(specs: &Vec<Spec>) -> (r: SpecStatusCounts)
    ensures
        r.draft == specs_in(specs@, SpecState::Draft),
        r.active == specs_in(specs@, SpecState::Active),
        r.paused == specs_in(specs@, SpecState::Paused),
        r.completing == specs_in(specs@, SpecState::Completing),
        r.completed == specs_in(specs@, SpecState::Completed),
{
    SpecStatusCounts {
        draft: count_status(specs, SpecState::Draft),
        active: count_status(specs, SpecState::Active),
        paused: count_status(specs, SpecState::Paused),
        completing: count_status(specs, SpecState::Completing),
        completed: count_status(specs, SpecState::Completed),
    }
}

/// Every spec is counted under one status.
pub proof fn law_every_spec_has_one_status(specs: Seq<Spec>)
    ensures
        specs_in(specs, SpecState::Draft) + specs_in(specs, SpecState::Active) + specs_in(
            specs,
            SpecState::Paused,
        ) + specs_in(specs, SpecState::Completing) + specs_in(specs, SpecState::Completed)
            + specs_in(specs, SpecState::Archived) == specs.len(),
    decreases specs.len(),
{
    if specs.len() > 0 {
        law_every_spec_has_one_status(specs.drop_last());
    }
}

/// How many cells of a bar of `width` cells are filled at `done` of `total`.
pub open spec fn filled_part(done: nat, total: nat, width: nat) -> nat {
    if total > 0 {
        done * width / total
    } else {
        0
    }
}

fn filled_cells(done: usize, total: usize, width: usize) -> (r: usize)
    requires
        done <= total,
        done * width <= usize::MAX,
    ensures
        r == filled_part(done as nat, total as nat, width as nat),
        r <= width,
{
    if total > 0 {
        proof {
            assert(done * width <= total * width) by (nonlinear_arith)
                requires
                    done <= total,
            ;
            assert(total * width / (total as int) == width) by (nonlinear_arith)
                requires
                    total > 0,
            ;
            assert(done * width / (total as int) <= total * width / (total as int))
                by (nonlinear_arith)
                requires
                    total > 0,
                    done * width <= total * width,
            ;
        }
        done * width / total
    } else {
        0
    }
}

/// The bar of a given width: what is done, and the rest.
pub open spec fn bar_spans(done: nat, total: nat, width: nat) -> Seq<SpanView> {
    let filled = filled_part(done, total, width);
    seq![
        plain("  ["@),
        colored(repeat('#', filled), Color::Green),
        colored(repeat('-', (width - filled) as nat), Color::DarkGray),
        plain("]"@),
    ]
}

fn draw_bar(done: usize, total: usize, width: usize) -> (r: Page)
    requires
        done <= total,
        done * width <= usize::MAX,
    ensures
        r@ == bar_spans(done as nat, total as nat, width as nat),
{
    let filled: usize = filled_cells(done, total, width);
    let mut page = Page::new();
    page.plain("  [");
    let full = repeat_char('#', filled);
    page.colored(full.as_str(), Color::Green);
    let rest = repeat_char('-', width - filled);
    page.colored(rest.as_str(), Color::DarkGray);
    page.plain("]");
    page
}

/// The spec progress of a workspace in one line; `pct` is the share of
/// completed specs in percent, as it is shown.
pub open spec fn workspace_progress(specs: Seq<Spec>, pct: Seq<char>) -> Seq<SpanView> {
    seq![
        bold(dec(specs.len()) + " specs"@),
        plain("  "@),
        colored("active:"@ + dec(specs_in(specs, SpecState::Active)), Color::Blue),
        plain(" "@),
        colored("done:"@ + dec(specs_in(specs, SpecState::Completed)), Color::Green),
    ] + bar_spans(specs_in(specs, SpecState::Completed), specs.len(), 15) + seq![
        bold_colored(" "@ + pct + "%"@, Color::Magenta),
    ]
}

/// Spec progress for a single workspace.
pub fn render_workspace_spec_progress(specs: &Vec<Spec>, pct: &str) -> (r: LinesPanel)
    requires
        specs.len() * 15 <= usize::MAX,
    ensures
        r@ == (LinesView {
            title: " Spec Progress "@,
            border: Color::Magenta,
            lines: seq![workspace_progress(specs@, pct@)],
        }),
{
    let completed: usize = count_status(specs, SpecState::Completed);
    let mut line = Page::new();
    let total = dec_usize(specs.len());
    let total_text = cat2(total.as_str(), " specs");
    line.bold(total_text.as_str());
    line.plain("  ");
    let active = dec_usize(count_status(specs, SpecState::Active));
    let active_text = cat2("active:", active.as_str());
    line.colored(active_text.as_str(), Color::Blue);
    line.plain(" ");
    let done = dec_usize(completed);
    let done_text = cat2("done:", done.as_str());
    line.colored(done_text.as_str(), Color::Green);
    line.append_page(draw_bar(completed, specs.len(), 15));
    let mut share = Page::new();
    let share_text = cat3(" ", pct, "%");
    share.bold_colored(share_text.as_str(), Color::Magenta);
    line.append_page(share);
    proof {
        assert(line@ =~= workspace_progress(specs@, pct@));
    }
    let mut panel = LinesPanel::new(" Spec Progress ", Color::Magenta);
    panel.line(line);
    panel
}

/// The number of specs by status; `pct` is the share of completed specs in
/// percent, as it is shown.
pub open spec fn spec_summary(specs: Seq<Spec>, pct: Seq<char>) -> Seq<SpanView> {
    seq![
        bold("Total: "@ + dec(specs.len())),
        plain("  "@),
        colored("draft: "@ + dec(specs_in(specs, SpecState::Draft)), Color::Gray),
        plain("  "@),
        colored("active: "@ + dec(specs_in(specs, SpecState::Active)), Color::Blue),
        plain("  "@),
        colored("paused: "@ + dec(specs_in(specs, SpecState::Paused)), Color::Yellow),
        plain("  "@),
        colored("completing: "@ + dec(specs_in(specs, SpecState::Completing)), Color::Cyan),
        plain("  "@),
        colored("completed: "@ + dec(specs_in(specs, SpecState::Completed)), Color::Green),
        plain("  "@),
        bold_colored("Progress: "@ + pct + "%"@, Color::Magenta),
    ]
}

/// The cells of one spec.
pub open spec fn spec_cells(s: Spec) -> Seq<SpanView> {
    seq![
        plain(s.name@),
        plain(s.workspace_id@),
        colored(s.status.name(), spec_status_color_of(s.status.name())),
        plain(s.updated_at@),
    ]
}

/// The rows of the specs.
pub open spec fn spec_rows(specs: Seq<Spec>, selected: int) -> Seq<RowView> {
    Seq::new(
        specs.len(),
        |i: int| RowView { cells: spec_cells(specs[i]), style: row_style(i == selected) },
    )
}

fn put_count(line: &mut Page, label: &str, n: usize, c: Color)
    ensures
        final(line)@ == old(line)@.push(colored(label@ + dec(n as nat), c)),
{
    let digits = dec_usize(n);
    let text = cat2(label, digits.as_str());
    line.colored(text.as_str(), c);
}

fn draw_spec_summary(specs: &Vec<Spec>, counts: &SpecStatusCounts, pct: &str) -> (r: Page)
    requires
        counts.draft == specs_in(specs@, SpecState::Draft),
        counts.active == specs_in(specs@, SpecState::Active),
        counts.paused == specs_in(specs@, SpecState::Paused),
        counts.completing == specs_in(specs@, SpecState::Completing),
        counts.completed == specs_in(specs@, SpecState::Completed),
    ensures
        r@ == spec_summary(specs@, pct@),
{
    let mut line = Page::new();
    let total = dec_usize(specs.len());
    let total_text = cat2("Total: ", total.as_str());
    line.bold(total_text.as_str());
    line.plain("  ");
    put_count(&mut line, "draft: ", counts.draft, Color::Gray);
    line.plain("  ");
    put_count(&mut line, "active: ", counts.active, Color::Blue);
    line.plain("  ");
    put_count(&mut line, "paused: ", counts.paused, Color::Yellow);
    line.plain("  ");
    put_count(&mut line, "completing: ", counts.completing, Color::Cyan);
    line.plain("  ");
    put_count(&mut line, "completed: ", counts.completed, Color::Green);
    line.plain("  ");
    let share = cat3("Progress: ", pct, "%");
    line.bold_colored(share.as_str(), Color::Magenta);
    line
}

/// The spec progress tab: the number of specs by status with a progress bar,
/// and a table of all specs with the selected one marked. `pct` is the share of
/// completed specs in percent, as it is shown.
pub fn render_spec_tab(specs: &Vec<Spec>, pct: &str, selected: usize) -> (r: (
    LinesPanel,
    TablePanel,
))
    requires
        specs.len() * 30 <= usize::MAX,
    ensures
        r.0@ == (LinesView {
            title: " Spec Progress "@,
            border: Color::Magenta,
            lines: seq![
                spec_summary(specs@, pct@),
                seq![],
                bar_spans(specs_in(specs@, SpecState::Completed), specs.len() as nat, 30),
            ],
        }),
        r.1@ == (TableView {
            title: " Specs "@,
            border: Color::Magenta,
            header: seq!["Name"@, "Workspace"@, "Status"@, "Updated"@],
            header_color: Color::Yellow,
            rows: spec_rows(specs@, selected as int),
        }),
{
    let counts = count_spec_statuses(specs);
    proof {
        law_every_spec_has_one_status(specs@);
    }
    let mut panel = LinesPanel::new(" Spec Progress ", Color::Magenta);
    panel.line(draw_spec_summary(specs, &counts, pct));
    let gap = Page::new();
    proof {
        assert(gap@ =~= seq![]);
    }
    panel.line(gap);
    panel.line(draw_bar(counts.completed, specs.len(), 30));
    proof {
        assert(panel@.lines =~= seq![
            spec_summary(specs@, pct@),
            seq![],
            bar_spans(specs_in(specs@, SpecState::Completed), specs.len() as nat, 30),
        ]);
    }

    let header = titles4("Name", "Workspace", "Status", "Updated");
    let mut table = TablePanel::new(" Specs ", Color::Magenta, header, Color::Yellow);
    let ghost blank = table@;
    let mut i: usize = 0;
    proof {
        assert(table@.rows =~= spec_rows(specs@.take(0), selected as int));
    }
    while i < specs.len()
        invariant
            i <= specs.len(),
            table@ == (TableView {
                rows: spec_rows(specs@.take(i as int), selected as int),
                ..blank
            }),
        decreases specs.len() - i,
    {
        let s = &specs[i];
        let mut cells = Page::new();
        cells.plain(s.name.as_str());
        cells.plain(s.workspace_id.as_str());
        cells.colored(s.status.as_str(), spec_status_color(s.status.as_str()));
        cells.plain(s.updated_at.as_str());
        proof {
            assert(cells@ =~= spec_cells(specs@[i as int]));
        }
        table.row(cells, style_of_row(i == selected));
        proof {
            assert(table@.rows =~= spec_rows(specs@.take(i + 1), selected as int));
        }
        i = i + 1;
    }
    proof {
        assert(specs@.take(specs@.len() as int) =~= specs@);
    }
    (panel, table)
}

/// Specs are counted by their state, one by one.
pub proof fn law_specs_are_counted_by_state(a: Seq<Spec>, b: Seq<Spec>, x: Spec, s: SpecState)
    ensures
        specs_in(a + b, s) == specs_in(a, s) + specs_in(b, s),
        specs_in(seq![x], s) == (if x.status == s {
            1nat
        } else {
            0nat
        }),
    decreases b.len(),
{
    assert(seq![x].drop_last() =~= seq![]);
    assert(specs_in(seq![x].drop_last(), s) == 0);
    if b.len() == 0 {
        assert(a + b =~= a);
    } else {
        law_specs_are_counted_by_state(a, b.drop_last(), x, s);
        assert((a + b).drop_last() =~= a + b.drop_last());
    }
}

/// The bar is as long as it is wide, empty where nothing is done and full where
/// all is done, and its filled part is the share that is done, rounded down.
pub proof fn law_bars_show_the_share(done: nat, total: nat, width: nat)
    requires
        done <= total,
        total > 0,
    ensures
        bar_spans(done, total, width)[1].text.len() + bar_spans(done, total, width)[2].text.len()
            == width,
        bar_spans(done, total, width)[1].text.len() * total <= done * width,
        done * width < (bar_spans(done, total, width)[1].text.len() + 1) * total,
        done == total ==> bar_spans(done, total, width)[1].text.len() == width,
        done == 0 ==> bar_spans(done, total, width)[1].text.len() == 0,
        forall|i: int|
            0 <= i < bar_spans(done, total, width)[1].text.len() ==> bar_spans(
                done,
                total,
                width,
            )[1].text[i] == '#',
        forall|i: int|
            0 <= i < bar_spans(done, total, width)[2].text.len() ==> bar_spans(
                done,
                total,
                width,
            )[2].text[i] == '-',
{
    let n = (done * width) as int;
    let t = total as int;
    let q = n / t;
    vstd::arithmetic::div_mod::lemma_fundamental_div_mod(n, t);
    vstd::arithmetic::div_mod::lemma_mod_bound(n, t);
    assert(t * q <= n < t * (q + 1)) by (nonlinear_arith)
        requires
            n == t * q + n % t,
            0 <= n % t < t,
    ;
    assert(q * t == t * q && (q + 1) * t == t * (q + 1)) by (nonlinear_arith);
    assert(n <= t * width) by (nonlinear_arith)
        requires
            n == done * width,
            done <= t,
    ;
    assert(q <= width) by (nonlinear_arith)
        requires
            t * q <= n,
            n <= t * width,
            t > 0,
    ;
    assert(0 <= q) by (nonlinear_arith)
        requires
            n < t * (q + 1),
            0 <= n,
            t > 0,
    ;
    if done == total {
        assert(q >= width) by (nonlinear_arith)
            requires
                n < t * (q + 1),
                n == done * width,
                done == t,
                t > 0,
        ;
    }
    if done == 0 {
        assert(n == 0) by (nonlinear_arith)
            requires
                n == done * width,
                done == 0,
        ;
        assert(q <= 0) by (nonlinear_arith)
            requires
                t * q <= 0,
                t > 0,
        ;
    }
    assert(filled_part(done, total, width) == q);
}

/// The summaries say how many specs stand in each state.
pub proof fn law_spec_summaries_count_every_state(specs: Seq<Spec>, pct: Seq<char>)
    ensures
        spec_summary(specs, pct)[0].text == "Total: "@ + dec(specs.len()),
        spec_summary(specs, pct)[2].text == "draft: "@ + dec(specs_in(specs, SpecState::Draft)),
        spec_summary(specs, pct)[4].text == "active: "@ + dec(specs_in(specs, SpecState::Active)),
        spec_summary(specs, pct)[6].text == "paused: "@ + dec(specs_in(specs, SpecState::Paused)),
        spec_summary(specs, pct)[8].text == "completing: "@ + dec(
            specs_in(specs, SpecState::Completing),
        ),
        spec_summary(specs, pct)[10].text == "completed: "@ + dec(
            specs_in(specs, SpecState::Completed),
        ),
        holds(spec_summary(specs, pct)[12].text, pct),
        workspace_progress(specs, pct)[0].text == dec(specs.len()) + " specs"@,
        workspace_progress(specs, pct)[2].text == "active:"@ + dec(
            specs_in(specs, SpecState::Active),
        ),
        workspace_progress(specs, pct)[4].text == "done:"@ + dec(
            specs_in(specs, SpecState::Completed),
        ),
        workspace_progress(specs, pct).subrange(5, 9) == bar_spans(
            specs_in(specs, SpecState::Completed),
            specs.len(),
            15,
        ),
        holds(workspace_progress(specs, pct).last().text, pct),
{
    broadcast use group_holds;

    assert(workspace_progress(specs, pct).subrange(5, 9) =~= bar_spans(
        specs_in(specs, SpecState::Completed),
        specs.len(),
        15,
    ));
}

/// Every spec has its row with its four fields, and the selected one is marked.
pub proof fn law_every_spec_has_its_row(specs: Seq<Spec>, selected: int, i: int)
    requires
        0 <= i < specs.len(),
    ensures
        spec_rows(specs, selected).len() == specs.len(),
        spec_rows(specs, selected)[i].cells.len() == 4,
        spec_rows(specs, selected)[i].cells[0].text == specs[i].name@,
        spec_rows(specs, selected)[i].cells[1].text == specs[i].workspace_id@,
        spec_rows(specs, selected)[i].cells[2].text == specs[i].status.name(),
        spec_rows(specs, selected)[i].cells[3].text == specs[i].updated_at@,
        spec_rows(specs, selected)[i].style.bold <==> i == selected,
{
}

} // verus!
