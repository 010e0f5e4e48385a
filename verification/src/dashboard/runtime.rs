//! The panels that show the use of tokens.

use vstd::prelude::*;

use crate::dashboard::panel::titles6;
use crate::dashboard::panel::RowView;
use crate::dashboard::panel::TablePanel;
use crate::dashboard::panel::TableView;
use crate::numbers::format_number;
use crate::numbers::grouped;
use crate::pieces::found_at;
use crate::pieces::group_holds;
use crate::pieces::holds;
use crate::status::render::models_ordered;
use crate::status::render::order_models;
use crate::status::ModelStats;
use crate::status::RuntimeStats;
use crate::style::bold_style;
use crate::style::plain;
use crate::style::plain_style;
use crate::style::Color;
use crate::style::Page;
use crate::style::SpanView;
use crate::style::Style;
use crate::text::cat2;
use crate::text::dec;
use crate::text::dec_u64;
use crate::text::pad_left;
use crate::text::pad_right;
use crate::text::padded_left;
use crate::text::padded_right;
use crate::text::repeat;
use crate::text::repeat_char;
use crate::text::text_or;
use crate::text::unwrap_text;

verus! {

/// The cells of one row of the table.
pub open spec fn usage_cells(
    label: Seq<char>,
    input: u64,
    output: u64,
    total: u64,
    runs: u64,
    avg: Option<String>,
) -> Seq<SpanView> {
    seq![
        plain(label),
        plain(grouped(input as nat)),
        plain(grouped(output as nat)),
        plain(grouped(total as nat)),
        plain(dec(runs as nat)),
        plain(text_or(avg, "-"@)),
    ]
}

/// The rows of the first `n` models in the order `p`.
pub open spec fn model_rows(models: Seq<ModelStats>, p: Seq<usize>, n: nat) -> Seq<RowView>
    decreases n,
{
    if n == 0 {
        seq![]
    } else {
        let m = models[p[n - 1] as int];
        model_rows(models, p, (n - 1) as nat).push(
            RowView {
                cells: usage_cells(
                    m.model@,
                    m.input_tokens,
                    m.output_tokens,
                    m.total_tokens,
                    m.executions,
                    m.avg_duration,
                ),
                style: plain_style(),
            },
        )
    }
}

/// The totals in bold, then the models in the order `p`.
pub open spec fn runtime_table(stats: RuntimeStats, p: Seq<usize>) -> Seq<RowView> {
    seq![
        RowView {
            cells: usage_cells(
                "(all)"@,
                stats.total_tokens_input,
                stats.total_tokens_output,
                stats.total_tokens,
                stats.executions,
                stats.avg_duration,
            ),
            style: bold_style(),
        },
    ] + model_rows(stats.by_model@, p, p.len())
}

/// The rows of the table; none where no statistics are at hand.
pub open spec fn panel_rows(stats: Option<RuntimeStats>, p: Seq<usize>) -> Seq<RowView> {
    match stats {
        Some(s) => runtime_table(s, p),
        None => seq![],
    }
}

/// `p` orders the models of the statistics, largest total first.
pub open spec fn panel_ordered(stats: Option<RuntimeStats>, p: Seq<usize>) -> bool {
    stats matches Some(s) ==> models_ordered(s.by_model@, p)
}

fn draw_usage_cells(
    label: &str,
    input: u64,
    output: u64,
    total: u64,
    runs: u64,
    avg: &Option<String>,
) -> (r: Page)
    ensures
        r@ == usage_cells(label@, input, output, total, runs, *avg),
{
    let mut cells = Page::new();
    cells.plain(label);
    let input_text = format_number(input);
    cells.plain(input_text.as_str());
    let output_text = format_number(output);
    cells.plain(output_text.as_str());
    let total_text = format_number(total);
    cells.plain(total_text.as_str());
    let runs_text = dec_u64(runs);
    cells.plain(runs_text.as_str());
    let avg_text = unwrap_text(avg, "-");
    cells.plain(avg_text.as_str());
    cells
}

/// The runtime statistics as a table: the totals, then the models by the number
/// of their tokens, largest first.
pub fn render_runtime_panel_tui(stats: &Option<RuntimeStats>) -> (r: TablePanel)
    ensures
        exists|p: Seq<usize>| #[trigger]
            panel_ordered(*stats, p) && r@ == (TableView {
                title: " Runtime Stats (24h) "@,
                border: Color::Magenta,
                header: seq!["Model"@, "Input"@, "Output"@, "Total"@, "Runs"@, "Avg ms"@],
                header_color: Color::Cyan,
                rows: panel_rows(*stats, p),
            }),
{
    let header = titles6("Model", "Input", "Output", "Total", "Runs", "Avg ms");
    let mut table = TablePanel::new(" Runtime Stats (24h) ", Color::Magenta, header, Color::Cyan);
    let ghost blank = table@;
    match stats {
        Some(s) => {
            let all = draw_usage_cells(
                "(all)",
                s.total_tokens_input,
                s.total_tokens_output,
                s.total_tokens,
                s.executions,
                &s.avg_duration,
            );
            table.row(all, Style { fg: None, bg: None, bold: true, underlined: false });
            let ghost first = table@.rows;
            let p = order_models(&s.by_model);
            proof {
                assert(table@.rows =~= first + model_rows(s.by_model@, p@, 0));
            }
            let mut i: usize = 0;
            while i < p.len()
                invariant
                    i <= p.len(),
                    models_ordered(s.by_model@, p@),
                    table@ == (TableView {
                        rows: first + model_rows(s.by_model@, p@, i as nat),
                        ..blank
                    }),
                decreases p.len() - i,
            {
                let m = &s.by_model[p[i]];
                let ghost before = model_rows(s.by_model@, p@, i as nat);
                let cells = draw_usage_cells(
                    m.model.as_str(),
                    m.input_tokens,
                    m.output_tokens,
                    m.total_tokens,
                    m.executions,
                    &m.avg_duration,
                );
                table.row(cells, Style { fg: None, bg: None, bold: false, underlined: false });
                proof {
                    assert(table@.rows =~= first + model_rows(s.by_model@, p@, (i + 1) as nat));
                }
                i = i + 1;
            }
            proof {
                assert(table@.rows =~= runtime_table(*s, p@));
                assert(panel_ordered(*stats, p@));
            }
        },
        None => {
            proof {
                assert(table@.rows =~= panel_rows(*stats, seq![]));
                assert(panel_ordered(*stats, seq![]));
            }
        },
    }
    table
}

// ---------------------------------------------------------------------------
// Plain text
// ---------------------------------------------------------------------------

/// The average duration in milliseconds, or a dash.
pub open spec fn duration_text(avg: Option<String>) -> Seq<char> {
    match avg {
        Some(d) => d@ + "ms"@,
        None => "-"@,
    }
}

/// The totals.
pub open spec fn totals_text(stats: RuntimeStats) -> Seq<char> {
    "=== Runtime Stats (last 24h) ===\n\n  Total tokens:  "@ + grouped(stats.total_tokens as nat)
        + " (in: "@ + grouped(stats.total_tokens_input as nat) + " / out: "@ + grouped(
        stats.total_tokens_output as nat,
    ) + ")\n  Executions:    "@ + dec(stats.executions as nat) + "\n  Avg duration:  "@
        + duration_text(stats.avg_duration) + "\n"@
}

/// One row of six columns.
pub open spec fn text_row(
    a: Seq<char>,
    b: Seq<char>,
    c: Seq<char>,
    d: Seq<char>,
    e: Seq<char>,
    f: Seq<char>,
) -> Seq<char> {
    "  "@ + pad_right(a, 20) + " "@ + pad_left(b, 10) + " "@ + pad_left(c, 10) + " "@ + pad_left(
        d,
        10,
    ) + " "@ + pad_left(e, 6) + " "@ + pad_left(f, 10) + "\n"@
}

/// The rows of the first `n` models in the order `p`.
pub open spec fn model_text(models: Seq<ModelStats>, p: Seq<usize>, n: nat) -> Seq<char>
    decreases n,
{
    if n == 0 {
        seq![]
    } else {
        let m = models[p[n - 1] as int];
        model_text(models, p, (n - 1) as nat) + text_row(
            m.model@,
            grouped(m.input_tokens as nat),
            grouped(m.output_tokens as nat),
            grouped(m.total_tokens as nat),
            dec(m.executions as nat),
            text_or(m.avg_duration, "-"@),
        )
    }
}

/// The table of the models in the order `p`, where there are any.
pub open spec fn models_text(models: Seq<ModelStats>, p: Seq<usize>) -> Seq<char> {
    if models.len() == 0 {
        seq![]
    } else {
        "\n"@ + text_row("Model"@, "Input"@, "Output"@, "Total"@, "Runs"@, "Avg ms"@) + "  "@
            + repeat('-', 70) + "\n"@ + model_text(models, p, p.len())
    }
}

/// The runtime statistics with the models in the order `p`.
pub open spec fn runtime_text(stats: RuntimeStats, p: Seq<usize>) -> Seq<char> {
    totals_text(stats) + models_text(stats.by_model@, p) + "\n"@
}

fn write_totals(stats: &RuntimeStats) -> (r: String)
    ensures
        r@ == totals_text(*stats),
{
    let mut out = "=== Runtime Stats (last 24h) ===\n\n  Total tokens:  ".to_string();
    let total = format_number(stats.total_tokens);
    out.append(total.as_str());
    out.append(" (in: ");
    let input = format_number(stats.total_tokens_input);
    out.append(input.as_str());
    out.append(" / out: ");
    let output = format_number(stats.total_tokens_output);
    out.append(output.as_str());
    out.append(")\n  Executions:    ");
    let runs = dec_u64(stats.executions);
    out.append(runs.as_str());
    out.append("\n  Avg duration:  ");
    let avg = match &stats.avg_duration {
        Some(d) => cat2(d.as_str(), "ms"),
        None => "-".to_string(),
    };
    out.append(avg.as_str());
    out.append("\n");
    out
}

fn write_row(a: &str, b: &str, c: &str, d: &str, e: &str, f: &str) -> (r: String)
    ensures
        r@ == text_row(a@, b@, c@, d@, e@, f@),
{
    let mut out = "  ".to_string();
    let a_cell = padded_right(a, 20);
    out.append(a_cell.as_str());
    out.append(" ");
    let b_cell = padded_left(b, 10);
    out.append(b_cell.as_str());
    out.append(" ");
    let c_cell = padded_left(c, 10);
    out.append(c_cell.as_str());
    out.append(" ");
    let d_cell = padded_left(d, 10);
    out.append(d_cell.as_str());
    out.append(" ");
    let e_cell = padded_left(e, 6);
    out.append(e_cell.as_str());
    out.append(" ");
    let f_cell = padded_left(f, 10);
    out.append(f_cell.as_str());
    out.append("\n");
    out
}

/// The runtime statistics as text.
///
/// Shows the token totals, the number of executions, the average duration, and
/// a table of the models by the number of their tokens, largest first.
pub fn render_runtime_panel(stats: &RuntimeStats) -> (r: String)
    ensures
        exists|p: Seq<usize>| #[trigger]
            models_ordered(stats.by_model@, p) && r@ == runtime_text(*stats, p),
{
    let mut out = write_totals(stats);
    let p = order_models(&stats.by_model);
    let mut table = String::new();
    if stats.by_model.len() > 0 {
        table = "\n".to_string();
        let head = write_row("Model", "Input", "Output", "Total", "Runs", "Avg ms");
        table.append(head.as_str());
        table.append("  ");
        let rule = repeat_char('-', 70);
        table.append(rule.as_str());
        table.append("\n");
        let mut rows = String::new();
        let mut i: usize = 0;
        while i < p.len()
            invariant
                i <= p.len(),
                models_ordered(stats.by_model@, p@),
                rows@ == model_text(stats.by_model@, p@, i as nat),
            decreases p.len() - i,
        {
            let m = &stats.by_model[p[i]];
            let input = format_number(m.input_tokens);
            let output = format_number(m.output_tokens);
            let total = format_number(m.total_tokens);
            let runs = dec_u64(m.executions);
            let avg = unwrap_text(&m.avg_duration, "-");
            let row = write_row(
                m.model.as_str(),
                input.as_str(),
                output.as_str(),
                total.as_str(),
                runs.as_str(),
                avg.as_str(),
            );
            rows.append(row.as_str());
            i = i + 1;
        }
        table.append(rows.as_str());
    }
    out.append(table.as_str());
    out.append("\n");
    proof {
        assert(models_ordered(stats.by_model@, p@) && out@ == runtime_text(*stats, p@));
    }
    out
}

/// Every model has its row, in the order that is given, after the row of all.
pub proof fn law_every_model_has_its_row(stats: RuntimeStats, p: Seq<usize>, n: nat, i: int)
    requires
        0 <= i < n <= p.len(),
    ensures
        ({
            let m = stats.by_model@[p[i] as int];
            let row = model_rows(stats.by_model@, p, n)[i];
            &&& model_rows(stats.by_model@, p, n).len() == n
            &&& row.cells.len() == 6
            &&& row.cells[0].text == m.model@
            &&& row.cells[1].text == grouped(m.input_tokens as nat)
            &&& row.cells[2].text == grouped(m.output_tokens as nat)
            &&& row.cells[3].text == grouped(m.total_tokens as nat)
            &&& row.cells[4].text == dec(m.executions as nat)
        }),
    decreases n,
{
    if n == 1 {
        assert(model_rows(stats.by_model@, p, 0).len() == 0);
    } else if i < n - 1 {
        law_every_model_has_its_row(stats, p, (n - 1) as nat, i);
    } else {
        law_every_model_has_its_row(stats, p, (n - 1) as nat, 0);
    }
}

/// The first row of the table is that of all models together.
pub proof fn law_the_first_row_is_of_all(stats: RuntimeStats, p: Seq<usize>)
    ensures
        runtime_table(stats, p).len() > 0,
        runtime_table(stats, p)[0].cells[1].text == grouped(stats.total_tokens_input as nat),
        runtime_table(stats, p)[0].cells[2].text == grouped(stats.total_tokens_output as nat),
        runtime_table(stats, p)[0].cells[3].text == grouped(stats.total_tokens as nat),
        runtime_table(stats, p)[0].cells[4].text == dec(stats.executions as nat),
        runtime_table(stats, p).skip(1) == model_rows(stats.by_model@, p, p.len()),
        panel_rows(None, p).len() == 0,
        panel_rows(Some(stats), p) == runtime_table(stats, p),
{
    assert(runtime_table(stats, p).skip(1) =~= model_rows(stats.by_model@, p, p.len()));
}

/// A row of the text shows its columns at fixed places, the numbers flush right.
pub proof fn law_text_rows_have_their_columns(
    a: Seq<char>,
    b: Seq<char>,
    c: Seq<char>,
    d: Seq<char>,
    e: Seq<char>,
    f: Seq<char>,
)
    requires
        a.len() <= 20,
        b.len() <= 10,
        c.len() <= 10,
        d.len() <= 10,
        e.len() <= 6,
        f.len() <= 10,
    ensures
        found_at(text_row(a, b, c, d, e, f), 2, a),
        found_at(text_row(a, b, c, d, e, f), 33 - b.len(), b),
        found_at(text_row(a, b, c, d, e, f), 44 - c.len(), c),
        found_at(text_row(a, b, c, d, e, f), 55 - d.len(), d),
        found_at(text_row(a, b, c, d, e, f), 62 - e.len(), e),
        found_at(text_row(a, b, c, d, e, f), 73 - f.len(), f),
{
    reveal_strlit("  ");
    reveal_strlit(" ");
    let row = text_row(a, b, c, d, e, f);
    assert(row.subrange(2, 2 + a.len() as int) =~= a);
    assert(row.subrange(33 - b.len(), 33) =~= b);
    assert(row.subrange(44 - c.len(), 44) =~= c);
    assert(row.subrange(55 - d.len(), 55) =~= d);
    assert(row.subrange(62 - e.len(), 62) =~= e);
    assert(row.subrange(73 - f.len(), 73) =~= f);
}

proof fn lemma_model_text_holds(models: Seq<ModelStats>, p: Seq<usize>, n: nat, i: int)
    requires
        0 <= i < n <= p.len(),
    ensures
        ({
            let m = models[p[i] as int];
            holds(
                model_text(models, p, n),
                text_row(
                    m.model@,
                    grouped(m.input_tokens as nat),
                    grouped(m.output_tokens as nat),
                    grouped(m.total_tokens as nat),
                    dec(m.executions as nat),
                    text_or(m.avg_duration, "-"@),
                ),
            )
        }),
    decreases n,
{
    broadcast use group_holds;

    if i < n - 1 {
        lemma_model_text_holds(models, p, (n - 1) as nat, i);
    }
}

/// The text tells the totals, and every model in a row of its own.
pub proof fn law_runtime_texts_tell_all(stats: RuntimeStats, p: Seq<usize>, i: int)
    requires
        p.len() == stats.by_model.len(),
    ensures
        holds(runtime_text(stats, p), grouped(stats.total_tokens as nat) + " (in: "@),
        holds(
            runtime_text(stats, p),
            " (in: "@ + grouped(stats.total_tokens_input as nat) + " / out: "@,
        ),
        holds(
            runtime_text(stats, p),
            " / out: "@ + grouped(stats.total_tokens_output as nat),
        ),
        holds(
            runtime_text(stats, p),
            ")\n  Executions:    "@ + dec(stats.executions as nat),
        ),
        stats.avg_duration matches Some(d) ==> holds(runtime_text(stats, p), d@ + "ms"@),
        0 <= i < p.len() ==> ({
            let m = stats.by_model@[p[i] as int];
            holds(
                runtime_text(stats, p),
                text_row(
                    m.model@,
                    grouped(m.input_tokens as nat),
                    grouped(m.output_tokens as nat),
                    grouped(m.total_tokens as nat),
                    dec(m.executions as nat),
                    text_or(m.avg_duration, "-"@),
                ),
            )
        }),
{
    broadcast use group_holds;

    assert(holds(totals_text(stats), grouped(stats.total_tokens as nat) + " (in: "@));
    assert(holds(
        totals_text(stats),
        " (in: "@ + grouped(stats.total_tokens_input as nat) + " / out: "@,
    ));
    assert(holds(totals_text(stats), " / out: "@ + grouped(stats.total_tokens_output as nat)));
    assert(holds(
        totals_text(stats),
        ")\n  Executions:    "@ + dec(stats.executions as nat),
    ));
    if 0 <= i < p.len() {
        lemma_model_text_holds(stats.by_model@, p, p.len(), i);
    }
}

} // verus!
