//! The contents of bordered panels: lines of styled text, and tables.

use vstd::prelude::*;

use crate::style::Color;
use crate::style::Page;
use crate::style::SpanView;
use crate::style::Style;
use crate::text::texts;

verus! {

/// The style of the row that is selected.
pub open spec fn selected_style() -> Style {
    Style { fg: None, bg: Some(Color::DarkGray), bold: true, underlined: false }
}

/// The style of a row: marked where it is selected.
pub open spec fn row_style(selected: bool) -> Style {
    if selected {
        selected_style()
    } else {
        crate::style::plain_style()
    }
}

/// The style of a row: marked where it is selected.
pub fn style_of_row(selected: bool) -> (r: Style)
    ensures
        r == row_style(selected),
{
    if selected {
        Style { fg: None, bg: Some(Color::DarkGray), bold: true, underlined: false }
    } else {
        Style { fg: None, bg: None, bold: false, underlined: false }
    }
}

/// A panel of lines.
#[derive(Debug)]
pub struct LinesPanel {
    pub title: String,
    pub border: Color,
    pub lines: Vec<Page>,
}

/// A panel of lines.
pub ghost struct LinesView {
    pub title: Seq<char>,
    pub border: Color,
    pub lines: Seq<Seq<SpanView>>,
}

/// The contents of a list of lines.
pub open spec fn line_views(v: Seq<Page>) -> Seq<Seq<SpanView>> {
    Seq::new(v.len(), |i: int| v[i]@)
}

impl View for LinesPanel {
    type V = LinesView;

    open spec fn view(&self) -> LinesView {
        LinesView { title: self.title@, border: self.border, lines: line_views(self.lines@) }
    }
}

impl LinesPanel {
    /// A panel without lines.
    pub fn new(title: &str, border: Color) -> (r: LinesPanel)
        ensures
            r@ == (LinesView { title: title@, border, lines: seq![] }),
    {
        let r = LinesPanel { title: title.to_owned(), border, lines: Vec::new() };
        proof {
            assert(line_views(r.lines@) =~= seq![]);
        }
        r
    }

    /// Adds a line.
    pub fn line(&mut self, line: Page)
        ensures
            final(self)@ == (LinesView { lines: old(self)@.lines.push(line@), ..old(self)@ }),
    {
        self.lines.push(line);
        proof {
            assert(line_views(self.lines@) =~= line_views(old(self).lines@).push(line@));
        }
    }
}

/// A row of a table: its cells, and how the row is drawn.
#[derive(Debug)]
pub struct TableRow {
    pub cells: Page,
    pub style: Style,
}

/// A row of a table.
pub ghost struct RowView {
    pub cells: Seq<SpanView>,
    pub style: Style,
}

impl View for TableRow {
    type V = RowView;

    open spec fn view(&self) -> RowView {
        RowView { cells: self.cells@, style: self.style }
    }
}

/// A table in a panel.
#[derive(Debug)]
pub struct TablePanel {
    pub title: String,
    pub border: Color,
    pub header: Vec<String>,
    pub header_color: Color,
    pub rows: Vec<TableRow>,
}

/// A table in a panel.
pub ghost struct TableView {
    pub title: Seq<char>,
    pub border: Color,
    pub header: Seq<Seq<char>>,
    pub header_color: Color,
    pub rows: Seq<RowView>,
}

/// The contents of a list of rows.
pub open spec fn row_views(v: Seq<TableRow>) -> Seq<RowView> {
    Seq::new(v.len(), |i: int| v[i]@)
}

impl View for TablePanel {
    type V = TableView;

    open spec fn view(&self) -> TableView {
        TableView {
            title: self.title@,
            border: self.border,
            header: texts(self.header@),
            header_color: self.header_color,
            rows: row_views(self.rows@),
        }
    }
}

impl TablePanel {
    /// A table without rows.
    pub fn new(title: &str, border: Color, header: Vec<String>, header_color: Color) -> (r:
        TablePanel)
        ensures
            r@ == (TableView {
                title: title@,
                border,
                header: texts(header@),
                header_color,
                rows: seq![],
            }),
    {
        let r = TablePanel {
            title: title.to_owned(),
            border,
            header,
            header_color,
            rows: Vec::new(),
        };
        proof {
            assert(row_views(r.rows@) =~= seq![]);
        }
        r
    }

    /// Adds a row.
    pub fn row(&mut self, cells: Page, style: Style)
        ensures
            final(self)@ == (TableView {
                rows: old(self)@.rows.push(RowView { cells: cells@, style }),
                ..old(self)@
            }),
    {
        self.rows.push(TableRow { cells, style });
        proof {
            assert(row_views(self.rows@) =~= row_views(old(self).rows@).push(
                RowView { cells: cells@, style },
            ));
        }
    }
}

/// Four column titles.
pub fn titles4(a: &str, b: &str, c: &str, d: &str) -> (r: Vec<String>)
    ensures
        texts(r@) == seq![a@, b@, c@, d@],
{
    let mut v: Vec<String> = Vec::new();
    v.push(a.to_owned());
    v.push(b.to_owned());
    v.push(c.to_owned());
    v.push(d.to_owned());
    proof {
        assert(texts(v@) =~= seq![a@, b@, c@, d@]);
    }
    v
}

/// Five column titles.
pub fn titles5(a: &str, b: &str, c: &str, d: &str, e: &str) -> (r: Vec<String>)
    ensures
        texts(r@) == seq![a@, b@, c@, d@, e@],
{
    let mut v = titles4(a, b, c, d);
    let ghost before = v@;
    v.push(e.to_owned());
    proof {
        assert(texts(v@) =~= texts(before).push(e@));
    }
    v
}

/// Six column titles.
pub fn titles6(a: &str, b: &str, c: &str, d: &str, e: &str, f: &str) -> (r: Vec<String>)
    ensures
        texts(r@) == seq![a@, b@, c@, d@, e@, f@],
{
    let mut v = titles5(a, b, c, d, e);
    let ghost before = v@;
    v.push(f.to_owned());
    proof {
        assert(texts(v@) =~= texts(before).push(f@));
    }
    v
}

/// A panel shows what it holds: its title, its border and every line.
pub proof fn law_panels_show_their_lines(p: LinesPanel, i: int, j: int)
    requires
        0 <= i < p.lines.len(),
        0 <= j < p.lines@[i].spans.len(),
    ensures
        p@.title == p.title@,
        p@.border == p.border,
        p@.lines.len() == p.lines.len(),
        p@.lines[i].len() == p.lines@[i].spans.len(),
        p@.lines[i][j].text == p.lines@[i].spans@[j].text@,
        p@.lines[i][j].style == p.lines@[i].spans@[j].style,
{
}

/// A table shows what it holds: its title, its header and every cell of every row.
pub proof fn law_tables_show_their_rows(t: TablePanel, i: int, j: int)
    requires
        0 <= i < t.rows.len(),
        0 <= j < t.rows@[i].cells.spans.len(),
    ensures
        t@.title == t.title@,
        t@.border == t.border,
        t@.header == texts(t.header@),
        t@.header_color == t.header_color,
        t@.rows.len() == t.rows.len(),
        t@.rows[i].style == t.rows@[i].style,
        t@.rows[i].cells.len() == t.rows@[i].cells.spans.len(),
        t@.rows[i].cells[j].text == t.rows@[i].cells.spans@[j].text@,
{
}

/// The row that is selected is told from the others.
pub proof fn law_selected_rows_stand_out(selected: bool)
    ensures
        row_style(selected).bold <==> selected,
        row_style(selected).bg == Some(Color::DarkGray) <==> selected,
{
}

} // verus!
