//! Coloured text, as plain values that a terminal can draw.

use vstd::prelude::*;

verus! {

/// The colours in use.
#[derive(Clone, Copy, Debug, PartialEq, Eq, Structural)]
pub enum Color {
    White,
    Gray,
    DarkGray,
    Blue,
    Green,
    Cyan,
    Yellow,
    Red,
    Magenta,
}

/// How a piece of text is drawn.
#[derive(Clone, Copy, Debug, PartialEq, Eq, Structural)]
pub struct Style {
    pub fg: Option<Color>,
    pub bg: Option<Color>,
    pub bold: bool,
    pub underlined: bool,
}

/// Text drawn as it is.
pub open spec fn plain_style() -> Style {
    Style { fg: None, bg: None, bold: false, underlined: false }
}

/// Text in one colour.
pub open spec fn fg_style(c: Color) -> Style {
    Style { fg: Some(c), bg: None, bold: false, underlined: false }
}

/// Bold text in one colour.
pub open spec fn bold_fg_style(c: Color) -> Style {
    Style { fg: Some(c), bg: None, bold: true, underlined: false }
}

/// Bold text.
pub open spec fn bold_style() -> Style {
    Style { fg: None, bg: None, bold: true, underlined: false }
}

/// Bold and underlined text.
pub open spec fn heading_style() -> Style {
    Style { fg: None, bg: None, bold: true, underlined: true }
}

/// A piece of text and how it is drawn.
#[derive(Clone, Debug)]
pub struct Span {
    pub text: String,
    pub style: Style,
}

/// A piece of text and how it is drawn.
pub ghost struct SpanView {
    pub text: Seq<char>,
    pub style: Style,
}

impl View for Span {
    type V = SpanView;

    open spec fn view(&self) -> SpanView {
        SpanView { text: self.text@, style: self.style }
    }
}

/// The contents of a list of spans.
pub open spec fn spans(v: Seq<Span>) -> Seq<SpanView> {
    Seq::new(v.len(), |i: int| v[i]@)
}

/// A span of plain text.
pub open spec fn plain(t: Seq<char>) -> SpanView {
    SpanView { text: t, style: plain_style() }
}

/// A span in one colour.
pub open spec fn colored(t: Seq<char>, c: Color) -> SpanView {
    SpanView { text: t, style: fg_style(c) }
}

/// A bold span.
pub open spec fn bold(t: Seq<char>) -> SpanView {
    SpanView { text: t, style: bold_style() }
}

/// A bold span in one colour.
pub open spec fn bold_colored(t: Seq<char>, c: Color) -> SpanView {
    SpanView { text: t, style: bold_fg_style(c) }
}

/// A bold and underlined span.
pub open spec fn heading(t: Seq<char>) -> SpanView {
    SpanView { text: t, style: heading_style() }
}

/// Styled text under construction: spans in the order in which they are drawn.
#[derive(Clone, Debug)]
pub struct Page {
    pub spans: Vec<Span>,
}

impl View for Page {
    type V = Seq<SpanView>;

    open spec fn view(&self) -> Seq<SpanView> {
        spans(self.spans@)
    }
}

impl Page {
    /// Nothing drawn yet.
    pub fn new() -> (r: Page)
        ensures
            r@ == Seq::<SpanView>::empty(),
    {
        let r = Page { spans: Vec::new() };
        proof {
            assert(r@ =~= Seq::<SpanView>::empty());
        }
        r
    }

    fn put(&mut self, text: &str, style: Style)
        ensures
            final(self)@ == old(self)@.push(SpanView { text: text@, style }),
    {
        self.spans.push(Span { text: text.to_owned(), style });
        proof {
            assert(self@ =~= old(self)@.push(SpanView { text: text@, style }));
        }
    }

    /// Adds plain text.
    pub fn plain(&mut self, text: &str)
        ensures
            final(self)@ == old(self)@.push(plain(text@)),
    {
        self.put(text, Style { fg: None, bg: None, bold: false, underlined: false });
    }

    /// Adds text in one colour.
    pub fn colored(&mut self, text: &str, c: Color)
        ensures
            final(self)@ == old(self)@.push(colored(text@, c)),
    {
        self.put(text, Style { fg: Some(c), bg: None, bold: false, underlined: false });
    }

    /// Adds bold text.
    pub fn bold(&mut self, text: &str)
        ensures
            final(self)@ == old(self)@.push(bold(text@)),
    {
        self.put(text, Style { fg: None, bg: None, bold: true, underlined: false });
    }

    /// Adds bold text in one colour.
    pub fn bold_colored(&mut self, text: &str, c: Color)
        ensures
            final(self)@ == old(self)@.push(bold_colored(text@, c)),
    {
        self.put(text, Style { fg: Some(c), bg: None, bold: true, underlined: false });
    }

    /// Adds bold and underlined text.
    pub fn heading(&mut self, text: &str)
        ensures
            final(self)@ == old(self)@.push(heading(text@)),
    {
        self.put(text, Style { fg: None, bg: None, bold: true, underlined: true });
    }

    /// Adds text that marks what is active: yellow, bold and underlined.
    pub fn active(&mut self, text: &str)
        ensures
            final(self)@ == old(self)@.push(
                SpanView {
                    text: text@,
                    style: Style {
                        fg: Some(Color::Yellow),
                        bg: None,
                        bold: true,
                        underlined: true,
                    },
                },
            ),
    {
        self.put(
            text,
            Style { fg: Some(Color::Yellow), bg: None, bold: true, underlined: true },
        );
    }

    /// Adds all of another page.
    pub fn append_page(&mut self, other: Page)
        ensures
            final(self)@ == old(self)@ + other@,
    {
        let mut rest = other.spans;
        self.spans.append(&mut rest);
        proof {
            assert(self@ =~= old(self)@ + other@);
        }
    }
}

/// A span keeps its text whatever its style, and its color where it has one.
pub proof fn law_spans_keep_their_text(t: Seq<char>, c: Color)
    ensures
        plain(t).text == t,
        colored(t, c).text == t,
        bold(t).text == t,
        bold_colored(t, c).text == t,
        heading(t).text == t,
        plain(t).style.fg is None,
        colored(t, c).style.fg == Some(c),
        bold_colored(t, c).style.fg == Some(c),
        bold(t).style.bold,
        bold_colored(t, c).style.bold,
        heading(t).style.bold && heading(t).style.underlined,
        !plain(t).style.bold && !colored(t, c).style.bold,
{
}

/// A list of spans keeps their number and their order.
pub proof fn law_lists_of_spans_keep_their_order(v: Seq<Span>, i: int)
    requires
        0 <= i < v.len(),
    ensures
        spans(v).len() == v.len(),
        spans(v)[i].text == v[i].text@,
        spans(v)[i].style == v[i].style,
{
}

} // verus!
