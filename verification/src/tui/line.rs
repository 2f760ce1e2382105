//! Styled text: what the hub draws, before it is drawn.

use vstd::prelude::*;

use crate::tui::theme::Style;

verus! {

/// A run of text in one style.
#[derive(Debug, PartialEq, Eq)]
pub struct Span {
    pub text: String,
    pub style: Style,
}

/// The characters and style of a span.
pub struct SpanV {
    pub text: Seq<char>,
    pub style: Style,
}

impl View for Span {
    type V = SpanV;

    open spec fn view(&self) -> SpanV {
        SpanV { text: self.text@, style: self.style }
    }
}

impl DeepView for Span {
    type V = SpanV;

    open spec fn deep_view(&self) -> SpanV {
        self@
    }
}

/// One line of the panel.
#[derive(Debug, PartialEq, Eq)]
pub struct Line {
    pub spans: Vec<Span>,
}

impl View for Line {
    type V = Seq<SpanV>;

    open spec fn view(&self) -> Seq<SpanV> {
        self.spans.deep_view()
    }
}

impl DeepView for Line {
    type V = Seq<SpanV>;

    open spec fn deep_view(&self) -> Seq<SpanV> {
        self@
    }
}

/// Text in a style.
pub open spec fn sp(text: Seq<char>, style: Style) -> SpanV {
    SpanV { text, style }
}

/// Text without a style of its own.
pub open spec fn bare(text: Seq<char>) -> SpanV {
    SpanV { text, style: Style::plain() }
}

/// Text in a style.
pub fn styled(text: &str, style: Style) -> (r: Span)
    ensures
        r@ == sp(text@, style),
{
    Span { text: text.to_owned(), style }
}

/// Owned text in a style.
pub fn span(text: String, style: Style) -> (r: Span)
    ensures
        r@ == sp(text@, style),
{
    Span { text, style }
}

/// Text without a style of its own.
pub fn raw(text: &str) -> (r: Span)
    ensures
        r@ == bare(text@),
{
    Span { text: text.to_owned(), style: Style::plain() }
}

/// An empty line.
pub fn blank() -> (r: Line)
    ensures
        r@ == Seq::<SpanV>::empty(),
{
    let r = Line { spans: Vec::new() };
    assert(r@ =~= Seq::<SpanV>::empty());
    r
}

/// A line of one span.
pub fn line1(a: Span) -> (r: Line)
    ensures
        r@ == seq![a@],
{
    let mut spans: Vec<Span> = Vec::new();
    spans.push(a);
    let r = Line { spans };
    assert(r@ =~= seq![a@]);
    r
}

/// A line of two spans.
pub fn line2(a: Span, b: Span) -> (r: Line)
    ensures
        r@ == seq![a@, b@],
{
    let mut spans: Vec<Span> = Vec::new();
    spans.push(a);
    spans.push(b);
    let r = Line { spans };
    assert(r@ =~= seq![a@, b@]);
    r
}

/// A line of three spans.
pub fn line3(a: Span, b: Span, c: Span) -> (r: Line)
    ensures
        r@ == seq![a@, b@, c@],
{
    let mut spans: Vec<Span> = Vec::new();
    spans.push(a);
    spans.push(b);
    spans.push(c);
    let r = Line { spans };
    assert(r@ =~= seq![a@, b@, c@]);
    r
}

/// A line of four spans.
pub fn line4(a: Span, b: Span, c: Span, d: Span) -> (r: Line)
    ensures
        r@ == seq![a@, b@, c@, d@],
{
    let mut spans: Vec<Span> = Vec::new();
    spans.push(a);
    spans.push(b);
    spans.push(c);
    spans.push(d);
    let r = Line { spans };
    assert(r@ =~= seq![a@, b@, c@, d@]);
    r
}

/// Appends a span to a line.
pub fn put_span(line: &mut Line, s: Span)
    ensures
        final(line)@ == old(line)@.push(s@),
{
    line.spans.push(s);
    assert(line@ =~= old(line)@.push(s@));
}

/// Appends a line to a block of lines.
pub fn put_line(lines: &mut Vec<Line>, l: Line)
    ensures
        final(lines).deep_view() == old(lines).deep_view().push(l@),
{
    lines.push(l);
    assert(lines.deep_view() =~= old(lines).deep_view().push(l@));
}

/// A block of no lines.
pub fn no_lines() -> (r: Vec<Line>)
    ensures
        r.deep_view() == Seq::<Seq<SpanV>>::empty(),
{
    let r: Vec<Line> = Vec::new();
    assert(r.deep_view() =~= Seq::<Seq<SpanV>>::empty());
    r
}

/// Appends a block of lines.
pub fn put_lines(lines: &mut Vec<Line>, more: Vec<Line>)
    ensures
        final(lines).deep_view() == old(lines).deep_view() + more.deep_view(),
{
    let mut m = more;
    let ghost tail = m.deep_view();
    lines.append(&mut m);
    assert(lines.deep_view() =~= old(lines).deep_view() + tail);
}

/// The text of a line, styles aside.
pub open spec fn line_text(l: Seq<SpanV>) -> Seq<char>
    decreases l.len(),
{
    if l.len() == 0 {
        Seq::empty()
    } else {
        line_text(l.drop_last()) + l.last().text
    }
}

/// The text of a line, styles aside.
pub fn text_of(l: &Line) -> (r: String)
    ensures
        r@ == line_text(l@),
{
    let mut out = String::new();
    let ghost all = l@;
    let mut i: usize = 0;
    while i < l.spans.len()
        invariant
            i <= l.spans.len(),
            all == l@,
            out@ == line_text(all.take(i as int)),
        decreases l.spans.len() - i,
    {
        proof {
            let t = all.take(i + 1);
            assert(t.drop_last() =~= all.take(i as int));
            assert(t.last() == all[i as int]);
        }
        out.append(l.spans[i].text.as_str());
        i += 1;
    }
    assert(all.take(i as int) =~= all);
    out
}

/// The text of two lines in a row is the text of the first and then that of the second.
pub proof fn texts_of_a_line_add_up(a: Seq<SpanV>, b: Seq<SpanV>)
    ensures
        line_text(a + b) == line_text(a) + line_text(b),
    decreases b.len(),
{
    if b.len() == 0 {
        assert(a + b =~= a);
        assert(line_text(a) + line_text(b) =~= line_text(a));
    } else {
        texts_of_a_line_add_up(a, b.drop_last());
        assert((a + b).drop_last() =~= a + b.drop_last());
        assert((a + b).last() == b.last());
        assert(line_text(a) + line_text(b.drop_last()) + b.last().text =~= line_text(a) + (line_text(
            b.drop_last(),
        ) + b.last().text));
    }
}

/// The text of a line of one span is that of the span.
pub proof fn text_of_one_span(s: SpanV)
    ensures
        line_text(seq![s]) == s.text,
{
    reveal_with_fuel(line_text, 2);
    assert(seq![s].drop_last() =~= Seq::<SpanV>::empty());
    assert(line_text(seq![s]) =~= s.text);
}

} // verus!
