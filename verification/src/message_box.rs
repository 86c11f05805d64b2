//! The client's message pane: messages parsed into styled spans, wrapped to
//! the pane's width, and scrolled.
use vstd::prelude::*;
use vstd::string::*;
use vstd::utf8::*;
use crate::text::{substring, trim_string, trim_unicode, join_strings, join_with, lemma_split_join, split_on};

verus! {

/// The style of a span of text.
#[derive(Clone, Copy, Debug, PartialEq, Eq, Structural)]
pub enum SpanStyle {
    Plain,
    Red,
}

/// A piece of text in one style.
#[derive(Debug)]
pub struct Span {
    pub content: String,
    pub style: SpanStyle,
}

impl Clone for Span {
    fn clone(&self) -> (res: Self)
        ensures
            res@ == self@,
    {
        Span { content: self.content.clone(), style: self.style }
    }
}

impl View for Span {
    type V = (Seq<char>, SpanStyle);

    open spec fn view(&self) -> (Seq<char>, SpanStyle) {
        (self.content@, self.style)
    }
}

/// A line of the pane: spans one after another.
#[derive(Debug)]
pub struct Line {
    pub spans: Vec<Span>,
}

/// The spans of a line, by content and style.
pub open spec fn spans_view(spans: Seq<Span>) -> Seq<(Seq<char>, SpanStyle)> {
    spans.map_values(|s: Span| s@)
}

impl View for Line {
    type V = Seq<(Seq<char>, SpanStyle)>;

    open spec fn view(&self) -> Seq<(Seq<char>, SpanStyle)> {
        spans_view(self.spans@)
    }
}

/// The lines of a pane, by their spans.
pub open spec fn lines_view(lines: Seq<Line>) -> Seq<Seq<(Seq<char>, SpanStyle)>> {
    lines.map_values(|l: Line| l@)
}

/// The message pane.
#[derive(Debug)]
pub struct MessageBox {
    /// The width that lines are wrapped to, in bytes.
    pub width: usize,
    /// How many lines the pane holds.
    pub lines: usize,
    /// How many lines the view is scrolled up.
    pub scroll_amount: usize,
    pub text: Vec<Line>,
}

/// The spans that the markup of `rest` yields, given the spans already
/// finished, the span being built (its text and style), whether the markup
/// is inside a styled stretch, and the current style.
///
/// A `~` ends the span being built and toggles styling. The character after
/// it is a style code: `r` selects red and is dropped; `b` selects red and
/// is kept as text; any other character selects the plain style and is
/// dropped. Outside a styled stretch the text is plain.
pub open spec fn parse_spans(
    spans: Seq<(Seq<char>, SpanStyle)>,
    cur: Seq<char>,
    cur_style: SpanStyle,
    styled: bool,
    style: SpanStyle,
    rest: Seq<char>,
) -> Seq<(Seq<char>, SpanStyle)>
    decreases rest.len(),
{
    if rest.len() == 0 {
        spans.push((cur, cur_style))
    } else if rest[0] == '~' {
        let spans2 = spans.push((cur, cur_style));
        let styled2 = !styled;
        if rest.len() == 1 {
            parse_spans(spans2, Seq::<char>::empty(), SpanStyle::Plain, styled2, style, rest.drop_first())
        } else if rest[1] == 'r' {
            parse_spans(spans2, Seq::<char>::empty(), SpanStyle::Plain, styled2, SpanStyle::Red, rest.skip(2))
        } else if rest[1] == 'b' {
            let st = if styled2 { SpanStyle::Red } else { SpanStyle::Plain };
            parse_spans(spans2, seq![rest[1]], st, styled2, st, rest.skip(2))
        } else {
            parse_spans(spans2, Seq::<char>::empty(), SpanStyle::Plain, styled2, SpanStyle::Plain, rest.skip(2))
        }
    } else {
        let st = if styled { style } else { SpanStyle::Plain };
        parse_spans(spans, cur.push(rest[0]), st, styled, st, rest.drop_first())
    }
}

/// The spans of a message written with `~` markup.
pub open spec fn message_spans(msg: Seq<char>) -> Seq<(Seq<char>, SpanStyle)> {
    parse_spans(Seq::empty(), Seq::empty(), SpanStyle::Plain, false, SpanStyle::Plain, msg)
}

fn char_string(s: &str, i: usize) -> (res: String)
    requires
        i < s@.len(),
        i < usize::MAX,
    ensures
        res@ == seq![s@[i as int]],
{
    let r = substring(s, i, i + 1);
    assert(r@ =~= seq![s@[i as int]]);
    r
}

/// `true` when `a + b <= width`.
pub open spec fn fits(width: int, current_size: int, to_be_added: int) -> bool {
    current_size + to_be_added <= width
}

impl MessageBox {
    pub fn new(width: usize) -> (res: Self)
        ensures
            res.width == width,
            res.lines == 0,
            res.scroll_amount == 0,
            res.text@.len() == 0,
    {
        Self { width, lines: 0, scroll_amount: 0, text: Vec::new() }
    }

    /// Whether `to_be_added` more bytes fit on a line of `width` bytes that
    /// holds `current_size`.
    pub fn fits_in_box(width: usize, current_size: usize, to_be_added: usize) -> (res: bool)
        ensures
            res == fits(width as int, current_size as int, to_be_added as int),
    {
        current_size <= width && to_be_added <= width - current_size
    }

    /// Parses `~` markup into spans (see `parse_spans`).
    pub fn string_to_spans(msg: String) -> (res: Vec<Span>)
        ensures
            spans_view(res@) == message_spans(msg@),
    {
        let mut spans: Vec<Span> = Vec::new();
        let mut styled = false;
        let mut style = SpanStyle::Plain;
        let mut cur = Span { content: String::new(), style: SpanStyle::Plain };
        let n = msg.as_str().unicode_len();
        let mut i: usize = 0;
        assert(msg@.skip(0) =~= msg@);
        assert(spans_view(spans@) =~= Seq::<(Seq<char>, SpanStyle)>::empty());
        assert(cur.content@ =~= Seq::<char>::empty());
        while i < n
            invariant
                n == msg@.len(),
                i <= n,
                parse_spans(spans_view(spans@), cur.content@, cur.style, styled, style, msg@.skip(i as int))
                    == message_spans(msg@),
            decreases n - i,
        {
            let ch = msg.as_str().get_char(i);
            let ghost rest = msg@.skip(i as int);
            let ghost pre_spans = spans_view(spans@);
            let ghost pre_cur = cur@;
            let ghost pre_styled = styled;
            let ghost pre_style = style;
            assert(rest[0] == ch);
            assert(rest.drop_first() =~= msg@.skip(i + 1));
            if ch == '~' {
                let ghost cur_v = cur@;
                let mut finished = Span { content: String::new(), style: SpanStyle::Plain };
                std::mem::swap(&mut finished, &mut cur);
                spans.push(finished);
                assert(spans_view(spans@) =~= pre_spans.push(cur_v));
                styled = !styled;
                assert(cur.content@ =~= Seq::<char>::empty());
                if i + 1 >= n {
                    assert(rest.len() == 1);
                    i = i + 1;
                } else {
                    let c2 = msg.as_str().get_char(i + 1);
                    assert(rest[1] == c2);
                    assert(rest.skip(2) =~= msg@.skip(i + 2));
                    if c2 == 'r' {
                        style = SpanStyle::Red;
                    } else if c2 == 'b' {
                        style = SpanStyle::Red;
                        if !styled {
                            style = SpanStyle::Plain;
                        }
                        cur = Span { content: char_string(msg.as_str(), i + 1), style };
                    } else {
                        style = SpanStyle::Plain;
                    }
                    i = i + 2;
                }
            } else {
                if !styled {
                    style = SpanStyle::Plain;
                }
                let c = char_string(msg.as_str(), i);
                cur.content.append(c.as_str());
                cur.style = style;
                assert(cur.content@ =~= pre_cur.0.push(ch));
                i = i + 1;
            }
        }
        spans.push(cur);
        spans
    }
}

/// The number of bytes of the UTF-8 encoding of `s`, which is what
/// `str::len` reports.
pub open spec fn byte_len(s: Seq<char>) -> nat {
    encode_utf8(s).len()
}

pub proof fn lemma_encode_utf8_append(a: Seq<char>, b: Seq<char>)
    ensures
        encode_utf8(a + b) == encode_utf8(a) + encode_utf8(b),
    decreases a.len(),
{
    if a.len() == 0 {
        assert(a + b =~= b);
    } else {
        lemma_encode_utf8_append(a.drop_first(), b);
        assert((a + b).drop_first() =~= a.drop_first() + b);
        assert((a + b)[0] == a[0]);
    }
}

pub proof fn lemma_char_byte_len(c: char)
    ensures
        1 <= byte_len(seq![c]) <= 4,
{
    assert(seq![c].drop_first() =~= Seq::<char>::empty());
    assert(encode_utf8(seq![c]) == encode_scalar(c as u32) + encode_utf8(Seq::<char>::empty()));
}

/// A span by content and style.
pub type SpanV = (Seq<char>, SpanStyle);

/// The state of wrapping a line: the lines finished, the line being filled,
/// and its length in bytes.
pub type WrapState = (Seq<Seq<SpanV>>, Seq<SpanV>, nat);

/// Places one word: on the current line when it fits, otherwise the current
/// line is finished and a new one begun; the word that did not fit is not
/// placed.
pub open spec fn place_word(width: nat, st: WrapState, w: Seq<char>, style: SpanStyle) -> WrapState {
    if st.2 + byte_len(w) <= width {
        (st.0, st.1.push((w, style)), st.2 + byte_len(w))
    } else {
        (st.0.push(st.1), Seq::empty(), 0)
    }
}

/// Places each character of `content` as a word of its own.
pub open spec fn place_chars(width: nat, st: WrapState, content: Seq<char>, style: SpanStyle) -> WrapState
    decreases content.len(),
{
    if content.len() == 0 {
        st
    } else {
        place_chars(width, place_word(width, st, seq![content[0]], style), content.drop_first(), style)
    }
}

/// Places a span: whole when it fits on the current line, otherwise as the
/// pieces that splitting its text on the empty string gives (an empty
/// piece, each character, an empty piece).
pub open spec fn place_span(width: nat, st: WrapState, span: SpanV) -> WrapState {
    if st.2 + byte_len(span.0) <= width {
        (st.0, st.1.push(span), st.2 + byte_len(span.0))
    } else {
        place_word(
            width,
            place_chars(width, place_word(width, st, Seq::empty(), span.1), span.0, span.1),
            Seq::empty(),
            span.1,
        )
    }
}

pub open spec fn place_spans(width: nat, st: WrapState, spans: Seq<SpanV>) -> WrapState
    decreases spans.len(),
{
    if spans.len() == 0 {
        st
    } else {
        place_spans(width, place_span(width, st, spans[0]), spans.drop_first())
    }
}

/// The lines that a line of `spans` is wrapped into at `width` bytes.
pub open spec fn wrapped_line(width: nat, spans: Seq<SpanV>) -> Seq<Seq<SpanV>> {
    let st = place_spans(width, (Seq::empty(), Seq::empty(), 0), spans);
    st.0.push(st.1)
}

/// Every span's text is short enough for its byte length to be counted in
/// a `usize`.
pub open spec fn spans_countable(spans: Seq<SpanV>) -> bool {
    forall|k: int| 0 <= k < spans.len() ==> byte_len(#[trigger] spans[k].0) <= usize::MAX
}

proof fn lemma_place_word_len(width: nat, st: WrapState, w: Seq<char>, style: SpanStyle)
    requires
        st.2 <= width,
    ensures
        place_word(width, st, w, style).2 <= width,
{
}

/// Places one word on the line being filled, or finishes that line.
fn place_word_exec(
    width: usize,
    finished: &mut Vec<Line>,
    current: &mut Vec<Span>,
    current_len: &mut usize,
    w: String,
    style: SpanStyle,
)
    requires
        *old(current_len) <= width,
        byte_len(w@) <= usize::MAX,
    ensures
        *final(current_len) <= width,
        (lines_view(final(finished)@), spans_view(final(current)@), *final(current_len) as nat) == place_word(
            width as nat,
            (lines_view(old(finished)@), spans_view(old(current)@), *old(current_len) as nat),
            w@,
            style,
        ),
{
    let wl = w.as_str().len();
    if MessageBox::fits_in_box(width, *current_len, wl) {
        let ghost pre = spans_view(current@);
        current.push(Span { content: w, style });
        *current_len = *current_len + wl;
        assert(spans_view(current@) =~= pre.push((w@, style)));
    } else {
        let ghost pre_f = lines_view(finished@);
        let ghost pre_c = spans_view(current@);
        let mut line_spans: Vec<Span> = Vec::new();
        std::mem::swap(&mut line_spans, current);
        finished.push(Line { spans: line_spans });
        *current_len = 0;
        assert(lines_view(finished@) =~= pre_f.push(pre_c));
        assert(spans_view(current@) =~= Seq::<SpanV>::empty());
    }
}

impl MessageBox {
    /// Wraps a line to `width` bytes, returning the lines and their number.
    pub fn wrap_line(width: usize, line: &Line) -> (res: (Vec<Line>, usize))
        requires
            spans_countable(line@),
        ensures
            lines_view(res.0@) == wrapped_line(width as nat, line@),
            res.1 == res.0@.len(),
    {
        let mut finished: Vec<Line> = Vec::new();
        let mut current: Vec<Span> = Vec::new();
        let mut current_len: usize = 0;
        let n = line.spans.len();
        let ghost spans = line@;
        let ghost target = place_spans(width as nat, (Seq::empty(), Seq::empty(), 0), spans);
        assert(spans.skip(0) =~= spans);
        assert(lines_view(finished@) =~= Seq::<Seq<SpanV>>::empty());
        assert(spans_view(current@) =~= Seq::<SpanV>::empty());
        for k in 0..n
            invariant
                n == line.spans@.len(),
                spans == line@,
                spans_countable(spans),
                current_len <= width,
                place_spans(width as nat, (lines_view(finished@), spans_view(current@), current_len as nat), spans.skip(k as int))
                    == target,
        {
            let span = &line.spans[k];
            let ghost sv = spans[k as int];
            assert(spans.skip(k as int)[0] == sv);
            assert(spans.skip(k as int).drop_first() =~= spans.skip(k + 1));
            assert(sv == span@);
            assert(byte_len(sv.0) <= usize::MAX);
            let span_len = span.content.as_str().len();
            let ghost st0: WrapState = (lines_view(finished@), spans_view(current@), current_len as nat);
            if Self::fits_in_box(width, current_len, span_len) {
                current.push(span.clone());
                current_len = current_len + span_len;
                assert(spans_view(current@) =~= st0.1.push(sv));
            } else {
                let style = span.style;
                place_word_exec(width, &mut finished, &mut current, &mut current_len, String::new(), style);
                let ghost st1: WrapState = (lines_view(finished@), spans_view(current@), current_len as nat);
                let content = span.content.as_str();
                let m = content.unicode_len();
                assert(sv.0.skip(0) =~= sv.0);
                for j in 0..m
                    invariant
                        m == sv.0.len(),
                        content@ == sv.0,
                        style == sv.1,
                        current_len <= width,
                        place_chars(width as nat, (lines_view(finished@), spans_view(current@), current_len as nat), sv.0.skip(j as int), style)
                            == place_chars(width as nat, st1, sv.0, style),
                {
                    let w = char_string(content, j);
                    proof {
                        lemma_char_byte_len(sv.0[j as int]);
                        assert(sv.0.skip(j as int)[0] == sv.0[j as int]);
                        assert(sv.0.skip(j as int).drop_first() =~= sv.0.skip(j + 1));
                    }
                    place_word_exec(width, &mut finished, &mut current, &mut current_len, w, style);
                }
                assert(sv.0.skip(m as int) =~= Seq::<char>::empty());
                place_word_exec(width, &mut finished, &mut current, &mut current_len, String::new(), style);
            }
        }
        assert(spans.skip(n as int) =~= Seq::<SpanV>::empty());
        let ghost fin = lines_view(finished@);
        let ghost cur = spans_view(current@);
        finished.push(Line { spans: current });
        assert(lines_view(finished@) =~= fin.push(cur));
        let count = finished.len();
        (finished, count)
    }
}

/// The text of a message once it has been made into a pane line: its line
/// endings ("\n" and "\r\n") removed, as `Line::from` followed by
/// `to_string` leaves it.
pub open spec fn line_text(m: Seq<char>) -> Seq<char>
    decreases m.len(),
{
    if m.len() == 0 {
        m
    } else if m.len() >= 2 && m[0] == '\r' && m[1] == '\n' {
        line_text(m.skip(2))
    } else if m[0] == '\n' {
        line_text(m.drop_first())
    } else {
        seq![m[0]] + line_text(m.drop_first())
    }
}

/// The pane lines of a list of messages, each made into a line, parsed for
/// markup and wrapped at `width` bytes.
pub open spec fn wrap_all(width: nat, msgs: Seq<Seq<char>>) -> Seq<Seq<SpanV>>
    decreases msgs.len(),
{
    if msgs.len() == 0 {
        Seq::empty()
    } else {
        wrap_all(width, msgs.drop_last()) + wrapped_line(width, message_spans(line_text(msgs.last())))
    }
}

/// Every message parses into spans whose byte lengths can be counted.
pub open spec fn msgs_countable(msgs: Seq<Seq<char>>) -> bool {
    forall|k: int| 0 <= k < msgs.len() ==> spans_countable(message_spans(line_text(#[trigger] msgs[k])))
}

proof fn lemma_wrap_all_prefix(width: nat, msgs: Seq<Seq<char>>, i: int)
    requires
        0 <= i <= msgs.len(),
    ensures
        wrap_all(width, msgs.subrange(0, i)).len() <= wrap_all(width, msgs).len(),
    decreases msgs.len() - i,
{
    if i < msgs.len() {
        lemma_wrap_all_prefix(width, msgs, i + 1);
        assert(msgs.subrange(0, i + 1).drop_last() =~= msgs.subrange(0, i));
    } else {
        assert(msgs.subrange(0, i) =~= msgs);
    }
}

/// The text of `m` with its line endings removed.
pub fn to_line_text(m: &str) -> (res: String)
    ensures
        res@ == line_text(m@),
{
    let n = m.unicode_len();
    let mut res = String::new();
    let mut i: usize = 0;
    assert(m@.skip(0) =~= m@);
    while i < n
        invariant
            n == m@.len(),
            i <= n,
            res@ + line_text(m@.skip(i as int)) == line_text(m@),
        decreases n - i,
    {
        let ghost rest = m@.skip(i as int);
        let c = m.get_char(i);
        assert(rest[0] == c);
        if c == '\r' && i + 1 < n && m.get_char(i + 1) == '\n' {
            assert(rest[1] == '\n');
            assert(rest.skip(2) =~= m@.skip(i + 2));
            i = i + 2;
        } else if c == '\n' {
            assert(rest.drop_first() =~= m@.skip(i + 1));
            i = i + 1;
        } else {
            let piece = char_string(m, i);
            let ghost before = res@;
            res.append(piece.as_str());
            assert(rest.drop_first() =~= m@.skip(i + 1));
            assert(line_text(rest) == seq![c] + line_text(m@.skip(i + 1)));
            assert(before + line_text(rest) =~= res@ + line_text(m@.skip(i + 1)));
            i = i + 1;
        }
    }
    assert(m@.skip(n as int) =~= Seq::<char>::empty());
    assert(res@ + Seq::<char>::empty() =~= res@);
    res
}

impl MessageBox {
    /// Adds a message at the bottom of the pane, parsed for markup and
    /// wrapped to the pane's width.
    pub fn new_msg(&mut self, msg: &String)
        requires
            spans_countable(message_spans(msg@)),
            old(self).lines + wrapped_line(old(self).width as nat, message_spans(msg@)).len() <= usize::MAX,
        ensures
            lines_view(final(self).text@) == lines_view(old(self).text@) + wrapped_line(
                old(self).width as nat,
                message_spans(msg@),
            ),
            final(self).lines == old(self).lines + wrapped_line(old(self).width as nat, message_spans(msg@)).len(),
            final(self).width == old(self).width,
            final(self).scroll_amount == old(self).scroll_amount,
    {
        let spans = Self::string_to_spans(msg.clone());
        let line = Line { spans };
        let (mut wrapped, count) = Self::wrap_line(self.width, &line);
        let ghost pre = lines_view(self.text@);
        let ghost added = lines_view(wrapped@);
        self.text.append(&mut wrapped);
        assert(lines_view(self.text@) =~= pre + added);
        self.lines = self.lines + count;
    }

    /// Rebuilds the pane from `regular_msgs` at `width`, returning the
    /// number of lines.
    pub fn wrap_lines(&mut self, width: usize, regular_msgs: &Vec<String>) -> (res: usize)
        requires
            msgs_countable(regular_msgs@.map_values(|m: String| m@)),
            wrap_all(width as nat, regular_msgs@.map_values(|m: String| m@)).len() <= usize::MAX,
        ensures
            lines_view(final(self).text@) == wrap_all(width as nat, regular_msgs@.map_values(|m: String| m@)),
            final(self).lines == res,
            res == final(self).text@.len(),
            final(self).width == width,
            final(self).scroll_amount == old(self).scroll_amount,
    {
        let ghost msgs = regular_msgs@.map_values(|m: String| m@);
        let mut fixed_lines: Vec<Line> = Vec::new();
        self.lines = 0;
        let n = regular_msgs.len();
        assert(lines_view(fixed_lines@) =~= wrap_all(width as nat, msgs.subrange(0, 0)));
        for i in 0..n
            invariant
                n == regular_msgs@.len(),
                msgs == regular_msgs@.map_values(|m: String| m@),
                msgs_countable(msgs),
                wrap_all(width as nat, msgs).len() <= usize::MAX,
                lines_view(fixed_lines@) == wrap_all(width as nat, msgs.subrange(0, i as int)),
                self.lines == fixed_lines@.len(),
                self.scroll_amount == old(self).scroll_amount,
        {
            let text = to_line_text(regular_msgs[i].as_str());
            assert(msgs[i as int] == regular_msgs@[i as int]@);
            let spans = Self::string_to_spans(text);
            let line = Line { spans };
            let (mut fixed, count) = Self::wrap_line(width, &line);
            let ghost pre = lines_view(fixed_lines@);
            let ghost added = lines_view(fixed@);
            proof {
                assert(msgs.subrange(0, i + 1).drop_last() =~= msgs.subrange(0, i as int));
                assert(msgs.subrange(0, i + 1).last() == msgs[i as int]);
                lemma_wrap_all_prefix(width as nat, msgs, i + 1);
            }
            fixed_lines.append(&mut fixed);
            assert(lines_view(fixed_lines@) =~= pre + added);
            self.lines = self.lines + count;
        }
        assert(msgs.subrange(0, n as int) =~= msgs);
        self.text = fixed_lines;
        self.width = width;
        self.lines
    }

    /// Rewraps the pane at `width`; a scroll position beyond the new number
    /// of lines is reduced by that number.
    pub fn calculate_lines(&mut self, width: usize, regular_msgs: &Vec<String>)
        requires
            msgs_countable(regular_msgs@.map_values(|m: String| m@)),
            wrap_all(width as nat, regular_msgs@.map_values(|m: String| m@)).len() <= usize::MAX,
        ensures
            lines_view(final(self).text@) == wrap_all(width as nat, regular_msgs@.map_values(|m: String| m@)),
            final(self).lines == final(self).text@.len(),
            final(self).width == width,
            old(self).scroll_amount > final(self).lines ==> final(self).scroll_amount == old(self).scroll_amount
                - final(self).lines,
            old(self).scroll_amount <= final(self).lines ==> final(self).scroll_amount == old(self).scroll_amount,
    {
        let new_line_count = self.wrap_lines(width, regular_msgs);
        if self.scroll_amount > new_line_count {
            self.scroll_amount = self.scroll_amount - new_line_count;
        }
    }
}

pub proof fn lemma_byte_len_take_step(s: Seq<char>, j: int)
    requires
        0 <= j < s.len(),
    ensures
        byte_len(s.take(j + 1)) == byte_len(s.take(j)) + byte_len(seq![s[j]]),
        1 <= byte_len(seq![s[j]]) <= 4,
{
    assert(s.take(j + 1) =~= s.take(j) + seq![s[j]]);
    lemma_encode_utf8_append(s.take(j), seq![s[j]]);
    lemma_char_byte_len(s[j]);
}

pub proof fn lemma_byte_len_take_mono(s: Seq<char>, a: int, b: int)
    requires
        0 <= a < b <= s.len(),
    ensures
        byte_len(s.take(a)) < byte_len(s.take(b)),
    decreases b - a,
{
    lemma_byte_len_take_step(s, b - 1);
    if a < b - 1 {
        lemma_byte_len_take_mono(s, a, b - 1);
    }
}

/// Whether some prefix of `s` of `k > 0` characters takes exactly `width`
/// bytes, that is whether byte `width` is a character boundary of `s`.
pub open spec fn splits_at_byte(s: Seq<char>, width: nat, k: int) -> bool {
    0 < k <= s.len() && byte_len(s.take(k)) == width
}

/// The pieces `wrap_msg` cuts a message into: while the message, trimmed of
/// whitespace, takes at least `width` bytes, its first `width` bytes are cut
/// off as a piece; what is left is the last piece.
pub open spec fn wrap_msg_pieces(width: nat, msg: Seq<char>) -> Seq<Seq<char>>
    decreases msg.len(),
{
    if byte_len(trim_unicode(msg)) >= width && exists|k: int| splits_at_byte(msg, width, k) {
        let k = choose|k: int| splits_at_byte(msg, width, k);
        seq![msg.take(k)] + wrap_msg_pieces(width, msg.skip(k))
    } else {
        seq![msg]
    }
}

/// The inputs on which `wrap_msg` returns: a positive width, and a
/// character boundary at `width` bytes wherever a cut is made.
pub open spec fn wrap_msg_ok(width: nat, msg: Seq<char>) -> bool
    decreases msg.len(),
{
    &&& width > 0
    &&& byte_len(trim_unicode(msg)) >= width ==> exists|k: int| #[trigger] splits_at_byte(msg, width, k)
        && wrap_msg_ok(width, msg.skip(k))
}

/// Whether `s` takes at least `width` bytes.
fn bytes_at_least(s: &str, width: usize) -> (res: bool)
    ensures
        res == (byte_len(s@) >= width),
{
    let n = s.unicode_len();
    let mut acc: u128 = 0;
    let mut j: usize = 0;
    assert(s@.take(0) =~= Seq::<char>::empty());
    while j < n && acc < width as u128
        invariant
            n == s@.len(),
            j <= n,
            acc == byte_len(s@.take(j as int)),
            acc < width + 4,
        decreases n - j,
    {
        let c = char_string(s, j);
        proof {
            lemma_byte_len_take_step(s@, j as int);
        }
        let cl = c.as_str().len();
        acc = acc + cl as u128;
        j = j + 1;
    }
    if acc >= width as u128 {
        proof {
            if j < n {
                lemma_byte_len_take_mono(s@, j as int, n as int);
            }
            assert(s@.take(n as int) =~= s@);
        }
        true
    } else {
        assert(s@.take(n as int) =~= s@);
        false
    }
}

/// The number of characters whose encoding takes exactly `width` bytes.
fn byte_split_index(s: &str, width: usize) -> (k: usize)
    requires
        exists|k: int| splits_at_byte(s@, width as nat, k),
    ensures
        splits_at_byte(s@, width as nat, k as int),
{
    let n = s.unicode_len();
    let mut acc: u128 = 0;
    let mut j: usize = 0;
    assert(s@.take(0) =~= Seq::<char>::empty());
    while acc < width as u128
        invariant
            n == s@.len(),
            j <= n,
            acc == byte_len(s@.take(j as int)),
            j == 0 || byte_len(s@.take(j - 1)) < width,
            exists|k: int| splits_at_byte(s@, width as nat, k),
        decreases n - j,
    {
        proof {
            let k = choose|k: int| splits_at_byte(s@, width as nat, k);
            if j >= n {
                assert(k <= j);
                if k < j {
                    lemma_byte_len_take_mono(s@, k, j as int);
                }
            }
        }
        let c = char_string(s, j);
        proof {
            lemma_byte_len_take_step(s@, j as int);
        }
        let cl = c.as_str().len();
        acc = acc + cl as u128;
        j = j + 1;
    }
    proof {
        let k = choose|k: int| splits_at_byte(s@, width as nat, k);
        if k < j {
            if j > 0 {
                lemma_byte_len_take_step(s@, j - 1);
                if k < j - 1 {
                    lemma_byte_len_take_mono(s@, k, j - 1);
                }
            }
        } else if k > j {
            lemma_byte_len_take_mono(s@, j as int, k);
        }
        if j == 0 {
            assert(k > 0);
            lemma_byte_len_take_mono(s@, 0, k);
        }
    }
    j
}

proof fn lemma_split_unique(s: Seq<char>, width: nat, k1: int, k2: int)
    requires
        splits_at_byte(s, width, k1),
        splits_at_byte(s, width, k2),
    ensures
        k1 == k2,
{
    if k1 < k2 {
        lemma_byte_len_take_mono(s, k1, k2);
    } else if k2 < k1 {
        lemma_byte_len_take_mono(s, k2, k1);
    }
}

impl MessageBox {
    /// Cuts a message into lines of `width` bytes while what is left,
    /// trimmed, takes at least `width` bytes; returns the lines joined with
    /// "\n" and their number.
    pub fn wrap_msg(width: usize, msg: String) -> (res: (String, usize))
        requires
            wrap_msg_ok(width as nat, msg@),
            wrap_msg_pieces(width as nat, msg@).len() <= usize::MAX,
        ensures
            res.0@ == join_with(wrap_msg_pieces(width as nat, msg@), "\n"@),
            res.1 == wrap_msg_pieces(width as nat, msg@).len(),
    {
        let ghost whole = wrap_msg_pieces(width as nat, msg@);
        let mut lines_added: usize = 0;
        let mut trimmed_msgs: Vec<String> = Vec::new();
        let mut msg = msg;
        assert(trimmed_msgs@.map_values(|p: String| p@) + wrap_msg_pieces(width as nat, msg@) =~= whole);
        loop
            invariant
                wrap_msg_ok(width as nat, msg@),
                trimmed_msgs@.map_values(|p: String| p@) + wrap_msg_pieces(width as nat, msg@) == whole,
                whole.len() <= usize::MAX,
                lines_added == trimmed_msgs@.len(),
        ensures
            byte_len(trim_unicode(msg@)) < width,
        decreases msg@.len(),
        {
            let t = trim_string(msg.as_str());
            if !bytes_at_least(t.as_str(), width) {
                break;
            }
            let ghost pre = trimmed_msgs@.map_values(|p: String| p@);
            let k = byte_split_index(msg.as_str(), width);
            proof {
                let k0 = choose|k: int| #[trigger] splits_at_byte(msg@, width as nat, k) && wrap_msg_ok(width as nat, msg@.skip(k));
                lemma_split_unique(msg@, width as nat, k as int, k0);
                let kc = choose|k: int| splits_at_byte(msg@, width as nat, k);
                lemma_split_unique(msg@, width as nat, k as int, kc);
                assert(wrap_msg_pieces(width as nat, msg@) == seq![msg@.take(k as int)] + wrap_msg_pieces(width as nat, msg@.skip(k as int)));
            }
            let n = msg.as_str().unicode_len();
            let first = substring(msg.as_str(), 0, k);
            let rest = substring(msg.as_str(), k, n);
            assert(first@ =~= msg@.take(k as int));
            assert(rest@ =~= msg@.skip(k as int));
            msg = rest;
            trimmed_msgs.push(first);
            lines_added = lines_added + 1;
            assert(trimmed_msgs@.map_values(|p: String| p@) =~= pre.push(first@));
            assert(pre.push(first@) + wrap_msg_pieces(width as nat, msg@) =~= pre + (seq![first@] + wrap_msg_pieces(width as nat, msg@)));
        }
        let ghost pre = trimmed_msgs@.map_values(|p: String| p@);
        assert(wrap_msg_pieces(width as nat, msg@) == seq![msg@]);
        trimmed_msgs.push(msg);
        lines_added = lines_added + 1;
        assert(trimmed_msgs@.map_values(|p: String| p@) =~= whole);
        (join_strings(trimmed_msgs.as_slice(), "\n"), lines_added)
    }
}

/// Where byte `width` of `s` falls between characters: the number of
/// characters before it, if it falls between two (or at the end).
fn find_split(s: &str, width: usize) -> (res: Option<usize>)
    ensures
        match res {
            Some(k) => splits_at_byte(s@, width as nat, k as int),
            None => forall|k: int| !#[trigger] splits_at_byte(s@, width as nat, k),
        },
{
    let n = s.unicode_len();
    let mut acc: u128 = 0;
    let mut j: usize = 0;
    assert(s@.take(0) =~= Seq::<char>::empty());
    while j < n && acc < width as u128
        invariant
            n == s@.len(),
            j <= n,
            acc == byte_len(s@.take(j as int)),
            j == 0 || byte_len(s@.take(j - 1)) < width,
        decreases n - j,
    {
        let c = char_string(s, j);
        proof {
            lemma_byte_len_take_step(s@, j as int);
        }
        let cl = c.as_str().len();
        acc = acc + cl as u128;
        j = j + 1;
    }
    if j > 0 && acc == width as u128 {
        return Some(j);
    }
    proof {
        assert forall|k: int| !#[trigger] splits_at_byte(s@, width as nat, k) by {
            if splits_at_byte(s@, width as nat, k) {
                if k < j {
                    if k < j - 1 {
                        lemma_byte_len_take_mono(s@, k, j - 1);
                    }
                } else if k > j {
                    lemma_byte_len_take_mono(s@, j as int, k);
                } else if j == 0 {
                    assert(k > 0);
                }
            }
        }
    }
    None
}

/// Whether `wrap_msg` can cut `msg` for `width`: the width is positive,
/// every cut falls between characters, and the number of lines fits in a
/// `usize`.
fn wrap_msg_cuttable(width: usize, msg: &str) -> (res: bool)
    ensures
        res == (wrap_msg_ok(width as nat, msg@) && wrap_msg_pieces(width as nat, msg@).len() <= usize::MAX),
{
    if width == 0 {
        return false;
    }
    let total = msg.unicode_len();
    let mut cur = substring(msg, 0, total);
    assert(cur@ =~= msg@);
    let mut count: usize = 0;
    loop
        invariant
            width > 0,
            total == msg@.len(),
            wrap_msg_ok(width as nat, msg@) == wrap_msg_ok(width as nat, cur@),
            wrap_msg_pieces(width as nat, msg@).len() == count + wrap_msg_pieces(width as nat, cur@).len(),
            count + cur@.len() <= total,
        decreases cur@.len(),
    {
        let t = trim_string(cur.as_str());
        if !bytes_at_least(t.as_str(), width) {
            return count < usize::MAX;
        }
        match find_split(cur.as_str(), width) {
            None => {
                return false;
            },
            Some(k) => {
                let ghost pre = cur@;
                proof {
                    assert forall|k2: int| #[trigger] splits_at_byte(pre, width as nat, k2) implies k2 == k by {
                        lemma_split_unique(pre, width as nat, k as int, k2);
                    }
                    let kc = choose|k2: int| splits_at_byte(pre, width as nat, k2);
                    assert(wrap_msg_pieces(width as nat, pre) == seq![pre.take(k as int)] + wrap_msg_pieces(width as nat, pre.skip(k as int)));
                    if wrap_msg_ok(width as nat, pre.skip(k as int)) {
                        assert(splits_at_byte(pre, width as nat, k as int) && wrap_msg_ok(width as nat, pre.skip(k as int)));
                    }
                }
                let n = cur.as_str().unicode_len();
                let rest = substring(cur.as_str(), k, n);
                assert(rest@ =~= pre.skip(k as int));
                cur = rest;
                count = count + 1;
            },
        }
    }
}

impl MessageBox {
    /// `wrap_msg` where it can run: `None` for a width of zero, for a cut
    /// that would fall inside a character, and for more lines than a `usize`
    /// counts.
    pub fn try_wrap_msg(width: usize, msg: String) -> (res: Option<(String, usize)>)
        ensures
            res is Some <==> (wrap_msg_ok(width as nat, msg@) && wrap_msg_pieces(width as nat, msg@).len()
                <= usize::MAX),
            res matches Some(r) ==> r.0@ == join_with(wrap_msg_pieces(width as nat, msg@), "\n"@)
                && r.1 == wrap_msg_pieces(width as nat, msg@).len(),
    {
        if wrap_msg_cuttable(width, msg.as_str()) {
            Some(Self::wrap_msg(width, msg))
        } else {
            None
        }
    }
}

/// The pieces written one after another.
pub open spec fn concat_all(pieces: Seq<Seq<char>>) -> Seq<char>
    decreases pieces.len(),
{
    if pieces.len() == 0 {
        Seq::empty()
    } else {
        pieces[0] + concat_all(pieces.drop_first())
    }
}

/// Wrapping a message loses nothing: its pieces, written one after another,
/// are the message.
pub proof fn lemma_wrap_msg_keeps_text(width: nat, msg: Seq<char>)
    ensures
        concat_all(wrap_msg_pieces(width, msg)) == msg,
    decreases msg.len(),
{
    if byte_len(trim_unicode(msg)) >= width && exists|k: int| splits_at_byte(msg, width, k) {
        let k = choose|k: int| splits_at_byte(msg, width, k);
        lemma_wrap_msg_keeps_text(width, msg.skip(k));
        let pieces = wrap_msg_pieces(width, msg);
        assert(pieces == seq![msg.take(k)] + wrap_msg_pieces(width, msg.skip(k)));
        assert(pieces[0] == msg.take(k));
        assert(pieces.drop_first() =~= wrap_msg_pieces(width, msg.skip(k)));
        assert(concat_all(pieces) == pieces[0] + concat_all(pieces.drop_first()));
        assert(msg.take(k) + msg.skip(k) =~= msg);
    } else {
        assert(seq![msg].drop_first() =~= Seq::<Seq<char>>::empty());
        assert(concat_all(Seq::<Seq<char>>::empty()) == Seq::<char>::empty());
        assert(concat_all(seq![msg]) == msg + concat_all(seq![msg].drop_first()));
        assert(msg + Seq::<char>::empty() =~= msg);
    }
}

/// No piece of a wrapped message holds a character the message lacks.
proof fn lemma_wrap_pieces_lack(width: nat, msg: Seq<char>, c: char)
    requires
        !msg.contains(c),
    ensures
        wrap_msg_pieces(width, msg).len() >= 1,
        forall|k: int| 0 <= k < wrap_msg_pieces(width, msg).len() ==> !(#[trigger] wrap_msg_pieces(width, msg)[k]).contains(c),
    decreases msg.len(),
{
    let ps = wrap_msg_pieces(width, msg);
    if byte_len(trim_unicode(msg)) >= width && exists|k: int| splits_at_byte(msg, width, k) {
        let k = choose|k: int| splits_at_byte(msg, width, k);
        let rest = msg.skip(k);
        assert(!rest.contains(c)) by {
            if rest.contains(c) {
                let j = choose|j: int| 0 <= j < rest.len() && rest[j] == c;
                assert(msg[k + j] == c);
            }
        }
        assert(!msg.take(k).contains(c)) by {
            if msg.take(k).contains(c) {
                let j = choose|j: int| 0 <= j < msg.take(k).len() && msg.take(k)[j] == c;
                assert(msg[j] == c);
            }
        }
        lemma_wrap_pieces_lack(width, rest, c);
        let rp = wrap_msg_pieces(width, rest);
        assert(ps == seq![msg.take(k)] + rp);
        assert forall|i: int| 0 <= i < ps.len() implies !(#[trigger] ps[i]).contains(c) by {
            if i > 0 {
                assert(ps[i] == rp[i - 1]);
            }
        }
    } else {
        assert(ps == seq![msg]);
    }
}

/// Every piece of a wrapped message but the last takes exactly `width`
/// bytes; the last one, trimmed, takes fewer.
proof fn lemma_wrap_pieces_widths(width: nat, msg: Seq<char>)
    requires
        wrap_msg_ok(width, msg),
    ensures
        wrap_msg_pieces(width, msg).len() >= 1,
        forall|i: int| 0 <= i < wrap_msg_pieces(width, msg).len() - 1 ==> byte_len(#[trigger] wrap_msg_pieces(width, msg)[i]) == width,
        byte_len(trim_unicode(wrap_msg_pieces(width, msg).last())) < width,
    decreases msg.len(),
{
    let ps = wrap_msg_pieces(width, msg);
    if byte_len(trim_unicode(msg)) >= width && exists|k: int| splits_at_byte(msg, width, k) {
        let k = choose|k: int| splits_at_byte(msg, width, k);
        let k2 = choose|k: int| #[trigger] splits_at_byte(msg, width, k) && wrap_msg_ok(width, msg.skip(k));
        lemma_split_unique(msg, width, k, k2);
        let rest = msg.skip(k);
        lemma_wrap_pieces_widths(width, rest);
        let rp = wrap_msg_pieces(width, rest);
        assert(ps == seq![msg.take(k)] + rp);
        assert forall|i: int| 0 <= i < ps.len() - 1 implies byte_len(#[trigger] ps[i]) == width by {
            if i > 0 {
                assert(ps[i] == rp[i - 1]);
            }
        }
        assert(ps.last() == rp.last());
    } else {
        assert(ps == seq![msg]);
        if byte_len(trim_unicode(msg)) >= width {
            let k = choose|k: int| #[trigger] splits_at_byte(msg, width, k) && wrap_msg_ok(width, msg.skip(k));
            assert(splits_at_byte(msg, width, k));
        }
    }
}

/// What `wrap_msg` writes splits at its line breaks into the pieces: they
/// give the message back one after another, each but the last takes exactly
/// `width` bytes, and the last, trimmed, takes fewer. This holds for a
/// message without line breaks of its own.
pub proof fn lemma_wrap_msg_lines(width: nat, msg: Seq<char>)
    requires
        wrap_msg_ok(width, msg),
        !msg.contains('\n'),
    ensures
        split_on(join_with(wrap_msg_pieces(width, msg), "\n"@), '\n') == wrap_msg_pieces(width, msg),
        concat_all(wrap_msg_pieces(width, msg)) == msg,
        forall|i: int| 0 <= i < wrap_msg_pieces(width, msg).len() - 1 ==> byte_len(#[trigger] wrap_msg_pieces(width, msg)[i]) == width,
        byte_len(trim_unicode(wrap_msg_pieces(width, msg).last())) < width,
{
    reveal_strlit("\n");
    assert("\n"@ =~= seq!['\n']);
    lemma_wrap_pieces_lack(width, msg, '\n');
    lemma_split_join(wrap_msg_pieces(width, msg), '\n');
    lemma_wrap_msg_keeps_text(width, msg);
    lemma_wrap_pieces_widths(width, msg);
}

/// The texts of `spans`, one after another.
pub open spec fn spans_text(spans: Seq<SpanV>) -> Seq<char>
    decreases spans.len(),
{
    if spans.len() == 0 {
        Seq::empty()
    } else {
        spans[0].0 + spans_text(spans.drop_first())
    }
}

/// The text a reader sees of a message with `~` markup: each `~` and the
/// code letter after it are left out, except that a `b` code stays as text;
/// a `~` at the very end is left out.
pub open spec fn visible_text(msg: Seq<char>) -> Seq<char>
    decreases msg.len(),
{
    if msg.len() == 0 {
        msg
    } else if msg[0] == '~' {
        if msg.len() == 1 {
            Seq::empty()
        } else if msg[1] == 'b' {
            seq!['b'] + visible_text(msg.skip(2))
        } else {
            visible_text(msg.skip(2))
        }
    } else {
        seq![msg[0]] + visible_text(msg.drop_first())
    }
}

proof fn lemma_spans_text_push(spans: Seq<SpanV>, x: SpanV)
    ensures
        spans_text(spans.push(x)) == spans_text(spans) + x.0,
    decreases spans.len(),
{
    if spans.len() == 0 {
        assert(spans.push(x).drop_first() =~= Seq::<SpanV>::empty());
        assert(spans.push(x)[0] == x);
        assert(spans_text(Seq::<SpanV>::empty()) == Seq::<char>::empty());
        assert(spans_text(spans.push(x)) == x.0 + spans_text(spans.push(x).drop_first()));
        assert(x.0 + Seq::<char>::empty() =~= x.0);
        assert(Seq::<char>::empty() + x.0 =~= x.0);
    } else {
        lemma_spans_text_push(spans.drop_first(), x);
        assert(spans.push(x).drop_first() =~= spans.drop_first().push(x));
        assert(spans.push(x)[0] == spans[0]);
        assert(spans[0].0 + (spans_text(spans.drop_first()) + x.0) =~= (spans[0].0 + spans_text(spans.drop_first())) + x.0);
    }
}

proof fn lemma_parse_text(
    spans: Seq<SpanV>,
    cur: Seq<char>,
    cur_style: SpanStyle,
    styled: bool,
    style: SpanStyle,
    rest: Seq<char>,
)
    ensures
        spans_text(parse_spans(spans, cur, cur_style, styled, style, rest)) == spans_text(spans) + cur + visible_text(rest),
    decreases rest.len(),
{
    if rest.len() == 0 {
        lemma_spans_text_push(spans, (cur, cur_style));
        assert(spans_text(spans) + cur + Seq::<char>::empty() =~= spans_text(spans) + cur);
    } else if rest[0] == '~' {
        let spans2 = spans.push((cur, cur_style));
        lemma_spans_text_push(spans, (cur, cur_style));
        if rest.len() == 1 {
            lemma_parse_text(spans2, Seq::<char>::empty(), SpanStyle::Plain, !styled, style, rest.drop_first());
            assert(rest.drop_first().len() == 0);
            assert(spans_text(spans2) + Seq::<char>::empty() + visible_text(rest.drop_first()) =~= spans_text(spans) + cur + visible_text(rest));
        } else if rest[1] == 'r' {
            lemma_parse_text(spans2, Seq::<char>::empty(), SpanStyle::Plain, !styled, SpanStyle::Red, rest.skip(2));
            assert(spans_text(spans2) + Seq::<char>::empty() + visible_text(rest.skip(2)) =~= spans_text(spans) + cur + visible_text(rest));
        } else if rest[1] == 'b' {
            let st = if !styled { SpanStyle::Red } else { SpanStyle::Plain };
            lemma_parse_text(spans2, seq![rest[1]], st, !styled, st, rest.skip(2));
            assert(spans_text(spans2) + seq![rest[1]] + visible_text(rest.skip(2)) =~= spans_text(spans) + cur + visible_text(rest));
        } else {
            lemma_parse_text(spans2, Seq::<char>::empty(), SpanStyle::Plain, !styled, SpanStyle::Plain, rest.skip(2));
            assert(spans_text(spans2) + Seq::<char>::empty() + visible_text(rest.skip(2)) =~= spans_text(spans) + cur + visible_text(rest));
        }
    } else {
        let st = if styled { style } else { SpanStyle::Plain };
        lemma_parse_text(spans, cur.push(rest[0]), st, styled, st, rest.drop_first());
        assert(spans_text(spans) + cur.push(rest[0]) + visible_text(rest.drop_first()) =~= spans_text(spans) + cur + visible_text(rest));
    }
}

/// The spans a message is parsed into hold, one after another, exactly the
/// text a reader sees: every character of the message but the `~` marks
/// and their code letters (a `b` code stays).
pub proof fn lemma_message_spans_text(msg: Seq<char>)
    ensures
        spans_text(message_spans(msg)) == visible_text(msg),
{
    lemma_parse_text(Seq::empty(), Seq::empty(), SpanStyle::Plain, false, SpanStyle::Plain, msg);
    assert(spans_text(Seq::<SpanV>::empty()) + Seq::<char>::empty() + visible_text(msg) =~= visible_text(msg));
}

/// Without markup every character stays.
pub proof fn lemma_visible_text_plain(msg: Seq<char>)
    requires
        !msg.contains('~'),
    ensures
        visible_text(msg) == msg,
    decreases msg.len(),
{
    if msg.len() > 0 {
        assert(msg[0] != '~');
        assert(!msg.drop_first().contains('~')) by {
            if msg.drop_first().contains('~') {
                let j = choose|j: int| 0 <= j < msg.drop_first().len() && msg.drop_first()[j] == '~';
                assert(msg[j + 1] == '~');
            }
        }
        lemma_visible_text_plain(msg.drop_first());
        assert(seq![msg[0]] + msg.drop_first() =~= msg);
    }
}

proof fn lemma_parse_plain(spans: Seq<SpanV>, cur: Seq<char>, cur_style: SpanStyle, style: SpanStyle, rest: Seq<char>)
    requires
        !rest.contains('~'),
        rest.len() > 0,
    ensures
        parse_spans(spans, cur, cur_style, false, style, rest) == spans.push((cur + rest, SpanStyle::Plain)),
    decreases rest.len(),
{
    assert(rest[0] != '~');
    let tail = rest.drop_first();
    if tail.len() == 0 {
        assert(parse_spans(spans, cur.push(rest[0]), SpanStyle::Plain, false, SpanStyle::Plain, tail)
            == spans.push((cur.push(rest[0]), SpanStyle::Plain)));
        assert(cur.push(rest[0]) =~= cur + rest);
    } else {
        assert(!tail.contains('~')) by {
            if tail.contains('~') {
                let j = choose|j: int| 0 <= j < tail.len() && tail[j] == '~';
                assert(rest[j + 1] == '~');
            }
        }
        lemma_parse_plain(spans, cur.push(rest[0]), SpanStyle::Plain, SpanStyle::Plain, tail);
        assert(cur.push(rest[0]) + tail =~= cur + rest);
    }
}

/// A message without markup is one plain span holding the whole message.
pub proof fn lemma_message_spans_plain(msg: Seq<char>)
    requires
        !msg.contains('~'),
    ensures
        message_spans(msg) == seq![(msg, SpanStyle::Plain)],
{
    if msg.len() == 0 {
        assert(message_spans(msg) == Seq::<SpanV>::empty().push((Seq::<char>::empty(), SpanStyle::Plain)));
        assert(msg =~= Seq::<char>::empty());
    } else {
        lemma_parse_plain(Seq::empty(), Seq::empty(), SpanStyle::Plain, SpanStyle::Plain, msg);
        assert(Seq::<char>::empty() + msg =~= msg);
    }
    assert(Seq::<SpanV>::empty().push((msg, SpanStyle::Plain)) =~= seq![(msg, SpanStyle::Plain)]);
}

/// `pieces` written one after another with one character of `seps` between
/// each two neighbours.
pub open spec fn interleave(pieces: Seq<Seq<char>>, seps: Seq<char>) -> Seq<char>
    decreases pieces.len(),
{
    if pieces.len() == 0 {
        Seq::empty()
    } else if pieces.len() == 1 {
        pieces[0]
    } else {
        interleave(pieces.drop_last(), seps.drop_last()) + seq![seps.last()] + pieces.last()
    }
}

/// The texts of wrapped lines.
pub open spec fn lines_texts(lines: Seq<Seq<SpanV>>) -> Seq<Seq<char>> {
    lines.map_values(|l: Seq<SpanV>| spans_text(l))
}

/// The text of a wrapping state so far, given the characters dropped at the
/// line breaks.
spec fn state_text(st: WrapState, seps: Seq<char>) -> Seq<char> {
    interleave(lines_texts(st.0).push(spans_text(st.1)), seps)
}

proof fn lemma_place_word_text(width: nat, st: WrapState, w: Seq<char>, style: SpanStyle, seps: Seq<char>) -> (seps2: Seq<char>)
    requires
        st.2 <= width,
        seps.len() == st.0.len(),
        w.len() <= 1,
    ensures
        place_word(width, st, w, style).2 <= width,
        seps2.len() == place_word(width, st, w, style).0.len(),
        state_text(place_word(width, st, w, style), seps2) == state_text(st, seps) + w,
{
    let ps = lines_texts(st.0).push(spans_text(st.1));
    let post = place_word(width, st, w, style);
    if st.2 + byte_len(w) <= width {
        lemma_spans_text_push(st.1, (w, style));
        let ps2 = lines_texts(post.0).push(spans_text(post.1));
        assert(ps2 =~= ps.update(ps.len() - 1, ps.last() + w));
        if ps.len() >= 2 {
            assert(ps2.drop_last() =~= ps.drop_last());
            assert(interleave(ps2, seps) =~= interleave(ps, seps) + w);
        } else {
            assert(interleave(ps2, seps) =~= interleave(ps, seps) + w);
        }
        seps
    } else {
        if w.len() == 0 {
            assert(w =~= Seq::<char>::empty());
            assert(encode_utf8(w).len() == 0);
            assert(false);
        }
        let seps2 = seps.push(w[0]);
        let ps2 = lines_texts(post.0).push(spans_text(post.1));
        assert(spans_text(Seq::<SpanV>::empty()) == Seq::<char>::empty());
        assert(ps2 =~= ps.push(Seq::<char>::empty()));
        assert(ps2.drop_last() =~= ps);
        assert(seps2.drop_last() =~= seps);
        assert(w =~= seq![w[0]]);
        assert(interleave(ps2, seps2) =~= interleave(ps, seps) + w);
        seps2
    }
}

proof fn lemma_place_chars_text(width: nat, st: WrapState, content: Seq<char>, style: SpanStyle, seps: Seq<char>) -> (seps2: Seq<char>)
    requires
        st.2 <= width,
        seps.len() == st.0.len(),
    ensures
        place_chars(width, st, content, style).2 <= width,
        seps2.len() == place_chars(width, st, content, style).0.len(),
        state_text(place_chars(width, st, content, style), seps2) == state_text(st, seps) + content,
    decreases content.len(),
{
    if content.len() == 0 {
        assert(state_text(st, seps) + content =~= state_text(st, seps));
        seps
    } else {
        let w = seq![content[0]];
        let s1 = lemma_place_word_text(width, st, w, style, seps);
        let st1 = place_word(width, st, w, style);
        let s2 = lemma_place_chars_text(width, st1, content.drop_first(), style, s1);
        assert(w + content.drop_first() =~= content);
        assert(state_text(st, seps) + w + content.drop_first() =~= state_text(st, seps) + content);
        s2
    }
}

proof fn lemma_place_span_text(width: nat, st: WrapState, span: SpanV, seps: Seq<char>) -> (seps2: Seq<char>)
    requires
        st.2 <= width,
        seps.len() == st.0.len(),
    ensures
        place_span(width, st, span).2 <= width,
        seps2.len() == place_span(width, st, span).0.len(),
        state_text(place_span(width, st, span), seps2) == state_text(st, seps) + span.0,
{
    if st.2 + byte_len(span.0) <= width {
        let ps = lines_texts(st.0).push(spans_text(st.1));
        let post = place_span(width, st, span);
        lemma_spans_text_push(st.1, span);
        let ps2 = lines_texts(post.0).push(spans_text(post.1));
        assert(ps2 =~= ps.update(ps.len() - 1, ps.last() + span.0));
        if ps.len() >= 2 {
            assert(ps2.drop_last() =~= ps.drop_last());
        }
        assert(interleave(ps2, seps) =~= interleave(ps, seps) + span.0);
        seps
    } else {
        let e = Seq::<char>::empty();
        let s1 = lemma_place_word_text(width, st, e, span.1, seps);
        let st1 = place_word(width, st, e, span.1);
        let s2 = lemma_place_chars_text(width, st1, span.0, span.1, s1);
        let st2 = place_chars(width, st1, span.0, span.1);
        let s3 = lemma_place_word_text(width, st2, e, span.1, s2);
        assert(state_text(st, seps) + e + span.0 + e =~= state_text(st, seps) + span.0);
        s3
    }
}

proof fn lemma_place_spans_text(width: nat, st: WrapState, spans: Seq<SpanV>, seps: Seq<char>) -> (seps2: Seq<char>)
    requires
        st.2 <= width,
        seps.len() == st.0.len(),
    ensures
        seps2.len() == place_spans(width, st, spans).0.len(),
        state_text(place_spans(width, st, spans), seps2) == state_text(st, seps) + spans_text(spans),
    decreases spans.len(),
{
    if spans.len() == 0 {
        assert(state_text(st, seps) + spans_text(spans) =~= state_text(st, seps));
        seps
    } else {
        let s1 = lemma_place_span_text(width, st, spans[0], seps);
        let st1 = place_span(width, st, spans[0]);
        let s2 = lemma_place_spans_text(width, st1, spans.drop_first(), s1);
        assert(state_text(st, seps) + spans[0].0 + spans_text(spans.drop_first()) =~= state_text(st, seps) + spans_text(spans));
        s2
    }
}

/// Wrapping a line keeps its text in order: the texts of the wrapped lines,
/// with one character between each two of them (the character at which the
/// earlier line was full, which is not shown), give back the line's text.
pub proof fn lemma_wrap_line_keeps_text(width: nat, spans: Seq<SpanV>)
    ensures
        exists|seps: Seq<char>|
            #![trigger interleave(lines_texts(wrapped_line(width, spans)), seps)]
            seps.len() + 1 == wrapped_line(width, spans).len() && interleave(lines_texts(wrapped_line(width, spans)), seps)
                == spans_text(spans),
{
    let st0: WrapState = (Seq::empty(), Seq::empty(), 0);
    let seps = lemma_place_spans_text(width, st0, spans, Seq::empty());
    let st = place_spans(width, st0, spans);
    assert(spans_text(Seq::<SpanV>::empty()) == Seq::<char>::empty());
    assert(lines_texts(st0.0).push(spans_text(st0.1)) =~= seq![Seq::<char>::empty()]);
    assert(state_text(st0, Seq::empty()) == Seq::<char>::empty());
    assert(Seq::<char>::empty() + spans_text(spans) =~= spans_text(spans));
    assert(lines_texts(wrapped_line(width, spans)) =~= lines_texts(st.0).push(spans_text(st.1)));
    assert(interleave(lines_texts(wrapped_line(width, spans)), seps) == spans_text(spans));
}

} // verus!
