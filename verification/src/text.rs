//! Text helpers shared by the protocol, the server and the client: trimming,
//! splitting on a separator and joining, all stated over `Seq<char>`.
use vstd::prelude::*;
use vstd::string::*;

verus! {

/// The bytes that `u8::is_ascii_whitespace` accepts: space, tab, line feed,
/// form feed and carriage return.
pub open spec fn is_ascii_ws(c: char) -> bool {
    c == ' ' || c == '\t' || c == '\n' || c == '\x0C' || c == '\r'
}

/// The characters with the Unicode `White_Space` property, which is what
/// `char::is_whitespace` tests.
pub open spec fn is_unicode_ws(c: char) -> bool {
    ||| ('\t' <= c && c <= '\r')
    ||| c == ' '
    ||| c == '\u{85}'
    ||| c == '\u{A0}'
    ||| c == '\u{1680}'
    ||| ('\u{2000}' <= c && c <= '\u{200A}')
    ||| c == '\u{2028}'
    ||| c == '\u{2029}'
    ||| c == '\u{202F}'
    ||| c == '\u{205F}'
    ||| c == '\u{3000}'
}

/// Drops the leading characters that `ws` accepts.
pub open spec fn trim_start_by(s: Seq<char>, ws: spec_fn(char) -> bool) -> Seq<char>
    decreases s.len(),
{
    if s.len() > 0 && ws(s[0]) {
        trim_start_by(s.drop_first(), ws)
    } else {
        s
    }
}

/// Drops the trailing characters that `ws` accepts.
pub open spec fn trim_end_by(s: Seq<char>, ws: spec_fn(char) -> bool) -> Seq<char>
    decreases s.len(),
{
    if s.len() > 0 && ws(s.last()) {
        trim_end_by(s.drop_last(), ws)
    } else {
        s
    }
}

/// `str::trim_ascii`: leading and trailing ASCII whitespace removed.
pub open spec fn trim_ascii(s: Seq<char>) -> Seq<char> {
    trim_end_by(trim_start_by(s, |c: char| is_ascii_ws(c)), |c: char| is_ascii_ws(c))
}

/// `str::trim`: leading and trailing Unicode whitespace removed.
pub open spec fn trim_unicode(s: Seq<char>) -> Seq<char> {
    trim_end_by(trim_start_by(s, |c: char| is_unicode_ws(c)), |c: char| is_unicode_ws(c))
}

/// The pieces of `s` between occurrences of `sep`, as `str::split` with a
/// one-character pattern yields them (there is always at least one piece).
pub open spec fn split_on(s: Seq<char>, sep: char) -> Seq<Seq<char>>
    decreases s.len(),
{
    if s.len() == 0 {
        seq![Seq::<char>::empty()]
    } else {
        let prev = split_on(s.drop_last(), sep);
        if s.last() == sep {
            prev.push(Seq::<char>::empty())
        } else {
            prev.update(prev.len() - 1, prev.last().push(s.last()))
        }
    }
}

/// The pieces joined with `sep` between neighbours, as `[&str]::join` does.
pub open spec fn join_with(pieces: Seq<Seq<char>>, sep: Seq<char>) -> Seq<char>
    decreases pieces.len(),
{
    if pieces.len() == 0 {
        Seq::<char>::empty()
    } else if pieces.len() == 1 {
        pieces[0]
    } else {
        join_with(pieces.drop_last(), sep) + sep + pieces.last()
    }
}

/// Whether `s` begins with `prefix`.
pub open spec fn starts_with(s: Seq<char>, prefix: Seq<char>) -> bool {
    prefix.len() <= s.len() && s.subrange(0, prefix.len() as int) == prefix
}

pub proof fn lemma_split_on_nonempty(s: Seq<char>, sep: char)
    ensures
        split_on(s, sep).len() >= 1,
    decreases s.len(),
{
    if s.len() > 0 {
        lemma_split_on_nonempty(s.drop_last(), sep);
    }
}

/// Joining the pieces of a split with the separator gives the text back.
pub proof fn lemma_join_split(s: Seq<char>, sep: char)
    ensures
        join_with(split_on(s, sep), seq![sep]) == s,
    decreases s.len(),
{
    if s.len() > 0 {
        let t = s.drop_last();
        lemma_join_split(t, sep);
        lemma_split_on_nonempty(t, sep);
        let prev = split_on(t, sep);
        if s.last() == sep {
            assert(split_on(s, sep).drop_last() =~= prev);
            assert(s =~= t + seq![sep] + Seq::<char>::empty());
        } else {
            let cur = split_on(s, sep);
            lemma_join_last_extend(prev, seq![sep], s.last());
            assert(s =~= t.push(s.last()));
        }
    }
}

/// No piece of a split holds the separator.
pub proof fn lemma_split_on_no_sep(s: Seq<char>, sep: char)
    ensures
        forall|k: int| 0 <= k < split_on(s, sep).len() ==> !(#[trigger] split_on(s, sep)[k]).contains(sep),
    decreases s.len(),
{
    if s.len() > 0 {
        let t = s.drop_last();
        lemma_split_on_no_sep(t, sep);
        lemma_split_on_nonempty(t, sep);
        let prev = split_on(t, sep);
        let cur = split_on(s, sep);
        assert forall|k: int| 0 <= k < cur.len() implies !(#[trigger] cur[k]).contains(sep) by {
            if s.last() == sep {
                if k < prev.len() {
                    assert(cur[k] == prev[k]);
                } else {
                    assert(cur[k] == Seq::<char>::empty());
                }
            } else if k < prev.len() - 1 {
                assert(cur[k] == prev[k]);
            } else {
                let p = prev.last().push(s.last());
                assert(cur[k] == p);
                if p.contains(sep) {
                    let j = choose|j: int| 0 <= j < p.len() && p[j] == sep;
                    assert(prev.last()[j] == sep);
                    assert(prev[prev.len() - 1].contains(sep));
                }
            }
        }
    }
}

/// A text without the separator splits into itself alone.
pub proof fn lemma_split_on_plain(b: Seq<char>, sep: char)
    requires
        !b.contains(sep),
    ensures
        split_on(b, sep) == seq![b],
    decreases b.len(),
{
    if b.len() == 0 {
        assert(b =~= Seq::<char>::empty());
        assert(seq![b] =~= seq![Seq::<char>::empty()]);
    } else {
        let t = b.drop_last();
        assert(!t.contains(sep)) by {
            if t.contains(sep) {
                let j = choose|j: int| 0 <= j < t.len() && t[j] == sep;
                assert(b[j] == sep);
            }
        }
        lemma_split_on_plain(t, sep);
        assert(b.last() != sep) by {
            assert(b[b.len() - 1] == b.last());
        }
        assert(t.push(b.last()) =~= b);
        assert(seq![t].update(0, t.push(b.last())) =~= seq![b]);
    }
}

/// Splitting `a`, the separator, then a text `b` without it, gives the
/// pieces of `a` followed by `b`.
pub proof fn lemma_split_on_append(a: Seq<char>, b: Seq<char>, sep: char)
    requires
        !b.contains(sep),
    ensures
        split_on(a + seq![sep] + b, sep) == split_on(a, sep).push(b),
    decreases b.len(),
{
    let s = a + seq![sep] + b;
    if b.len() == 0 {
        assert(s.drop_last() =~= a);
        assert(s.last() == sep);
        assert(b =~= Seq::<char>::empty());
    } else {
        let b2 = b.drop_last();
        assert(!b2.contains(sep)) by {
            if b2.contains(sep) {
                let j = choose|j: int| 0 <= j < b2.len() && b2[j] == sep;
                assert(b[j] == sep);
            }
        }
        lemma_split_on_append(a, b2, sep);
        assert(s.drop_last() =~= a + seq![sep] + b2);
        assert(s.last() == b.last());
        assert(b.last() != sep) by {
            assert(b[b.len() - 1] == b.last());
        }
        let prev = split_on(a, sep).push(b2);
        assert(b2.push(b.last()) =~= b);
        assert(prev.last() == b2);
        assert(prev.update(prev.len() - 1, prev.last().push(b.last())) =~= split_on(a, sep).push(b));
    }
}

/// Pieces without the separator, joined with it, split back into the same
/// pieces.
pub proof fn lemma_split_join(pieces: Seq<Seq<char>>, sep: char)
    requires
        pieces.len() >= 1,
        forall|k: int| 0 <= k < pieces.len() ==> !(#[trigger] pieces[k]).contains(sep),
    ensures
        split_on(join_with(pieces, seq![sep]), sep) == pieces,
    decreases pieces.len(),
{
    if pieces.len() == 1 {
        lemma_split_on_plain(pieces[0], sep);
        assert(seq![pieces[0]] =~= pieces);
    } else {
        let front = pieces.drop_last();
        assert forall|k: int| 0 <= k < front.len() implies !(#[trigger] front[k]).contains(sep) by {
            assert(front[k] == pieces[k]);
        }
        lemma_split_join(front, sep);
        assert(!pieces[pieces.len() - 1].contains(sep));
        lemma_split_on_append(join_with(front, seq![sep]), pieces.last(), sep);
        assert(front.push(pieces.last()) =~= pieces);
    }
}

/// Appending a character to the last piece appends it to the join.
pub proof fn lemma_join_last_extend(pieces: Seq<Seq<char>>, sep: Seq<char>, c: char)
    requires
        pieces.len() >= 1,
    ensures
        join_with(pieces.update(pieces.len() - 1, pieces.last().push(c)), sep)
            == join_with(pieces, sep).push(c),
{
    let upd = pieces.update(pieces.len() - 1, pieces.last().push(c));
    if pieces.len() == 1 {
        assert(upd[0] == pieces[0].push(c));
    } else {
        assert(upd.drop_last() =~= pieces.drop_last());
        assert(join_with(upd, sep) == join_with(pieces.drop_last(), sep) + sep + pieces.last().push(
            c,
        ));
        assert((join_with(pieces.drop_last(), sep) + sep + pieces.last()).push(c)
            =~= join_with(pieces.drop_last(), sep) + sep + pieces.last().push(c));
    }
}

/// Copies the characters of a string slice into a vector.
pub fn chars_of(s: &str) -> (res: Vec<char>)
    ensures
        res@ == s@,
{
    let n = s.unicode_len();
    let mut res: Vec<char> = Vec::new();
    for i in 0..n
        invariant
            n == s@.len(),
            res@ == s@.subrange(0, i as int),
    {
        res.push(s.get_char(i));
        assert(res@ =~= s@.subrange(0, i + 1));
    }
    assert(res@ =~= s@);
    res
}

/// Owned copy of the characters `from..to` of `s`.
pub fn substring(s: &str, from: usize, to: usize) -> (res: String)
    requires
        from <= to <= s@.len(),
    ensures
        res@ == s@.subrange(from as int, to as int),
{
    s.substring_char(from, to).to_owned()
}

proof fn lemma_trim_start_step(s: Seq<char>, i: int, ws: spec_fn(char) -> bool)
    requires
        0 <= i < s.len(),
        ws(s[i]),
        trim_start_by(s, ws) == trim_start_by(s.subrange(i, s.len() as int), ws),
    ensures
        trim_start_by(s, ws) == trim_start_by(s.subrange(i + 1, s.len() as int), ws),
{
    assert(s.subrange(i, s.len() as int).drop_first() =~= s.subrange(i + 1, s.len() as int));
}

proof fn lemma_trim_end_step(s: Seq<char>, j: int, ws: spec_fn(char) -> bool)
    requires
        0 < j <= s.len(),
        ws(s[j - 1]),
        trim_end_by(s, ws) == trim_end_by(s.subrange(0, j), ws),
    ensures
        trim_end_by(s, ws) == trim_end_by(s.subrange(0, j - 1), ws),
{
    assert(s.subrange(0, j).drop_last() =~= s.subrange(0, j - 1));
}

/// The bounds `(start, end)` of `s` with the characters that `ws` accepts
/// removed from both ends.
fn trim_bounds(s: &str, ws_ascii: bool) -> (res: (usize, usize))
    ensures
        res.0 <= res.1 <= s@.len(),
        ws_ascii ==> s@.subrange(res.0 as int, res.1 as int) == trim_ascii(s@),
        !ws_ascii ==> s@.subrange(res.0 as int, res.1 as int) == trim_unicode(s@),
{
    let ghost ws: spec_fn(char) -> bool = if ws_ascii {
        |c: char| is_ascii_ws(c)
    } else {
        |c: char| is_unicode_ws(c)
    };
    let n = s.unicode_len();
    let mut i: usize = 0;
    assert(s@.subrange(0, n as int) =~= s@);
    while i < n && is_ws_exec(s.get_char(i), ws_ascii)
        invariant
            n == s@.len(),
            i <= n,
            ws == (if ws_ascii { |c: char| is_ascii_ws(c) } else { |c: char| is_unicode_ws(c) }),
            trim_start_by(s@, ws) == trim_start_by(s@.subrange(i as int, n as int), ws),
        decreases n - i,
    {
        proof {
            lemma_trim_start_step(s@, i as int, ws);
        }
        i = i + 1;
    }
    let ghost front = s@.subrange(i as int, n as int);
    assert(trim_start_by(front, ws) == front);
    let mut j: usize = n;
    assert(front.subrange(0, (j - i) as int) =~= front);
    while j > i && is_ws_exec(s.get_char(j - 1), ws_ascii)
        invariant
            n == s@.len(),
            i <= j <= n,
            front == s@.subrange(i as int, n as int),
            ws == (if ws_ascii { |c: char| is_ascii_ws(c) } else { |c: char| is_unicode_ws(c) }),
            trim_end_by(front, ws) == trim_end_by(front.subrange(0, (j - i) as int), ws),
        decreases j,
    {
        proof {
            lemma_trim_end_step(front, (j - i) as int, ws);
        }
        j = j - 1;
    }
    assert(trim_end_by(front.subrange(0, (j - i) as int), ws) == front.subrange(
        0,
        (j - i) as int,
    ));
    assert(front.subrange(0, (j - i) as int) =~= s@.subrange(i as int, j as int));
    (i, j)
}

fn is_ws_exec(c: char, ws_ascii: bool) -> (res: bool)
    ensures
        ws_ascii ==> res == is_ascii_ws(c),
        !ws_ascii ==> res == is_unicode_ws(c),
{
    if ws_ascii {
        c == ' ' || c == '\t' || c == '\n' || c == '\x0C' || c == '\r'
    } else {
        ('\t' <= c && c <= '\r') || c == ' ' || c == '\u{85}' || c == '\u{A0}' || c == '\u{1680}'
            || ('\u{2000}' <= c && c <= '\u{200A}') || c == '\u{2028}' || c == '\u{2029}' || c
            == '\u{202F}' || c == '\u{205F}' || c == '\u{3000}'
    }
}

/// `str::trim_ascii`, as an owned string.
pub fn trim_ascii_string(s: &str) -> (res: String)
    ensures
        res@ == trim_ascii(s@),
{
    let (a, b) = trim_bounds(s, true);
    substring(s, a, b)
}

/// `str::trim`, as an owned string.
pub fn trim_string(s: &str) -> (res: String)
    ensures
        res@ == trim_unicode(s@),
{
    let (a, b) = trim_bounds(s, false);
    substring(s, a, b)
}

/// Whether `s` begins with `prefix`.
pub fn str_starts_with(s: &str, prefix: &str) -> (res: bool)
    ensures
        res == starts_with(s@, prefix@),
{
    let n = s.unicode_len();
    let m = prefix.unicode_len();
    if m > n {
        return false;
    }
    for i in 0..m
        invariant
            n == s@.len(),
            m == prefix@.len(),
            m <= n,
            forall|k: int| 0 <= k < i ==> s@[k] == prefix@[k],
    {
        if s.get_char(i) != prefix.get_char(i) {
            assert(s@.subrange(0, m as int)[i as int] != prefix@[i as int]);
            return false;
        }
    }
    assert(s@.subrange(0, m as int) =~= prefix@);
    true
}

/// Whether two string slices hold the same characters.
pub fn str_eq(a: &str, b: &str) -> (res: bool)
    ensures
        res == (a@ == b@),
{
    let n = a.unicode_len();
    let m = b.unicode_len();
    if n != m {
        return false;
    }
    for i in 0..n
        invariant
            n == a@.len(),
            m == b@.len(),
            n == m,
            forall|k: int| 0 <= k < i ==> a@[k] == b@[k],
    {
        if a.get_char(i) != b.get_char(i) {
            return false;
        }
    }
    assert(a@ =~= b@);
    true
}

/// `s.split(sep)` collected into owned pieces.
pub fn split_string(s: &str, sep: char) -> (res: Vec<String>)
    ensures
        res@.len() == split_on(s@, sep).len(),
        forall|k: int| 0 <= k < res@.len() ==> #[trigger] res@[k]@ == split_on(s@, sep)[k],
{
    let n = s.unicode_len();
    let mut res: Vec<String> = Vec::new();
    let mut start: usize = 0;
    for i in 0..n
        invariant
            n == s@.len(),
            start <= i,
            res@.len() + 1 == split_on(s@.subrange(0, i as int), sep).len(),
            forall|k: int| 0 <= k < res@.len() ==> #[trigger] res@[k]@ == split_on(s@.subrange(0, i as int), sep)[k],
            split_on(s@.subrange(0, i as int), sep).last() == s@.subrange(start as int, i as int),
    {
        let c = s.get_char(i);
        let ghost pre = s@.subrange(0, i as int);
        let ghost cur = s@.subrange(0, i + 1);
        assert(cur.drop_last() =~= pre);
        assert(cur.last() == c);
        if c == sep {
            let piece = substring(s, start, i);
            res.push(piece);
            start = i + 1;
            assert(s@.subrange(start as int, i + 1) =~= Seq::<char>::empty());
        } else {
            assert(s@.subrange(start as int, i + 1) =~= s@.subrange(start as int, i as int).push(c));
        }
    }
    let last = substring(s, start, n);
    res.push(last);
    assert(s@.subrange(0, n as int) =~= s@);
    res
}

/// The pieces from `start` on, joined with `sep` between neighbours.
pub fn join_strings_from(pieces: &[String], start: usize, sep: &str) -> (res: String)
    requires
        start <= pieces@.len(),
    ensures
        res@ == join_with(pieces@.map_values(|p: String| p@).subrange(start as int, pieces@.len() as int), sep@),
{
    let ghost views = pieces@.map_values(|p: String| p@);
    let mut res = String::new();
    let n = pieces.len();
    for i in start..n
        invariant
            n == pieces@.len(),
            start <= i <= n,
            views == pieces@.map_values(|p: String| p@),
            res@ == join_with(views.subrange(start as int, i as int), sep@),
    {
        assert(views.subrange(start as int, i + 1).drop_last() =~= views.subrange(start as int, i as int));
        if i > start {
            res.append(sep);
        }
        res.append(pieces[i].as_str());
    }
    res
}

/// Pieces joined with `sep` between neighbours.
pub fn join_strings(pieces: &[String], sep: &str) -> (res: String)
    ensures
        res@ == join_with(pieces@.map_values(|p: String| p@), sep@),
{
    let ghost views = pieces@.map_values(|p: String| p@);
    let mut res = String::new();
    let n = pieces.len();
    for i in 0..n
        invariant
            n == pieces@.len(),
            views == pieces@.map_values(|p: String| p@),
            res@ == join_with(views.subrange(0, i as int), sep@),
    {
        assert(views.subrange(0, i + 1).drop_last() =~= views.subrange(0, i as int));
        if i > 0 {
            res.append(sep);
        }
        res.append(pieces[i].as_str());
    }
    assert(views.subrange(0, n as int) =~= views);
    res
}

} // verus!
