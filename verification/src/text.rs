use vstd::prelude::*;
use vstd::string::*;

verus! {

/// Appends one character to a string.
#[verifier::external_body]
pub(crate) fn push_char(s: &mut String, c: char)
    ensures
        final(s)@ == old(s)@.push(c),
{
    s.push(c);
}

/// The characters of `s`, in order.
pub fn chars_of(s: &str) -> (r: Vec<char>)
    ensures
        r@ == s@,
{
    let mut r: Vec<char> = Vec::new();
    for c in it: s.chars()
        invariant
            r@ == it.seq().take(it.index() as int),
            it.seq() == s@,
    {
        r.push(c);
    }
    r
}

/// The string made of `chars[lo..hi]`.
pub fn string_of(chars: &Vec<char>, lo: usize, hi: usize) -> (r: String)
    requires
        lo <= hi <= chars.len(),
    ensures
        r@ == chars@.subrange(lo as int, hi as int),
{
    let mut r = String::new();
    let mut i = lo;
    while i < hi
        invariant
            lo <= i <= hi <= chars.len(),
            r@ == chars@.subrange(lo as int, i as int),
        decreases hi - i,
    {
        push_char(&mut r, chars[i]);
        assert(chars@.subrange(lo as int, i + 1) =~= chars@.subrange(lo as int, i as int).push(
            chars@[i as int],
        ));
        i += 1;
    }
    r
}

/// The separators that the library splits text on, one character each.
#[derive(Clone, Copy, PartialEq, Eq, Structural)]
pub enum Sep {
    /// `'\n'`
    Newline,
    /// `'.'`
    Dot,
    /// Any character with the Unicode `White_Space` property.
    Whitespace,
}

/// Whether `c` has the Unicode `White_Space` property, which is what
/// `char::is_whitespace` tests.
pub open spec fn is_white_space(c: char) -> bool {
    ||| ('\u{9}' <= c && c <= '\u{d}')
    ||| c == ' '
    ||| c == '\u{85}'
    ||| c == '\u{a0}'
    ||| c == '\u{1680}'
    ||| ('\u{2000}' <= c && c <= '\u{200a}')
    ||| c == '\u{2028}'
    ||| c == '\u{2029}'
    ||| c == '\u{202f}'
    ||| c == '\u{205f}'
    ||| c == '\u{3000}'
}

/// Whether `c` is a separator of kind `k`.
pub open spec fn is_sep(k: Sep, c: char) -> bool {
    match k {
        Sep::Newline => c == '\n',
        Sep::Dot => c == '.',
        Sep::Whitespace => is_white_space(c),
    }
}

/// Whether `c` has the Unicode `White_Space` property.
pub fn white_space(c: char) -> (r: bool)
    ensures
        r == is_white_space(c),
{
    ('\u{9}' <= c && c <= '\u{d}') || c == ' ' || c == '\u{85}' || c == '\u{a0}' || c
        == '\u{1680}' || ('\u{2000}' <= c && c <= '\u{200a}') || c == '\u{2028}' || c
        == '\u{2029}' || c == '\u{202f}' || c == '\u{205f}' || c == '\u{3000}'
}

/// Whether `c` is a separator of kind `k`.
pub fn separates(k: Sep, c: char) -> (r: bool)
    ensures
        r == is_sep(k, c),
{
    match k {
        Sep::Newline => c == '\n',
        Sep::Dot => c == '.',
        Sep::Whitespace => white_space(c),
    }
}

/// `l` with `p` put in front of its first piece.
pub open spec fn prepend_first(p: Seq<char>, l: Seq<Seq<char>>) -> Seq<Seq<char>> {
    l.update(0, p + l[0])
}

/// The pieces between the separators of kind `k`, as `str::split` gives them
/// for a one-character pattern: one more piece than there are separators.
pub open spec fn split_by(s: Seq<char>, k: Sep) -> Seq<Seq<char>>
    decreases s.len(),
{
    if s.len() == 0 {
        seq![Seq::empty()]
    } else if is_sep(k, s[0]) {
        seq![Seq::empty()] + split_by(s.drop_first(), k)
    } else {
        prepend_first(seq![s[0]], split_by(s.drop_first(), k))
    }
}

/// The pieces between the `"\r\n"` of `s`, as `str::split("\r\n")` gives them.
pub open spec fn split_crlf(s: Seq<char>) -> Seq<Seq<char>>
    decreases s.len(),
{
    if s.len() == 0 {
        seq![Seq::empty()]
    } else if s.len() >= 2 && s[0] == '\r' && s[1] == '\n' {
        seq![Seq::empty()] + split_crlf(s.skip(2))
    } else {
        prepend_first(seq![s[0]], split_crlf(s.drop_first()))
    }
}

pub proof fn lemma_split_by_nonempty(s: Seq<char>, k: Sep)
    ensures
        split_by(s, k).len() >= 1,
    decreases s.len(),
{
    if s.len() > 0 {
        lemma_split_by_nonempty(s.drop_first(), k);
    }
}

pub proof fn lemma_split_crlf_nonempty(s: Seq<char>)
    ensures
        split_crlf(s).len() >= 1,
    decreases s.len(),
{
    if s.len() >= 2 && s[0] == '\r' && s[1] == '\n' {
        lemma_split_crlf_nonempty(s.skip(2));
    } else if s.len() > 0 {
        lemma_split_crlf_nonempty(s.drop_first());
    }
}

proof fn lemma_prepend_twice(p: Seq<char>, q: Seq<char>, l: Seq<Seq<char>>)
    requires
        l.len() >= 1,
    ensures
        prepend_first(p, prepend_first(q, l)) == prepend_first(p + q, l),
{
    assert(p + (q + l[0]) =~= (p + q) + l[0]);
    assert(prepend_first(p, prepend_first(q, l)) =~= prepend_first(p + q, l));
}

proof fn lemma_prepend_empty(l: Seq<Seq<char>>)
    requires
        l.len() >= 1,
    ensures
        prepend_first(Seq::empty(), l) == l,
{
    assert(Seq::<char>::empty() + l[0] =~= l[0]);
    assert(prepend_first(Seq::empty(), l) =~= l);
}

proof fn lemma_prepend_cons(p: Seq<char>, l: Seq<Seq<char>>)
    ensures
        prepend_first(p, seq![Seq::empty()] + l) == seq![p] + l,
{
    assert(p + Seq::<char>::empty() =~= p);
    assert(prepend_first(p, seq![Seq::empty()] + l) =~= seq![p] + l);
}

/// The texts that the bounds `b` mark out in `chars`.
pub open spec fn pieces_of(chars: Seq<char>, b: Seq<(usize, usize)>) -> Seq<Seq<char>> {
    b.map_values(|p: (usize, usize)| chars.subrange(p.0 as int, p.1 as int))
}

/// Every bound of `b` lies between `lo` and `hi`, its start before its end.
pub open spec fn bounds_within(b: Seq<(usize, usize)>, lo: int, hi: int) -> bool {
    forall|j: int| 0 <= j < b.len() ==> lo <= #[trigger] b[j].0 <= b[j].1 <= hi
}

/// The bounds of the pieces of `chars[lo..hi]` between separators of kind `k`.
pub fn split_bounds(chars: &Vec<char>, lo: usize, hi: usize, k: Sep) -> (r: Vec<(usize, usize)>)
    requires
        lo <= hi <= chars.len(),
    ensures
        bounds_within(r@, lo as int, hi as int),
        pieces_of(chars@, r@) == split_by(chars@.subrange(lo as int, hi as int), k),
{
    let ghost s = chars@.subrange(lo as int, hi as int);
    let mut r: Vec<(usize, usize)> = Vec::new();
    let mut start = lo;
    let mut i = lo;
    proof {
        lemma_split_by_nonempty(s, k);
        lemma_prepend_empty(split_by(s, k));
    }
    while i < hi
        invariant
            lo <= start <= i <= hi <= chars.len(),
            s == chars@.subrange(lo as int, hi as int),
            bounds_within(r@, lo as int, start as int),
            split_by(s, k) == pieces_of(chars@, r@) + prepend_first(
                chars@.subrange(start as int, i as int),
                split_by(chars@.subrange(i as int, hi as int), k),
            ),
        decreases hi - i,
    {
        let ghost t = chars@.subrange(i as int, hi as int);
        let ghost t1 = chars@.subrange(i + 1, hi as int);
        let ghost p = chars@.subrange(start as int, i as int);
        assert(t.drop_first() =~= t1);
        assert(t[0] == chars@[i as int]);
        proof {
            lemma_split_by_nonempty(t1, k);
        }
        if separates(k, chars[i]) {
            proof {
                lemma_prepend_cons(p, split_by(t1, k));
                lemma_prepend_empty(split_by(t1, k));
            }
            let ghost old_r = r@;
            r.push((start, i));
            assert(pieces_of(chars@, r@) =~= pieces_of(chars@, old_r).push(p));
            assert(pieces_of(chars@, old_r) + (seq![p] + split_by(t1, k)) =~= pieces_of(
                chars@,
                r@,
            ) + split_by(t1, k));
            start = i + 1;
            assert(chars@.subrange(start as int, start as int) =~= Seq::<char>::empty());
        } else {
            proof {
                lemma_prepend_twice(p, seq![chars@[i as int]], split_by(t1, k));
            }
            assert(p + seq![chars@[i as int]] =~= chars@.subrange(start as int, i + 1));
        }
        i += 1;
    }
    let ghost last = chars@.subrange(start as int, hi as int);
    assert(chars@.subrange(hi as int, hi as int) =~= Seq::<char>::empty());
    assert(prepend_first(last, seq![Seq::<char>::empty()]) =~= seq![last]) by {
        assert(last + Seq::<char>::empty() =~= last);
    }
    let ghost old_r = r@;
    r.push((start, hi));
    assert(pieces_of(chars@, r@) =~= pieces_of(chars@, old_r).push(last));
    r
}

/// The bounds of the pieces of `chars[lo..hi]` between the `"\r\n"` in it.
pub fn split_crlf_bounds(chars: &Vec<char>, lo: usize, hi: usize) -> (r: Vec<(usize, usize)>)
    requires
        lo <= hi <= chars.len(),
    ensures
        bounds_within(r@, lo as int, hi as int),
        pieces_of(chars@, r@) == split_crlf(chars@.subrange(lo as int, hi as int)),
{
    let ghost s = chars@.subrange(lo as int, hi as int);
    let mut r: Vec<(usize, usize)> = Vec::new();
    let mut start = lo;
    let mut i = lo;
    proof {
        lemma_split_crlf_nonempty(s);
        lemma_prepend_empty(split_crlf(s));
    }
    while i < hi
        invariant
            lo <= start <= i <= hi <= chars.len(),
            s == chars@.subrange(lo as int, hi as int),
            bounds_within(r@, lo as int, start as int),
            split_crlf(s) == pieces_of(chars@, r@) + prepend_first(
                chars@.subrange(start as int, i as int),
                split_crlf(chars@.subrange(i as int, hi as int)),
            ),
        decreases hi - i,
    {
        let ghost t = chars@.subrange(i as int, hi as int);
        let ghost p = chars@.subrange(start as int, i as int);
        assert(t[0] == chars@[i as int]);
        if i + 1 < hi && chars[i] == '\r' && chars[i + 1] == '\n' {
            let ghost t2 = chars@.subrange(i + 2, hi as int);
            assert(t.skip(2) =~= t2);
            assert(t[1] == chars@[i + 1]);
            proof {
                lemma_split_crlf_nonempty(t2);
                lemma_prepend_cons(p, split_crlf(t2));
                lemma_prepend_empty(split_crlf(t2));
            }
            let ghost old_r = r@;
            r.push((start, i));
            assert(pieces_of(chars@, r@) =~= pieces_of(chars@, old_r).push(p));
            assert(pieces_of(chars@, old_r) + (seq![p] + split_crlf(t2)) =~= pieces_of(
                chars@,
                r@,
            ) + split_crlf(t2));
            assert(bounds_within(r@, lo as int, (i + 2) as int)) by {
                assert forall|j: int| 0 <= j < r@.len() implies lo <= #[trigger] r@[j].0 <= r@[j].1
                    <= i + 2 by {
                    if j < old_r.len() {
                        assert(r@[j] == old_r[j]);
                    }
                }
            }
            start = i + 2;
            i = i + 2;
            assert(chars@.subrange(start as int, start as int) =~= Seq::<char>::empty());
        } else {
            let ghost t1 = chars@.subrange(i + 1, hi as int);
            assert(t.drop_first() =~= t1);
            assert(!(t.len() >= 2 && t[0] == '\r' && t[1] == '\n')) by {
                if t.len() >= 2 {
                    assert(t[1] == chars@[i + 1]);
                }
            }
            proof {
                lemma_split_crlf_nonempty(t1);
                lemma_prepend_twice(p, seq![chars@[i as int]], split_crlf(t1));
            }
            assert(p + seq![chars@[i as int]] =~= chars@.subrange(start as int, i + 1));
            i += 1;
        }
    }
    let ghost last = chars@.subrange(start as int, hi as int);
    assert(chars@.subrange(hi as int, hi as int) =~= Seq::<char>::empty());
    assert(prepend_first(last, seq![Seq::<char>::empty()]) =~= seq![last]) by {
        assert(last + Seq::<char>::empty() =~= last);
    }
    let ghost old_r = r@;
    r.push((start, hi));
    assert(pieces_of(chars@, r@) =~= pieces_of(chars@, old_r).push(last));
    r
}

/// Whether a piece is not empty.
pub open spec fn word_pred() -> spec_fn(Seq<char>) -> bool {
    |w: Seq<char>| w.len() > 0
}

/// The words of `s`: its pieces between white space that are not empty, as
/// `str::split_whitespace` gives them.
pub open spec fn words(s: Seq<char>) -> Seq<Seq<char>> {
    split_by(s, Sep::Whitespace).filter(word_pred())
}

/// The bounds of the words of `chars[lo..hi]`.
pub fn word_bounds(chars: &Vec<char>, lo: usize, hi: usize) -> (r: Vec<(usize, usize)>)
    requires
        lo <= hi <= chars.len(),
    ensures
        bounds_within(r@, lo as int, hi as int),
        pieces_of(chars@, r@) == words(chars@.subrange(lo as int, hi as int)),
{
    let all = split_bounds(chars, lo, hi, Sep::Whitespace);
    let ghost pieces = pieces_of(chars@, all@);
    let mut r: Vec<(usize, usize)> = Vec::new();
    let mut j: usize = 0;
    while j < all.len()
        invariant
            j <= all.len(),
            lo <= hi <= chars.len(),
            pieces == pieces_of(chars@, all@),
            bounds_within(all@, lo as int, hi as int),
            bounds_within(r@, lo as int, hi as int),
            pieces_of(chars@, r@) == pieces.take(j as int).filter(word_pred()),
        decreases all.len() - j,
    {
        let b = all[j];
        assert(pieces.take(j + 1) =~= pieces.take(j as int).push(pieces[j as int]));
        proof {
            pieces.take(j as int).lemma_filter_push(pieces[j as int], word_pred());
        }
        assert(pieces[j as int] == chars@.subrange(all@[j as int].0 as int, all@[j as int].1 as int));
        if b.0 < b.1 {
            let ghost old_r = r@;
            r.push(b);
            assert(pieces_of(chars@, r@) =~= pieces_of(chars@, old_r).push(pieces[j as int]));
        }
        j += 1;
    }
    assert(pieces.take(all.len() as int) =~= pieces);
    r
}

/// `l` without one `'\r'` at its end.
pub open spec fn strip_cr(l: Seq<char>) -> Seq<char> {
    if l.len() > 0 && l.last() == '\r' {
        l.drop_last()
    } else {
        l
    }
}

/// The lines of `s`, as `str::lines` gives them: split at `'\n'`, with one
/// `'\r'` before each `'\n'` taken off, and no line after a final `'\n'`.
pub open spec fn lines_of(s: Seq<char>) -> Seq<Seq<char>> {
    let raw = split_by(s, Sep::Newline);
    let ended = raw.drop_last().map_values(|l: Seq<char>| strip_cr(l));
    if raw.last().len() == 0 {
        ended
    } else {
        ended.push(raw.last())
    }
}

/// The bounds of the lines of `chars[lo..hi]`.
pub fn line_bounds(chars: &Vec<char>, lo: usize, hi: usize) -> (r: Vec<(usize, usize)>)
    requires
        lo <= hi <= chars.len(),
    ensures
        bounds_within(r@, lo as int, hi as int),
        pieces_of(chars@, r@) == lines_of(chars@.subrange(lo as int, hi as int)),
{
    let raw = split_bounds(chars, lo, hi, Sep::Newline);
    let ghost pieces = pieces_of(chars@, raw@);
    proof {
        lemma_split_by_nonempty(chars@.subrange(lo as int, hi as int), Sep::Newline);
    }
    let n = raw.len();
    let mut r: Vec<(usize, usize)> = Vec::new();
    let mut j: usize = 0;
    while j + 1 < n
        invariant
            n == raw.len(),
            n >= 1,
            j + 1 <= n,
            lo <= hi <= chars.len(),
            pieces == pieces_of(chars@, raw@),
            bounds_within(raw@, lo as int, hi as int),
            bounds_within(r@, lo as int, hi as int),
            pieces_of(chars@, r@) == pieces.take(j as int).map_values(
                |l: Seq<char>| strip_cr(l),
            ),
        decreases n - j,
    {
        let (a, b) = raw[j];
        assert(pieces[j as int] == chars@.subrange(a as int, b as int));
        let e = if a < b && chars[b - 1] == '\r' {
            assert(chars@.subrange(a as int, b - 1) =~= chars@.subrange(a as int, b as int).drop_last());
            b - 1
        } else {
            b
        };
        let ghost old_r = r@;
        r.push((a, e));
        assert(pieces_of(chars@, r@) =~= pieces_of(chars@, old_r).push(strip_cr(pieces[j as int])));
        assert(pieces.take(j + 1).map_values(|l: Seq<char>| strip_cr(l)) =~= pieces.take(
            j as int,
        ).map_values(|l: Seq<char>| strip_cr(l)).push(strip_cr(pieces[j as int])));
        j += 1;
    }
    assert(pieces.take(j as int) =~= pieces.drop_last());
    let (a, b) = raw[n - 1];
    assert(pieces.last() == chars@.subrange(a as int, b as int));
    if a < b {
        let ghost old_r = r@;
        r.push((a, b));
        assert(pieces_of(chars@, r@) =~= pieces_of(chars@, old_r).push(pieces.last()));
    }
    r
}

/// `t` stands in `s` from position `k` on.
pub open spec fn occurs_at(s: Seq<char>, t: Seq<char>, k: int) -> bool {
    0 <= k && k + t.len() <= s.len() && s.subrange(k, k + t.len()) == t
}

/// `t` is a substring of `s`, as `str::contains` tests it.
pub open spec fn contains_seq(s: Seq<char>, t: Seq<char>) -> bool {
    exists|k: int| occurs_at(s, t, k)
}

fn matches_at(chars: &Vec<char>, k: usize, t: &Vec<char>) -> (r: bool)
    requires
        k + t.len() <= chars.len(),
    ensures
        r == (chars@.subrange(k as int, k + t.len()) == t@),
{
    let mut j: usize = 0;
    while j < t.len()
        invariant
            j <= t.len(),
            k + t.len() <= chars.len(),
            forall|q: int| 0 <= q < j ==> chars@[k + q] == t@[q],
        decreases t.len() - j,
    {
        if chars[k + j] != t[j] {
            assert(chars@.subrange(k as int, k + t.len())[j as int] != t@[j as int]);
            return false;
        }
        j += 1;
    }
    assert(chars@.subrange(k as int, k + t.len()) =~= t@);
    true
}

/// Whether `t` is a substring of `chars[lo..hi]`.
pub fn contains_chars(chars: &Vec<char>, lo: usize, hi: usize, t: &Vec<char>) -> (r: bool)
    requires
        lo <= hi <= chars.len(),
    ensures
        r == contains_seq(chars@.subrange(lo as int, hi as int), t@),
{
    let ghost s = chars@.subrange(lo as int, hi as int);
    if t.len() > hi - lo {
        return false;
    }
    let last = hi - t.len();
    let mut k = lo;
    loop
        invariant
            lo <= k <= last,
            last + t.len() == hi,
            hi <= chars.len(),
            s == chars@.subrange(lo as int, hi as int),
            forall|q: int| 0 <= q < k - lo ==> !occurs_at(s, t@, q),
        decreases last - k,
    {
        assert(s.subrange(k - lo, k - lo + t.len()) =~= chars@.subrange(k as int, k + t.len()));
        if matches_at(chars, k, t) {
            assert(occurs_at(s, t@, k - lo));
            return true;
        }
        if k == last {
            assert forall|q: int| !occurs_at(s, t@, q) by {
                if 0 <= q && q + t@.len() <= s.len() {
                    assert(q <= k - lo);
                }
            }
            return false;
        }
        k += 1;
    }
}

/// Whether `a` and `b` hold the same characters.
pub fn same_text(a: &str, b: &str) -> (r: bool)
    ensures
        r == (a@ == b@),
{
    let x = chars_of(a);
    let y = chars_of(b);
    if x.len() != y.len() {
        return false;
    }
    let mut i: usize = 0;
    while i < x.len()
        invariant
            i <= x.len(),
            x.len() == y.len(),
            x@ == a@,
            y@ == b@,
            forall|k: int| 0 <= k < i ==> x@[k] == y@[k],
        decreases x.len() - i,
    {
        if x[i] != y[i] {
            return false;
        }
        i += 1;
    }
    assert(x@ =~= y@);
    true
}

} // verus!
