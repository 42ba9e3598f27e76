//! Text helpers over sequences of characters: Unicode whitespace, trimming,
//! splitting on commas and into lines and words, and substring search.

use vstd::prelude::*;

verus! {

/// The characters of `s`, in order.
pub fn chars_of(s: &str) -> (v: Vec<char>)
    ensures
        v@ == s@,
{
    let mut v: Vec<char> = Vec::new();
    for c in it: s.chars()
        invariant
            v@ == it.seq().take(it.index() as int),
    {
        v.push(c);
    }
    v
}


/// The Unicode `White_Space` property, which `char::is_whitespace` and the
/// trimming and splitting methods of `str` go by.
pub open spec fn is_white_space(c: char) -> bool {
    let v = c as u32;
    ||| 0x9 <= v <= 0xD
    ||| v == 0x20
    ||| v == 0x85
    ||| v == 0xA0
    ||| v == 0x1680
    ||| 0x2000 <= v <= 0x200A
    ||| v == 0x2028
    ||| v == 0x2029
    ||| v == 0x202F
    ||| v == 0x205F
    ||| v == 0x3000
}

/// Whether `c` is Unicode whitespace.
pub fn is_whitespace(c: char) -> (r: bool)
    ensures
        r == is_white_space(c),
{
    let v = c as u32;
    (0x9 <= v && v <= 0xD) || v == 0x20 || v == 0x85 || v == 0xA0 || v == 0x1680 || (0x2000 <= v
        && v <= 0x200A) || v == 0x2028 || v == 0x2029 || v == 0x202F || v == 0x205F || v == 0x3000
}

/// The text between two positions.
pub open spec fn span_text(s: Seq<char>, sp: (usize, usize)) -> Seq<char> {
    s.subrange(sp.0 as int, sp.1 as int)
}

/// The texts of a list of spans.
pub open spec fn spans_text(s: Seq<char>, sps: Seq<(usize, usize)>) -> Seq<Seq<char>> {
    sps.map_values(|sp: (usize, usize)| span_text(s, sp))
}

/// The spans lie inside a text of length `n`.
pub open spec fn spans_within(sps: Seq<(usize, usize)>, n: int) -> bool {
    forall|k: int| 0 <= k < sps.len() ==> #[trigger] sps[k].0 <= sps[k].1 <= n
}

/// `s` cut at every `sep`, as `str::split` does: one more piece than there
/// are separators, empty pieces included.
pub open spec fn split_on(s: Seq<char>, sep: char) -> Seq<Seq<char>>
    decreases s.len(),
{
    if s.len() == 0 {
        seq![Seq::<char>::empty()]
    } else {
        let prev = split_on(s.drop_last(), sep);
        if s.last() == sep {
            prev.push(Seq::<char>::empty())
        } else {
            prev.update(prev.len() - 1, prev.last().push(s.last()))
        }
    }
}

/// The maximal runs of non-whitespace characters of `s`, in order, as
/// `str::split_whitespace` returns them.
pub open spec fn words(s: Seq<char>) -> Seq<Seq<char>>
    decreases s.len(),
{
    if s.len() == 0 {
        Seq::empty()
    } else {
        let prev = words(s.drop_last());
        let c = s.last();
        if is_white_space(c) {
            prev
        } else if s.len() >= 2 && !is_white_space(s[s.len() - 2]) && prev.len() > 0 {
            prev.update(prev.len() - 1, prev.last().push(c))
        } else {
            prev.push(seq![c])
        }
    }
}

/// The words written one after the other, with nothing between them.
pub open spec fn joined(ws: Seq<Seq<char>>) -> Seq<char>
    decreases ws.len(),
{
    if ws.len() == 0 {
        Seq::empty()
    } else {
        joined(ws.drop_last()) + ws.last()
    }
}

/// The characters of `s` that are not whitespace, in order.
pub open spec fn visible_chars(s: Seq<char>) -> Seq<char> {
    s.filter(|c: char| !is_white_space(c))
}

/// Where each word of `s` starts, with the facts that make the words the
/// maximal runs of non-whitespace characters.
proof fn word_starts(s: Seq<char>) -> (st: Seq<int>)
    ensures
        st.len() == words(s).len(),
        joined(words(s)) == visible_chars(s),
        forall|k: int| 0 <= k < st.len() ==> #[trigger] words(s)[k].len() > 0,
        forall|k: int, t: int|
            0 <= k < st.len() && 0 <= t < words(s)[k].len() ==> !is_white_space(
                #[trigger] words(s)[k][t],
            ),
        forall|k: int|
            0 <= k < st.len() ==> {
                let a = #[trigger] st[k];
                let b = st[k] + words(s)[k].len();
                &&& 0 <= a
                &&& b <= s.len()
                &&& s.subrange(a, b) == words(s)[k]
                &&& (a == 0 || is_white_space(s[a - 1]))
                &&& (b == s.len() || is_white_space(s[b]))
            },
        forall|k1: int, k2: int|
            0 <= k1 < k2 < st.len() ==> #[trigger] st[k1] + words(s)[k1].len() < #[trigger] st[k2],
        s.len() > 0 && !is_white_space(s.last()) ==> st.len() > 0 && st.last() + words(s).last().len()
            == s.len(),
    decreases s.len(),
{
    reveal_with_fuel(Seq::<char>::filter, 1);
    if s.len() == 0 {
        assert(visible_chars(s) =~= Seq::<char>::empty());
        Seq::empty()
    } else {
        let s0 = s.drop_last();
        let prev = words(s0);
        let st0 = word_starts(s0);
        let c = s.last();
        let n = s0.len() as int;
        assert(forall|i: int| 0 <= i < n ==> s[i] == #[trigger] s0[i]);
        assert(visible_chars(s) == if !is_white_space(c) {
            visible_chars(s0).push(c)
        } else {
            visible_chars(s0)
        });
        if is_white_space(c) {
            assert forall|k: int| 0 <= k < st0.len() implies {
                let a = #[trigger] st0[k];
                let b = st0[k] + words(s)[k].len();
                &&& 0 <= a
                &&& b <= s.len()
                &&& s.subrange(a, b) == words(s)[k]
                &&& (a == 0 || is_white_space(s[a - 1]))
                &&& (b == s.len() || is_white_space(s[b]))
            } by {
                let a = st0[k];
                let b = st0[k] + prev[k].len();
                assert(s.subrange(a, b) =~= s0.subrange(a, b));
                if a > 0 {
                    assert(s[a - 1] == s0[a - 1]);
                }
                if b < n {
                    assert(s[b] == s0[b]);
                }
            }
            st0
        } else if s.len() >= 2 && !is_white_space(s[s.len() - 2]) && prev.len() > 0 {
            let m = prev.len() - 1;
            let cur = words(s);
            assert(s0.last() == s[s.len() - 2]);
            assert(st0.last() + prev.last().len() == n);
            assert(cur[m] == prev[m].push(c));
            assert(cur.drop_last() =~= prev.drop_last());
            assert(joined(prev.drop_last()) + prev[m].push(c) =~= (joined(prev.drop_last()) + prev[m]).push(c));
            assert(joined(prev) == joined(prev.drop_last()) + prev[m]);
            assert forall|k: int| 0 <= k < st0.len() implies #[trigger] cur[k].len() > 0 by {
                if k < m {
                    assert(cur[k] == prev[k]);
                }
            }
            assert forall|k: int, t: int|
                0 <= k < st0.len() && 0 <= t < cur[k].len() implies !is_white_space(
                    #[trigger] cur[k][t],
                ) by {
                if k < m {
                    assert(cur[k] == prev[k]);
                } else if t < prev[m].len() {
                    assert(cur[k][t] == prev[m][t]);
                }
            }
            assert forall|k: int| 0 <= k < st0.len() implies {
                let a = #[trigger] st0[k];
                let b = st0[k] + cur[k].len();
                &&& 0 <= a
                &&& b <= s.len()
                &&& s.subrange(a, b) == cur[k]
                &&& (a == 0 || is_white_space(s[a - 1]))
                &&& (b == s.len() || is_white_space(s[b]))
            } by {
                let a = st0[k];
                if a > 0 {
                    assert(s[a - 1] == s0[a - 1]);
                }
                if k < m {
                    let b = st0[k] + prev[k].len();
                    assert(cur[k] == prev[k]);
                    assert(b < st0[m]);
                    assert(s.subrange(a, b) =~= s0.subrange(a, b));
                    assert(s[b] == s0[b]);
                } else {
                    assert(s.subrange(a, s.len() as int) =~= s0.subrange(a, n).push(c));
                }
            }
            assert forall|k1: int, k2: int|
                0 <= k1 < k2 < st0.len() implies #[trigger] st0[k1] + cur[k1].len() < #[trigger] st0[k2] by {
                assert(cur[k1] == prev[k1]);
            }
            st0
        } else {
            let cur = words(s);
            let st = st0.push(n);
            if prev.len() > 0 {
                let m = prev.len() - 1;
                if st0[m] + prev[m].len() == n {
                    assert(s.len() >= 2);
                    assert(prev[m][prev[m].len() - 1] == s0.subrange(st0[m], n)[prev[m].len() - 1]);
                    assert(!is_white_space(s[s.len() - 2]));
                }
                assert(st0[m] + prev[m].len() < n);
            }
            assert(cur == prev.push(seq![c]));
            assert(cur.drop_last() =~= prev);
            assert(seq![c] =~= Seq::<char>::empty().push(c));
            assert forall|k: int| 0 <= k < st.len() implies {
                let a = #[trigger] st[k];
                let b = st[k] + cur[k].len();
                &&& 0 <= a
                &&& b <= s.len()
                &&& s.subrange(a, b) == cur[k]
                &&& (a == 0 || is_white_space(s[a - 1]))
                &&& (b == s.len() || is_white_space(s[b]))
            } by {
                if k < prev.len() {
                    let a = st0[k];
                    let b = st0[k] + prev[k].len();
                    assert(cur[k] == prev[k]);
                    assert(b < n) by {
                        if k < prev.len() - 1 {
                            assert(st0[k] + prev[k].len() < st0[prev.len() - 1]);
                        }
                    }
                    assert(s.subrange(a, b) =~= s0.subrange(a, b));
                    if a > 0 {
                        assert(s[a - 1] == s0[a - 1]);
                    }
                    assert(s[b] == s0[b]);
                } else {
                    assert(s.subrange(n, n + 1) =~= seq![c]);
                    if n > 0 {
                        assert(s.len() >= 2);
                        assert(is_white_space(s[s.len() - 2]) || prev.len() == 0);
                        if prev.len() == 0 && !is_white_space(s[n - 1]) {
                            assert(s0.last() == s[n - 1]);
                        }
                    }
                }
            }
            assert forall|k1: int, k2: int|
                0 <= k1 < k2 < st.len() implies #[trigger] st[k1] + cur[k1].len() < #[trigger] st[k2] by {
                assert(cur[k1] == prev[k1]);
                if k2 < prev.len() {
                    assert(st[k2] == st0[k2]);
                } else {
                    if k1 < prev.len() - 1 {
                        assert(st0[k1] + prev[k1].len() < st0[prev.len() - 1]);
                    }
                }
            }
            assert forall|k: int, t: int|
                0 <= k < st.len() && 0 <= t < cur[k].len() implies !is_white_space(
                    #[trigger] cur[k][t],
                ) by {
                if k < prev.len() {
                    assert(cur[k] == prev[k]);
                }
            }
            st
        }
    }
}

/// `w` is the text of `s` from position `a` on, with whitespace or an end
/// of `s` on either side.
pub open spec fn stands_at(s: Seq<char>, w: Seq<char>, a: int) -> bool {
    &&& 0 <= a
    &&& a + w.len() <= s.len()
    &&& s.subrange(a, a + w.len()) == w
    &&& (a == 0 || is_white_space(s[a - 1]))
    &&& (a + w.len() == s.len() || is_white_space(s[a + w.len()]))
}

/// `w` stands somewhere in `s` between whitespace or the ends of `s`.
pub open spec fn stands_in(s: Seq<char>, w: Seq<char>) -> bool {
    exists|a: int| stands_at(s, w, a)
}

/// The words of a text are its maximal runs of non-whitespace characters:
/// written one after the other they give the text without its whitespace,
/// none is empty or holds whitespace, and each stands in the text between
/// whitespace or the text's ends.
pub proof fn lemma_words_are_runs(s: Seq<char>)
    ensures
        joined(words(s)) == s.filter(|c: char| !is_white_space(c)),
        forall|k: int, t: int|
            0 <= k < words(s).len() && 0 <= t < words(s)[k].len() ==> !is_white_space(
                #[trigger] words(s)[k][t],
            ),
        forall|k: int| 0 <= k < words(s).len() ==> #[trigger] words(s)[k].len() > 0,
        forall|k: int| 0 <= k < words(s).len() ==> stands_in(s, #[trigger] words(s)[k]),
{
    let st = word_starts(s);
    assert forall|k: int| 0 <= k < words(s).len() implies stands_in(s, #[trigger] words(s)[k]) by {
        assert(stands_at(s, words(s)[k], st[k]));
    }
}

/// `s` without its leading whitespace.
pub open spec fn trim_start(s: Seq<char>) -> Seq<char>
    decreases s.len(),
{
    if s.len() > 0 && is_white_space(s[0]) {
        trim_start(s.drop_first())
    } else {
        s
    }
}

/// `s` without its trailing whitespace.
pub open spec fn trim_end(s: Seq<char>) -> Seq<char>
    decreases s.len(),
{
    if s.len() > 0 && is_white_space(s.last()) {
        trim_end(s.drop_last())
    } else {
        s
    }
}

/// `s` without leading and trailing whitespace, as `str::trim` returns it.
pub open spec fn trim(s: Seq<char>) -> Seq<char> {
    trim_end(trim_start(s))
}

/// `pat` occurs in `s` starting at position `i`.
pub open spec fn occurs_at(s: Seq<char>, pat: Seq<char>, i: int) -> bool {
    0 <= i && i + pat.len() <= s.len() && s.subrange(i, i + pat.len()) == pat
}

/// `pat` occurs somewhere in `s` (always, when `pat` is empty), as
/// `str::contains` answers.
pub open spec fn occurs_in(s: Seq<char>, pat: Seq<char>) -> bool {
    exists|i: int| occurs_at(s, pat, i)
}

/// How many times `c` occurs in `s`.
pub open spec fn count_char(s: Seq<char>, c: char) -> nat
    decreases s.len(),
{
    if s.len() == 0 {
        0
    } else {
        count_char(s.drop_last(), c) + if s.last() == c {
            1nat
        } else {
            0nat
        }
    }
}

/// Cutting at a separator gives one more piece than there are separators,
/// and no piece holds the separator.
pub proof fn lemma_split_pieces(s: Seq<char>, sep: char)
    ensures
        split_on(s, sep).len() == count_char(s, sep) + 1,
        forall|k: int, i: int|
            0 <= k < split_on(s, sep).len() && 0 <= i < split_on(s, sep)[k].len() ==> #[trigger] split_on(
                s,
                sep,
            )[k][i] != sep,
    decreases s.len(),
{
    if s.len() > 0 {
        let prev = split_on(s.drop_last(), sep);
        lemma_split_pieces(s.drop_last(), sep);
        let cur = split_on(s, sep);
        if s.last() == sep {
            assert forall|k: int, i: int|
                0 <= k < cur.len() && 0 <= i < cur[k].len() implies #[trigger] cur[k][i] != sep by {
                assert(k < prev.len());
                assert(cur[k] == prev[k]);
                assert(prev[k][i] != sep);
            }
        } else {
            let n = prev.len() - 1;
            assert forall|k: int, i: int|
                0 <= k < cur.len() && 0 <= i < cur[k].len() implies #[trigger] cur[k][i] != sep by {
                if k < n {
                    assert(cur[k] == prev[k]);
                    assert(prev[k][i] != sep);
                } else {
                    assert(cur[k] == prev[n].push(s.last()));
                    if i < prev[n].len() {
                        assert(prev[n][i] != sep);
                    }
                }
            }
        }
    }
}

/// Trimming leaves no whitespace at either end.
pub proof fn lemma_trim_ends(s: Seq<char>)
    ensures
        trim(s).len() > 0 ==> !is_white_space(trim(s)[0]) && !is_white_space(trim(s).last()),
        trim(s).len() <= s.len(),
{
    lemma_trim_start_first(s);
    lemma_trim_end_keeps_start(trim_start(s));
}

/// The trimmed text is a piece of the original.
pub proof fn lemma_trim_subrange(s: Seq<char>)
    ensures
        exists|a: int, b: int| 0 <= a <= b <= s.len() && trim(s) == s.subrange(a, b),
{
    let a = trim_start_offset(s);
    let t = s.subrange(a, s.len() as int);
    let b = trim_end_length(t);
    assert(t.subrange(0, b) =~= s.subrange(a, a + b));
    assert(trim(s) == s.subrange(a, a + b));
}

proof fn trim_start_offset(s: Seq<char>) -> (a: int)
    ensures
        0 <= a <= s.len(),
        trim_start(s) == s.subrange(a, s.len() as int),
    decreases s.len(),
{
    if s.len() > 0 && is_white_space(s[0]) {
        let a = trim_start_offset(s.drop_first());
        assert(s.drop_first().subrange(a, s.drop_first().len() as int) =~= s.subrange(
            a + 1,
            s.len() as int,
        ));
        a + 1
    } else {
        assert(s.subrange(0, s.len() as int) =~= s);
        0
    }
}

proof fn trim_end_length(t: Seq<char>) -> (b: int)
    ensures
        0 <= b <= t.len(),
        trim_end(t) == t.subrange(0, b),
    decreases t.len(),
{
    if t.len() > 0 && is_white_space(t.last()) {
        let b = trim_end_length(t.drop_last());
        assert(t.drop_last().subrange(0, b) =~= t.subrange(0, b));
        b
    } else {
        assert(t.subrange(0, t.len() as int) =~= t);
        t.len() as int
    }
}

proof fn lemma_trim_start_first(s: Seq<char>)
    ensures
        trim_start(s).len() > 0 ==> !is_white_space(trim_start(s)[0]),
        trim_start(s).len() <= s.len(),
    decreases s.len(),
{
    if s.len() > 0 && is_white_space(s[0]) {
        lemma_trim_start_first(s.drop_first());
    }
}

proof fn lemma_trim_end_keeps_start(t: Seq<char>)
    ensures
        trim_end(t).len() <= t.len(),
        trim_end(t).len() > 0 ==> trim_end(t)[0] == t[0] && !is_white_space(trim_end(t).last()),
    decreases t.len(),
{
    if t.len() > 0 && is_white_space(t.last()) {
        lemma_trim_end_keeps_start(t.drop_last());
    }
}

proof fn lemma_take_step<A>(s: Seq<A>, i: int)
    requires
        0 <= i < s.len(),
    ensures
        s.take(i + 1).drop_last() == s.take(i),
        s.take(i + 1).last() == s[i],
        s.take(i + 1).len() == i + 1,
{
    assert(s.take(i + 1).drop_last() =~= s.take(i));
}

proof fn lemma_spans_push(s: Seq<char>, sps: Seq<(usize, usize)>, sp: (usize, usize))
    ensures
        spans_text(s, sps.push(sp)) == spans_text(s, sps).push(span_text(s, sp)),
{
    assert(spans_text(s, sps.push(sp)) =~= spans_text(s, sps).push(span_text(s, sp)));
}

proof fn lemma_within_push(sps: Seq<(usize, usize)>, sp: (usize, usize), n: int)
    requires
        spans_within(sps, n),
        sp.0 <= sp.1 <= n,
    ensures
        spans_within(sps.push(sp), n),
{
    assert forall|k: int| 0 <= k < sps.push(sp).len() implies #[trigger] sps.push(sp)[k].0 <= sps.push(
        sp,
    )[k].1 <= n by {
        if k < sps.len() {
            assert(sps.push(sp)[k] == sps[k]);
        }
    }
}

/// The characters of `v` from `a` up to `b`.
pub fn sub_chars(v: &Vec<char>, a: usize, b: usize) -> (r: Vec<char>)
    requires
        a <= b <= v.len(),
    ensures
        r@ == v@.subrange(a as int, b as int),
{
    let mut r: Vec<char> = Vec::new();
    let mut i = a;
    while i < b
        invariant
            a <= i <= b <= v.len(),
            r@ == v@.subrange(a as int, i as int),
        decreases b - i,
    {
        r.push(v[i]);
        assert(v@.subrange(a as int, i + 1) =~= v@.subrange(a as int, i as int).push(v@[i as int]));
        i = i + 1;
    }
    r
}

/// The spans of the pieces of `v` between occurrences of `sep`.
pub fn split_spans(v: &Vec<char>, sep: char) -> (r: Vec<(usize, usize)>)
    ensures
        spans_text(v@, r@) == split_on(v@, sep),
        spans_within(r@, v@.len() as int),
{
    let mut spans: Vec<(usize, usize)> = Vec::new();
    let mut start: usize = 0;
    let mut i: usize = 0;
    assert(v@.take(0) =~= Seq::<char>::empty());
    assert(spans_text(v@, spans@).push(v@.subrange(0, 0)) =~= seq![Seq::<char>::empty()]);
    while i < v.len()
        invariant
            start <= i <= v.len(),
            spans_within(spans@, i as int),
            split_on(v@.take(i as int), sep) == spans_text(v@, spans@).push(
                v@.subrange(start as int, i as int),
            ),
        decreases v.len() - i,
    {
        proof {
            lemma_take_step(v@, i as int);
        }
        let ghost old_spans = spans@;
        if v[i] == sep {
            spans.push((start, i));
            proof {
                lemma_spans_push(v@, old_spans, (start, i));
                assert(v@.subrange((i + 1) as int, (i + 1) as int) =~= Seq::<char>::empty());
            }
            start = i + 1;
        } else {
            proof {
                assert(v@.subrange(start as int, i + 1) =~= v@.subrange(start as int, i as int).push(
                    v@[i as int],
                ));
                assert(spans_text(v@, spans@).push(v@.subrange(start as int, i as int)).update(
                    spans@.len() as int,
                    v@.subrange(start as int, i + 1),
                ) =~= spans_text(v@, spans@).push(v@.subrange(start as int, i + 1)));
            }
        }
        i = i + 1;
    }
    let ghost before = spans@;
    spans.push((start, v.len()));
    proof {
        lemma_spans_push(v@, before, (start, v.len()));
        assert(v@.take(v@.len() as int) =~= v@);
        lemma_within_push(before, (start, v.len()), v@.len() as int);
    }
    spans
}

/// The spans of the words of `v`.
pub fn word_spans(v: &Vec<char>) -> (r: Vec<(usize, usize)>)
    ensures
        spans_text(v@, r@) == words(v@),
        spans_within(r@, v@.len() as int),
{
    let mut spans: Vec<(usize, usize)> = Vec::new();
    let mut in_word = false;
    let mut start: usize = 0;
    let mut i: usize = 0;
    assert(v@.take(0) =~= Seq::<char>::empty());
    assert(spans_text(v@, spans@) =~= Seq::<Seq<char>>::empty());
    while i < v.len()
        invariant
            start <= i <= v.len(),
            spans_within(spans@, i as int),
            in_word ==> start < i && !is_white_space(v@[i - 1]),
            !in_word ==> (i == 0 || is_white_space(v@[i - 1])),
            in_word ==> words(v@.take(i as int)) == spans_text(v@, spans@).push(
                v@.subrange(start as int, i as int),
            ),
            !in_word ==> words(v@.take(i as int)) == spans_text(v@, spans@),
        decreases v.len() - i,
    {
        proof {
            lemma_take_step(v@, i as int);
        }
        let ghost old_spans = spans@;
        let c = v[i];
        if is_whitespace(c) {
            if in_word {
                spans.push((start, i));
                proof {
                    lemma_spans_push(v@, old_spans, (start, i));
                }
                in_word = false;
            }
        } else {
            if in_word {
                proof {
                    let s = v@.take(i + 1);
                    assert(s[s.len() - 2] == v@[i - 1]);
                    assert(v@.subrange(start as int, i + 1) =~= v@.subrange(
                        start as int,
                        i as int,
                    ).push(c));
                    assert(spans_text(v@, spans@).push(v@.subrange(start as int, i as int)).update(
                        spans@.len() as int,
                        v@.subrange(start as int, i + 1),
                    ) =~= spans_text(v@, spans@).push(v@.subrange(start as int, i + 1)));
                }
            } else {
                proof {
                    let s = v@.take(i + 1);
                    if i > 0 {
                        assert(s[s.len() - 2] == v@[i - 1]);
                    }
                    assert(v@.subrange(i as int, i + 1) =~= seq![c]);
                }
                start = i;
                in_word = true;
            }
        }
        i = i + 1;
    }
    if in_word {
        let ghost before = spans@;
        spans.push((start, v.len()));
        proof {
            lemma_spans_push(v@, before, (start, v.len()));
            lemma_within_push(before, (start, v.len()), v@.len() as int);
        }
    }
    proof {
        assert(v@.take(v@.len() as int) =~= v@);
    }
    spans
}

/// The span of the text of `v` from `start` to `end` without its leading
/// and trailing whitespace.
pub fn trim_span(v: &Vec<char>, start: usize, end: usize) -> (r: (usize, usize))
    requires
        start <= end <= v.len(),
    ensures
        start <= r.0 <= r.1 <= end,
        span_text(v@, r) == trim(v@.subrange(start as int, end as int)),
{
    let mut a = start;
    while a < end && is_whitespace(v[a])
        invariant
            start <= a <= end <= v.len(),
            trim_start(v@.subrange(start as int, end as int)) == trim_start(
                v@.subrange(a as int, end as int),
            ),
        decreases end - a,
    {
        proof {
            let t = v@.subrange(a as int, end as int);
            assert(t[0] == v@[a as int]);
            assert(t.drop_first() =~= v@.subrange(a + 1, end as int));
        }
        a = a + 1;
    }
    proof {
        let t = v@.subrange(a as int, end as int);
        if a < end {
            assert(t[0] == v@[a as int]);
        }
        assert(trim_start(t) == t);
    }
    let mut b = end;
    while b > a && is_whitespace(v[b - 1])
        invariant
            start <= a <= b <= end <= v.len(),
            trim_end(v@.subrange(a as int, end as int)) == trim_end(
                v@.subrange(a as int, b as int),
            ),
        decreases b - a,
    {
        proof {
            let u = v@.subrange(a as int, b as int);
            assert(u.last() == v@[b - 1]);
            assert(u.drop_last() =~= v@.subrange(a as int, b - 1));
        }
        b = b - 1;
    }
    proof {
        let u = v@.subrange(a as int, b as int);
        if b > a {
            assert(u.last() == v@[b - 1]);
        }
        assert(trim_end(u) == u);
    }
    (a, b)
}

/// Whether `p` occurs in `v` at position `i`.
fn occurs_at_pos(v: &Vec<char>, p: &Vec<char>, i: usize) -> (r: bool)
    requires
        i + p.len() <= v.len(),
    ensures
        r == occurs_at(v@, p@, i as int),
{
    let mut k: usize = 0;
    while k < p.len()
        invariant
            i + p.len() <= v.len(),
            k <= p.len(),
            forall|j: int| 0 <= j < k ==> v@[i + j] == p@[j],
        decreases p.len() - k,
    {
        if v[i + k] != p[k] {
            proof {
                assert(v@.subrange(i as int, i + p.len())[k as int] != p@[k as int]);
            }
            return false;
        }
        k = k + 1;
    }
    assert(v@.subrange(i as int, i + p.len()) =~= p@);
    true
}

/// Whether `p` occurs somewhere in `v`.
pub fn occurs(v: &Vec<char>, p: &Vec<char>) -> (r: bool)
    ensures
        r == occurs_in(v@, p@),
{
    if p.len() > v.len() {
        return false;
    }
    let mut i: usize = 0;
    let last = v.len() - p.len();
    while i < last
        invariant
            p.len() <= v.len(),
            last == v.len() - p.len(),
            i <= last,
            forall|j: int| 0 <= j < i ==> !occurs_at(v@, p@, j),
        decreases last - i,
    {
        if occurs_at_pos(v, p, i) {
            return true;
        }
        i = i + 1;
    }
    occurs_at_pos(v, p, last)
}

/// Whether two texts are the same.
pub fn same_text(a: &str, b: &str) -> (r: bool)
    ensures
        r == (a@ == b@),
{
    let u = chars_of(a);
    let w = chars_of(b);
    if u.len() != w.len() {
        return false;
    }
    let mut i: usize = 0;
    while i < u.len()
        invariant
            u@ == a@,
            w@ == b@,
            u.len() == w.len(),
            i <= u.len(),
            forall|j: int| 0 <= j < i ==> u@[j] == w@[j],
        decreases u.len() - i,
    {
        if u[i] != w[i] {
            assert(u@[i as int] != w@[i as int]);
            return false;
        }
        i = i + 1;
    }
    assert(u@ =~= w@);
    true
}

/// Whether `needle` occurs in `haystack`, as `str::contains` answers.
pub fn contains_text(haystack: &str, needle: &str) -> (r: bool)
    ensures
        r == occurs_in(haystack@, needle@),
{
    let v = chars_of(haystack);
    let p = chars_of(needle);
    occurs(&v, &p)
}

} // verus!
