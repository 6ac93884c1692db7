use vstd::prelude::*;

verus! {

/// Whether `c` is white space in the sense of Unicode's `White_Space`
/// property, which is what `char::is_whitespace` tests.
pub open spec fn is_ws(c: char) -> bool {
    let u = c as u32;
    (0x09 <= u <= 0x0d) || u == 0x20 || u == 0x85 || u == 0xa0 || u == 0x1680 || (0x2000 <= u
        <= 0x200a) || u == 0x2028 || u == 0x2029 || u == 0x202f || u == 0x205f || u == 0x3000
}

/// `s` without its leading white space.
pub open spec fn trim_start(s: Seq<char>) -> Seq<char>
    decreases s.len(),
{
    if s.len() > 0 && is_ws(s[0]) {
        trim_start(s.drop_first())
    } else {
        s
    }
}

/// `s` without its trailing white space.
pub open spec fn trim_end(s: Seq<char>) -> Seq<char>
    decreases s.len(),
{
    if s.len() > 0 && is_ws(s.last()) {
        trim_end(s.drop_last())
    } else {
        s
    }
}

/// `s` without white space at either end.
pub open spec fn trim(s: Seq<char>) -> Seq<char> {
    trim_end(trim_start(s))
}

/// The run of characters before the first white space of `s`.
pub open spec fn word(s: Seq<char>) -> Seq<char>
    decreases s.len(),
{
    if s.len() == 0 || is_ws(s[0]) {
        seq![]
    } else {
        seq![s[0]] + word(s.drop_first())
    }
}

/// The first whitespace-separated token of `s` (empty if there is none).
pub open spec fn first_token(s: Seq<char>) -> Seq<char> {
    word(trim_start(s))
}

/// The second whitespace-separated token of `s` (empty if there is none).
pub open spec fn second_token(s: Seq<char>) -> Seq<char> {
    let t = trim_start(s);
    first_token(t.skip(word(t).len() as int))
}

/// The position of the first `c` in `s`, or the length of `s`.
pub open spec fn find_char(s: Seq<char>, c: char) -> int
    decreases s.len(),
{
    if s.len() == 0 {
        0
    } else if s[0] == c {
        0
    } else {
        1 + find_char(s.drop_first(), c)
    }
}

/// The parts of `s` before and after its first `c`.
pub open spec fn split_once(s: Seq<char>, c: char) -> Option<(Seq<char>, Seq<char>)> {
    let k = find_char(s, c);
    if k < s.len() {
        Some((s.take(k), s.skip(k + 1)))
    } else {
        None
    }
}

/// The lines of `s`: the pieces between line feeds.
pub open spec fn lines(s: Seq<char>) -> Seq<Seq<char>>
    decreases s.len(),
{
    if s.len() == 0 {
        seq![seq![]]
    } else {
        let p = lines(s.drop_last());
        if s.last() == '\n' {
            p.push(seq![])
        } else {
            p.update(p.len() - 1, p.last().push(s.last()))
        }
    }
}

pub proof fn lemma_lines_len(s: Seq<char>)
    ensures
        lines(s).len() >= 1,
    decreases s.len(),
{
    if s.len() > 0 {
        lemma_lines_len(s.drop_last());
    }
}

pub proof fn lemma_find_char_bound(s: Seq<char>, c: char)
    ensures
        0 <= find_char(s, c) <= s.len(),
    decreases s.len(),
{
    if s.len() > 0 {
        lemma_find_char_bound(s.drop_first(), c);
    }
}

pub proof fn lemma_word_len(s: Seq<char>)
    ensures
        word(s).len() <= s.len(),
        word(s) == s.take(word(s).len() as int),
    decreases s.len(),
{
    if s.len() > 0 && !is_ws(s[0]) {
        lemma_word_len(s.drop_first());
        assert(word(s) =~= s.take(word(s).len() as int));
    }
}

pub fn is_ws_char(c: char) -> (r: bool)
    ensures
        r == is_ws(c),
{
    let u = c as u32;
    (0x09 <= u && u <= 0x0d) || u == 0x20 || u == 0x85 || u == 0xa0 || u == 0x1680 || (0x2000 <= u
        && u <= 0x200a) || u == 0x2028 || u == 0x2029 || u == 0x202f || u == 0x205f || u == 0x3000
}

/// Relies on `str::chars` and `collect`: the characters of `s`, in order.
#[verifier::external_body]
pub(crate) fn chars_of(s: &str) -> (r: Vec<char>)
    ensures
        r@ == s@,
{
    s.chars().collect()
}

/// Relies on `collect` into a `String`: the text of the characters
/// `v[from..to]`.
#[verifier::external_body]
pub(crate) fn string_of(v: &Vec<char>, from: usize, to: usize) -> (r: String)
    requires
        from <= to <= v@.len(),
    ensures
        r@ == v@.subrange(from as int, to as int),
{
    v[from..to].iter().collect()
}

/// The start of `v[from..to]` once its leading white space is skipped.
pub fn skip_ws(v: &Vec<char>, from: usize, to: usize) -> (a: usize)
    requires
        from <= to <= v@.len(),
    ensures
        from <= a <= to,
        v@.subrange(a as int, to as int) == trim_start(v@.subrange(from as int, to as int)),
{
    let mut a = from;
    while a < to && is_ws_char(v[a])
        invariant
            from <= a <= to <= v@.len(),
            trim_start(v@.subrange(from as int, to as int)) == trim_start(
                v@.subrange(a as int, to as int),
            ),
        decreases to - a,
    {
        assert(v@.subrange(a as int, to as int).drop_first() =~= v@.subrange(a + 1, to as int));
        a += 1;
    }
    a
}

/// The bounds of `v[from..to]` without white space at either end.
pub fn trim_range(v: &Vec<char>, from: usize, to: usize) -> (r: (usize, usize))
    requires
        from <= to <= v@.len(),
    ensures
        from <= r.0 <= r.1 <= to,
        v@.subrange(r.0 as int, r.1 as int) == trim(v@.subrange(from as int, to as int)),
{
    let a = skip_ws(v, from, to);
    let mut b = to;
    while b > a && is_ws_char(v[b - 1])
        invariant
            from <= a <= b <= to <= v@.len(),
            trim_end(v@.subrange(a as int, to as int)) == trim_end(v@.subrange(a as int, b as int)),
        decreases b - a,
    {
        assert(v@.subrange(a as int, b as int).drop_last() =~= v@.subrange(a as int, b - 1));
        b -= 1;
    }
    (a, b)
}

/// The end of the run of non-white characters that begins `v[from..to]`.
pub fn word_end(v: &Vec<char>, from: usize, to: usize) -> (e: usize)
    requires
        from <= to <= v@.len(),
    ensures
        from <= e <= to,
        v@.subrange(from as int, e as int) == word(v@.subrange(from as int, to as int)),
        e < to ==> is_ws(v@[e as int]),
{
    let mut e = from;
    while e < to && !is_ws_char(v[e])
        invariant
            from <= e <= to <= v@.len(),
            word(v@.subrange(from as int, to as int)) == v@.subrange(from as int, e as int) + word(
                v@.subrange(e as int, to as int),
            ),
        decreases to - e,
    {
        assert(v@.subrange(e as int, to as int).drop_first() =~= v@.subrange(e + 1, to as int));
        assert(v@.subrange(from as int, e + 1) =~= v@.subrange(from as int, e as int) + seq![v@[e as int]]);
        e += 1;
    }
    assert(v@.subrange(from as int, e as int) + word(v@.subrange(e as int, to as int)) =~= v@.subrange(from as int, e as int));
    e
}

/// The bounds of the first token of `v[from..to]`.
pub fn first_token_range(v: &Vec<char>, from: usize, to: usize) -> (r: (usize, usize))
    requires
        from <= to <= v@.len(),
    ensures
        from <= r.0 <= r.1 <= to,
        v@.subrange(r.0 as int, r.1 as int) == first_token(v@.subrange(from as int, to as int)),
        v@.subrange(r.1 as int, to as int) == ({
            let t = trim_start(v@.subrange(from as int, to as int));
            t.skip(word(t).len() as int)
        }),
{
    let a = skip_ws(v, from, to);
    let e = word_end(v, a, to);
    assert(v@.subrange(a as int, to as int).skip(e - a) =~= v@.subrange(e as int, to as int));
    (a, e)
}

/// The position of the first `c` in `v[from..to]`, or `to`.
pub fn find_in(v: &Vec<char>, from: usize, to: usize, c: char) -> (k: usize)
    requires
        from <= to <= v@.len(),
    ensures
        from <= k <= to,
        k - from == find_char(v@.subrange(from as int, to as int), c),
{
    let mut k = from;
    while k < to && v[k] != c
        invariant
            from <= k <= to <= v@.len(),
            find_char(v@.subrange(from as int, to as int), c) == (k - from) + find_char(
                v@.subrange(k as int, to as int),
                c,
            ),
        decreases to - k,
    {
        assert(v@.subrange(k as int, to as int).drop_first() =~= v@.subrange(k + 1, to as int));
        k += 1;
    }
    k
}

/// Whether `v[from..to]` holds exactly the text `lit`.
pub fn window_is(v: &Vec<char>, from: usize, to: usize, lit: &str) -> (r: bool)
    requires
        from <= to <= v@.len(),
    ensures
        r == (v@.subrange(from as int, to as int) == lit@),
{
    let n = lit.unicode_len();
    if to - from != n {
        return false;
    }
    let mut i: usize = 0;
    while i < n
        invariant
            n == lit@.len(),
            to - from == n,
            from <= to <= v@.len(),
            i <= n,
            forall|j: int| 0 <= j < i ==> v@[from + j] == lit@[j],
        decreases n - i,
    {
        if v[from + i] != lit.get_char(i) {
            assert(v@.subrange(from as int, to as int)[i as int] != lit@[i as int]);
            return false;
        }
        i += 1;
    }
    assert(v@.subrange(from as int, to as int) =~= lit@);
    true
}

/// The bounds of the lines of `v`.
pub fn line_ranges(v: &Vec<char>) -> (r: Vec<(usize, usize)>)
    ensures
        r@.len() == lines(v@).len(),
        forall|i: int| 0 <= i < r@.len() ==> (#[trigger] r@[i]).0 <= r@[i].1 <= v@.len(),
        forall|i: int|
            0 <= i < r@.len() ==> v@.subrange(r@[i].0 as int, r@[i].1 as int) == #[trigger] lines(
                v@,
            )[i],
{
    let mut r: Vec<(usize, usize)> = Vec::new();
    let mut start: usize = 0;
    let mut i: usize = 0;
    let n = v.len();
    while i < n
        invariant
            n == v@.len(),
            start <= i <= n,
            lines(v@.take(i as int)).len() == r@.len() + 1,
            lines(v@.take(i as int)).last() == v@.subrange(start as int, i as int),
            forall|j: int| 0 <= j < r@.len() ==> (#[trigger] r@[j]).0 <= r@[j].1 <= i,
            forall|j: int|
                0 <= j < r@.len() ==> v@.subrange(r@[j].0 as int, r@[j].1 as int) == #[trigger] lines(
                    v@.take(i as int),
                )[j],
        decreases n - i,
    {
        let ghost prev = lines(v@.take(i as int));
        let ghost old_r = r@;
        proof {
            assert(v@.take(i + 1).drop_last() =~= v@.take(i as int));
            assert(v@.take(i + 1).last() == v@[i as int]);
            lemma_lines_len(v@.take(i as int));
        }
        if v[i] == '\n' {
            r.push((start, i));
            start = i + 1;
            proof {
                assert(lines(v@.take(i + 1)) == prev.push(seq![]));
                assert(v@.subrange(start as int, i + 1) =~= seq![]);
            }
        } else {
            proof {
                assert(lines(v@.take(i + 1)) == prev.update(prev.len() - 1, prev.last().push(v@[i as int])));
                assert(v@.subrange(start as int, i + 1) =~= v@.subrange(start as int, i as int).push(v@[i as int]));
            }
        }
        i += 1;
        proof {
            assert forall|j: int| 0 <= j < r@.len() implies v@.subrange(
                r@[j].0 as int,
                r@[j].1 as int,
            ) == #[trigger] lines(v@.take(i as int))[j] by {
                if j < old_r.len() {
                    assert(r@[j] == old_r[j]);
                    assert(lines(v@.take(i as int))[j] == prev[j]);
                } else {
                    assert(lines(v@.take(i as int))[j] == prev[j]);
                }
            }
        }
    }
    let ghost old_r = r@;
    r.push((start, n));
    proof {
        assert(v@.take(n as int) =~= v@);
        assert forall|j: int| 0 <= j < r@.len() implies v@.subrange(
            r@[j].0 as int,
            r@[j].1 as int,
        ) == #[trigger] lines(v@)[j] by {
            if j < old_r.len() {
                assert(r@[j] == old_r[j]);
                assert(lines(v@.take(n as int))[j] == lines(v@)[j]);
            }
        }
    }
    r
}

} // verus!
