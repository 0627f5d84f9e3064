//! Character-level text utilities with exact specifications.
//!
//! Text is handled as `Vec<char>` (whose view is the `Seq<char>` that a
//! `str` views as), so every operation below is stated over the same
//! sequence model that `str` and `String` use in contracts.
use vstd::prelude::*;

verus! {

/// `char::is_whitespace`: the Unicode `White_Space` property.
pub open spec fn is_ws(c: char) -> bool {
    ||| '\u{9}' <= c <= '\u{d}'
    ||| c == ' '
    ||| c == '\u{85}'
    ||| c == '\u{a0}'
    ||| c == '\u{1680}'
    ||| '\u{2000}' <= c <= '\u{200a}'
    ||| c == '\u{2028}'
    ||| c == '\u{2029}'
    ||| c == '\u{202f}'
    ||| c == '\u{205f}'
    ||| c == '\u{3000}'
}

pub fn is_whitespace(c: char) -> (r: bool)
    ensures
        r == is_ws(c),
{
    ('\u{9}' <= c && c <= '\u{d}') || c == ' ' || c == '\u{85}' || c == '\u{a0}' || c == '\u{1680}'
        || ('\u{2000}' <= c && c <= '\u{200a}') || c == '\u{2028}' || c == '\u{2029}' || c
        == '\u{202f}' || c == '\u{205f}' || c == '\u{3000}'
}

/// The characters of `s`, in order.
pub fn chars_of(s: &str) -> (r: Vec<char>)
    ensures
        r@ == s@,
{
    let mut r: Vec<char> = Vec::new();
    for c in it: s.chars()
        invariant
            r@ == it.seq().take(it.index() as int),
    {
        r.push(c);
    }
    r
}

/// `String::push`: appends one character.
#[verifier::external_body]
pub(crate) fn push_char(s: &mut String, c: char)
    ensures
        final(s)@ == old(s)@.push(c),
{
    s.push(c);
}

/// The string whose characters are `v`.
pub fn string_of(v: &Vec<char>) -> (r: String)
    ensures
        r@ == v@,
{
    let mut r = String::new();
    let mut i: usize = 0;
    while i < v.len()
        invariant
            i <= v.len(),
            r@ == v@.take(i as int),
        decreases v.len() - i,
    {
        push_char(&mut r, v[i]);
        i = i + 1;
        assert(r@ =~= v@.take(i as int));
    }
    assert(v@.take(v.len() as int) =~= v@);
    r
}

/// Whether `a` and `b` hold the same characters.
pub fn chars_eq(a: &Vec<char>, b: &Vec<char>) -> (r: bool)
    ensures
        r == (a@ == b@),
{
    if a.len() != b.len() {
        return false;
    }
    let mut i: usize = 0;
    while i < a.len()
        invariant
            a.len() == b.len(),
            i <= a.len(),
            a@.take(i as int) == b@.take(i as int),
        decreases a.len() - i,
    {
        if a[i] != b[i] {
            assert(a@[i as int] != b@[i as int]);
            return false;
        }
        i = i + 1;
        assert(a@.take(i as int) =~= a@.take(i - 1).push(a@[i - 1]));
        assert(b@.take(i as int) =~= b@.take(i - 1).push(b@[i - 1]));
    }
    assert(a@ =~= a@.take(a.len() as int));
    assert(b@ =~= b@.take(b.len() as int));
    true
}

/// Appends the characters of `s` to `out`.
pub fn push_str(out: &mut Vec<char>, s: &str)
    ensures
        final(out)@ == old(out)@ + s@,
{
    let c = chars_of(s);
    let mut i: usize = 0;
    while i < c.len()
        invariant
            i <= c.len(),
            c@ == s@,
            out@ == old(out)@ + s@.take(i as int),
        decreases c.len() - i,
    {
        out.push(c[i]);
        i = i + 1;
        assert(out@ =~= old(out)@ + s@.take(i as int));
    }
    assert(s@.take(c.len() as int) =~= s@);
}

/// What `str::to_lowercase` gives for `s` (Unicode lowercase mapping).
pub uninterp spec fn lowercase(s: Seq<char>) -> Seq<char>;

/// `str::to_lowercase`. Its result is named, not stated: the Unicode case
/// tables are std's.
#[verifier::external_body]
pub(crate) fn to_lowercase(s: &str) -> (r: String)
    ensures
        r@ == lowercase(s@),
{
    s.to_lowercase()
}

/// Whether two strings hold the same characters.
pub fn str_eq(a: &str, b: &str) -> (r: bool)
    ensures
        r == (a@ == b@),
{
    let x = chars_of(a);
    let y = chars_of(b);
    chars_eq(&x, &y)
}

/// The characters `v[from..to]`.
pub fn slice_of(v: &Vec<char>, from: usize, to: usize) -> (r: Vec<char>)
    requires
        from <= to <= v.len(),
    ensures
        r@ == v@.subrange(from as int, to as int),
{
    let mut r: Vec<char> = Vec::new();
    let mut i = from;
    while i < to
        invariant
            from <= i <= to <= v.len(),
            r@ == v@.subrange(from as int, i as int),
        decreases to - i,
    {
        r.push(v[i]);
        i = i + 1;
        assert(r@ =~= v@.subrange(from as int, i as int));
    }
    r
}

// ---------------------------------------------------------------------------
// prefixes, suffixes, search

pub open spec fn starts_with_spec(s: Seq<char>, p: Seq<char>) -> bool {
    s.len() >= p.len() && s.take(p.len() as int) == p
}

pub open spec fn ends_with_spec(s: Seq<char>, p: Seq<char>) -> bool {
    s.len() >= p.len() && s.skip(s.len() - p.len()) == p
}

/// Whether `p` occurs in `s` starting at index `i`.
pub open spec fn occurs_at(s: Seq<char>, p: Seq<char>, i: int) -> bool {
    0 <= i && i + p.len() <= s.len() && s.subrange(i, i + p.len()) == p
}

/// `str::find`, counted in characters: the first index at which `p` occurs.
#[verifier::opaque]
pub open spec fn find_spec(s: Seq<char>, p: Seq<char>) -> Option<int> {
    if exists|i: int| occurs_at(s, p, i) {
        Some(choose|i: int| occurs_at(s, p, i) && forall|j: int| 0 <= j < i ==> !occurs_at(s, p, j))
    } else {
        None
    }
}

/// `str::contains` with a string pattern.
#[verifier::opaque]
pub open spec fn contains_spec(s: Seq<char>, p: Seq<char>) -> bool {
    exists|i: int| occurs_at(s, p, i)
}

pub fn starts_with(s: &Vec<char>, p: &Vec<char>) -> (r: bool)
    ensures
        r == starts_with_spec(s@, p@),
{
    if s.len() < p.len() {
        return false;
    }
    occurs_at_exec(s, p, 0)
}

pub fn ends_with(s: &Vec<char>, p: &Vec<char>) -> (r: bool)
    ensures
        r == ends_with_spec(s@, p@),
{
    if s.len() < p.len() {
        return false;
    }
    let r = occurs_at_exec(s, p, s.len() - p.len());
    assert(s@.skip(s.len() - p.len()) =~= s@.subrange(
        s.len() - p.len(),
        s.len() - p.len() + p.len(),
    ));
    r
}

pub fn occurs_at_exec(s: &Vec<char>, p: &Vec<char>, i: usize) -> (r: bool)
    ensures
        r == occurs_at(s@, p@, i as int),
{
    if i > s.len() || s.len() - i < p.len() {
        return false;
    }
    let mut k: usize = 0;
    while k < p.len()
        invariant
            i + p.len() <= s.len(),
            k <= p.len(),
            forall|j: int| 0 <= j < k ==> s@[i + j] == p@[j],
        decreases p.len() - k,
    {
        if s[i + k] != p[k] {
            assert(s@.subrange(i as int, i + p.len())[k as int] != p@[k as int]);
            return false;
        }
        k = k + 1;
    }
    assert(s@.subrange(i as int, i + p.len()) =~= p@);
    true
}

/// The first index at which `p` occurs in `s`.
pub fn find(s: &Vec<char>, p: &Vec<char>) -> (r: Option<usize>)
    ensures
        match r {
            Some(i) => find_spec(s@, p@) == Some(i as int) && occurs_at(s@, p@, i as int),
            None => find_spec(s@, p@) is None,
        },
        r is Some <==> contains_spec(s@, p@),
{
    reveal(find_spec);
    reveal(contains_spec);
    let mut i: usize = 0;
    loop
        invariant
            i <= s.len(),
            forall|j: int| 0 <= j < i ==> !occurs_at(s@, p@, j),
        ensures
            forall|j: int| 0 <= j <= s.len() ==> !occurs_at(s@, p@, j),
        decreases s.len() - i,
    {
        if occurs_at_exec(s, p, i) {
            proof {
                reveal(find_spec);
                reveal(contains_spec);
            }
            let ghost w = choose|k: int|
                occurs_at(s@, p@, k) && forall|j: int| 0 <= j < k ==> !occurs_at(s@, p@, j);
            assert(occurs_at(s@, p@, i as int) && forall|j: int|
                0 <= j < i ==> !occurs_at(s@, p@, j));
            assert(w == i) by {
                if w < i {
                } else if w > i {
                    assert(!occurs_at(s@, p@, i as int));
                }
            }
            return Some(i);
        }
        if i == s.len() {
            break;
        }
        i = i + 1;
    }
    assert forall|j: int| !occurs_at(s@, p@, j) by {
        if 0 <= j && j <= s.len() {
        }
    }
    None
}

/// Whether `p` occurs in `s`.
pub fn contains(s: &Vec<char>, p: &Vec<char>) -> (r: bool)
    ensures
        r == contains_spec(s@, p@),
{
    reveal(contains_spec);
    find(s, p).is_some()
}


// ---------------------------------------------------------------------------
// trimming

/// `str::trim_start`.
pub open spec fn trim_start_spec(s: Seq<char>) -> Seq<char>
    decreases s.len(),
{
    if s.len() > 0 && is_ws(s[0]) {
        trim_start_spec(s.drop_first())
    } else {
        s
    }
}

/// `str::trim_end`.
pub open spec fn trim_end_spec(s: Seq<char>) -> Seq<char>
    decreases s.len(),
{
    if s.len() > 0 && is_ws(s.last()) {
        trim_end_spec(s.drop_last())
    } else {
        s
    }
}

/// `str::trim`.
pub open spec fn trim_spec(s: Seq<char>) -> Seq<char> {
    trim_end_spec(trim_start_spec(s))
}

proof fn lemma_trim_start_at(s: Seq<char>, a: int)
    requires
        0 <= a <= s.len(),
        forall|j: int| 0 <= j < a ==> is_ws(s[j]),
        a == s.len() || !is_ws(s[a]),
    ensures
        trim_start_spec(s) == s.skip(a),
    decreases a,
{
    if a > 0 {
        lemma_trim_start_at(s.drop_first(), a - 1);
        assert(s.drop_first().skip(a - 1) =~= s.skip(a));
    } else {
        assert(s.skip(0) =~= s);
    }
}

proof fn lemma_trim_end_at(s: Seq<char>, b: int)
    requires
        0 <= b <= s.len(),
        forall|j: int| b <= j < s.len() ==> is_ws(s[j]),
        b == 0 || !is_ws(s[b - 1]),
    ensures
        trim_end_spec(s) == s.take(b),
    decreases s.len() - b,
{
    if b < s.len() {
        lemma_trim_end_at(s.drop_last(), b);
        assert(s.drop_last().take(b) =~= s.take(b));
    } else {
        assert(s.take(b) =~= s);
    }
}

/// `str::trim`: `s` without leading and trailing whitespace.
pub fn trim(s: &Vec<char>) -> (r: Vec<char>)
    ensures
        r@ == trim_spec(s@),
{
    let mut a: usize = 0;
    while a < s.len() && is_whitespace(s[a])
        invariant
            a <= s.len(),
            forall|j: int| 0 <= j < a ==> is_ws(s@[j]),
        decreases s.len() - a,
    {
        a = a + 1;
    }
    proof {
        lemma_trim_start_at(s@, a as int);
    }
    let mut b: usize = s.len();
    while b > a && is_whitespace(s[b - 1])
        invariant
            a <= b <= s.len(),
            forall|j: int| b <= j < s.len() ==> is_ws(s@[j]),
        decreases b,
    {
        b = b - 1;
    }
    proof {
        let t = s@.skip(a as int);
        assert forall|j: int| b - a <= j < t.len() implies is_ws(t[j]) by {
            assert(t[j] == s@[a + j]);
        }
        lemma_trim_end_at(t, b - a);
        assert(t.take(b - a) =~= s@.subrange(a as int, b as int));
    }
    slice_of(s, a, b)
}

/// `str::trim_start_matches` with a string pattern.
pub open spec fn trim_start_matches_spec(s: Seq<char>, p: Seq<char>) -> Seq<char>
    decreases s.len(),
{
    if p.len() > 0 && starts_with_spec(s, p) {
        trim_start_matches_spec(s.skip(p.len() as int), p)
    } else {
        s
    }
}

/// `str::trim_end_matches` with a character pattern.
pub open spec fn trim_end_char_spec(s: Seq<char>, c: char) -> Seq<char>
    decreases s.len(),
{
    if s.len() > 0 && s.last() == c {
        trim_end_char_spec(s.drop_last(), c)
    } else {
        s
    }
}

pub fn trim_start_matches(s: &Vec<char>, p: &Vec<char>) -> (r: Vec<char>)
    ensures
        r@ == trim_start_matches_spec(s@, p@),
{
    if p.len() == 0 {
        return slice_of(s, 0, s.len());
    }
    let mut a: usize = 0;
    assert(s@.skip(0) =~= s@);
    while a <= s.len() && s.len() - a >= p.len() && occurs_at_exec(s, p, a)
        invariant
            p.len() > 0,
            a <= s.len(),
            trim_start_matches_spec(s@.skip(a as int), p@) == trim_start_matches_spec(s@, p@),
        decreases s.len() - a,
    {
        assert(s@.skip(a as int).take(p.len() as int) =~= s@.subrange(a as int, a + p.len()));
        assert(s@.skip(a as int).skip(p.len() as int) =~= s@.skip(a + p.len()));
        a = a + p.len();
    }
    assert(!starts_with_spec(s@.skip(a as int), p@)) by {
        if s@.skip(a as int).len() >= p.len() {
            assert(s@.skip(a as int).take(p.len() as int) =~= s@.subrange(a as int, a + p.len()));
        }
    }
    assert(s@.skip(a as int) =~= s@.subrange(a as int, s.len() as int));
    slice_of(s, a, s.len())
}

pub fn trim_end_char(s: &Vec<char>, c: char) -> (r: Vec<char>)
    ensures
        r@ == trim_end_char_spec(s@, c),
{
    let mut b: usize = s.len();
    assert(s@.take(b as int) =~= s@);
    while b > 0 && s[b - 1] == c
        invariant
            b <= s.len(),
            trim_end_char_spec(s@.take(b as int), c) == trim_end_char_spec(s@, c),
        decreases b,
    {
        assert(s@.take(b as int).drop_last() =~= s@.take(b - 1));
        b = b - 1;
    }
    assert(s@.take(b as int) =~= s@.subrange(0, b as int));
    slice_of(s, 0, b)
}

/// `str::strip_prefix` with a string pattern.
pub fn strip_prefix(s: &Vec<char>, p: &Vec<char>) -> (r: Option<Vec<char>>)
    ensures
        match r {
            Some(rest) => starts_with_spec(s@, p@) && rest@ == s@.skip(p@.len() as int),
            None => !starts_with_spec(s@, p@),
        },
{
    if starts_with(s, p) {
        Some(slice_of(s, p.len(), s.len()))
    } else {
        None
    }
}

// ---------------------------------------------------------------------------
// splitting

/// Replaces the first piece `l[0]` with `c + l[0]`.
pub open spec fn prepend_first(c: Seq<char>, l: Seq<Seq<char>>) -> Seq<Seq<char>> {
    l.update(0, c + l[0])
}

/// `str::split` with a character predicate: the pieces between separators,
/// empty pieces included (always at least one piece).
pub open spec fn split_spec(s: Seq<char>, sep: spec_fn(char) -> bool) -> Seq<Seq<char>>
    decreases s.len(),
{
    if s.len() == 0 {
        seq![Seq::<char>::empty()]
    } else if sep(s[0]) {
        seq![Seq::<char>::empty()] + split_spec(s.drop_first(), sep)
    } else {
        prepend_first(seq![s[0]], split_spec(s.drop_first(), sep))
    }
}

pub proof fn lemma_split_nonempty(s: Seq<char>, sep: spec_fn(char) -> bool)
    ensures
        split_spec(s, sep).len() >= 1,
    decreases s.len(),
{
    if s.len() > 0 {
        lemma_split_nonempty(s.drop_first(), sep);
    }
}

/// The separator predicate of a character, or of whitespace.
pub open spec fn sep_of(ch: char, by_ws: bool) -> spec_fn(char) -> bool {
    |c: char| if by_ws { is_ws(c) } else { c == ch }
}

/// The views of a sequence of character vectors.
pub open spec fn views(v: Seq<Vec<char>>) -> Seq<Seq<char>> {
    v.map_values(|x: Vec<char>| x@)
}

fn split_with(s: &Vec<char>, ch: char, by_ws: bool) -> (r: Vec<Vec<char>>)
    ensures
        views(r@) == split_spec(s@, sep_of(ch, by_ws)),
{
    let ghost sep = sep_of(ch, by_ws);
    let mut res: Vec<Vec<char>> = Vec::new();
    let mut cur: Vec<char> = Vec::new();
    let mut i: usize = 0;
    proof {
        lemma_split_nonempty(s@, sep);
        assert(s@.skip(0) =~= s@);
        assert(prepend_first(Seq::<char>::empty(), split_spec(s@, sep)) =~= split_spec(s@, sep));
        assert(views(res@) + split_spec(s@, sep) =~= split_spec(s@, sep));
    }
    while i < s.len()
        invariant
            i <= s.len(),
            sep == sep_of(ch, by_ws),
            split_spec(s@, sep) == views(res@) + prepend_first(cur@, split_spec(s@.skip(i as int), sep)),
        decreases s.len() - i,
    {
        let c = s[i];
        let is_sep = if by_ws { is_whitespace(c) } else { c == ch };
        proof {
            let t = s@.skip(i as int);
            assert(t.drop_first() =~= s@.skip(i + 1));
            assert(t[0] == c);
            lemma_split_nonempty(s@.skip(i + 1), sep);
        }
        if is_sep {
            proof {
                let l = split_spec(s@.skip(i + 1), sep);
                assert(prepend_first(Seq::<char>::empty(), l) =~= l);
                assert(views(res@.push(cur)) =~= views(res@).push(cur@));
                assert(prepend_first(cur@, seq![Seq::<char>::empty()] + l) =~= seq![cur@] + l);
                assert(views(res@) + (seq![cur@] + l) =~= views(res@).push(cur@) + l);
            }
            res.push(cur);
            cur = Vec::new();
        } else {
            proof {
                let l = split_spec(s@.skip(i + 1), sep);
                assert(cur@ + (seq![c] + l[0]) =~= cur@.push(c) + l[0]);
                assert(prepend_first(cur@, prepend_first(seq![c], l)) =~= prepend_first(
                    cur@.push(c),
                    l,
                ));
            }
            cur.push(c);
        }
        i = i + 1;
    }
    proof {
        assert(s@.skip(i as int).len() == 0);
        assert(prepend_first(cur@, seq![Seq::<char>::empty()]) =~= seq![cur@]);
        assert(views(res@.push(cur)) =~= views(res@).push(cur@));
        assert(views(res@) + seq![cur@] =~= views(res@).push(cur@));
    }
    res.push(cur);
    res
}

/// `str::split` on a character: every piece, empty ones included.
pub fn split_on(s: &Vec<char>, ch: char) -> (r: Vec<Vec<char>>)
    ensures
        views(r@) == split_spec(s@, sep_of(ch, false)),
{
    split_with(s, ch, false)
}

/// `str::split_whitespace`: the non-empty pieces between whitespace.
pub open spec fn split_ws_spec(s: Seq<char>) -> Seq<Seq<char>> {
    split_spec(s, sep_of(' ', true)).filter(|p: Seq<char>| p.len() > 0)
}

pub fn split_whitespace(s: &Vec<char>) -> (r: Vec<Vec<char>>)
    ensures
        views(r@) == split_ws_spec(s@),
{
    let pieces = split_with(s, ' ', true);
    let ghost all = views(pieces@);
    let ghost pred = |p: Seq<char>| p.len() > 0;
    let mut res: Vec<Vec<char>> = Vec::new();
    let mut i: usize = 0;
    while i < pieces.len()
        invariant
            i <= pieces.len(),
            all == views(pieces@),
            pred == |p: Seq<char>| p.len() > 0,
            views(res@) == all.take(i as int).filter(pred),
        decreases pieces.len() - i,
    {
        proof {
            assert(all.take(i + 1) =~= all.take(i as int).push(all[i as int]));
            all.take(i as int).lemma_filter_push(all[i as int], pred);
        }
        if pieces[i].len() > 0 {
            let p = slice_of(&pieces[i], 0, pieces[i].len());
            proof {
                assert(p@ =~= all[i as int]);
                assert(views(res@.push(p)) =~= views(res@).push(p@));
            }
            res.push(p);
        }
        i = i + 1;
    }
    assert(all.take(pieces.len() as int) =~= all);
    res
}

/// `l` without a final carriage return.
pub open spec fn strip_cr(l: Seq<char>) -> Seq<char> {
    if l.len() > 0 && l.last() == '\r' {
        l.drop_last()
    } else {
        l
    }
}

/// Every piece without a final carriage return.
pub open spec fn strip_cr_all(p: Seq<Seq<char>>) -> Seq<Seq<char>> {
    p.map_values(|l: Seq<char>| strip_cr(l))
}

/// `str::lines`: pieces ending at `\n` (with a `\r` before it removed);
/// a final piece after the last `\n` only when it is not empty.
pub open spec fn lines_spec(s: Seq<char>) -> Seq<Seq<char>> {
    let p = split_spec(s, sep_of('\n', false));
    let body = strip_cr_all(p.drop_last());
    if p.last().len() == 0 {
        body
    } else {
        body.push(p.last())
    }
}

pub fn lines(s: &Vec<char>) -> (r: Vec<Vec<char>>)
    ensures
        views(r@) == lines_spec(s@),
{
    let pieces = split_with(s, '\n', false);
    let ghost all = views(pieces@);
    proof {
        lemma_split_nonempty(s@, sep_of('\n', false));
    }
    let n = pieces.len() - 1;
    let mut res: Vec<Vec<char>> = Vec::new();
    let mut i: usize = 0;
    while i < n
        invariant
            i <= n,
            n + 1 == pieces.len(),
            all == views(pieces@),
            views(res@) == strip_cr_all(all.take(i as int)),
        decreases n - i,
    {
        let len = pieces[i].len();
        let l = if len > 0 && pieces[i][len - 1] == '\r' {
            slice_of(&pieces[i], 0, len - 1)
        } else {
            slice_of(&pieces[i], 0, len)
        };
        proof {
            assert(all[i as int] == pieces@[i as int]@);
            assert(l@ =~= strip_cr(all[i as int]));
            assert(views(res@.push(l)) =~= views(res@).push(l@));
            assert(strip_cr_all(all.take(i + 1)) =~= strip_cr_all(all.take(i as int)).push(
                strip_cr(all[i as int]),
            ));
        }
        res.push(l);
        i = i + 1;
    }
    assert(all.take(n as int) =~= all.drop_last());
    assert(all.last() == pieces@[n as int]@);
    assert(views(res@) == strip_cr_all(all.drop_last()));
    if pieces[n].len() > 0 {
        let l = slice_of(&pieces[n], 0, pieces[n].len());
        proof {
            assert(l@ =~= pieces@[n as int]@);
            assert(views(res@.push(l)) =~= views(res@).push(l@));
        }
        res.push(l);
    }
    assert(views(res@) == lines_spec(s@));
    res
}

/// `str::split` with a non-empty string pattern: leftmost non-overlapping
/// matches separate the pieces.
pub open spec fn split_str_spec(s: Seq<char>, p: Seq<char>) -> Seq<Seq<char>>
    decreases s.len(),
{
    if s.len() == 0 || p.len() == 0 {
        seq![s]
    } else if starts_with_spec(s, p) {
        seq![Seq::<char>::empty()] + split_str_spec(s.skip(p.len() as int), p)
    } else {
        prepend_first(seq![s[0]], split_str_spec(s.drop_first(), p))
    }
}

pub proof fn lemma_split_str_nonempty(s: Seq<char>, p: Seq<char>)
    ensures
        split_str_spec(s, p).len() >= 1,
    decreases s.len(),
{
    if s.len() > 0 && p.len() > 0 {
        if starts_with_spec(s, p) {
            lemma_split_str_nonempty(s.skip(p.len() as int), p);
        } else {
            lemma_split_str_nonempty(s.drop_first(), p);
        }
    }
}

pub fn split_str(s: &Vec<char>, p: &Vec<char>) -> (r: Vec<Vec<char>>)
    requires
        p.len() > 0,
    ensures
        views(r@) == split_str_spec(s@, p@),
{
    let mut res: Vec<Vec<char>> = Vec::new();
    let mut cur: Vec<char> = Vec::new();
    let mut i: usize = 0;
    proof {
        lemma_split_str_nonempty(s@, p@);
        assert(s@.skip(0) =~= s@);
        assert(prepend_first(Seq::<char>::empty(), split_str_spec(s@, p@)) =~= split_str_spec(
            s@,
            p@,
        ));
        assert(views(res@) + split_str_spec(s@, p@) =~= split_str_spec(s@, p@));
    }
    while i < s.len()
        invariant
            i <= s.len(),
            p.len() > 0,
            split_str_spec(s@, p@) == views(res@) + prepend_first(
                cur@,
                split_str_spec(s@.skip(i as int), p@),
            ),
        decreases s.len() - i,
    {
        let t = Ghost(s@.skip(i as int));
        let m = s.len() - i >= p.len() && occurs_at_exec(s, p, i);
        proof {
            if s.len() - i >= p.len() {
                assert(t@.take(p.len() as int) =~= s@.subrange(i as int, i + p.len()));
            }
        }
        if m {
            proof {
                assert(t@.skip(p.len() as int) =~= s@.skip(i + p.len()));
                let l = split_str_spec(s@.skip(i + p.len()), p@);
                lemma_split_str_nonempty(s@.skip(i + p.len()), p@);
                assert(prepend_first(Seq::<char>::empty(), l) =~= l);
                assert(views(res@.push(cur)) =~= views(res@).push(cur@));
                assert(prepend_first(cur@, seq![Seq::<char>::empty()] + l) =~= seq![cur@] + l);
                assert(views(res@) + (seq![cur@] + l) =~= views(res@).push(cur@) + l);
            }
            res.push(cur);
            cur = Vec::new();
            i = i + p.len();
        } else {
            let c = s[i];
            proof {
                assert(t@.drop_first() =~= s@.skip(i + 1));
                let l = split_str_spec(s@.skip(i + 1), p@);
                lemma_split_str_nonempty(s@.skip(i + 1), p@);
                assert(cur@ + (seq![c] + l[0]) =~= cur@.push(c) + l[0]);
                assert(prepend_first(cur@, prepend_first(seq![c], l)) =~= prepend_first(
                    cur@.push(c),
                    l,
                ));
            }
            cur.push(c);
            i = i + 1;
        }
    }
    proof {
        assert(s@.skip(i as int).len() == 0);
        assert(prepend_first(cur@, seq![s@.skip(i as int)]) =~= seq![cur@]);
        assert(views(res@.push(cur)) =~= views(res@).push(cur@));
        assert(views(res@) + seq![cur@] =~= views(res@).push(cur@));
    }
    res.push(cur);
    res
}

} // verus!
