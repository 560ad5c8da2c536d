//! Character-level text handling: Unicode-whitespace trimming, trailing
//! ellipsis stripping, splitting and joining, ASCII case-insensitive
//! comparison, and lowercasing.

use vstd::prelude::*;
use vstd::std_specs::iter::IteratorSpec;

verus! {

broadcast use vstd::string::group_string_axioms;

// ── Specifications ───────────────────────────────────────────────────────────

/// The Unicode `White_Space` property, which `char::is_whitespace` and
/// `str::trim` follow.
pub open spec fn is_ws(c: char) -> bool {
    let v = c as u32;
    ||| 0x09 <= v <= 0x0D
    ||| v == 0x20
    ||| v == 0x85
    ||| v == 0xA0
    ||| v == 0x1680
    ||| 0x2000 <= v <= 0x200A
    ||| v == 0x2028
    ||| v == 0x2029
    ||| v == 0x202F
    ||| v == 0x205F
    ||| v == 0x3000
}

/// Number of leading whitespace characters of `s`.
pub open spec fn lead_ws(s: Seq<char>) -> nat
    decreases s.len(),
{
    if s.len() > 0 && is_ws(s[0]) {
        1 + lead_ws(s.drop_first())
    } else {
        0
    }
}

/// Number of trailing whitespace characters of `s`.
pub open spec fn trail_ws(s: Seq<char>) -> nat
    decreases s.len(),
{
    if s.len() > 0 && is_ws(s.last()) {
        1 + trail_ws(s.drop_last())
    } else {
        0
    }
}

/// `s` without its leading whitespace.
pub open spec fn trim_start(s: Seq<char>) -> Seq<char> {
    s.skip(lead_ws(s) as int)
}

/// `s` without its trailing whitespace.
pub open spec fn trim_end(s: Seq<char>) -> Seq<char> {
    s.take(s.len() - trail_ws(s))
}

/// `s` without leading and trailing whitespace (`str::trim`).
pub open spec fn trim(s: Seq<char>) -> Seq<char> {
    trim_end(trim_start(s))
}

/// The views of a sequence of character vectors.
pub open spec fn views(parts: Seq<Vec<char>>) -> Seq<Seq<char>> {
    parts.map_values(|p: Vec<char>| p@)
}

/// The views of a sequence of strings.
pub open spec fn string_views(parts: Seq<String>) -> Seq<Seq<char>> {
    parts.map_values(|p: String| p@)
}

/// `s` cut at every `c` (`str::split` with a character pattern): always at
/// least one piece, the pieces hold no `c`.
pub open spec fn split(s: Seq<char>, c: char) -> Seq<Seq<char>>
    decreases s.len(),
{
    if s.len() == 0 {
        seq![Seq::<char>::empty()]
    } else {
        let p = split(s.drop_last(), c);
        if s.last() == c {
            p.push(Seq::<char>::empty())
        } else {
            p.update(p.len() - 1, p.last().push(s.last()))
        }
    }
}

/// The pieces `parts` with `sep` between each two (`slice::join`).
pub open spec fn join(parts: Seq<Seq<char>>, sep: Seq<char>) -> Seq<char>
    decreases parts.len(),
{
    if parts.len() == 0 {
        Seq::<char>::empty()
    } else if parts.len() == 1 {
        parts[0]
    } else {
        join(parts.drop_last(), sep) + sep + parts.last()
    }
}

/// `s` without its trailing run of `c` (`str::trim_end_matches` with a character).
pub open spec fn strip_end_char(s: Seq<char>, c: char) -> Seq<char>
    decreases s.len(),
{
    if s.len() > 0 && s.last() == c {
        strip_end_char(s.drop_last(), c)
    } else {
        s
    }
}

/// The three-dot ellipsis `...`.
pub open spec fn three_dots() -> Seq<char> {
    seq!['.', '.', '.']
}

/// `s` without its trailing repetitions of `...` (`str::trim_end_matches("...")`).
pub open spec fn strip_end_dots(s: Seq<char>) -> Seq<char>
    decreases s.len(),
{
    if s.len() >= 3 && s.subrange(s.len() - 3, s.len() as int) == three_dots() {
        strip_end_dots(s.take(s.len() - 3))
    } else {
        s
    }
}

/// The code of `c` after ASCII lowercasing (`char::to_ascii_lowercase`).
pub open spec fn ascii_lower(c: char) -> u32 {
    if 65 <= (c as u32) <= 90 {
        ((c as u32) + 32) as u32
    } else {
        c as u32
    }
}

/// `c` after ASCII lowercasing (`char::to_ascii_lowercase`): 'A'..='Z'
/// become 'a'..='z', every other character stays.
pub open spec fn ascii_lower_char(c: char) -> char {
    ascii_lower(c) as char
}

/// `c` after ASCII uppercasing (`char::to_ascii_uppercase`): 'a'..='z'
/// become 'A'..='Z', every other character stays.
pub open spec fn ascii_upper_char(c: char) -> char {
    if 97 <= (c as u32) <= 122 {
        ((c as u32) - 32) as char
    } else {
        c
    }
}

/// `s` ASCII-lowercased (`str::to_ascii_lowercase`).
pub open spec fn ascii_lowercase(s: Seq<char>) -> Seq<char> {
    s.map_values(|c: char| ascii_lower_char(c))
}

/// `s` ASCII-uppercased (`str::to_ascii_uppercase`).
pub open spec fn ascii_uppercase(s: Seq<char>) -> Seq<char> {
    s.map_values(|c: char| ascii_upper_char(c))
}

/// Every character of `s` is ASCII (`str::is_ascii`).
pub open spec fn all_ascii(s: Seq<char>) -> bool {
    forall|i: int| 0 <= i < s.len() ==> (#[trigger] s[i] as u32) < 128
}

/// `c` is an ASCII uppercase letter.
pub open spec fn is_ascii_upper(c: char) -> bool {
    65 <= (c as u32) <= 90
}

/// `a` and `b` are equal up to ASCII case (`str::eq_ignore_ascii_case`).
pub open spec fn eq_ignore_ascii_case(a: Seq<char>, b: Seq<char>) -> bool {
    &&& a.len() == b.len()
    &&& forall|i: int| 0 <= i < a.len() ==> ascii_lower(#[trigger] a[i]) == ascii_lower(b[i])
}

/// What `str::to_lowercase` returns for `s`: each character replaced by its
/// Unicode lowercase mapping.
pub uninterp spec fn lowercase(s: Seq<char>) -> Seq<char>;

/// What `str::to_lowercase` returns for `s`, as far as it is stated: the
/// ASCII lowercasing when `s` is all ASCII, else the Unicode lowercasing
/// `lowercase(s)`.
pub open spec fn lower_text(s: Seq<char>) -> Seq<char> {
    if all_ascii(s) {
        ascii_lowercase(s)
    } else {
        lowercase(s)
    }
}

// ── Lemmas on splitting and joining ──────────────────────────────────────────

/// `c` does not occur in `s`.
pub open spec fn lacks(s: Seq<char>, c: char) -> bool {
    forall|i: int| 0 <= i < s.len() ==> #[trigger] s[i] != c
}

/// Splitting always yields at least one piece, and no piece holds the separator.
pub proof fn lemma_split_pieces(s: Seq<char>, c: char)
    ensures
        split(s, c).len() >= 1,
        forall|k: int| 0 <= k < split(s, c).len() ==> lacks(#[trigger] split(s, c)[k], c),
    decreases s.len(),
{
    if s.len() > 0 {
        lemma_split_pieces(s.drop_last(), c);
        let p = split(s.drop_last(), c);
        if s.last() != c {
            let q = p.last().push(s.last());
            assert(lacks(p.last(), c));
            assert forall|i: int| 0 <= i < q.len() implies #[trigger] q[i] != c by {
                if i < q.len() - 1 {
                    assert(q[i] == p.last()[i]);
                }
            }
            assert forall|k: int| 0 <= k < split(s, c).len() implies lacks(
                #[trigger] split(s, c)[k],
                c,
            ) by {
                if k < p.len() - 1 {
                    assert(split(s, c)[k] == p[k]);
                }
            }
        } else {
            assert forall|k: int| 0 <= k < split(s, c).len() implies lacks(
                #[trigger] split(s, c)[k],
                c,
            ) by {
                if k < p.len() {
                    assert(split(s, c)[k] == p[k]);
                }
            }
        }
    }
}

/// Appending text without the separator extends the last piece.
pub proof fn lemma_split_append_plain(x: Seq<char>, t: Seq<char>, c: char)
    requires
        lacks(t, c),
    ensures
        split(x + t, c) == split(x, c).update(
            split(x, c).len() - 1,
            split(x, c).last() + t,
        ),
    decreases t.len(),
{
    lemma_split_pieces(x, c);
    if t.len() == 0 {
        assert(x + t =~= x);
        assert(split(x, c).last() + t =~= split(x, c).last());
        assert(split(x, c).update(split(x, c).len() - 1, split(x, c).last() + t) =~= split(x, c));
    } else {
        let t0 = t.drop_last();
        assert(lacks(t0, c)) by {
            assert forall|i: int| 0 <= i < t0.len() implies #[trigger] t0[i] != c by {
                assert(t0[i] == t[i]);
            }
        }
        lemma_split_append_plain(x, t0, c);
        assert((x + t).drop_last() =~= x + t0);
        assert((x + t).last() == t.last());
        assert(t.last() != c);
        let p = split(x, c);
        let p0 = p.update(p.len() - 1, p.last() + t0);
        assert(split(x + t, c) == p0.update(p0.len() - 1, p0.last().push(t.last())));
        assert((p.last() + t0).push(t.last()) =~= p.last() + t);
        assert(p0.update(p0.len() - 1, p0.last().push(t.last())) =~= p.update(
            p.len() - 1,
            p.last() + t,
        ));
    }
}

/// Text without the separator is one piece.
pub proof fn lemma_split_plain(x: Seq<char>, c: char)
    requires
        lacks(x, c),
    ensures
        split(x, c) == seq![x],
{
    lemma_split_append_plain(Seq::<char>::empty(), x, c);
    assert(Seq::<char>::empty() + x =~= x);
    assert(split(Seq::<char>::empty(), c).update(0, Seq::<char>::empty() + x) =~= seq![x]);
}

/// Splitting text cut by one separator splits each side: the pieces of
/// `x`, `c`, `y` are the pieces of `x` followed by the pieces of `y`.
pub proof fn lemma_split_concat(x: Seq<char>, y: Seq<char>, c: char)
    ensures
        split(x + seq![c] + y, c) == split(x, c) + split(y, c),
    decreases y.len(),
{
    let z = x + seq![c] + y;
    if y.len() == 0 {
        assert(z.drop_last() =~= x);
        assert(split(x, c).push(Seq::<char>::empty()) =~= split(x, c) + split(y, c));
    } else {
        let y0 = y.drop_last();
        lemma_split_concat(x, y0, c);
        assert(z.drop_last() =~= x + seq![c] + y0);
        assert(z.last() == y.last());
        lemma_split_pieces(y0, c);
        let a = split(x, c);
        let b = split(y0, c);
        if y.last() == c {
            assert((a + b).push(Seq::<char>::empty()) =~= a + b.push(Seq::<char>::empty()));
        } else {
            assert((a + b).update((a + b).len() - 1, (a + b).last().push(y.last())) =~= a + b.update(
                b.len() - 1,
                b.last().push(y.last()),
            ));
        }
    }
}

/// Joining two non-empty runs of pieces is joining each and putting the
/// separator between them.
pub proof fn lemma_join_concat(ps: Seq<Seq<char>>, qs: Seq<Seq<char>>, sep: Seq<char>)
    requires
        ps.len() >= 1,
        qs.len() >= 1,
    ensures
        join(ps + qs, sep) == join(ps, sep) + sep + join(qs, sep),
    decreases qs.len(),
{
    let r = ps + qs;
    assert(r.drop_last() =~= ps + qs.drop_last());
    assert(r.last() == qs.last());
    if qs.len() == 1 {
        assert(r.drop_last() =~= ps);
    } else {
        lemma_join_concat(ps, qs.drop_last(), sep);
        assert(join(ps, sep) + sep + join(qs.drop_last(), sep) + sep + qs.last() =~= join(ps, sep) + sep
            + (join(qs.drop_last(), sep) + sep + qs.last()));
    }
}

/// Splitting the join of pieces that lack the separator gives the pieces back.
pub proof fn lemma_split_join(ps: Seq<Seq<char>>, c: char)
    requires
        ps.len() >= 1,
        forall|k: int| 0 <= k < ps.len() ==> lacks(#[trigger] ps[k], c),
    ensures
        split(join(ps, seq![c]), c) == ps,
    decreases ps.len(),
{
    if ps.len() == 1 {
        lemma_split_append_plain(Seq::<char>::empty(), ps[0], c);
        assert(Seq::<char>::empty() + ps[0] =~= ps[0]);
        assert(split(Seq::<char>::empty(), c).update(0, Seq::<char>::empty() + ps[0]) =~= ps);
    } else {
        let q = ps.drop_last();
        assert forall|k: int| 0 <= k < q.len() implies lacks(#[trigger] q[k], c) by {
            assert(q[k] == ps[k]);
        }
        lemma_split_join(q, c);
        let x = join(q, seq![c]) + seq![c];
        assert(x.drop_last() =~= join(q, seq![c]));
        assert(split(x, c) == q.push(Seq::<char>::empty()));
        assert(lacks(ps.last(), c));
        lemma_split_append_plain(x, ps.last(), c);
        assert(join(ps, seq![c]) == x + ps.last());
        assert(Seq::<char>::empty() + ps.last() =~= ps.last());
        assert(q.push(Seq::<char>::empty()).update(q.len() as int, Seq::<char>::empty() + ps.last()) =~= ps);
    }
}

/// Trimming adds no character.
pub proof fn lemma_trim_lacks(p: Seq<char>, c: char)
    requires
        lacks(p, c),
    ensures
        lacks(trim(p), c),
{
    lemma_lead_ws(p);
    let u = trim_start(p);
    lemma_trail_ws(u);
    assert forall|i: int| 0 <= i < trim(p).len() implies #[trigger] trim(p)[i] != c by {
        assert(trim(p)[i] == p[i + lead_ws(p)]);
    }
}

/// Appending text that starts with a non-whitespace character keeps the
/// leading whitespace of `s` as the only part `trim_start` removes.
pub proof fn lemma_trim_start_append(s: Seq<char>, u: Seq<char>)
    requires
        u.len() > 0,
        !is_ws(u[0]),
    ensures
        trim_start(s + u) == trim_start(s) + u,
{
    lemma_lead_ws(s);
    let k = lead_ws(s) as int;
    let su = s + u;
    assert forall|j: int| 0 <= j < k implies is_ws(#[trigger] su[j]) by {
        assert(su[j] == s[j]);
    }
    if k < s.len() {
        assert(su[k] == s[k]);
    } else {
        assert(su[k] == u[0]);
    }
    lemma_lead_ws_is(su, k);
    assert(su.skip(k) =~= s.skip(k) + u);
}

/// Text that ends with a non-whitespace character loses nothing to `trim_end`.
pub proof fn lemma_trim_end_unpadded(s: Seq<char>)
    requires
        s.len() > 0,
        !is_ws(s.last()),
    ensures
        trim_end(s) == s,
{
    lemma_trail_ws_is(s, 0);
    assert(s.take(s.len() as int) =~= s);
}

// ── Lemmas on trimming ───────────────────────────────────────────────────────

/// `lead_ws(s)` is the length of the longest whitespace prefix.
pub proof fn lemma_lead_ws(s: Seq<char>)
    ensures
        lead_ws(s) <= s.len(),
        forall|j: int| 0 <= j < lead_ws(s) ==> is_ws(#[trigger] s[j]),
        lead_ws(s) < s.len() ==> !is_ws(s[lead_ws(s) as int]),
    decreases s.len(),
{
    if s.len() > 0 && is_ws(s[0]) {
        lemma_lead_ws(s.drop_first());
        assert forall|j: int| 0 <= j < lead_ws(s) implies is_ws(#[trigger] s[j]) by {
            if j > 0 {
                assert(s[j] == s.drop_first()[j - 1]);
            }
        }
    }
}

/// A whitespace prefix of length `k` followed by a non-whitespace character
/// (or the end) means `lead_ws(s) == k`.
pub proof fn lemma_lead_ws_is(s: Seq<char>, k: int)
    requires
        0 <= k <= s.len(),
        forall|j: int| 0 <= j < k ==> is_ws(#[trigger] s[j]),
        k == s.len() || !is_ws(s[k]),
    ensures
        lead_ws(s) == k,
    decreases k,
{
    if k > 0 {
        assert(is_ws(s[0]));
        let t = s.drop_first();
        assert forall|j: int| 0 <= j < k - 1 implies is_ws(#[trigger] t[j]) by {
            assert(t[j] == s[j + 1]);
        }
        if k < s.len() {
            assert(t[k - 1] == s[k]);
        }
        lemma_lead_ws_is(t, k - 1);
    }
}

/// `trail_ws(s)` is the length of the longest whitespace suffix.
pub proof fn lemma_trail_ws(s: Seq<char>)
    ensures
        trail_ws(s) <= s.len(),
        forall|j: int| s.len() - trail_ws(s) <= j < s.len() ==> is_ws(#[trigger] s[j]),
        trail_ws(s) < s.len() ==> !is_ws(s[s.len() - trail_ws(s) - 1]),
    decreases s.len(),
{
    if s.len() > 0 && is_ws(s.last()) {
        lemma_trail_ws(s.drop_last());
        assert forall|j: int| s.len() - trail_ws(s) <= j < s.len() implies is_ws(#[trigger] s[j]) by {
            if j < s.len() - 1 {
                assert(s[j] == s.drop_last()[j]);
            }
        }
        if trail_ws(s) < s.len() {
            assert(s[s.len() - trail_ws(s) - 1] == s.drop_last()[s.drop_last().len() - trail_ws(s.drop_last()) - 1]);
        }
    }
}

/// A whitespace suffix of length `k` preceded by a non-whitespace character
/// (or the start) means `trail_ws(s) == k`.
pub proof fn lemma_trail_ws_is(s: Seq<char>, k: int)
    requires
        0 <= k <= s.len(),
        forall|j: int| s.len() - k <= j < s.len() ==> is_ws(#[trigger] s[j]),
        k == s.len() || !is_ws(s[s.len() - k - 1]),
    ensures
        trail_ws(s) == k,
    decreases k,
{
    if k > 0 {
        assert(is_ws(s[s.len() - 1]));
        let t = s.drop_last();
        assert forall|j: int| t.len() - (k - 1) <= j < t.len() implies is_ws(#[trigger] t[j]) by {
            assert(t[j] == s[j]);
        }
        if k < s.len() {
            assert(t[t.len() - (k - 1) - 1] == s[s.len() - k - 1]);
        }
        lemma_trail_ws_is(t, k - 1);
    }
}

/// The trimmed text neither starts nor ends with whitespace.
pub proof fn lemma_trim_edges(s: Seq<char>)
    ensures
        trim(s).len() > 0 ==> !is_ws(trim(s)[0]) && !is_ws(trim(s).last()),
        lead_ws(trim(s)) == 0,
        trail_ws(trim(s)) == 0,
{
    lemma_lead_ws(s);
    let u = trim_start(s);
    lemma_trail_ws(u);
    let r = trim(s);
    if r.len() > 0 {
        assert(r[0] == u[0]);
        assert(u[0] == s[lead_ws(s) as int]);
        assert(r.last() == u[u.len() - trail_ws(u) - 1]);
    }
    if r.len() > 0 {
        lemma_lead_ws_is(r, 0);
        lemma_trail_ws_is(r, 0);
    } else {
        lemma_lead_ws_is(r, 0);
        lemma_trail_ws_is(r, 0);
    }
}

/// Trimming twice is trimming once.
pub proof fn lemma_trim_idempotent(s: Seq<char>)
    ensures
        trim(trim(s)) == trim(s),
{
    lemma_trim_edges(s);
    let r = trim(s);
    assert(trim_start(r) =~= r);
    assert(trim_end(r) =~= r);
}

/// Text without leading or trailing whitespace is its own trim.
pub proof fn lemma_trim_of_unpadded(s: Seq<char>)
    requires
        s.len() > 0 ==> !is_ws(s[0]) && !is_ws(s.last()),
    ensures
        trim(s) == s,
{
    lemma_lead_ws_is(s, 0);
    assert(trim_start(s) =~= s);
    lemma_trail_ws_is(s, 0);
    assert(trim_end(s) =~= s);
}

// ── Executable helpers ───────────────────────────────────────────────────────

/// Appends `c` to `s` with `String::push`. The contract claims that the
/// string afterwards holds its former characters followed by `c`.
#[verifier::external_body]
pub(crate) fn push_char(s: &mut String, c: char)
    ensures
        final(s)@ == old(s)@.push(c),
{
    s.push(c)
}

/// The characters of `s`, in order.
pub fn chars_of(s: &str) -> (v: Vec<char>)
    ensures
        v@ == s@,
{
    let mut v: Vec<char> = Vec::new();
    let mut it = s.chars();
    loop
        invariant
            v@ + it.remaining() == s@,
            it.obeys_prophetic_iter_laws(),
            it.decrease() is Some,
        ensures
            v@ == s@,
        decreases it.decrease()->0,
    {
        match it.next() {
            Some(c) => {
                v.push(c);
            },
            None => {
                assert(v@ =~= v@ + it.remaining());
                break ;
            },
        }
    }
    v
}

/// The string made of the characters `v`.
pub fn string_of(v: &Vec<char>) -> (s: String)
    ensures
        s@ == v@,
{
    let mut s = String::new();
    let mut i: usize = 0;
    while i < v.len()
        invariant
            i <= v.len(),
            s@ == v@.take(i as int),
        decreases v.len() - i,
    {
        push_char(&mut s, v[i]);
        assert(v@.take(i as int).push(v@[i as int]) =~= v@.take(i + 1));
        i += 1;
    }
    assert(v@.take(v.len() as int) =~= v@);
    s
}

/// Whether `c` has the Unicode `White_Space` property.
pub fn is_whitespace(c: char) -> (b: bool)
    ensures
        b == is_ws(c),
{
    let v = c as u32;
    (0x09 <= v && v <= 0x0D) || v == 0x20 || v == 0x85 || v == 0xA0 || v == 0x1680
        || (0x2000 <= v && v <= 0x200A) || v == 0x2028 || v == 0x2029 || v == 0x202F
        || v == 0x205F || v == 0x3000
}

/// The characters `v[lo..hi]`.
pub fn sub_chars(v: &Vec<char>, lo: usize, hi: usize) -> (r: Vec<char>)
    requires
        lo <= hi <= v.len(),
    ensures
        r@ == v@.subrange(lo as int, hi as int),
{
    let mut r: Vec<char> = Vec::new();
    let mut i = lo;
    while i < hi
        invariant
            lo <= i <= hi <= v.len(),
            r@ == v@.subrange(lo as int, i as int),
        decreases hi - i,
    {
        r.push(v[i]);
        assert(v@.subrange(lo as int, i as int).push(v@[i as int]) =~= v@.subrange(lo as int, i + 1));
        i += 1;
    }
    r
}

/// `v` without leading and trailing whitespace.
pub fn trim_chars(v: &Vec<char>) -> (r: Vec<char>)
    ensures
        r@ == trim(v@),
{
    let n = v.len();
    let mut lo: usize = 0;
    while lo < n && is_whitespace(v[lo])
        invariant
            lo <= n == v.len(),
            forall|j: int| 0 <= j < lo ==> is_ws(#[trigger] v@[j]),
        decreases n - lo,
    {
        lo += 1;
    }
    proof {
        lemma_lead_ws_is(v@, lo as int);
    }
    let mut hi: usize = n;
    while hi > lo && is_whitespace(v[hi - 1])
        invariant
            lo <= hi <= n == v.len(),
            forall|j: int| hi <= j < n ==> is_ws(#[trigger] v@[j]),
        decreases hi,
    {
        hi -= 1;
    }
    let ghost u = trim_start(v@);
    proof {
        assert(u =~= v@.subrange(lo as int, n as int));
        assert forall|j: int| u.len() - (n - hi) <= j < u.len() implies is_ws(#[trigger] u[j]) by {
            assert(u[j] == v@[j + lo]);
        }
        if hi > lo {
            assert(u[u.len() - (n - hi) - 1] == v@[hi - 1]);
        }
        lemma_trail_ws_is(u, (n - hi) as int);
        assert(trim_end(u) =~= v@.subrange(lo as int, hi as int));
    }
    sub_chars(v, lo, hi)
}

/// Whether `a` and `b` hold the same characters.
pub fn chars_eq(a: &Vec<char>, b: &Vec<char>) -> (r: bool)
    ensures
        r == (a@ == b@),
{
    if a.len() != b.len() {
        return false;
    }
    let mut i: usize = 0;
    while i < a.len()
        invariant
            i <= a.len() == b.len(),
            forall|j: int| 0 <= j < i ==> a@[j] == b@[j],
        decreases a.len() - i,
    {
        if a[i] != b[i] {
            return false;
        }
        i += 1;
    }
    assert(a@ =~= b@);
    true
}

/// Whether the characters `a` spell the text `b`.
pub fn chars_eq_str(a: &Vec<char>, b: &str) -> (r: bool)
    ensures
        r == (a@ == b@),
{
    let bv = chars_of(b);
    chars_eq(a, &bv)
}

/// Whether `a` and `b` are the same text.
pub fn str_eq(a: &str, b: &str) -> (r: bool)
    ensures
        r == (a@ == b@),
{
    let av = chars_of(a);
    chars_eq_str(&av, b)
}

/// Whether `a` and `b` are equal up to ASCII case.
pub fn str_eq_ignore_ascii_case(a: &str, b: &str) -> (r: bool)
    ensures
        r == eq_ignore_ascii_case(a@, b@),
{
    let av = chars_of(a);
    let bv = chars_of(b);
    if av.len() != bv.len() {
        return false;
    }
    let mut i: usize = 0;
    while i < av.len()
        invariant
            av@ == a@,
            bv@ == b@,
            i <= av.len() == bv.len(),
            forall|j: int| 0 <= j < i ==> ascii_lower(#[trigger] av@[j]) == ascii_lower(bv@[j]),
        decreases av.len() - i,
    {
        let x = av[i] as u32;
        let y = bv[i] as u32;
        let lx: u32 = if 65 <= x && x <= 90 { x + 32 } else { x };
        let ly: u32 = if 65 <= y && y <= 90 { y + 32 } else { y };
        if lx != ly {
            return false;
        }
        i += 1;
    }
    true
}

/// The Unicode lowercase form of `s`, computed by `str::to_lowercase`. The
/// contract names the result `lowercase(s)`: the result is determined by the
/// characters of `s`. Of the Unicode case tables it states only the ASCII
/// part: on all-ASCII text the result is the ASCII lowercasing ('A'..='Z'
/// become 'a'..='z', every other character stays), as the documentation of
/// `str::to_ascii_lowercase` and `str::to_lowercase` describes; what
/// non-ASCII characters map to is left unsaid.
#[verifier::external_body]
pub(crate) fn to_lowercase(s: &str) -> (r: String)
    ensures
        r@ == lowercase(s@),
        all_ascii(s@) ==> r@ == ascii_lowercase(s@),
{
    s.to_lowercase()
}

/// `v` cut at every `c`.
pub fn split_chars(v: &Vec<char>, c: char) -> (parts: Vec<Vec<char>>)
    ensures
        views(parts@) == split(v@, c),
{
    let mut parts: Vec<Vec<char>> = Vec::new();
    let mut cur: Vec<char> = Vec::new();
    let mut i: usize = 0;
    while i < v.len()
        invariant
            i <= v.len(),
            views(parts@).push(cur@) == split(v@.take(i as int), c),
        decreases v.len() - i,
    {
        let ghost before = views(parts@).push(cur@);
        assert(v@.take(i + 1).drop_last() =~= v@.take(i as int));
        if v[i] == c {
            parts.push(cur);
            cur = Vec::new();
            assert(views(parts@).push(cur@) =~= before.push(Seq::<char>::empty()));
        } else {
            cur.push(v[i]);
            assert(views(parts@).push(cur@) =~= before.update(before.len() - 1, before.last().push(v@[i as int])));
        }
        i += 1;
    }
    assert(v@.take(v.len() as int) =~= v@);
    parts.push(cur);
    parts
}

/// The pieces `parts` with `sep` between each two.
pub fn join_chars(parts: &Vec<Vec<char>>, sep: &Vec<char>) -> (r: Vec<char>)
    ensures
        r@ == join(views(parts@), sep@),
{
    let mut r: Vec<char> = Vec::new();
    let mut i: usize = 0;
    while i < parts.len()
        invariant
            i <= parts.len(),
            r@ == join(views(parts@).take(i as int), sep@),
        decreases parts.len() - i,
    {
        assert(views(parts@).take(i + 1).drop_last() =~= views(parts@).take(i as int));
        if i > 0 {
            let mut k: usize = 0;
            let ghost r0 = r@;
            while k < sep.len()
                invariant
                    k <= sep.len(),
                    r@ == r0 + sep@.take(k as int),
                decreases sep.len() - k,
            {
                r.push(sep[k]);
                assert(r0 + sep@.take(k + 1) =~= (r0 + sep@.take(k as int)).push(sep@[k as int]));
                k += 1;
            }
            assert(sep@.take(sep.len() as int) =~= sep@);
        }
        let p = &parts[i];
        let mut k: usize = 0;
        let ghost r1 = r@;
        while k < p.len()
            invariant
                k <= p.len(),
                r@ == r1 + p@.take(k as int),
            decreases p.len() - k,
        {
            r.push(p[k]);
            assert(r1 + p@.take(k + 1) =~= (r1 + p@.take(k as int)).push(p@[k as int]));
            k += 1;
        }
        assert(p@.take(p.len() as int) =~= p@);
        proof {
            if i == 0 {
                assert(r1 =~= Seq::<char>::empty());
                assert(r@ =~= views(parts@).take(1)[0]);
            }
        }
        i += 1;
    }
    assert(views(parts@).take(parts.len() as int) =~= views(parts@));
    r
}

/// `v` without its trailing run of `c`.
pub fn strip_end_char_chars(v: &Vec<char>, c: char) -> (r: Vec<char>)
    ensures
        r@ == strip_end_char(v@, c),
{
    let mut hi = v.len();
    assert(v@.take(hi as int) =~= v@);
    while hi > 0 && v[hi - 1] == c
        invariant
            hi <= v.len(),
            strip_end_char(v@.take(hi as int), c) == strip_end_char(v@, c),
        decreases hi,
    {
        assert(v@.take(hi as int).drop_last() =~= v@.take(hi - 1));
        hi -= 1;
    }
    assert(v@.subrange(0, hi as int) =~= v@.take(hi as int));
    sub_chars(v, 0, hi)
}

/// `v` without its trailing repetitions of `...`.
pub fn strip_end_dots_chars(v: &Vec<char>) -> (r: Vec<char>)
    ensures
        r@ == strip_end_dots(v@),
{
    let mut hi = v.len();
    assert(v@.take(hi as int) =~= v@);
    while hi >= 3 && v[hi - 3] == '.' && v[hi - 2] == '.' && v[hi - 1] == '.'
        invariant
            hi <= v.len(),
            strip_end_dots(v@.take(hi as int)) == strip_end_dots(v@),
        decreases hi,
    {
        let ghost t = v@.take(hi as int);
        assert(t.subrange(t.len() - 3, t.len() as int) =~= three_dots());
        assert(t.take(t.len() - 3) =~= v@.take(hi - 3));
        hi -= 3;
    }
    proof {
        let t = v@.take(hi as int);
        if t.len() >= 3 {
            assert(t.subrange(t.len() - 3, t.len() as int) != three_dots()) by {
                if t.subrange(t.len() - 3, t.len() as int) == three_dots() {
                    assert(t.subrange(t.len() - 3, t.len() as int)[0] == v@[hi - 3]);
                    assert(t.subrange(t.len() - 3, t.len() as int)[1] == v@[hi - 2]);
                    assert(t.subrange(t.len() - 3, t.len() as int)[2] == v@[hi - 1]);
                }
            }
        }
    }
    assert(v@.subrange(0, hi as int) =~= v@.take(hi as int));
    sub_chars(v, 0, hi)
}

/// The strings `parts` with `sep` between each two.
pub fn join_strings(parts: &Vec<String>, sep: &str) -> (r: String)
    ensures
        r@ == join(string_views(parts@), sep@),
{
    let mut cs: Vec<Vec<char>> = Vec::new();
    let mut i: usize = 0;
    while i < parts.len()
        invariant
            i <= parts.len(),
            views(cs@) == string_views(parts@).take(i as int),
        decreases parts.len() - i,
    {
        let c = chars_of(parts[i].as_str());
        let ghost before = views(cs@);
        cs.push(c);
        assert(views(cs@) =~= before.push(parts@[i as int]@));
        assert(string_views(parts@).take(i + 1) =~= string_views(parts@).take(i as int).push(
            parts@[i as int]@,
        ));
        i += 1;
    }
    assert(string_views(parts@).take(parts.len() as int) =~= string_views(parts@));
    let sv = chars_of(sep);
    let j = join_chars(&cs, &sv);
    string_of(&j)
}


// ── Lemmas on ASCII case ─────────────────────────────────────────────────────

/// ASCII lowercasing keeps whitespace, `.` and `…` as they are, keeps ASCII
/// characters ASCII, and leaves no uppercase ASCII letter.
pub proof fn lemma_lower_char(c: char)
    ensures
        is_ws(ascii_lower_char(c)) == is_ws(c),
        (ascii_lower_char(c) == '.') == (c == '.'),
        (ascii_lower_char(c) == '…') == (c == '…'),
        !is_ascii_upper(ascii_lower_char(c)),
        (c as u32) < 128 ==> (ascii_lower_char(c) as u32) < 128,
        ascii_lower(ascii_lower_char(c)) == ascii_lower(c),
{
    let x = c as u32;
    assert((x as char) == c);
    assert('.' as u32 == 46);
    assert('…' as u32 == 0x2026);
    if 65 <= x <= 90 {
        let y = (x + 32) as u32;
        assert((y as char) as u32 == y);
        assert(ascii_lower_char(c) as u32 == y);
    } else {
        assert(ascii_lower_char(c) == c);
    }
}

/// ASCII uppercasing keeps ASCII characters ASCII and changes nothing up
/// to ASCII case.
pub proof fn lemma_upper_char(c: char)
    ensures
        ascii_lower(ascii_upper_char(c)) == ascii_lower(c),
        (c as u32) < 128 ==> (ascii_upper_char(c) as u32) < 128,
{
    let x = c as u32;
    assert((x as char) == c);
    if 97 <= x <= 122 {
        let y = (x - 32) as u32;
        assert((y as char) as u32 == y);
    }
}

proof fn lemma_lead_ws_lower(s: Seq<char>)
    ensures
        lead_ws(ascii_lowercase(s)) == lead_ws(s),
    decreases s.len(),
{
    if s.len() > 0 {
        lemma_lower_char(s[0]);
        assert(ascii_lowercase(s).drop_first() =~= ascii_lowercase(s.drop_first()));
        lemma_lead_ws_lower(s.drop_first());
    }
}

proof fn lemma_trail_ws_lower(s: Seq<char>)
    ensures
        trail_ws(ascii_lowercase(s)) == trail_ws(s),
    decreases s.len(),
{
    if s.len() > 0 {
        lemma_lower_char(s.last());
        assert(ascii_lowercase(s).drop_last() =~= ascii_lowercase(s.drop_last()));
        lemma_trail_ws_lower(s.drop_last());
    }
}

/// Trimming commutes with ASCII lowercasing.
pub proof fn lemma_trim_lower(s: Seq<char>)
    ensures
        trim(ascii_lowercase(s)) == ascii_lowercase(trim(s)),
        trim(s).len() <= s.len(),
        all_ascii(s) ==> all_ascii(trim(s)),
{
    lemma_lead_ws_lower(s);
    lemma_lead_ws(s);
    let a = trim_start(s);
    assert(trim_start(ascii_lowercase(s)) =~= ascii_lowercase(a));
    lemma_trail_ws_lower(a);
    lemma_trail_ws(a);
    assert(trim(ascii_lowercase(s)) =~= ascii_lowercase(trim(s)));
    if all_ascii(s) {
        assert forall|i: int| 0 <= i < trim(s).len() implies (#[trigger] trim(s)[i] as u32) < 128 by {
            assert(trim(s)[i] == s[i + lead_ws(s)]);
        }
    }
}

/// Stripping a trailing run of `…` commutes with ASCII lowercasing, and keeps
/// a prefix.
pub proof fn lemma_strip_ellipsis_lower(s: Seq<char>)
    ensures
        strip_end_char(ascii_lowercase(s), '…') == ascii_lowercase(strip_end_char(s, '…')),
        strip_end_char(s, '…').len() <= s.len(),
        strip_end_char(s, '…') == s.take(strip_end_char(s, '…').len() as int),
    decreases s.len(),
{
    if s.len() > 0 {
        lemma_lower_char(s.last());
        assert(ascii_lowercase(s).drop_last() =~= ascii_lowercase(s.drop_last()));
        lemma_strip_ellipsis_lower(s.drop_last());
        let r = strip_end_char(s.drop_last(), '…');
        assert(s.drop_last().take(r.len() as int) =~= s.take(r.len() as int));
    }
    assert(s.take(s.len() as int) =~= s);
}

/// Stripping trailing `...` commutes with ASCII lowercasing, and keeps a
/// prefix.
pub proof fn lemma_strip_dots_lower(s: Seq<char>)
    ensures
        strip_end_dots(ascii_lowercase(s)) == ascii_lowercase(strip_end_dots(s)),
        strip_end_dots(s).len() <= s.len(),
        strip_end_dots(s) == s.take(strip_end_dots(s).len() as int),
    decreases s.len(),
{
    let l = ascii_lowercase(s);
    if s.len() >= 3 {
        let n = s.len() as int;
        lemma_lower_char(s[n - 3]);
        lemma_lower_char(s[n - 2]);
        lemma_lower_char(s[n - 1]);
        let tail = s.subrange(n - 3, n);
        let ltail = l.subrange(n - 3, n);
        assert((tail == three_dots()) == (ltail == three_dots())) by {
            if tail == three_dots() {
                assert(ltail =~= three_dots());
            }
            if ltail == three_dots() {
                assert(l[n - 3] == '.' && l[n - 2] == '.' && l[n - 1] == '.');
                assert(tail =~= three_dots());
            }
        }
        assert(l.take(n - 3) =~= ascii_lowercase(s.take(n - 3)));
        lemma_strip_dots_lower(s.take(n - 3));
        let r = strip_end_dots(s.take(n - 3));
        assert(s.take(n - 3).take(r.len() as int) =~= s.take(r.len() as int));
    }
    assert(s.take(s.len() as int) =~= s);
}

} // verus!
