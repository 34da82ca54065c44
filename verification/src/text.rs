//! Character-level text helpers: conversions between strings and character
//! vectors, whitespace trimming, line splitting, separator splitting and
//! substring search, each with the mathematical statement it meets.
use vstd::prelude::*;

verus! {

// ---------------------------------------------------------------------------
// Specifications
// ---------------------------------------------------------------------------

/// The characters that carry the Unicode `White_Space` property, which is what
/// `char::is_whitespace` (and hence `str::trim`) tests for.
pub open spec fn is_space(c: char) -> bool {
    let u = c as u32;
    ||| 0x9 <= u <= 0xd
    ||| u == 0x20
    ||| u == 0x85
    ||| u == 0xa0
    ||| u == 0x1680
    ||| 0x2000 <= u <= 0x200a
    ||| u == 0x2028
    ||| u == 0x2029
    ||| u == 0x202f
    ||| u == 0x205f
    ||| u == 0x3000
}

/// `s` with its leading whitespace removed.
pub open spec fn trim_start(s: Seq<char>) -> Seq<char>
    decreases s.len(),
{
    if s.len() > 0 && is_space(s[0]) {
        trim_start(s.drop_first())
    } else {
        s
    }
}

/// `s` with its trailing whitespace removed.
pub open spec fn trim_end(s: Seq<char>) -> Seq<char>
    decreases s.len(),
{
    if s.len() > 0 && is_space(s.last()) {
        trim_end(s.drop_last())
    } else {
        s
    }
}

/// `s` with whitespace removed at both ends (what `str::trim` returns).
pub open spec fn trim(s: Seq<char>) -> Seq<char> {
    trim_end(trim_start(s))
}

/// `p` is a prefix of `t`.
pub open spec fn is_prefix(p: Seq<char>, t: Seq<char>) -> bool {
    p.len() <= t.len() && t.subrange(0, p.len() as int) == p
}

/// `p` is a suffix of `t`.
pub open spec fn is_suffix(p: Seq<char>, t: Seq<char>) -> bool {
    p.len() <= t.len() && t.subrange(t.len() - p.len(), t.len() as int) == p
}

/// `p` occurs in `t` starting at position `k`.
pub open spec fn occurs_at(t: Seq<char>, p: Seq<char>, k: int) -> bool {
    0 <= k && k + p.len() <= t.len() && t.subrange(k, k + p.len()) == p
}

/// `p` occurs somewhere in `t`.
pub open spec fn is_substring(p: Seq<char>, t: Seq<char>) -> bool {
    exists|k: int| occurs_at(t, p, k)
}

/// The leftmost position at or after `k` where `p` occurs in `t`.
pub open spec fn find_from(t: Seq<char>, p: Seq<char>, k: int) -> Option<int>
    decreases t.len() + 1 - k,
{
    if k < 0 || k + p.len() > t.len() {
        None
    } else if occurs_at(t, p, k) {
        Some(k)
    } else {
        find_from(t, p, k + 1)
    }
}

/// The pieces of `s` between occurrences of `sep` (what `str::split` with a
/// character separator yields); there is always at least one piece.
pub open spec fn split_on(s: Seq<char>, sep: char) -> Seq<Seq<char>>
    decreases s.len(),
{
    if s.len() == 0 {
        seq![Seq::<char>::empty()]
    } else {
        let r = split_on(s.drop_last(), sep);
        if s.last() == sep {
            r.push(Seq::<char>::empty())
        } else {
            r.update(r.len() - 1, r.last().push(s.last()))
        }
    }
}

/// A finished line loses one trailing carriage return.
pub open spec fn strip_cr(l: Seq<char>) -> Seq<char> {
    if l.len() > 0 && l.last() == '\r' {
        l.drop_last()
    } else {
        l
    }
}

/// The lines finished so far and the unfinished last line of `s`.
pub open spec fn lines_state(s: Seq<char>) -> (Seq<Seq<char>>, Seq<char>)
    decreases s.len(),
{
    if s.len() == 0 {
        (Seq::empty(), Seq::empty())
    } else {
        let (done, cur) = lines_state(s.drop_last());
        if s.last() == '\n' {
            (done.push(strip_cr(cur)), Seq::empty())
        } else {
            (done, cur.push(s.last()))
        }
    }
}

/// The lines of `s` as `str::lines` yields them: split at `\n` or `\r\n`, with
/// the last line ending optional and no empty line after it.
pub open spec fn lines(s: Seq<char>) -> Seq<Seq<char>> {
    let (done, cur) = lines_state(s);
    if cur.len() == 0 {
        done
    } else {
        done.push(cur)
    }
}

/// The words finished so far and the unfinished last word of `s`.
pub open spec fn words_state(s: Seq<char>) -> (Seq<Seq<char>>, Seq<char>)
    decreases s.len(),
{
    if s.len() == 0 {
        (Seq::empty(), Seq::empty())
    } else {
        let (done, cur) = words_state(s.drop_last());
        if is_space(s.last()) {
            if cur.len() > 0 {
                (done.push(cur), Seq::empty())
            } else {
                (done, cur)
            }
        } else {
            (done, cur.push(s.last()))
        }
    }
}

/// The maximal runs of non-whitespace characters of `s` (what
/// `str::split_whitespace` yields).
pub open spec fn words(s: Seq<char>) -> Seq<Seq<char>> {
    let (done, cur) = words_state(s);
    if cur.len() == 0 {
        done
    } else {
        done.push(cur)
    }
}

/// The strings of a sequence, each taken as its characters.
pub open spec fn strings_view(v: Seq<String>) -> Seq<Seq<char>> {
    v.map_values(|s: String| s@)
}

/// The character vectors of a sequence, each taken as its characters.
pub open spec fn seqs_view(v: Seq<Vec<char>>) -> Seq<Seq<char>> {
    v.map_values(|s: Vec<char>| s@)
}

// ---------------------------------------------------------------------------
// Lemmas
// ---------------------------------------------------------------------------

/// Viewing a sequence of strings commutes with appending one.
pub proof fn lemma_strings_view_push(v: Seq<String>, s: String)
    ensures
        strings_view(v.push(s)) == strings_view(v).push(s@),
{
    assert(strings_view(v.push(s)) =~= strings_view(v).push(s@));
}

/// Viewing a sequence of character vectors commutes with appending one.
pub proof fn lemma_seqs_view_push(v: Seq<Vec<char>>, s: Vec<char>)
    ensures
        seqs_view(v.push(s)) == seqs_view(v).push(s@),
{
    assert(seqs_view(v.push(s)) =~= seqs_view(v).push(s@));
}

/// A string with no whitespace at either end is its own trim.
pub proof fn lemma_trim_plain(s: Seq<char>)
    requires
        s.len() > 0 ==> !is_space(s[0]) && !is_space(s.last()),
    ensures
        trim(s) == s,
{
}

/// Splitting always yields at least one piece.
pub proof fn lemma_split_nonempty(s: Seq<char>, sep: char)
    ensures
        split_on(s, sep).len() >= 1,
    decreases s.len(),
{
    if s.len() > 0 {
        lemma_split_nonempty(s.drop_last(), sep);
    }
}

/// A sequence without the separator is one piece.
pub proof fn lemma_split_no_sep(s: Seq<char>, sep: char)
    requires
        !s.contains(sep),
    ensures
        split_on(s, sep) == seq![s],
    decreases s.len(),
{
    if s.len() > 0 {
        assert(!s.drop_last().contains(sep)) by {
            if s.drop_last().contains(sep) {
                let i = choose|i: int| 0 <= i < s.drop_last().len() && s.drop_last()[i] == sep;
                assert(s[i] == sep);
            }
        }
        lemma_split_no_sep(s.drop_last(), sep);
        assert(s.last() != sep) by {
            assert(s[s.len() - 1] == s.last());
        }
        assert(s.drop_last().push(s.last()) =~= s);
        let r = split_on(s.drop_last(), sep);
        assert(r.last() == s.drop_last());
        assert(r.update(r.len() - 1, r.last().push(s.last())) =~= seq![s]);
    } else {
        assert(s =~= Seq::<char>::empty());
    }
}

/// Splitting `sep` followed by a separator-free `s` yields an empty piece and `s`.
pub proof fn lemma_split_leading_sep(s: Seq<char>, sep: char)
    requires
        !s.contains(sep),
    ensures
        split_on(seq![sep] + s, sep) == seq![Seq::<char>::empty(), s],
    decreases s.len(),
{
    let t = seq![sep] + s;
    if s.len() == 0 {
        assert(t =~= seq![sep]);
        assert(t.drop_last() =~= Seq::<char>::empty());
        assert(s =~= Seq::<char>::empty());
        assert(split_on(t.drop_last(), sep) == seq![Seq::<char>::empty()]);
        assert(t.last() == sep);
        assert(split_on(t, sep) =~= seq![Seq::<char>::empty(), s]);
    } else {
        assert(!s.drop_last().contains(sep)) by {
            if s.drop_last().contains(sep) {
                let i = choose|i: int| 0 <= i < s.drop_last().len() && s.drop_last()[i] == sep;
                assert(s[i] == sep);
            }
        }
        lemma_split_leading_sep(s.drop_last(), sep);
        assert(t.drop_last() =~= seq![sep] + s.drop_last());
        assert(t.last() == s.last());
        assert(s.last() != sep) by {
            assert(s[s.len() - 1] == s.last());
        }
        assert(s.drop_last().push(s.last()) =~= s);
        let r = split_on(t.drop_last(), sep);
        assert(r == seq![Seq::<char>::empty(), s.drop_last()]);
        assert(r.update(r.len() - 1, r.last().push(t.last())) =~= seq![Seq::<char>::empty(), s]);
    }
}

/// A separator-free `s` followed by `sep` splits into `s` and an empty piece.
pub proof fn lemma_split_trailing_sep(s: Seq<char>, sep: char)
    requires
        !s.contains(sep),
    ensures
        split_on(s.push(sep), sep) == seq![s, Seq::<char>::empty()],
{
    lemma_split_no_sep(s, sep);
    assert(s.push(sep).drop_last() =~= s);
    assert(split_on(s.push(sep), sep) =~= seq![s, Seq::<char>::empty()]);
}

/// A separator followed by a separator-free `y`, appended to `x`, adds `y`
/// as one more piece after those of `x`.
pub proof fn lemma_split_append_piece(x: Seq<char>, y: Seq<char>, sep: char)
    requires
        !y.contains(sep),
    ensures
        split_on(x.push(sep) + y, sep) == split_on(x, sep).push(y),
    decreases y.len(),
{
    let s = x.push(sep) + y;
    if y.len() == 0 {
        assert(s =~= x.push(sep));
        assert(s.drop_last() =~= x);
        assert(s.last() == sep);
        assert(y =~= Seq::<char>::empty());
        assert(split_on(s, sep) == split_on(s.drop_last(), sep).push(Seq::<char>::empty()));
    } else {
        assert(!y.drop_last().contains(sep)) by {
            if y.drop_last().contains(sep) {
                let i = choose|i: int| 0 <= i < y.drop_last().len() && y.drop_last()[i] == sep;
                assert(y[i] == sep);
            }
        }
        lemma_split_append_piece(x, y.drop_last(), sep);
        assert(s.drop_last() =~= x.push(sep) + y.drop_last());
        assert(s.last() == y.last());
        assert(y.last() != sep) by {
            assert(y[y.len() - 1] == y.last());
        }
        let r = split_on(s.drop_last(), sep);
        assert(r == split_on(x, sep).push(y.drop_last()));
        assert(y.drop_last().push(y.last()) =~= y);
        assert(r.update(r.len() - 1, r.last().push(s.last())) =~= split_on(x, sep).push(y));
    }
}

/// Trimming leading whitespace from a suffix that starts after whitespace
/// gives the same result as trimming the whole.
proof fn lemma_trim_start_skip(s: Seq<char>, i: int)
    requires
        0 <= i < s.len(),
        is_space(s[i]),
    ensures
        trim_start(s.subrange(i, s.len() as int)) == trim_start(s.subrange(i + 1, s.len() as int)),
{
    let a = s.subrange(i, s.len() as int);
    assert(a[0] == s[i]);
    assert(a.drop_first() =~= s.subrange(i + 1, s.len() as int));
}

/// Dropping trailing whitespace from a prefix that ends in whitespace.
proof fn lemma_trim_end_skip(s: Seq<char>, j: int)
    requires
        0 < j <= s.len(),
        is_space(s[j - 1]),
    ensures
        trim_end(s.subrange(0, j)) == trim_end(s.subrange(0, j - 1)),
{
    let a = s.subrange(0, j);
    assert(a.last() == s[j - 1]);
    assert(a.drop_last() =~= s.subrange(0, j - 1));
}

/// `find_from` returns an occurrence, and the leftmost one from `k` on.
pub proof fn lemma_find_from_sound(t: Seq<char>, p: Seq<char>, k: int)
    requires
        k >= 0,
    ensures
        find_from(t, p, k) matches Some(j) ==> {
            &&& k <= j
            &&& occurs_at(t, p, j)
            &&& forall|m: int| k <= m < j ==> !occurs_at(t, p, m)
        },
        find_from(t, p, k) is None ==> forall|m: int| k <= m ==> !occurs_at(t, p, m),
    decreases t.len() + 1 - k,
{
    if k + p.len() > t.len() {
    } else if occurs_at(t, p, k) {
    } else {
        lemma_find_from_sound(t, p, k + 1);
    }
}

// ---------------------------------------------------------------------------
// Executable helpers
// ---------------------------------------------------------------------------

/// Appends one character to a string (wraps `String::push`).
#[verifier::external_body]
pub(crate) fn string_push(s: &mut String, c: char)
    ensures
        final(s)@ == old(s)@.push(c),
{
    s.push(c);
}

/// The characters of a string, in order.
pub(crate) fn chars_of(s: &str) -> (r: Vec<char>)
    ensures
        r@ == s@,
{
    let mut r: Vec<char> = Vec::new();
    for c in it: s.chars()
        invariant
            r@ == it.seq().take(it.index() as int),
    {
        r.push(c);
    }
    r
}

/// A string holding the given characters.
pub(crate) fn string_of(v: &Vec<char>) -> (r: String)
    ensures
        r@ == v@,
{
    let mut r = String::new();
    let mut i: usize = 0;
    while i < v.len()
        invariant
            i <= v.len(),
            r@ == v@.take(i as int),
        decreases v.len() - i,
    {
        string_push(&mut r, v[i]);
        assert(v@.take(i as int).push(v@[i as int]) =~= v@.take(i + 1));
        i += 1;
    }
    assert(v@.take(v.len() as int) =~= v@);
    r
}

/// Whether a character is whitespace.
pub(crate) fn char_is_space(c: char) -> (r: bool)
    ensures
        r == is_space(c),
{
    let u = c as u32;
    (0x9 <= u && u <= 0xd) || u == 0x20 || u == 0x85 || u == 0xa0 || u == 0x1680 || (0x2000 <= u
        && u <= 0x200a) || u == 0x2028 || u == 0x2029 || u == 0x202f || u == 0x205f || u == 0x3000
}

/// Equality of two character vectors.
pub(crate) fn chars_eq(a: &Vec<char>, b: &Vec<char>) -> (r: bool)
    ensures
        r == (a@ == b@),
{
    if a.len() != b.len() {
        return false;
    }
    let mut i: usize = 0;
    while i < a.len()
        invariant
            a.len() == b.len(),
            i <= a.len(),
            forall|k: int| 0 <= k < i ==> a@[k] == b@[k],
        decreases a.len() - i,
    {
        if a[i] != b[i] {
            return false;
        }
        i += 1;
    }
    assert(a@ =~= b@);
    true
}

/// Whether a character vector holds a given character.
pub(crate) fn chars_contain(a: &Vec<char>, c: char) -> (r: bool)
    ensures
        r == a@.contains(c),
{
    let mut i: usize = 0;
    while i < a.len()
        invariant
            i <= a.len(),
            forall|k: int| 0 <= k < i ==> a@[k] != c,
        decreases a.len() - i,
    {
        if a[i] == c {
            assert(a@[i as int] == c);
            return true;
        }
        i += 1;
    }
    false
}

/// The characters `v[from..to]`.
pub(crate) fn chars_slice(v: &Vec<char>, from: usize, to: usize) -> (r: Vec<char>)
    requires
        from <= to <= v.len(),
    ensures
        r@ == v@.subrange(from as int, to as int),
{
    let mut r: Vec<char> = Vec::new();
    let mut i = from;
    while i < to
        invariant
            from <= i <= to <= v.len(),
            r@ == v@.subrange(from as int, i as int),
        decreases to - i,
    {
        r.push(v[i]);
        assert(v@.subrange(from as int, i as int).push(v@[i as int]) =~= v@.subrange(
            from as int,
            i + 1,
        ));
        i += 1;
    }
    r
}

/// The characters of `v` with whitespace removed at both ends.
pub(crate) fn chars_trim(v: &Vec<char>) -> (r: Vec<char>)
    ensures
        r@ == trim(v@),
{
    let n = v.len();
    let mut i: usize = 0;
    assert(v@.subrange(0, n as int) =~= v@);
    while i < n && char_is_space(v[i])
        invariant
            i <= n == v.len(),
            trim_start(v@) == trim_start(v@.subrange(i as int, n as int)),
        decreases n - i,
    {
        proof {
            lemma_trim_start_skip(v@, i as int);
        }
        i += 1;
    }
    let ghost rest = v@.subrange(i as int, n as int);
    assert(trim_start(rest) == rest) by {
        if rest.len() > 0 {
            assert(rest[0] == v@[i as int]);
        }
    }
    let mut j: usize = n;
    assert(rest.subrange(0, (n - i) as int) =~= rest);
    while j > i && char_is_space(v[j - 1])
        invariant
            i <= j <= n == v.len(),
            rest == v@.subrange(i as int, n as int),
            trim_end(rest) == trim_end(rest.subrange(0, (j - i) as int)),
        decreases j,
    {
        proof {
            assert(rest[(j - i) - 1] == v@[j - 1]);
            lemma_trim_end_skip(rest, (j - i) as int);
        }
        j -= 1;
    }
    let ghost kept = rest.subrange(0, (j - i) as int);
    assert(trim_end(kept) == kept) by {
        if kept.len() > 0 {
            assert(kept.last() == v@[j - 1]);
        }
    }
    assert(kept =~= v@.subrange(i as int, j as int));
    chars_slice(v, i, j)
}

/// Whether `p` occurs in `t` at position `k`.
pub(crate) fn chars_occur_at(t: &Vec<char>, p: &Vec<char>, k: usize) -> (r: bool)
    requires
        k <= t.len(),
    ensures
        r == occurs_at(t@, p@, k as int),
{
    if p.len() > t.len() - k {
        return false;
    }
    let mut i: usize = 0;
    while i < p.len()
        invariant
            k + p.len() <= t.len(),
            i <= p.len(),
            forall|m: int| 0 <= m < i ==> t@[k + m] == p@[m],
        decreases p.len() - i,
    {
        if t[k + i] != p[i] {
            assert(t@.subrange(k as int, k + p.len())[i as int] != p@[i as int]);
            return false;
        }
        i += 1;
    }
    assert(t@.subrange(k as int, k + p.len()) =~= p@);
    true
}

/// Whether `p` is a prefix of `t`.
pub(crate) fn chars_starts_with(t: &Vec<char>, p: &Vec<char>) -> (r: bool)
    ensures
        r == is_prefix(p@, t@),
{
    chars_occur_at(t, p, 0)
}

/// Whether `p` is a suffix of `t`.
pub(crate) fn chars_ends_with(t: &Vec<char>, p: &Vec<char>) -> (r: bool)
    ensures
        r == is_suffix(p@, t@),
{
    if p.len() > t.len() {
        return false;
    }
    chars_occur_at(t, p, t.len() - p.len())
}

/// The leftmost occurrence of `p` in `t` at or after `from`.
pub(crate) fn chars_find_from(t: &Vec<char>, p: &Vec<char>, from: usize) -> (r: Option<usize>)
    requires
        from <= t.len(),
    ensures
        match r {
            Some(j) => find_from(t@, p@, from as int) == Some(j as int),
            None => find_from(t@, p@, from as int) is None,
        },
{
    if p.len() > t.len() - from {
        return None;
    }
    let last = t.len() - p.len();
    let mut k = from;
    while k < last
        invariant
            from <= k <= last,
            last + p.len() == t.len(),
            find_from(t@, p@, from as int) == find_from(t@, p@, k as int),
        decreases last - k,
    {
        if chars_occur_at(t, p, k) {
            return Some(k);
        }
        k += 1;
    }
    if chars_occur_at(t, p, k) {
        Some(k)
    } else {
        assert(find_from(t@, p@, k + 1) is None);
        None
    }
}

/// Whether `p` occurs anywhere in `t`.
pub(crate) fn chars_contains_seq(t: &Vec<char>, p: &Vec<char>) -> (r: bool)
    ensures
        r == is_substring(p@, t@),
{
    let found = chars_find_from(t, p, 0);
    proof {
        lemma_find_from_sound(t@, p@, 0);
    }
    match found {
        Some(j) => {
            assert(occurs_at(t@, p@, j as int));
            true
        },
        None => {
            assert forall|k: int| !occurs_at(t@, p@, k) by {
                if k < 0 {
                } else {
                }
            }
            false
        },
    }
}

/// The pieces of `v` between occurrences of `sep`.
pub(crate) fn chars_split(v: &Vec<char>, sep: char) -> (r: Vec<Vec<char>>)
    ensures
        seqs_view(r@) == split_on(v@, sep),
{
    let mut parts: Vec<Vec<char>> = Vec::new();
    let mut cur: Vec<char> = Vec::new();
    let mut i: usize = 0;
    assert(v@.take(0) =~= Seq::<char>::empty());
    assert(seqs_view(parts@).push(cur@) =~= split_on(v@.take(0), sep));
    while i < v.len()
        invariant
            i <= v.len(),
            seqs_view(parts@).push(cur@) == split_on(v@.take(i as int), sep),
        decreases v.len() - i,
    {
        let c = v[i];
        let ghost before = v@.take(i as int);
        let ghost after = v@.take(i + 1);
        assert(after.drop_last() =~= before);
        assert(after.last() == c);
        proof {
            lemma_split_nonempty(before, sep);
        }
        let ghost old_parts = parts@;
        if c == sep {
            let done = cur;
            parts.push(done);
            proof { lemma_seqs_view_push(old_parts, done); }
            cur = Vec::new();
            assert(seqs_view(parts@).push(cur@) =~= split_on(after, sep));
        } else {
            cur.push(c);
            assert(seqs_view(parts@).push(cur@) =~= split_on(after, sep));
        }
        i += 1;
    }
    assert(v@.take(v.len() as int) =~= v@);
    let ghost old_parts = parts@;
    parts.push(cur);
    proof { lemma_seqs_view_push(old_parts, cur); }
    parts
}

/// The lines of `v`.
pub(crate) fn chars_lines(v: &Vec<char>) -> (r: Vec<Vec<char>>)
    ensures
        seqs_view(r@) == lines(v@),
{
    let mut done: Vec<Vec<char>> = Vec::new();
    let mut cur: Vec<char> = Vec::new();
    let mut i: usize = 0;
    assert(v@.take(0) =~= Seq::<char>::empty());
    assert(seqs_view(done@) =~= lines_state(v@.take(0)).0);
    while i < v.len()
        invariant
            i <= v.len(),
            seqs_view(done@) == lines_state(v@.take(i as int)).0,
            cur@ == lines_state(v@.take(i as int)).1,
        decreases v.len() - i,
    {
        let c = v[i];
        let ghost before = v@.take(i as int);
        let ghost after = v@.take(i + 1);
        assert(after.drop_last() =~= before);
        assert(after.last() == c);
        if c == '\n' {
            let n = cur.len();
            let finished = if n > 0 && cur[n - 1] == '\r' {
                chars_slice(&cur, 0, n - 1)
            } else {
                cur
            };
            assert(finished@ == strip_cr(lines_state(before).1)) by {
                if n > 0 && cur@[n - 1] == '\r' {
                    assert(cur@.subrange(0, n - 1) =~= cur@.drop_last());
                }
            }
            let ghost old_done = done@;
            done.push(finished);
            proof { lemma_seqs_view_push(old_done, finished); }
            cur = Vec::new();
            assert(seqs_view(done@) =~= lines_state(after).0);
            assert(cur@ =~= lines_state(after).1);
        } else {
            cur.push(c);
            assert(seqs_view(done@) =~= lines_state(after).0);
        }
        i += 1;
    }
    assert(v@.take(v.len() as int) =~= v@);
    if cur.len() > 0 {
        let ghost old_done = done@;
        done.push(cur);
        proof { lemma_seqs_view_push(old_done, cur); }
        assert(seqs_view(done@) =~= lines(v@));
    }
    done
}

/// The words of `v`.
pub(crate) fn chars_words(v: &Vec<char>) -> (r: Vec<Vec<char>>)
    ensures
        seqs_view(r@) == words(v@),
{
    let mut done: Vec<Vec<char>> = Vec::new();
    let mut cur: Vec<char> = Vec::new();
    let mut i: usize = 0;
    assert(v@.take(0) =~= Seq::<char>::empty());
    while i < v.len()
        invariant
            i <= v.len(),
            (seqs_view(done@), cur@) == words_state(v@.take(i as int)),
        decreases v.len() - i,
    {
        let c = v[i];
        let ghost after = v@.take(i + 1);
        assert(after.drop_last() =~= v@.take(i as int));
        assert(after.last() == c);
        if char_is_space(c) {
            if cur.len() > 0 {
                let ghost old_done = done@;
                let w = cur;
                done.push(w);
                proof { lemma_seqs_view_push(old_done, w); }
                cur = Vec::new();
                assert(cur@ =~= Seq::<char>::empty());
            }
        } else {
            cur.push(c);
        }
        i += 1;
    }
    assert(v@.take(v.len() as int) =~= v@);
    if cur.len() > 0 {
        let ghost old_done = done@;
        done.push(cur);
        proof { lemma_seqs_view_push(old_done, cur); }
    }
    done
}

/// The characters of `a` followed by those of `b`.
pub(crate) fn concat_str(a: &str, b: &str) -> (r: String)
    ensures
        r@ == a@ + b@,
{
    let mut v = chars_of(a);
    let w = chars_of(b);
    let ghost start = v@;
    let mut i: usize = 0;
    while i < w.len()
        invariant
            i <= w.len(),
            v@ == start + w@.take(i as int),
        decreases w.len() - i,
    {
        v.push(w[i]);
        assert(start + w@.take(i + 1) =~= (start + w@.take(i as int)).push(w@[i as int]));
        i += 1;
    }
    assert(w@.take(w.len() as int) =~= w@);
    string_of(&v)
}

/// A copy of a vector of strings.
pub(crate) fn copy_strings(v: &Vec<String>) -> (r: Vec<String>)
    ensures
        strings_view(r@) == strings_view(v@),
{
    let mut r: Vec<String> = Vec::new();
    let mut i: usize = 0;
    while i < v.len()
        invariant
            i <= v.len(),
            strings_view(r@) == strings_view(v@).take(i as int),
        decreases v.len() - i,
    {
        let ghost old_r = r@;
        let s = v[i].clone();
        r.push(s);
        proof { lemma_strings_view_push(old_r, s); }
        assert(strings_view(r@) =~= strings_view(v@).take(i + 1));
        i += 1;
    }
    assert(strings_view(v@).take(v.len() as int) =~= strings_view(v@));
    r
}

/// Whether a vector of strings holds a string with the given characters.
pub(crate) fn strings_contain(v: &Vec<String>, s: &String) -> (r: bool)
    ensures
        r == strings_view(v@).contains(s@),
{
    let mut i: usize = 0;
    while i < v.len()
        invariant
            i <= v.len(),
            forall|k: int| 0 <= k < i ==> strings_view(v@)[k] != s@,
        decreases v.len() - i,
    {
        if v[i] == *s {
            assert(strings_view(v@)[i as int] == s@);
            return true;
        }
        i += 1;
    }
    false
}


// ---------------------------------------------------------------------------
// Numbers and lists in messages
// ---------------------------------------------------------------------------

/// The decimal digit for `d` (below ten).
pub open spec fn digit_char(d: nat) -> char {
    if d == 0 { '0' } else if d == 1 { '1' } else if d == 2 { '2' } else if d == 3 { '3' } else if d == 4 {
        '4'
    } else if d == 5 { '5' } else if d == 6 { '6' } else if d == 7 { '7' } else if d == 8 { '8' } else { '9' }
}

/// `n` written in decimal, without leading zeros.
pub open spec fn decimal(n: nat) -> Seq<char>
    decreases n,
{
    if n < 10 {
        seq![digit_char(n)]
    } else {
        decimal(n / 10).push(digit_char(n % 10))
    }
}

/// The parts with `sep` between each two.
pub open spec fn joined(parts: Seq<Seq<char>>, sep: Seq<char>) -> Seq<char>
    decreases parts.len(),
{
    if parts.len() == 0 {
        Seq::empty()
    } else if parts.len() == 1 {
        parts[0]
    } else {
        joined(parts.drop_last(), sep) + sep + parts.last()
    }
}

fn digit_of(d: usize) -> (r: char)
    requires
        d < 10,
    ensures
        r == digit_char(d as nat),
{
    if d == 0 { '0' } else if d == 1 { '1' } else if d == 2 { '2' } else if d == 3 { '3' } else if d == 4 {
        '4'
    } else if d == 5 { '5' } else if d == 6 { '6' } else if d == 7 { '7' } else if d == 8 { '8' } else { '9' }
}

fn decimal_chars(n: usize) -> (r: Vec<char>)
    ensures
        r@ == decimal(n as nat),
    decreases n,
{
    if n < 10 {
        let mut v: Vec<char> = Vec::new();
        v.push(digit_of(n));
        assert(v@ =~= seq![digit_char(n as nat)]);
        v
    } else {
        let mut v = decimal_chars(n / 10);
        v.push(digit_of(n % 10));
        v
    }
}

/// `n` written in decimal (see [`decimal`]).
pub(crate) fn decimal_string(n: usize) -> (r: String)
    ensures
        r@ == decimal(n as nat),
{
    string_of(&decimal_chars(n))
}

/// The strings with `sep` between each two (see [`joined`]).
pub(crate) fn join_strings(parts: &Vec<String>, sep: &str) -> (r: String)
    ensures
        r@ == joined(strings_view(parts@), sep@),
{
    let ghost ps = strings_view(parts@);
    if parts.len() == 0 {
        return String::new();
    }
    let mut acc = parts[0].clone();
    let mut i: usize = 1;
    assert(ps.take(1).drop_last() =~= Seq::<Seq<char>>::empty());
    while i < parts.len()
        invariant
            1 <= i <= parts.len(),
            ps == strings_view(parts@),
            acc@ == joined(ps.take(i as int), sep@),
        decreases parts.len() - i,
    {
        assert(ps.take(i + 1).drop_last() =~= ps.take(i as int));
        let with_sep = concat_str(acc.as_str(), sep);
        acc = concat_str(with_sep.as_str(), parts[i].as_str());
        i += 1;
    }
    assert(ps.take(parts.len() as int) =~= ps);
    acc
}

} // verus!
