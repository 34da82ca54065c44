//! The workspace project iterator: wildcard pattern matching, tag filters
//! and the selection of projects that commands such as `exec` run in.
use vstd::prelude::*;

use crate::text;

verus! {

// ---------------------------------------------------------------------------
// Wildcard patterns
// ---------------------------------------------------------------------------

/// What the `i`-th piece of a wildcard pattern does to the match position
/// `pos`: `None` when the piece fails.  The first piece must begin the text,
/// the last must end it, and a middle piece is looked for at or after `pos`.
pub open spec fn part_step(t: Seq<char>, parts: Seq<Seq<char>>, i: int, pos: int) -> Option<int> {
    let part = parts[i];
    if part.len() == 0 {
        Some(pos)
    } else if i == 0 {
        if text::is_prefix(part, t) {
            Some(part.len() as int)
        } else {
            None
        }
    } else if i == parts.len() - 1 {
        if text::is_suffix(part, t) {
            Some(pos)
        } else {
            None
        }
    } else {
        match text::find_from(t, part, pos) {
            Some(k) => Some(k + part.len()),
            None => None,
        }
    }
}

/// Whether the pieces from the `i`-th on all succeed, starting at `pos`.
pub open spec fn parts_match(t: Seq<char>, parts: Seq<Seq<char>>, i: int, pos: int) -> bool
    decreases parts.len() - i,
{
    if 0 <= i < parts.len() {
        match part_step(t, parts, i, pos) {
            Some(q) => parts_match(t, parts, i + 1, q),
            None => false,
        }
    } else {
        true
    }
}

/// Whether `text` matches `pattern`: a pattern with `*` is cut into pieces at
/// each `*` and matched piece by piece; a pattern without `*` matches any text
/// that contains it.
pub open spec fn wildcard_match(t: Seq<char>, pattern: Seq<char>) -> bool {
    if pattern.contains('*') {
        parts_match(t, text::split_on(pattern, '*'), 0, 0)
    } else {
        text::is_substring(pattern, t)
    }
}

/// Wildcard matching on character vectors.
fn wildcard_match_chars(t: &Vec<char>, p: &Vec<char>) -> (r: bool)
    ensures
        r == wildcard_match(t@, p@),
{
    if !text::chars_contain(p, '*') {
        return text::chars_contains_seq(t, p);
    }
    let parts = text::chars_split(p, '*');
    let ghost ps = text::seqs_view(parts@);
    let n = parts.len();
    let mut pos: usize = 0;
    let mut i: usize = 0;
    while i < n
        invariant
            i <= n == parts.len(),
            p@.contains('*'),
            ps == text::seqs_view(parts@),
            ps == text::split_on(p@, '*'),
            pos <= t.len(),
            parts_match(t@, ps, 0, 0) == parts_match(t@, ps, i as int, pos as int),
        decreases n - i,
    {
        let part = &parts[i];
        assert(ps[i as int] == part@);
        if part.len() == 0 {
        } else if i == 0 {
            if !text::chars_starts_with(t, part) {
                assert(part_step(t@, ps, i as int, pos as int) is None);
                return false;
            }
            pos = part.len();
        } else if i == n - 1 {
            if !text::chars_ends_with(t, part) {
                assert(part_step(t@, ps, i as int, pos as int) is None);
                return false;
            }
        } else {
            proof {
                text::lemma_find_from_sound(t@, part@, pos as int);
            }
            match text::chars_find_from(t, part, pos) {
                Some(k) => {
                    pos = k + part.len();
                },
                None => {
                    assert(part_step(t@, ps, i as int, pos as int) is None);
                    return false;
                },
            }
        }
        i += 1;
    }
    true
}

/// A pattern without `*` matches exactly the texts that contain it.
pub proof fn law_plain_pattern_is_substring(text: Seq<char>, pattern: Seq<char>)
    requires
        !pattern.contains('*'),
    ensures
        wildcard_match(text, pattern) == text::is_substring(pattern, text),
{
}

/// `prefix*` (with no other `*`) matches exactly the texts that start with `prefix`.
pub proof fn law_trailing_wildcard_is_prefix(text: Seq<char>, prefix: Seq<char>)
    requires
        !prefix.contains('*'),
    ensures
        wildcard_match(text, prefix.push('*')) == text::is_prefix(prefix, text),
{
    let pat = prefix.push('*');
    assert(pat[pat.len() - 1] == '*');
    assert(pat.contains('*'));
    text::lemma_split_trailing_sep(prefix, '*');
    let ps = text::split_on(pat, '*');
    assert(ps == seq![prefix, Seq::<char>::empty()]);
    assert(ps[1].len() == 0);
    assert(parts_match(text, ps, 2, prefix.len() as int));
    assert(parts_match(text, ps, 1, prefix.len() as int));
    if prefix.len() == 0 {
        assert(text.subrange(0, 0) =~= prefix);
        assert(parts_match(text, ps, 1, 0));
    }
}

/// `*suffix` (with no other `*`) matches exactly the texts that end with `suffix`.
pub proof fn law_leading_wildcard_is_suffix(text: Seq<char>, suffix: Seq<char>)
    requires
        !suffix.contains('*'),
    ensures
        wildcard_match(text, seq!['*'] + suffix) == text::is_suffix(suffix, text),
{
    let pat = seq!['*'] + suffix;
    assert(pat[0] == '*');
    assert(pat.contains('*'));
    text::lemma_split_leading_sep(suffix, '*');
    let ps = text::split_on(pat, '*');
    assert(ps == seq![Seq::<char>::empty(), suffix]);
    assert(ps[0].len() == 0);
    assert(parts_match(text, ps, 2, 0));
    if suffix.len() == 0 {
        assert(text.subrange(text.len() as int, text.len() as int) =~= suffix);
    }
    assert(parts_match(text, ps, 0, 0) == parts_match(text, ps, 1, 0));
}

/// `*a*b*` (with non-empty `a` and `b` free of `*`) matches exactly the texts
/// in which `a` occurs and, after the end of that occurrence, `b` occurs: the
/// pieces are found in their order and without overlap.
pub proof fn law_middle_pieces_in_order(text: Seq<char>, a: Seq<char>, b: Seq<char>)
    requires
        a.len() > 0,
        b.len() > 0,
        !a.contains('*'),
        !b.contains('*'),
    ensures
        wildcard_match(text, seq!['*'] + a + seq!['*'] + b + seq!['*']) <==> exists|i: int, j: int|
            text::occurs_at(text, a, i) && text::occurs_at(text, b, j) && i + a.len() <= j,
{
    let e = Seq::<char>::empty();
    let pat = seq!['*'] + a + seq!['*'] + b + seq!['*'];
    let p1 = e.push('*') + a;
    let p2 = p1.push('*') + b;
    let p3 = p2.push('*') + e;
    assert(!e.contains('*'));
    assert(text::split_on(e, '*') == seq![e]);
    text::lemma_split_append_piece(e, a, '*');
    text::lemma_split_append_piece(p1, b, '*');
    text::lemma_split_append_piece(p2, e, '*');
    assert(p3 =~= pat);
    let ps = text::split_on(pat, '*');
    assert(ps =~= seq![e, a, b, e]);
    assert(pat[0] == '*');
    assert(pat.contains('*'));
    text::lemma_find_from_sound(text, a, 0);
    assert(parts_match(text, ps, 0, 0) == parts_match(text, ps, 1, 0));
    match text::find_from(text, a, 0) {
        Some(k1) => {
            let q = k1 + a.len();
            text::lemma_find_from_sound(text, b, q);
            assert(parts_match(text, ps, 1, 0) == parts_match(text, ps, 2, q));
            match text::find_from(text, b, q) {
                Some(k2) => {
                    assert(parts_match(text, ps, 4, k2 + b.len()));
                    assert(parts_match(text, ps, 3, k2 + b.len()));
                    assert(parts_match(text, ps, 2, q));
                    assert(text::occurs_at(text, a, k1) && text::occurs_at(text, b, k2) && k1 + a.len() <= k2);
                },
                None => {
                    assert(!parts_match(text, ps, 2, q));
                    assert forall|i: int, j: int|
                        text::occurs_at(text, a, i) && text::occurs_at(text, b, j) implies !(i + a.len() <= j) by {
                        assert(k1 <= i);
                    }
                },
            }
        },
        None => {
            assert(!parts_match(text, ps, 1, 0));
            assert forall|i: int, j: int|
                text::occurs_at(text, a, i) && text::occurs_at(text, b, j) implies !(i + a.len() <= j) by {
                assert(!text::occurs_at(text, a, i));
            }
        },
    }
}

/// `a*b` (with `a` and `b` free of `*`) matches exactly the texts that start
/// with `a` and end with `b`.
pub proof fn law_prefix_and_suffix(text: Seq<char>, a: Seq<char>, b: Seq<char>)
    requires
        !a.contains('*'),
        !b.contains('*'),
    ensures
        wildcard_match(text, a.push('*') + b) == (text::is_prefix(a, text) && text::is_suffix(b, text)),
{
    let pat = a.push('*') + b;
    text::lemma_split_no_sep(a, '*');
    text::lemma_split_append_piece(a, b, '*');
    let ps = text::split_on(pat, '*');
    assert(ps =~= seq![a, b]);
    assert(pat[a.len() as int] == '*');
    assert(pat.contains('*'));
    assert(text.subrange(0, 0) =~= Seq::<char>::empty());
    assert(text.subrange(text.len() as int, text.len() as int) =~= Seq::<char>::empty());
    let q = if a.len() == 0 { 0int } else { a.len() as int };
    if text::is_prefix(a, text) {
        assert(part_step(text, ps, 0, 0) == Some(q));
        assert(parts_match(text, ps, 2, q));
        assert(parts_match(text, ps, 0, 0) == parts_match(text, ps, 1, q));
    } else {
        assert(a.len() > 0);
        assert(!parts_match(text, ps, 0, 0));
    }
}

/// The pieces `ps` joined by `*`, with a `*` in front: `*p1*p2...*pn`.
pub open spec fn starred(ps: Seq<Seq<char>>) -> Seq<char>
    decreases ps.len(),
{
    if ps.len() == 0 {
        Seq::empty()
    } else {
        starred(ps.drop_last()).push('*') + ps.last()
    }
}

/// The pieces `ps` occur in `t` one after the other, each at or after the
/// end of the one before, the first at or after `pos`.
pub open spec fn occur_in_order(t: Seq<char>, ps: Seq<Seq<char>>, pos: int) -> bool
    decreases ps.len(),
{
    if ps.len() == 0 {
        true
    } else {
        exists|k: int|
            pos <= k && #[trigger] text::occurs_at(t, ps[0], k) && occur_in_order(
                t,
                ps.drop_first(),
                k + ps[0].len(),
            )
    }
}

/// Pieces that occur in order from a position also do from any earlier one.
proof fn lemma_occur_in_order_earlier(t: Seq<char>, ps: Seq<Seq<char>>, pos: int, earlier: int)
    requires
        earlier <= pos,
        occur_in_order(t, ps, pos),
    ensures
        occur_in_order(t, ps, earlier),
{
    if ps.len() > 0 {
        let k = choose|k: int|
            pos <= k && #[trigger] text::occurs_at(t, ps[0], k) && occur_in_order(
                t,
                ps.drop_first(),
                k + ps[0].len(),
            );
        assert(earlier <= k);
    }
}

/// The pieces of `first*p1*...*pn` are `first` and `p1` to `pn`.
proof fn lemma_split_starred(first: Seq<char>, ps: Seq<Seq<char>>)
    requires
        !first.contains('*'),
        forall|i: int| 0 <= i < ps.len() ==> !(#[trigger] ps[i]).contains('*'),
    ensures
        text::split_on(first + starred(ps), '*') == seq![first] + ps,
    decreases ps.len(),
{
    if ps.len() == 0 {
        assert(first + starred(ps) =~= first);
        text::lemma_split_no_sep(first, '*');
        assert(seq![first] + ps =~= seq![first]);
    } else {
        let q = ps.drop_last();
        assert forall|i: int| 0 <= i < q.len() implies !(#[trigger] q[i]).contains('*') by {
            assert(q[i] == ps[i]);
        }
        lemma_split_starred(first, q);
        assert(!ps[ps.len() - 1].contains('*'));
        text::lemma_split_append_piece(first + starred(q), ps.last(), '*');
        assert((first + starred(q)).push('*') + ps.last() =~= first + starred(ps));
        assert((seq![first] + q).push(ps.last()) =~= seq![first] + ps);
    }
}

/// From the piece after `ps[i - 1]` on, the pieces of `first*p1*...*pn*last`
/// succeed from `pos` exactly when `p(i+1)` to `pn` occur in order from
/// `pos` and the text ends with `last`.
proof fn lemma_starred_parts_match(
    t: Seq<char>,
    first: Seq<char>,
    ps: Seq<Seq<char>>,
    last: Seq<char>,
    i: int,
    pos: int,
)
    requires
        0 <= i <= ps.len(),
        0 <= pos,
        forall|j: int| 0 <= j < ps.len() ==> (#[trigger] ps[j]).len() > 0,
    ensures
        parts_match(t, seq![first] + ps + seq![last], i + 1, pos) <==> (occur_in_order(t, ps.skip(i), pos)
            && text::is_suffix(last, t)),
    decreases ps.len() - i,
{
    let parts = seq![first] + ps + seq![last];
    assert(parts.len() == ps.len() + 2);
    if i == ps.len() {
        assert(parts[i + 1] == last);
        assert(parts_match(t, parts, i + 2, pos));
        assert(ps.skip(i).len() == 0);
        if last.len() == 0 {
            assert(t.subrange(t.len() as int, t.len() as int) =~= last);
        }
    } else {
        let p = ps[i];
        assert(parts[i + 1] == p);
        assert(p.len() > 0);
        let rest = ps.skip(i);
        assert(rest[0] == p);
        assert(rest.drop_first() =~= ps.skip(i + 1));
        text::lemma_find_from_sound(t, p, pos);
        match text::find_from(t, p, pos) {
            Some(k) => {
                lemma_starred_parts_match(t, first, ps, last, i + 1, k + p.len());
                assert(parts_match(t, parts, i + 1, pos) == parts_match(t, parts, i + 2, k + p.len()));
                if occur_in_order(t, rest, pos) {
                    let k2 = choose|k2: int|
                        pos <= k2 && #[trigger] text::occurs_at(t, rest[0], k2) && occur_in_order(
                            t,
                            rest.drop_first(),
                            k2 + rest[0].len(),
                        );
                    assert(k <= k2);
                    lemma_occur_in_order_earlier(t, ps.skip(i + 1), k2 + p.len(), k + p.len());
                }
                if parts_match(t, parts, i + 1, pos) {
                    assert(occur_in_order(t, rest.drop_first(), k + rest[0].len()));
                }
            },
            None => {
                assert(!parts_match(t, parts, i + 1, pos));
                if occur_in_order(t, rest, pos) {
                    let k2 = choose|k2: int|
                        pos <= k2 && #[trigger] text::occurs_at(t, rest[0], k2) && occur_in_order(
                            t,
                            rest.drop_first(),
                            k2 + rest[0].len(),
                        );
                    assert(!text::occurs_at(t, p, k2));
                }
            },
        }
    }
}

/// `first*p1*p2*...*pn*last` (all pieces free of `*`, the middle ones
/// non-empty; `first` and `last` may be empty) matches exactly the texts
/// that start with `first`, end with `last`, and in which `p1` to `pn` occur
/// in their order after `first`, each after the end of the one before: a
/// middle piece is never found before or overlapping the previous piece.
pub proof fn law_pieces_in_order(text: Seq<char>, first: Seq<char>, ps: Seq<Seq<char>>, last: Seq<char>)
    requires
        !first.contains('*'),
        !last.contains('*'),
        forall|i: int| 0 <= i < ps.len() ==> (#[trigger] ps[i]).len() > 0 && !ps[i].contains('*'),
    ensures
        wildcard_match(text, (first + starred(ps)).push('*') + last) <==> {
            &&& text::is_prefix(first, text)
            &&& occur_in_order(text, ps, first.len() as int)
            &&& text::is_suffix(last, text)
        },
{
    let pat = (first + starred(ps)).push('*') + last;
    lemma_split_starred(first, ps);
    text::lemma_split_append_piece(first + starred(ps), last, '*');
    let parts = text::split_on(pat, '*');
    assert(parts == seq![first] + ps + seq![last]);
    assert(pat[(first + starred(ps)).len() as int] == '*');
    assert(pat.contains('*'));
    assert(ps.skip(0) =~= ps);
    assert(parts[0] == first);
    assert(parts.len() == ps.len() + 2);
    if first.len() == 0 {
        assert(text.subrange(0, 0) =~= first);
        lemma_starred_parts_match(text, first, ps, last, 0, 0);
        assert(parts_match(text, parts, 0, 0) == parts_match(text, parts, 1, 0));
    } else if text::is_prefix(first, text) {
        lemma_starred_parts_match(text, first, ps, last, 0, first.len() as int);
        assert(parts_match(text, parts, 0, 0) == parts_match(text, parts, 1, first.len() as int));
    } else {
        assert(!parts_match(text, parts, 0, 0));
    }
}

/// The pattern `*` matches every text.
pub proof fn law_lone_wildcard_matches_all(text: Seq<char>)
    ensures
        wildcard_match(text, seq!['*']),
{
    law_trailing_wildcard_is_prefix(text, Seq::<char>::empty());
    assert(Seq::<char>::empty().push('*') =~= seq!['*']);
    assert(text.subrange(0, 0) =~= Seq::<char>::empty());
}

// ---------------------------------------------------------------------------
// Projects
// ---------------------------------------------------------------------------

/// A project of the workspace as the iterator sees it.  `exists` and
/// `git_dir_exists` record whether its directory, and a `.git` entry inside
/// it, were found on disk.
#[derive(Debug, Clone)]
pub struct ProjectInfo {
    pub name: String,
    pub path: String,
    pub repo_url: String,
    pub exists: bool,
    pub git_dir_exists: bool,
    pub tags: Vec<String>,
}

/// The mathematical value of a [`ProjectInfo`].
pub struct ProjectInfoView {
    pub name: Seq<char>,
    pub path: Seq<char>,
    pub repo_url: Seq<char>,
    pub exists: bool,
    pub git_dir_exists: bool,
    pub tags: Seq<Seq<char>>,
}

impl View for ProjectInfo {
    type V = ProjectInfoView;

    open spec fn view(&self) -> ProjectInfoView {
        ProjectInfoView {
            name: self.name@,
            path: self.path@,
            repo_url: self.repo_url@,
            exists: self.exists,
            git_dir_exists: self.git_dir_exists,
            tags: text::strings_view(self.tags@),
        }
    }
}

/// The views of a sequence of projects.
pub open spec fn infos_view(v: Seq<ProjectInfo>) -> Seq<ProjectInfoView> {
    v.map_values(|p: ProjectInfo| p@)
}

/// Viewing projects commutes with appending one.
proof fn lemma_infos_view_push(v: Seq<ProjectInfo>, p: ProjectInfo)
    ensures
        infos_view(v.push(p)) == infos_view(v).push(p@),
{
    assert(infos_view(v.push(p)) =~= infos_view(v).push(p@));
}

impl ProjectInfo {
    /// A project record; whether its directory and its `.git` entry exist is
    /// given by the caller, who looked on disk.
    pub fn new(
        name: String,
        path: String,
        repo_url: String,
        tags: Vec<String>,
        exists: bool,
        git_dir_exists: bool,
    ) -> (r: Self)
        ensures
            r@ == (ProjectInfoView {
                name: name@,
                path: path@,
                repo_url: repo_url@,
                exists,
                git_dir_exists,
                tags: text::strings_view(tags@),
            }),
    {
        ProjectInfo { name, path, repo_url, exists, git_dir_exists, tags }
    }

    /// A project is a git repository when its directory exists and holds `.git`.
    pub fn is_git_repo(&self) -> (r: bool)
        ensures
            r == (self.exists && self.git_dir_exists),
    {
        if !self.exists {
            return false;
        }
        self.git_dir_exists
    }

    /// Whether the project has changes not yet committed, given what
    /// `git status --porcelain` printed in its directory (`None` when git
    /// could not be run): only a git repository can, and it has when git
    /// printed anything.
    pub fn has_uncommitted_changes(&self, porcelain: Option<&Vec<u8>>) -> (r: bool)
        ensures
            r == (self.exists && self.git_dir_exists && match porcelain {
                Some(out) => out.len() > 0,
                None => false,
            }),
    {
        if !self.is_git_repo() {
            return false;
        }
        match porcelain {
            Some(out) => out.len() > 0,
            None => false,
        }
    }

    /// A copy with the same value.
    pub fn duplicate(&self) -> (r: Self)
        ensures
            r@ == self@,
    {
        ProjectInfo {
            name: self.name.clone(),
            path: self.path.clone(),
            repo_url: self.repo_url.clone(),
            exists: self.exists,
            git_dir_exists: self.git_dir_exists,
            tags: text::copy_strings(&self.tags),
        }
    }
}

// ---------------------------------------------------------------------------
// Selection criteria
// ---------------------------------------------------------------------------

/// The filters of an iterator, as sequences of strings.
pub struct Criteria {
    pub include_patterns: Seq<Seq<char>>,
    pub exclude_patterns: Seq<Seq<char>>,
    pub include_tags: Seq<Seq<char>>,
    pub exclude_tags: Seq<Seq<char>>,
}

/// Some pattern matches the project's name or its path.
pub open spec fn matches_any(name: Seq<char>, path: Seq<char>, patterns: Seq<Seq<char>>) -> bool {
    exists|i: int|
        0 <= i < patterns.len() && (wildcard_match(name, patterns[i]) || wildcard_match(
            path,
            patterns[i],
        ))
}

/// The project carries at least one of the wanted tags.
pub open spec fn has_any_tag(tags: Seq<Seq<char>>, wanted: Seq<Seq<char>>) -> bool {
    exists|i: int| 0 <= i < wanted.len() && tags.contains(wanted[i])
}

/// A project passes the filters when: with include patterns, one of them
/// matches; no exclude pattern matches; with include tags, it has at least one
/// of them (OR); and it has none of the exclude tags (AND of negations).
pub open spec fn selects(c: Criteria, p: ProjectInfoView) -> bool {
    &&& (c.include_patterns.len() == 0 || matches_any(p.name, p.path, c.include_patterns))
    &&& !matches_any(p.name, p.path, c.exclude_patterns)
    &&& (c.include_tags.len() == 0 || has_any_tag(p.tags, c.include_tags))
    &&& !has_any_tag(p.tags, c.exclude_tags)
}

/// The tag filters: with include tags, a project passes when it carries at
/// least one of them (one shared tag is enough); it is dropped when it
/// carries any one of the exclude tags.
pub proof fn law_tag_filters(c: Criteria, p: ProjectInfoView)
    ensures
        selects(c, p) <==> {
            &&& (c.include_patterns.len() == 0 || matches_any(p.name, p.path, c.include_patterns))
            &&& !matches_any(p.name, p.path, c.exclude_patterns)
            &&& (c.include_tags.len() == 0 || exists|w: Seq<char>|
                c.include_tags.contains(w) && p.tags.contains(w))
            &&& !exists|w: Seq<char>| c.exclude_tags.contains(w) && p.tags.contains(w)
        },
{
    assert(has_any_tag(p.tags, c.include_tags) <==> exists|w: Seq<char>|
        c.include_tags.contains(w) && p.tags.contains(w)) by {
        if has_any_tag(p.tags, c.include_tags) {
            let i = choose|i: int| 0 <= i < c.include_tags.len() && p.tags.contains(c.include_tags[i]);
            assert(c.include_tags.contains(c.include_tags[i]));
        }
    }
    assert(has_any_tag(p.tags, c.exclude_tags) <==> exists|w: Seq<char>|
        c.exclude_tags.contains(w) && p.tags.contains(w)) by {
        if has_any_tag(p.tags, c.exclude_tags) {
            let i = choose|i: int| 0 <= i < c.exclude_tags.len() && p.tags.contains(c.exclude_tags[i]);
            assert(c.exclude_tags.contains(c.exclude_tags[i]));
        }
    }
}

/// Projects whose directory exists.
pub open spec fn keep_existing() -> spec_fn(ProjectInfoView) -> bool {
    |p: ProjectInfoView| p.exists
}

/// Projects that are git repositories.
pub open spec fn keep_git_repos() -> spec_fn(ProjectInfoView) -> bool {
    |p: ProjectInfoView| p.exists && p.git_dir_exists
}

/// Git repositories whose name is among `dirty`.
pub open spec fn keep_dirty(dirty: Seq<Seq<char>>) -> spec_fn(ProjectInfoView) -> bool {
    |p: ProjectInfoView| p.exists && p.git_dir_exists && dirty.contains(p.name)
}

/// Projects other than the git repositories whose name is among `dirty`.
pub open spec fn keep_clean(dirty: Seq<Seq<char>>) -> spec_fn(ProjectInfoView) -> bool {
    |p: ProjectInfoView| !(p.exists && p.git_dir_exists && dirty.contains(p.name))
}

/// The filters as a predicate on projects.
pub open spec fn selector(c: Criteria) -> spec_fn(ProjectInfoView) -> bool {
    |p: ProjectInfoView| selects(c, p)
}

// ---------------------------------------------------------------------------
// The iterator
// ---------------------------------------------------------------------------

/// Iterates over the workspace projects that pass its filters.
pub struct ProjectIterator {
    projects: Vec<ProjectInfo>,
    current: usize,
    include_patterns: Vec<String>,
    exclude_patterns: Vec<String>,
    include_tags: Vec<String>,
    exclude_tags: Vec<String>,
}

/// The mathematical value of a [`ProjectIterator`].
pub struct ProjectIteratorView {
    pub projects: Seq<ProjectInfoView>,
    pub current: int,
    pub criteria: Criteria,
}

impl View for ProjectIterator {
    type V = ProjectIteratorView;

    closed spec fn view(&self) -> ProjectIteratorView {
        ProjectIteratorView {
            projects: infos_view(self.projects@),
            current: self.current as int,
            criteria: Criteria {
                include_patterns: text::strings_view(self.include_patterns@),
                exclude_patterns: text::strings_view(self.exclude_patterns@),
                include_tags: text::strings_view(self.include_tags@),
                exclude_tags: text::strings_view(self.exclude_tags@),
            },
        }
    }
}

/// The projects from position `k` on.
pub open spec fn projects_from(ps: Seq<ProjectInfoView>, k: int) -> Seq<ProjectInfoView> {
    if k < ps.len() {
        ps.subrange(k, ps.len() as int)
    } else {
        Seq::empty()
    }
}

/// The projects the iterator has still to yield, in order.
pub open spec fn pending(it: ProjectIteratorView) -> Seq<ProjectInfoView> {
    projects_from(it.projects, it.current).filter(selector(it.criteria))
}

/// All projects of the iterator that pass its filters, wherever it stands.
pub open spec fn all_selected(it: ProjectIteratorView) -> Seq<ProjectInfoView> {
    it.projects.filter(selector(it.criteria))
}

/// Skipping a project that does not pass leaves the pending ones unchanged;
/// one that passes is the head of them.
proof fn lemma_projects_from_step(ps: Seq<ProjectInfoView>, k: int, pred: spec_fn(ProjectInfoView) -> bool)
    requires
        0 <= k < ps.len(),
    ensures
        projects_from(ps, k).filter(pred) == (if pred(ps[k]) {
            seq![ps[k]]
        } else {
            Seq::empty()
        }) + projects_from(ps, k + 1).filter(pred),
{
    let a = projects_from(ps, k);
    let b = projects_from(ps, k + 1);
    assert(a =~= seq![ps[k]] + b);
    b.lemma_filter_prepend(ps[k], pred);
}

impl ProjectIterator {
    /// An iterator over the given projects with no filters, at the start.
    pub fn new(projects: Vec<ProjectInfo>) -> (r: Self)
        ensures
            r@.projects == infos_view(projects@),
            r@.current == 0,
            r@.criteria.include_patterns.len() == 0,
            r@.criteria.exclude_patterns.len() == 0,
            r@.criteria.include_tags.len() == 0,
            r@.criteria.exclude_tags.len() == 0,
    {
        ProjectIterator {
            projects,
            current: 0,
            include_patterns: Vec::new(),
            exclude_patterns: Vec::new(),
            include_tags: Vec::new(),
            exclude_tags: Vec::new(),
        }
    }

    /// Replaces the include patterns.
    pub fn with_include_patterns(self, patterns: Vec<String>) -> (r: Self)
        ensures
            r@ == (ProjectIteratorView {
                criteria: Criteria { include_patterns: text::strings_view(patterns@), ..self@.criteria },
                ..self@
            }),
    {
        let mut s = self;
        s.include_patterns = patterns;
        s
    }

    /// Replaces the exclude patterns.
    pub fn with_exclude_patterns(self, patterns: Vec<String>) -> (r: Self)
        ensures
            r@ == (ProjectIteratorView {
                criteria: Criteria { exclude_patterns: text::strings_view(patterns@), ..self@.criteria },
                ..self@
            }),
    {
        let mut s = self;
        s.exclude_patterns = patterns;
        s
    }

    /// Replaces the include tags.
    pub fn with_include_tags(self, tags: Vec<String>) -> (r: Self)
        ensures
            r@ == (ProjectIteratorView {
                criteria: Criteria { include_tags: text::strings_view(tags@), ..self@.criteria },
                ..self@
            }),
    {
        let mut s = self;
        s.include_tags = tags;
        s
    }

    /// Replaces the exclude tags.
    pub fn with_exclude_tags(self, tags: Vec<String>) -> (r: Self)
        ensures
            r@ == (ProjectIteratorView {
                criteria: Criteria { exclude_tags: text::strings_view(tags@), ..self@.criteria },
                ..self@
            }),
    {
        let mut s = self;
        s.exclude_tags = tags;
        s
    }

    /// Keeps only the projects whose directory exists.
    pub fn filter_existing(self) -> (r: Self)
        ensures
            r@ == (ProjectIteratorView {
                projects: self@.projects.filter(keep_existing()),
                ..self@
            }),
    {
        let mut s = self;
        let prior = s.projects;
        let mut kept: Vec<ProjectInfo> = Vec::new();
        let mut i: usize = 0;
        while i < prior.len()
            invariant
                i <= prior.len(),
                infos_view(kept@) == infos_view(prior@).take(i as int).filter(keep_existing()),
            decreases prior.len() - i,
        {
            let ghost before = kept@;
            assert(infos_view(prior@).take(i + 1) =~= infos_view(prior@).take(i as int).push(
                prior@[i as int]@,
            ));
            proof {
                infos_view(prior@).take(i as int).lemma_filter_push(prior@[i as int]@, keep_existing());
            }
            if prior[i].exists {
                let p = prior[i].duplicate();
                kept.push(p);
                proof {
                    lemma_infos_view_push(before, p);
                }
                assert(infos_view(kept@) == infos_view(prior@).take(i + 1).filter(keep_existing()));
            } else {
                assert(infos_view(kept@) == infos_view(prior@).take(i + 1).filter(keep_existing()));
            }
            i += 1;
        }
        assert(infos_view(prior@).take(prior.len() as int) =~= infos_view(prior@));
        s.projects = kept;
        s
    }

    /// Keeps only the projects that are git repositories.
    pub fn filter_git_repos(self) -> (r: Self)
        ensures
            r@ == (ProjectIteratorView {
                projects: self@.projects.filter(keep_git_repos()),
                ..self@
            }),
    {
        let mut s = self;
        let prior = s.projects;
        let mut kept: Vec<ProjectInfo> = Vec::new();
        let mut i: usize = 0;
        while i < prior.len()
            invariant
                i <= prior.len(),
                infos_view(kept@) == infos_view(prior@).take(i as int).filter(keep_git_repos()),
            decreases prior.len() - i,
        {
            let ghost before = kept@;
            assert(infos_view(prior@).take(i + 1) =~= infos_view(prior@).take(i as int).push(
                prior@[i as int]@,
            ));
            proof {
                infos_view(prior@).take(i as int).lemma_filter_push(prior@[i as int]@, keep_git_repos());
            }
            if prior[i].is_git_repo() {
                let p = prior[i].duplicate();
                kept.push(p);
                proof {
                    lemma_infos_view_push(before, p);
                }
            }
            i += 1;
        }
        assert(infos_view(prior@).take(prior.len() as int) =~= infos_view(prior@));
        s.projects = kept;
        s
    }

    /// Keeps only the git repositories listed in `dirty`: the projects that
    /// `git status --porcelain` reported changes for.
    pub fn filter_only_uncommitted(self, dirty: &Vec<String>) -> (r: Self)
        ensures
            r@ == (ProjectIteratorView {
                projects: self@.projects.filter(keep_dirty(text::strings_view(dirty@))),
                ..self@
            }),
    {
        let mut s = self;
        let prior = s.projects;
        let mut kept: Vec<ProjectInfo> = Vec::new();
        let mut i: usize = 0;
        while i < prior.len()
            invariant
                i <= prior.len(),
                infos_view(kept@) == infos_view(prior@).take(i as int).filter(keep_dirty(text::strings_view(dirty@))),
            decreases prior.len() - i,
        {
            let ghost before = kept@;
            assert(infos_view(prior@).take(i + 1) =~= infos_view(prior@).take(i as int).push(
                prior@[i as int]@,
            ));
            proof {
                infos_view(prior@).take(i as int).lemma_filter_push(prior@[i as int]@, keep_dirty(text::strings_view(dirty@)));
            }
            if prior[i].is_git_repo() && text::strings_contain(dirty, &prior[i].name) {
                let p = prior[i].duplicate();
                kept.push(p);
                proof {
                    lemma_infos_view_push(before, p);
                }
            }
            i += 1;
        }
        assert(infos_view(prior@).take(prior.len() as int) =~= infos_view(prior@));
        s.projects = kept;
        s
    }

    /// Removes the git repositories listed in `dirty`: the projects that
    /// `git status --porcelain` reported changes for.
    pub fn filter_exclude_uncommitted(self, dirty: &Vec<String>) -> (r: Self)
        ensures
            r@ == (ProjectIteratorView {
                projects: self@.projects.filter(keep_clean(text::strings_view(dirty@))),
                ..self@
            }),
    {
        let mut s = self;
        let prior = s.projects;
        let mut kept: Vec<ProjectInfo> = Vec::new();
        let mut i: usize = 0;
        while i < prior.len()
            invariant
                i <= prior.len(),
                infos_view(kept@) == infos_view(prior@).take(i as int).filter(keep_clean(text::strings_view(dirty@))),
            decreases prior.len() - i,
        {
            let ghost before = kept@;
            assert(infos_view(prior@).take(i + 1) =~= infos_view(prior@).take(i as int).push(
                prior@[i as int]@,
            ));
            proof {
                infos_view(prior@).take(i as int).lemma_filter_push(prior@[i as int]@, keep_clean(text::strings_view(dirty@)));
            }
            if !(prior[i].is_git_repo() && text::strings_contain(dirty, &prior[i].name)) {
                let p = prior[i].duplicate();
                kept.push(p);
                proof {
                    lemma_infos_view_push(before, p);
                }
            }
            i += 1;
        }
        assert(infos_view(prior@).take(prior.len() as int) =~= infos_view(prior@));
        s.projects = kept;
        s
    }

    /// Whether some pattern of `patterns` matches the name or the path.
    fn any_pattern_matches(name: &Vec<char>, path: &Vec<char>, patterns: &Vec<String>) -> (r: bool)
        ensures
            r == matches_any(name@, path@, text::strings_view(patterns@)),
    {
        let mut i: usize = 0;
        while i < patterns.len()
            invariant
                i <= patterns.len(),
                forall|k: int|
                    0 <= k < i ==> !(wildcard_match(name@, text::strings_view(patterns@)[k])
                        || wildcard_match(path@, text::strings_view(patterns@)[k])),
            decreases patterns.len() - i,
        {
            let pat = text::chars_of(patterns[i].as_str());
            assert(text::strings_view(patterns@)[i as int] == pat@);
            if wildcard_match_chars(name, &pat) || wildcard_match_chars(path, &pat) {
                return true;
            }
            i += 1;
        }
        false
    }

    /// Whether the project carries one of the tags of `wanted`.
    fn any_tag_present(tags: &Vec<String>, wanted: &Vec<String>) -> (r: bool)
        ensures
            r == has_any_tag(text::strings_view(tags@), text::strings_view(wanted@)),
    {
        let mut i: usize = 0;
        while i < wanted.len()
            invariant
                i <= wanted.len(),
                forall|k: int|
                    0 <= k < i ==> !text::strings_view(tags@).contains(text::strings_view(wanted@)[k]),
            decreases wanted.len() - i,
        {
            assert(text::strings_view(wanted@)[i as int] == wanted@[i as int]@);
            if text::strings_contain(tags, &wanted[i]) {
                return true;
            }
            i += 1;
        }
        false
    }

    /// Whether the project passes the iterator's pattern and tag filters.
    pub fn matches_patterns(&self, project: &ProjectInfo) -> (r: bool)
        ensures
            r == selects(self@.criteria, project@),
    {
        let name = text::chars_of(project.name.as_str());
        let path = text::chars_of(project.path.as_str());
        if self.include_patterns.len() > 0 {
            if !Self::any_pattern_matches(&name, &path, &self.include_patterns) {
                return false;
            }
        }
        if self.exclude_patterns.len() > 0 {
            if Self::any_pattern_matches(&name, &path, &self.exclude_patterns) {
                return false;
            }
        }
        if self.include_tags.len() > 0 {
            if !Self::any_tag_present(&project.tags, &self.include_tags) {
                return false;
            }
        }
        if self.exclude_tags.len() > 0 {
            if Self::any_tag_present(&project.tags, &self.exclude_tags) {
                return false;
            }
        }
        true
    }

    /// Whether `text` matches the wildcard `pattern`.
    pub fn matches_pattern(&self, text: &str, pattern: &str) -> (r: bool)
        ensures
            r == wildcard_match(text@, pattern@),
    {
        let t = text::chars_of(text);
        let p = text::chars_of(pattern);
        wildcard_match_chars(&t, &p)
    }

    /// The next project that passes the filters: the head of the pending
    /// projects, which lose it; `None` when none is pending.
    pub fn next(&mut self) -> (r: Option<ProjectInfo>)
        ensures
            final(self)@.projects == old(self)@.projects,
            final(self)@.criteria == old(self)@.criteria,
            match r {
                Some(p) => {
                    &&& pending(old(self)@).len() > 0
                    &&& p@ == pending(old(self)@)[0]
                    &&& pending(final(self)@) == pending(old(self)@).drop_first()
                },
                None => {
                    &&& pending(old(self)@).len() == 0
                    &&& pending(final(self)@).len() == 0
                },
            },
    {
        let ghost start = self@;
        let ghost pred = selector(start.criteria);
        while self.current < self.projects.len()
            invariant
                start == old(self)@,
                self@.projects == start.projects,
                self@.criteria == start.criteria,
                pred == selector(start.criteria),
                pending(start) == projects_from(self@.projects, self@.current).filter(pred),
            decreases self.projects.len() - self.current,
        {
            let k = self.current;
            proof {
                lemma_projects_from_step(self@.projects, k as int, pred);
            }
            self.current += 1;
            assert(self@.projects[k as int] == self.projects@[k as int]@);
            if self.matches_patterns(&self.projects[k]) {
                let p = self.projects[k].duplicate();
                assert(pending(start) =~= seq![p@] + pending(self@));
                assert(pending(start).drop_first() =~= pending(self@));
                return Some(p);
            }
        }
        assert(projects_from(self@.projects, self@.current) =~= Seq::<ProjectInfoView>::empty());
        assert(pending(self@) =~= Seq::<ProjectInfoView>::empty());
        None
    }

    /// Everything still pending, in order.
    pub fn collect_all(self) -> (r: Vec<ProjectInfo>)
        ensures
            infos_view(r@) == pending(self@),
    {
        let mut it = self;
        let ghost start = pending(it@);
        let mut out: Vec<ProjectInfo> = Vec::new();
        loop
            invariant
                start == pending(self@),
                infos_view(out@) + pending(it@) == start,
            decreases pending(it@).len(),
        {
            let ghost before = out@;
            let ghost pend = pending(it@);
            match it.next() {
                Some(p) => {
                    out.push(p);
                    proof {
                        lemma_infos_view_push(before, p);
                        assert(infos_view(out@) + pending(it@) =~= infos_view(before) + pend);
                    }
                },
                None => {
                    assert(infos_view(out@) =~= start);
                    return out;
                },
            }
        }
    }

    /// How many of all the projects pass the filters (wherever the iteration stands).
    pub fn count(&self) -> (r: usize)
        ensures
            r == all_selected(self@).len(),
    {
        let ghost pred = selector(self@.criteria);
        let mut n: usize = 0;
        let mut i: usize = 0;
        while i < self.projects.len()
            invariant
                i <= self.projects.len(),
                pred == selector(self@.criteria),
                n == self@.projects.take(i as int).filter(pred).len(),
                n <= i,
            decreases self.projects.len() - i,
        {
            assert(self@.projects.take(i + 1) =~= self@.projects.take(i as int).push(
                self@.projects[i as int],
            ));
            proof {
                self@.projects.take(i as int).lemma_filter_push(self@.projects[i as int], pred);
            }
            assert(self@.projects[i as int] == self.projects@[i as int]@);
            if self.matches_patterns(&self.projects[i]) {
                n += 1;
            }
            i += 1;
        }
        assert(self@.projects.take(self.projects.len() as int) =~= self@.projects);
        n
    }
}

/// The two filters on changes not yet committed split the projects: each
/// project is kept by exactly one of them, so together they keep as many
/// projects as there are.
pub proof fn law_uncommitted_filters_partition(ps: Seq<ProjectInfoView>, dirty: Seq<Seq<char>>)
    ensures
        ps.filter(keep_dirty(dirty)).len() + ps.filter(keep_clean(dirty)).len() == ps.len(),
        forall|i: int|
            0 <= i < ps.len() ==> ps.filter(keep_dirty(dirty)).contains(#[trigger] ps[i]) || ps.filter(
                keep_clean(dirty),
            ).contains(ps[i]),
        forall|x: ProjectInfoView|
            !(#[trigger] ps.filter(keep_dirty(dirty)).contains(x) && ps.filter(keep_clean(dirty)).contains(x)),
    decreases ps.len(),
{
    broadcast use vstd::seq_lib::group_filter_ensures;
    let d = keep_dirty(dirty);
    let c = keep_clean(dirty);
    if ps.len() > 0 {
        let rest = ps.drop_last();
        law_uncommitted_filters_partition(rest, dirty);
        assert(ps =~= rest.push(ps.last()));
        rest.lemma_filter_len_push(d, ps.last());
        rest.lemma_filter_len_push(c, ps.last());
    }
    assert forall|i: int| 0 <= i < ps.len() implies ps.filter(d).contains(#[trigger] ps[i]) || ps.filter(c).contains(
        ps[i],
    ) by {
        if d(ps[i]) {
            ps.lemma_filter_contains(d, i);
        } else {
            ps.lemma_filter_contains(c, i);
        }
    }
    assert forall|x: ProjectInfoView| !(#[trigger] ps.filter(d).contains(x) && ps.filter(c).contains(x)) by {
        if ps.filter(d).contains(x) && ps.filter(c).contains(x) {
            let a = choose|a: int| 0 <= a < ps.filter(d).len() && ps.filter(d)[a] == x;
            let b = choose|b: int| 0 <= b < ps.filter(c).len() && ps.filter(c)[b] == x;
            assert(d(ps.filter(d)[a]));
            assert(c(ps.filter(c)[b]));
        }
    }
}

/// On an iterator that has not started, counting and collecting agree: `count`
/// is the number of projects `collect_all` yields.
pub proof fn law_count_is_collect_len(it: ProjectIteratorView)
    requires
        it.current == 0,
    ensures
        all_selected(it).len() == pending(it).len(),
        all_selected(it) == pending(it),
{
    if it.projects.len() > 0 {
        assert(projects_from(it.projects, 0) =~= it.projects);
    } else {
        assert(projects_from(it.projects, 0) =~= it.projects);
    }
}

} // verus!
