//! Readings of git state and git output that the commands decide on:
//! uncommitted changes, SSH remotes and the default branch of a remote.
use vstd::prelude::*;
use vstd::string::*;

use crate::text;

verus! {

// ---------------------------------------------------------------------------
// Uncommitted changes
// ---------------------------------------------------------------------------

/// The file-status flags that count as a change not yet committed: new,
/// modified, deleted, renamed or retyped, in the index (bits 0 to 4) or in
/// the working tree (bits 7 to 11), as libgit2 numbers them.
pub const UNCOMMITTED_FLAGS: u32 = 0xF9F;

/// The raw bits of git2's `Status::INDEX_NEW` flag (libgit2 gives it the value
/// 1).
#[verifier::external_body]
fn status_index_new() -> (r: u32)
    ensures
        r == 1,
{
    git2::Status::INDEX_NEW.bits()
}

/// The raw bits of git2's `Status::INDEX_MODIFIED` flag (libgit2 gives it the value
/// 2).
#[verifier::external_body]
fn status_index_modified() -> (r: u32)
    ensures
        r == 2,
{
    git2::Status::INDEX_MODIFIED.bits()
}

/// The raw bits of git2's `Status::INDEX_DELETED` flag (libgit2 gives it the value
/// 4).
#[verifier::external_body]
fn status_index_deleted() -> (r: u32)
    ensures
        r == 4,
{
    git2::Status::INDEX_DELETED.bits()
}

/// The raw bits of git2's `Status::INDEX_RENAMED` flag (libgit2 gives it the value
/// 8).
#[verifier::external_body]
fn status_index_renamed() -> (r: u32)
    ensures
        r == 8,
{
    git2::Status::INDEX_RENAMED.bits()
}

/// The raw bits of git2's `Status::INDEX_TYPECHANGE` flag (libgit2 gives it the value
/// 16).
#[verifier::external_body]
fn status_index_typechange() -> (r: u32)
    ensures
        r == 16,
{
    git2::Status::INDEX_TYPECHANGE.bits()
}

/// The raw bits of git2's `Status::WT_NEW` flag (libgit2 gives it the value
/// 128).
#[verifier::external_body]
fn status_wt_new() -> (r: u32)
    ensures
        r == 128,
{
    git2::Status::WT_NEW.bits()
}

/// The raw bits of git2's `Status::WT_MODIFIED` flag (libgit2 gives it the value
/// 256).
#[verifier::external_body]
fn status_wt_modified() -> (r: u32)
    ensures
        r == 256,
{
    git2::Status::WT_MODIFIED.bits()
}

/// The raw bits of git2's `Status::WT_DELETED` flag (libgit2 gives it the value
/// 512).
#[verifier::external_body]
fn status_wt_deleted() -> (r: u32)
    ensures
        r == 512,
{
    git2::Status::WT_DELETED.bits()
}

/// The raw bits of git2's `Status::WT_TYPECHANGE` flag (libgit2 gives it the value
/// 1024).
#[verifier::external_body]
fn status_wt_typechange() -> (r: u32)
    ensures
        r == 1024,
{
    git2::Status::WT_TYPECHANGE.bits()
}

/// The raw bits of git2's `Status::WT_RENAMED` flag (libgit2 gives it the value
/// 2048).
#[verifier::external_body]
fn status_wt_renamed() -> (r: u32)
    ensures
        r == 2048,
{
    git2::Status::WT_RENAMED.bits()
}

/// The file-status flags of a change not yet committed, from git2's flags:
/// new, modified, deleted, renamed or retyped, in the index or in the
/// working tree.
fn uncommitted_status_flags() -> (r: u32)
    ensures
        r == UNCOMMITTED_FLAGS,
{
    let index = status_index_new() | status_index_modified() | status_index_deleted() | status_index_renamed()
        | status_index_typechange();
    let worktree = status_wt_new() | status_wt_modified() | status_wt_deleted() | status_wt_typechange()
        | status_wt_renamed();
    assert(index == 0x1Fu32) by (bit_vector)
        requires
            index == 1u32 | 2u32 | 4u32 | 8u32 | 16u32,
    ;
    assert(worktree == 0xF80u32) by (bit_vector)
        requires
            worktree == 128u32 | 256u32 | 512u32 | 1024u32 | 2048u32,
    ;
    assert(index | worktree == 0xF9Fu32) by (bit_vector)
        requires
            index == 0x1Fu32,
            worktree == 0xF80u32,
    ;
    index | worktree
}

/// Whether two sets of git file-status flags share one (git2's
/// `Status::intersects`, on the flags' raw bits).
#[verifier::external_body]
fn status_intersects(status: u32, flags: u32) -> (r: bool)
    ensures
        r == (status & flags != 0),
{
    git2::Status::from_bits_retain(status).intersects(git2::Status::from_bits_retain(flags))
}

/// Some file's status shows a change not yet committed.
pub open spec fn any_uncommitted(statuses: Seq<u32>) -> bool {
    exists|i: int| 0 <= i < statuses.len() && #[trigger] statuses[i] & UNCOMMITTED_FLAGS != 0
}

/// Whether the file statuses of a repository (their raw git2 flag bits) show
/// a change not yet committed.
pub fn has_uncommitted_changes(statuses: &Vec<u32>) -> (r: bool)
    ensures
        r == any_uncommitted(statuses@),
{
    let flags = uncommitted_status_flags();
    let mut i: usize = 0;
    while i < statuses.len()
        invariant
            i <= statuses.len(),
            flags == UNCOMMITTED_FLAGS,
            forall|j: int| 0 <= j < i ==> #[trigger] statuses@[j] & UNCOMMITTED_FLAGS == 0,
        decreases statuses.len() - i,
    {
        if status_intersects(statuses[i], flags) {
            return true;
        }
        i += 1;
    }
    false
}

// ---------------------------------------------------------------------------
// Remotes and branches
// ---------------------------------------------------------------------------

/// A URL that is reached over SSH: `git@...` or `ssh://...`.
pub open spec fn is_ssh(url: Seq<char>) -> bool {
    text::is_prefix("git@"@, url) || text::is_prefix("ssh://"@, url)
}

/// Whether a repository URL is reached over SSH (and so needs SSH keys).
pub fn is_ssh_url(url: &str) -> (r: bool)
    ensures
        r == is_ssh(url@),
{
    let u = text::chars_of(url);
    text::chars_starts_with(&u, &text::chars_of("git@")) || text::chars_starts_with(
        &u,
        &text::chars_of("ssh://"),
    )
}

/// The branch `git symbolic-ref refs/remotes/origin/HEAD` names: its trimmed
/// output after `refs/remotes/origin/`, if it starts so.
pub open spec fn symbolic_ref_branch(stdout: Seq<char>) -> Option<Seq<char>> {
    let t = text::trim(stdout);
    if text::is_prefix("refs/remotes/origin/"@, t) {
        Some(t.skip("refs/remotes/origin/"@.len() as int))
    } else {
        None
    }
}

/// The default branch named by the output of `git symbolic-ref
/// refs/remotes/origin/HEAD`.
pub fn branch_from_symbolic_ref(stdout: &str) -> (r: Option<String>)
    ensures
        match r {
            Some(b) => symbolic_ref_branch(stdout@) == Some(b@),
            None => symbolic_ref_branch(stdout@) is None,
        },
{
    let t = text::chars_trim(&text::chars_of(stdout));
    let p = text::chars_of("refs/remotes/origin/");
    if text::chars_starts_with(&t, &p) {
        let rest = text::chars_slice(&t, p.len(), t.len());
        assert(t@.subrange(p@.len() as int, t@.len() as int) =~= t@.skip(p@.len() as int));
        Some(text::string_of(&rest))
    } else {
        None
    }
}

/// The branches tried, in order, when the remote names no default branch.
pub fn default_branch_candidates() -> (r: Vec<String>)
    ensures
        text::strings_view(r@) == seq!["main"@, "master"@, "develop"@],
{
    let mut r: Vec<String> = Vec::new();
    r.push(String::from_str("main"));
    r.push(String::from_str("master"));
    r.push(String::from_str("develop"));
    assert(text::strings_view(r@) =~= seq!["main"@, "master"@, "develop"@]);
    r
}

/// The default branch when neither the remote names one nor a candidate
/// exists.
pub fn fallback_default_branch() -> (r: String)
    ensures
        r@ == "main"@,
{
    String::from_str("main")
}

// ---------------------------------------------------------------------------
// Answers
// ---------------------------------------------------------------------------

/// The answer, trimmed and lower-cased, is `y` or `yes`.
pub open spec fn is_yes(input: Seq<char>) -> bool {
    let t = text::trim(input);
    ||| t.len() == 1 && (t[0] == 'y' || t[0] == 'Y')
    ||| t.len() == 3 && (t[0] == 'y' || t[0] == 'Y') && (t[1] == 'e' || t[1] == 'E') && (t[2] == 's'
        || t[2] == 'S')
}

/// Whether a yes/no answer is yes (`y` or `yes`, in any case).
pub fn answer_is_yes(input: &str) -> (r: bool)
    ensures
        r == is_yes(input@),
{
    let t = text::chars_trim(&text::chars_of(input));
    (t.len() == 1 && (t[0] == 'y' || t[0] == 'Y')) || (t.len() == 3 && (t[0] == 'y' || t[0] == 'Y')
        && (t[1] == 'e' || t[1] == 'E') && (t[2] == 's' || t[2] == 'S'))
}

// ---------------------------------------------------------------------------
// Names from URLs and paths
// ---------------------------------------------------------------------------

/// `s` without every trailing `.git` (as `str::trim_end_matches(".git")`).
pub open spec fn trim_git_suffixes(s: Seq<char>) -> Seq<char>
    decreases s.len(),
{
    if s.len() >= 4 && s.subrange(s.len() - 4, s.len() as int) == ".git"@ {
        trim_git_suffixes(s.subrange(0, s.len() - 4))
    } else {
        s
    }
}

/// What follows the last `/` of `s` (all of `s` when it has none), as the
/// first piece `str::rsplit('/')` yields.
pub open spec fn last_segment(s: Seq<char>) -> Seq<char> {
    text::split_on(s, '/').last()
}

/// The name a repository is shown under: the last segment of its URL, once
/// every trailing `.git` is dropped.
pub open spec fn repo_name_of(url: Seq<char>) -> Seq<char> {
    last_segment(trim_git_suffixes(url))
}

/// What follows the last `/` of a path or URL.
pub fn last_path_segment(s: &str) -> (r: String)
    ensures
        r@ == last_segment(s@),
{
    let parts = text::chars_split(&text::chars_of(s), '/');
    proof {
        text::lemma_split_nonempty(s@, '/');
    }
    assert(text::seqs_view(parts@).last() == parts@[parts.len() - 1]@);
    text::string_of(&parts[parts.len() - 1])
}

/// The name a repository is shown under (see [`repo_name_of`]).
pub fn repo_display_name(url: &str) -> (r: String)
    ensures
        r@ == repo_name_of(url@),
{
    let v = text::chars_of(url);
    let mut end: usize = v.len();
    assert(v@.subrange(0, end as int) =~= v@);
    while end >= 4 && v[end - 4] == '.' && v[end - 3] == 'g' && v[end - 2] == 'i' && v[end - 1] == 't'
        invariant
            end <= v.len(),
            trim_git_suffixes(v@) == trim_git_suffixes(v@.subrange(0, end as int)),
        decreases end,
    {
        let ghost t = v@.subrange(0, end as int);
        proof {
            reveal_strlit(".git");
        }
        assert(t.subrange(t.len() - 4, t.len() as int) =~= ".git"@);
        assert(t.subrange(0, t.len() - 4) =~= v@.subrange(0, end - 4));
        end -= 4;
    }
    proof {
        reveal_strlit(".git");
        let t = v@.subrange(0, end as int);
        if t.len() >= 4 {
            if t.subrange(t.len() - 4, t.len() as int) == ".git"@ {
                assert(t.subrange(t.len() - 4, t.len() as int)[0] == t[t.len() - 4]);
                assert(t.subrange(t.len() - 4, t.len() as int)[1] == t[t.len() - 3]);
                assert(t.subrange(t.len() - 4, t.len() as int)[2] == t[t.len() - 2]);
                assert(t.subrange(t.len() - 4, t.len() as int)[3] == t[t.len() - 1]);
            }
        }
    }
    let trimmed = text::chars_slice(&v, 0, end);
    let parts = text::chars_split(&trimmed, '/');
    proof {
        text::lemma_split_nonempty(trimmed@, '/');
    }
    assert(text::seqs_view(parts@).last() == parts@[parts.len() - 1]@);
    text::string_of(&parts[parts.len() - 1])
}

/// The URL of the first remote, in order, that has one.
pub open spec fn first_url(rs: Seq<(Seq<char>, Option<Seq<char>>)>) -> Option<Seq<char>>
    decreases rs.len(),
{
    if rs.len() == 0 {
        None
    } else if rs[0].1 is Some {
        rs[0].1
    } else {
        first_url(rs.drop_first())
    }
}

/// The URL of the remote named `origin`, if it has one.
pub open spec fn origin_url(rs: Seq<(Seq<char>, Option<Seq<char>>)>) -> Option<Seq<char>>
    decreases rs.len(),
{
    if rs.len() == 0 {
        None
    } else if rs[0].0 == "origin"@ {
        rs[0].1
    } else {
        origin_url(rs.drop_first())
    }
}

/// The URL a repository is recorded under: that of `origin` when it has
/// one, else that of the first remote that has one.
pub open spec fn preferred_url(rs: Seq<(Seq<char>, Option<Seq<char>>)>) -> Option<Seq<char>> {
    match origin_url(rs) {
        Some(u) => Some(u),
        None => first_url(rs),
    }
}

/// The remotes of a repository, as (name, URL) values.
pub open spec fn remotes_view(v: Seq<(String, Option<String>)>) -> Seq<(Seq<char>, Option<Seq<char>>)> {
    v.map_values(
        |r: (String, Option<String>)|
            (
                r.0@,
                match r.1 {
                    Some(u) => Some(u@),
                    None => None,
                },
            ),
    )
}

/// The URL a repository is recorded under (see [`preferred_url`]), from its
/// remotes in order.
pub fn preferred_remote_url(remotes: &Vec<(String, Option<String>)>) -> (r: Option<String>)
    ensures
        match r {
            Some(u) => preferred_url(remotes_view(remotes@)) == Some(u@),
            None => preferred_url(remotes_view(remotes@)) is None,
        },
{
    let ghost rv = remotes_view(remotes@);
    let origin = String::from_str("origin");
    let mut i: usize = 0;
    assert(rv.skip(0) =~= rv);
    while i < remotes.len()
        invariant_except_break
            origin_url(rv) == origin_url(rv.skip(i as int)),
        invariant
            i <= remotes.len(),
            rv == remotes_view(remotes@),
            origin@ == "origin"@,
        ensures
            origin_url(rv) is None,
        decreases remotes.len() - i,
    {
        assert(rv.skip(i as int)[0] == rv[i as int]);
        assert(rv.skip(i as int).drop_first() =~= rv.skip(i + 1));
        if remotes[i].0 == origin {
            match &remotes[i].1 {
                Some(u) => {
                    return Some(u.clone());
                },
                None => {
                    break;
                },
            }
        }
        i += 1;
        if i == remotes.len() {
            assert(rv.skip(i as int).len() == 0);
        }
    }
    let mut j: usize = 0;
    assert(rv.skip(0) =~= rv);
    while j < remotes.len()
        invariant
            j <= remotes.len(),
            rv == remotes_view(remotes@),
            origin_url(rv) is None,
            first_url(rv) == first_url(rv.skip(j as int)),
        decreases remotes.len() - j,
    {
        assert(rv.skip(j as int)[0] == rv[j as int]);
        assert(rv.skip(j as int).drop_first() =~= rv.skip(j + 1));
        match &remotes[j].1 {
            Some(u) => {
                return Some(u.clone());
            },
            None => {},
        }
        j += 1;
    }
    None
}

} // verus!
