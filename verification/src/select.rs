//! Choosing the projects a command works on (from the identifiers given on
//! the command line, the current project, or the user's answer to a numbered
//! list) and reading the user's answers.
use vstd::prelude::*;
use vstd::string::*;

use crate::text;
use crate::workspace;
use crate::workspace::{EntryView, ProjectEntry, WorkspaceConfig, WorkspaceView};

verus! {

// ---------------------------------------------------------------------------
// Reading answers
// ---------------------------------------------------------------------------

/// `s` is `all` in any ASCII case.
pub open spec fn is_all_word(s: Seq<char>) -> bool {
    &&& s.len() == 3
    &&& (s[0] == 'a' || s[0] == 'A')
    &&& (s[1] == 'l' || s[1] == 'L')
    &&& (s[2] == 'l' || s[2] == 'L')
}

/// Every character is a decimal digit.
pub open spec fn all_digits(s: Seq<char>) -> bool {
    forall|i: int| 0 <= i < s.len() ==> '0' <= #[trigger] s[i] <= '9'
}

/// The value of a string of decimal digits.
pub open spec fn digits_value(s: Seq<char>) -> int
    decreases s.len(),
{
    if s.len() == 0 {
        0
    } else {
        digits_value(s.drop_last()) * 10 + (s.last() as int - '0' as int)
    }
}

/// What `usize::from_str` gives: an optional `+`, then at least one decimal
/// digit, with a value that fits in a `usize`.
pub open spec fn parse_usize(s: Seq<char>) -> Option<int> {
    let d = if s.len() > 0 && s[0] == '+' {
        s.drop_first()
    } else {
        s
    };
    if d.len() > 0 && all_digits(d) && digits_value(d) <= usize::MAX {
        Some(digits_value(d))
    } else {
        None
    }
}

/// A longer run of digits has a value at least as large.
proof fn lemma_digits_monotone(s: Seq<char>, i: int, j: int)
    requires
        0 <= i <= j <= s.len(),
        all_digits(s),
    ensures
        0 <= digits_value(s.take(i)) <= digits_value(s.take(j)),
    decreases j,
{
    if j > 0 {
        assert(s.take(j).drop_last() =~= s.take(j - 1));
        assert(s.take(j).last() == s[j - 1]);
        if i < j {
            lemma_digits_monotone(s, i, j - 1);
        } else {
            lemma_digits_monotone(s, j - 1, j - 1);
        }
    } else {
        assert(s.take(0) =~= Seq::<char>::empty());
    }
}

/// The number a string holds, as `usize::from_str` reads it.
pub fn parse_number(s: &Vec<char>) -> (r: Option<usize>)
    ensures
        match r {
            Some(n) => parse_usize(s@) == Some(n as int),
            None => parse_usize(s@) is None,
        },
{
    let start: usize = if s.len() > 0 && s[0] == '+' {
        1
    } else {
        0
    };
    let ghost d = if s@.len() > 0 && s@[0] == '+' {
        s@.drop_first()
    } else {
        s@
    };
    assert(d =~= s@.skip(start as int));
    if start >= s.len() {
        return None;
    }
    let mut value: usize = 0;
    let mut i: usize = start;
    assert(d.take(0) =~= Seq::<char>::empty());
    while i < s.len()
        invariant
            start <= i <= s.len(),
            d == s@.skip(start as int),
            d == (if s@.len() > 0 && s@[0] == '+' {
                s@.drop_first()
            } else {
                s@
            }),
            forall|k: int| 0 <= k < i - start ==> '0' <= #[trigger] d[k] <= '9',
            value as int == digits_value(d.take(i - start)),
        decreases s.len() - i,
    {
        let c = s[i];
        assert(d[i - start] == c);
        if !('0' <= c && c <= '9') {
            assert(!all_digits(d));
            return None;
        }
        let digit = (c as u32 - '0' as u32) as usize;
        assert(d.take(i - start + 1).drop_last() =~= d.take(i - start));
        assert(d.take(i - start + 1).last() == c);
        match value.checked_mul(10) {
            Some(m) => match m.checked_add(digit) {
                Some(v) => {
                    value = v;
                },
                None => {
                    proof {
                        if all_digits(d) {
                            lemma_digits_monotone(d, i - start + 1, d.len() as int);
                            assert(d.take(d.len() as int) =~= d);
                        }
                    }
                    return None;
                },
            },
            None => {
                proof {
                    if all_digits(d) {
                        lemma_digits_monotone(d, i - start + 1, d.len() as int);
                        assert(d.take(d.len() as int) =~= d);
                    }
                }
                return None;
            },
        }
        i += 1;
    }
    assert(d.take(d.len() as int) =~= d);
    assert(all_digits(d));
    Some(value)
}

/// The entries the user picked from a numbered list: each comma-separated
/// number from 1 to the length of the list picks that entry, in the order
/// given; anything else is passed over.
pub open spec fn picks(parts: Seq<Seq<char>>, available: Seq<Seq<char>>) -> Seq<Seq<char>>
    decreases parts.len(),
{
    if parts.len() == 0 {
        Seq::empty()
    } else {
        let r = picks(parts.drop_last(), available);
        match parse_usize(text::trim(parts.last())) {
            Some(n) => if 1 <= n <= available.len() {
                r.push(available[n - 1])
            } else {
                r
            },
            None => r,
        }
    }
}

/// What an answer to a numbered list selects: `all` (in any case) selects
/// every entry, an empty answer none, otherwise the numbers it lists.
pub open spec fn picked(input: Seq<char>, available: Seq<Seq<char>>) -> Seq<Seq<char>> {
    let t = text::trim(input);
    if is_all_word(t) {
        available
    } else if t.len() == 0 {
        Seq::empty()
    } else {
        picks(text::split_on(t, ','), available)
    }
}

/// The entries of `available` that the answer `input` selects.
pub fn pick_from_list(input: &str, available: &Vec<String>) -> (r: Vec<String>)
    ensures
        text::strings_view(r@) == picked(input@, text::strings_view(available@)),
{
    let chars = text::chars_of(input);
    let t = text::chars_trim(&chars);
    let ghost av = text::strings_view(available@);
    if t.len() == 3 && (t[0] == 'a' || t[0] == 'A') && (t[1] == 'l' || t[1] == 'L') && (t[2] == 'l'
        || t[2] == 'L') {
        return text::copy_strings(available);
    }
    let mut r: Vec<String> = Vec::new();
    if t.len() == 0 {
        assert(text::strings_view(r@) =~= Seq::<Seq<char>>::empty());
        return r;
    }
    let parts = text::chars_split(&t, ',');
    let ghost ps = text::seqs_view(parts@);
    let mut i: usize = 0;
    assert(ps.take(0) =~= Seq::<Seq<char>>::empty());
    assert(text::strings_view(r@) =~= Seq::<Seq<char>>::empty());
    while i < parts.len()
        invariant
            i <= parts.len(),
            ps == text::seqs_view(parts@),
            av == text::strings_view(available@),
            text::strings_view(r@) == picks(ps.take(i as int), av),
        decreases parts.len() - i,
    {
        assert(ps.take(i + 1).drop_last() =~= ps.take(i as int));
        assert(ps.take(i + 1).last() == parts[i as int]@);
        let piece = text::chars_trim(&parts[i]);
        match parse_number(&piece) {
            Some(n) => {
                if 1 <= n && n <= available.len() {
                    let ghost before = r@;
                    let s = available[n - 1].clone();
                    r.push(s);
                    proof {
                        text::lemma_strings_view_push(before, s);
                    }
                }
            },
            None => {},
        }
        i += 1;
    }
    assert(ps.take(parts.len() as int) =~= ps);
    r
}

/// Everything an answer selects comes from the list it answers.
pub proof fn law_picked_entries_are_listed(input: Seq<char>, available: Seq<Seq<char>>)
    ensures
        forall|k: int|
            0 <= k < picked(input, available).len() ==> available.contains(
                #[trigger] picked(input, available)[k],
            ),
{
    let t = text::trim(input);
    if !is_all_word(t) && t.len() > 0 {
        lemma_picks_listed(text::split_on(t, ','), available);
    }
    assert forall|k: int| 0 <= k < picked(input, available).len() implies available.contains(
        #[trigger] picked(input, available)[k],
    ) by {
        if is_all_word(t) {
            assert(available[k] == picked(input, available)[k]);
        }
    }
}

/// Each pick is an entry of the list.
proof fn lemma_picks_listed(parts: Seq<Seq<char>>, available: Seq<Seq<char>>)
    ensures
        forall|k: int|
            0 <= k < picks(parts, available).len() ==> available.contains(
                #[trigger] picks(parts, available)[k],
            ),
    decreases parts.len(),
{
    if parts.len() > 0 {
        lemma_picks_listed(parts.drop_last(), available);
        let r = picks(parts.drop_last(), available);
        match parse_usize(text::trim(parts.last())) {
            Some(n) => {
                if 1 <= n <= available.len() {
                    assert(available[n - 1] == r.push(available[n - 1])[r.len() as int]);
                    assert forall|k: int| 0 <= k < r.len() + 1 implies available.contains(
                        #[trigger] r.push(available[n - 1])[k],
                    ) by {
                        if k < r.len() {
                            assert(r.push(available[n - 1])[k] == r[k]);
                        } else {
                            assert(available[n - 1] == available[n - 1]);
                        }
                    }
                }
            },
            None => {},
        }
    }
}

/// Answering `all` selects the whole list.
pub proof fn law_all_selects_everything(available: Seq<Seq<char>>)
    ensures
        picked(seq!['a', 'l', 'l'], available) == available,
        picked(seq!['A', 'L', 'L'], available) == available,
{
    text::lemma_trim_plain(seq!['a', 'l', 'l']);
    text::lemma_trim_plain(seq!['A', 'L', 'L']);
}

/// Where a new branch starts, as the user chose it.
pub enum StartPoint {
    /// Start from this ref.
    Ref(String),
    /// Ask the user for a ref of their own.
    Custom,
    /// The answer was not one of the choices: start from `HEAD`.
    Invalid,
}

/// The starting point the answer to the starting-point menu names: `1` or
/// nothing is `HEAD`, `2` is `origin/main`, `3` is `origin/develop`, `4` asks
/// for a ref of the user's own.
pub open spec fn start_point_choice(input: Seq<char>) -> Option<Option<Seq<char>>> {
    let t = text::trim(input);
    if t.len() == 0 || t == seq!['1'] {
        Some(Some("HEAD"@))
    } else if t == seq!['2'] {
        Some(Some("origin/main"@))
    } else if t == seq!['3'] {
        Some(Some("origin/develop"@))
    } else if t == seq!['4'] {
        Some(None)
    } else {
        None
    }
}

/// Reads the answer to the starting-point menu: `Ref` for a ref to start
/// from, `Custom` to ask for a ref, `Invalid` when the answer is none of the
/// choices.
pub fn choose_starting_point(input: &str) -> (r: StartPoint)
    ensures
        match r {
            StartPoint::Ref(s) => start_point_choice(input@) == Some(Some(s@)),
            StartPoint::Custom => start_point_choice(input@) == Some(None::<Seq<char>>),
            StartPoint::Invalid => start_point_choice(input@) is None,
        },
{
    let t = text::chars_trim(&text::chars_of(input));
    if t.len() == 0 || (t.len() == 1 && t[0] == '1') {
        assert(t@.len() == 1 ==> t@ =~= seq!['1']);
        StartPoint::Ref(String::from_str("HEAD"))
    } else if t.len() == 1 && t[0] == '2' {
        assert(t@ =~= seq!['2']);
        StartPoint::Ref(String::from_str("origin/main"))
    } else if t.len() == 1 && t[0] == '3' {
        assert(t@ =~= seq!['3']);
        StartPoint::Ref(String::from_str("origin/develop"))
    } else if t.len() == 1 && t[0] == '4' {
        assert(t@ =~= seq!['4']);
        StartPoint::Custom
    } else {
        assert(t@ != seq!['1'] && t@ != seq!['2'] && t@ != seq!['3'] && t@ != seq!['4']);
        StartPoint::Invalid
    }
}

/// The plural ending for a count of projects.
pub fn plural_suffix(count: usize) -> (r: &'static str)
    ensures
        r@ == (if count == 1 {
            ""@
        } else {
            "s"@
        }),
{
    if count == 1 {
        ""
    } else {
        "s"
    }
}

} // verus!

verus! {

// ---------------------------------------------------------------------------
// Scripts
// ---------------------------------------------------------------------------

/// Projects that can run `script`: the project defines it, or the workspace
/// does.
pub open spec fn has_script(w: WorkspaceView, script: Seq<char>) -> spec_fn((Seq<char>, EntryView)) -> bool {
    |p: (Seq<char>, EntryView)|
        workspace::pair_map(workspace::entry_scripts(p.1)).contains_key(script)
            || workspace::opt_pair_map(w.scripts).contains_key(script)
}

/// The names of the projects that can run `script`, in workspace order.
pub open spec fn projects_with_script(w: WorkspaceView, script: Seq<char>) -> Seq<Seq<char>> {
    workspace::names_of(w.projects.filter(has_script(w, script)))
}

/// The scripts a project can run: the workspace scripts, where the project's
/// own scripts of the same name take their place.
pub open spec fn scripts_for(w: WorkspaceView, name: Seq<char>) -> Map<Seq<char>, Seq<char>> {
    let global = workspace::opt_pair_map(w.scripts);
    if workspace::project_map(w).contains_key(name) {
        global.union_prefer_right(
            workspace::pair_map(workspace::entry_scripts(workspace::project_map(w)[name])),
        )
    } else {
        global
    }
}

/// The names of the projects that can run `script`.
pub fn find_projects_with_script(config: &WorkspaceConfig, script: &str) -> (r: Vec<String>)
    ensures
        text::strings_view(r@) == projects_with_script(config@, script@),
{
    let key = String::from_str(script);
    let global = match config.scripts() {
        Some(g) => workspace::pairs_have_key(g, &key),
        None => false,
    };
    let ghost ps = config@.projects;
    let ghost pred = has_script(config@, script@);
    let mut r: Vec<String> = Vec::new();
    let mut i: usize = 0;
    assert(ps.take(0) =~= Seq::<(Seq<char>, EntryView)>::empty());
    assert(text::strings_view(r@) =~= Seq::<Seq<char>>::empty());
    while i < config.project_count()
        invariant
            i <= ps.len(),
            ps == config@.projects,
            key@ == script@,
            pred == has_script(config@, script@),
            global == workspace::opt_pair_map(config@.scripts).contains_key(script@),
            text::strings_view(r@) == workspace::names_of(ps.take(i as int).filter(pred)),
        decreases ps.len() - i,
    {
        let (name, entry) = config.project_at(i);
        let own = match entry {
            ProjectEntry::Metadata(m) => workspace::pairs_have_key(&m.scripts, &key),
            ProjectEntry::Url(_) => false,
        };
        assert(ps.take(i + 1) =~= ps.take(i as int).push(ps[i as int]));
        proof {
            ps.take(i as int).lemma_filter_push(ps[i as int], pred);
        }
        let ghost before = r@;
        let ghost kept = ps.take(i as int).filter(pred);
        if own || global {
            let n = name.clone();
            r.push(n);
            proof {
                text::lemma_strings_view_push(before, n);
            }
            assert(workspace::names_of(kept.push(ps[i as int])) =~= workspace::names_of(kept).push(
                n@,
            ));
        }
        i += 1;
    }
    assert(ps.take(ps.len() as int) =~= ps);
    r
}

/// An environment setting `KEY=VALUE`: split at its first `=`; none
/// without one.
pub open spec fn env_pair_of(s: Seq<char>) -> Option<(Seq<char>, Seq<char>)> {
    if s.contains('=') {
        let k = choose|k: int| 0 <= k < s.len() && s[k] == '=' && forall|j: int| 0 <= j < k ==> s[j] != '=';
        Some((s.take(k), s.skip(k + 1)))
    } else {
        None
    }
}

/// Reads an environment setting `KEY=VALUE` (see [`env_pair_of`]).
pub fn parse_env_pair(setting: &str) -> (r: Option<(String, String)>)
    ensures
        match r {
            Some((k, v)) => env_pair_of(setting@) == Some((k@, v@)),
            None => env_pair_of(setting@) is None,
        },
{
    let c = text::chars_of(setting);
    let mut i: usize = 0;
    while i < c.len()
        invariant
            i <= c.len(),
            c@ == setting@,
            forall|j: int| 0 <= j < i ==> c@[j] != '=',
        decreases c.len() - i,
    {
        if c[i] == '=' {
            let key = text::chars_slice(&c, 0, i);
            let value = text::chars_slice(&c, i + 1, c.len());
            proof {
                let k = choose|k: int| 0 <= k < c@.len() && c@[k] == '=' && forall|j: int| 0 <= j < k ==> c@[j] != '=';
                assert(c@.contains('=')) by {
                    assert(c@[i as int] == '=');
                }
                if k < i {
                } else if k > i {
                    assert(c@[i as int] != '=');
                }
                assert(k == i);
                assert(key@ =~= c@.take(i as int));
                assert(value@ =~= c@.skip(i + 1));
            }
            return Some((text::string_of(&key), text::string_of(&value)));
        }
        i += 1;
    }
    None
}

/// How a script's command runs: its first word is the program, the other
/// words are its arguments (words are separated by whitespace); a command
/// without words cannot run.
pub open spec fn invocation_of(command: Seq<char>) -> Option<(Seq<char>, Seq<Seq<char>>)> {
    let ws = text::words(command);
    if ws.len() == 0 {
        None
    } else {
        Some((ws[0], ws.drop_first()))
    }
}

/// The program and arguments a script's command runs as (see
/// [`invocation_of`]).
pub fn script_invocation(command: &str) -> (r: Option<(String, Vec<String>)>)
    ensures
        match r {
            Some((p, args)) => invocation_of(command@) == Some((p@, text::strings_view(args@))),
            None => invocation_of(command@) is None,
        },
{
    let ws = text::chars_words(&text::chars_of(command));
    if ws.len() == 0 {
        return None;
    }
    let program = text::string_of(&ws[0]);
    let mut args: Vec<String> = Vec::new();
    let mut i: usize = 1;
    while i < ws.len()
        invariant
            1 <= i <= ws.len(),
            text::seqs_view(ws@) == text::words(command@),
            text::strings_view(args@) == text::seqs_view(ws@).subrange(1, i as int),
        decreases ws.len() - i,
    {
        let ghost before = args@;
        let a = text::string_of(&ws[i]);
        args.push(a);
        proof {
            text::lemma_strings_view_push(before, a);
        }
        assert(text::seqs_view(ws@).subrange(1, i + 1) =~= text::seqs_view(ws@).subrange(1, i as int).push(
            ws@[i as int]@,
        ));
        i += 1;
    }
    assert(text::seqs_view(ws@).subrange(1, ws.len() as int) =~= text::words(command@).drop_first());
    Some((program, args))
}

/// The command of a script for a project (see [`scripts_for`]).
pub fn script_command(config: &WorkspaceConfig, project: &str, script: &str) -> (r: Option<String>)
    ensures
        match r {
            Some(c) => scripts_for(config@, project@).contains_key(script@) && c@ == scripts_for(
                config@,
                project@,
            )[script@],
            None => !scripts_for(config@, project@).contains_key(script@),
        },
{
    if let Some(ProjectEntry::Metadata(m)) = config.get_project(project) {
        if let Some(c) = workspace::lookup_pair(&m.scripts, script) {
            return Some(c);
        }
    }
    match config.scripts() {
        Some(g) => workspace::lookup_pair(g, script),
        None => None,
    }
}

// ---------------------------------------------------------------------------
// Selections
// ---------------------------------------------------------------------------

/// The projects a command works on, and the identifiers that named none.
pub struct Selection {
    pub projects: Vec<String>,
    pub not_found: Vec<String>,
}

/// The mathematical value of a [`Selection`].
pub struct SelectionView {
    pub projects: Seq<Seq<char>>,
    pub not_found: Seq<Seq<char>>,
}

impl View for Selection {
    type V = SelectionView;

    open spec fn view(&self) -> SelectionView {
        SelectionView {
            projects: text::strings_view(self.projects@),
            not_found: text::strings_view(self.not_found@),
        }
    }
}

/// What a worktree command works on.
pub enum Targets {
    /// These projects.
    Chosen(Selection),
    /// Ask the user to pick from these projects.
    AskUser(Vec<String>),
    /// The current project was named but lacks the worktree.
    CurrentLacksWorktree(String),
}

/// The mathematical value of a [`Targets`].
pub enum TargetsView {
    Chosen(SelectionView),
    AskUser(Seq<Seq<char>>),
    CurrentLacksWorktree(Seq<char>),
}

impl View for Targets {
    type V = TargetsView;

    open spec fn view(&self) -> TargetsView {
        match self {
            Targets::Chosen(s) => TargetsView::Chosen(s@),
            Targets::AskUser(v) => TargetsView::AskUser(text::strings_view(v@)),
            Targets::CurrentLacksWorktree(c) => TargetsView::CurrentLacksWorktree(c@),
        }
    }
}

/// The projects the identifiers name, in order, under `f`.
pub open spec fn resolved_with(ids: Seq<Seq<char>>, f: spec_fn(Seq<char>) -> Option<Seq<char>>) -> Seq<Seq<char>>
    decreases ids.len(),
{
    if ids.len() == 0 {
        Seq::empty()
    } else {
        let r = resolved_with(ids.drop_last(), f);
        match f(ids.last()) {
            Some(n) => r.push(n),
            None => r,
        }
    }
}

/// The identifiers that name no project under `f`, in order.
pub open spec fn missing_with(ids: Seq<Seq<char>>, f: spec_fn(Seq<char>) -> Option<Seq<char>>) -> Seq<Seq<char>>
    decreases ids.len(),
{
    if ids.len() == 0 {
        Seq::empty()
    } else {
        let r = missing_with(ids.drop_last(), f);
        match f(ids.last()) {
            Some(_) => r,
            None => r.push(ids.last()),
        }
    }
}

/// How `run` resolves identifiers (or `worktree`, when `for_worktree`).
pub open spec fn resolver(w: WorkspaceView, for_worktree: bool) -> spec_fn(Seq<char>) -> Option<Seq<char>> {
    |id: Seq<char>|
        if for_worktree {
            workspace::resolve_worktree_identifier(w, id)
        } else {
            workspace::resolve_identifier(w, id)
        }
}

/// The identifiers are the single flag `--all`.
pub open spec fn is_all_flag(ids: Seq<Seq<char>>) -> bool {
    ids.len() == 1 && ids[0] == "--all"@
}

/// The selection that resolving each identifier gives.
pub open spec fn resolved_selection(w: WorkspaceView, ids: Seq<Seq<char>>, for_worktree: bool) -> SelectionView {
    SelectionView {
        projects: resolved_with(ids, resolver(w, for_worktree)),
        not_found: missing_with(ids, resolver(w, for_worktree)),
    }
}

/// What `run` works on: with no identifiers, the current project, or else
/// every project that can run the script; with `--all`, every project;
/// otherwise the projects the identifiers name.
pub open spec fn run_targets(
    w: WorkspaceView,
    script: Seq<char>,
    ids: Seq<Seq<char>>,
    current: Option<Seq<char>>,
) -> SelectionView {
    if ids.len() == 0 {
        SelectionView {
            projects: match current {
                Some(c) => seq![c],
                None => projects_with_script(w, script),
            },
            not_found: Seq::empty(),
        }
    } else if is_all_flag(ids) {
        SelectionView { projects: workspace::names_of(w.projects), not_found: Seq::empty() }
    } else {
        resolved_selection(w, ids, false)
    }
}

/// What `worktree add` works on: with no identifiers, the current project,
/// or else the user's pick from all projects; with `--all`, every project;
/// otherwise the projects the identifiers name.
pub open spec fn worktree_add_targets(w: WorkspaceView, ids: Seq<Seq<char>>, current: Option<Seq<char>>) -> TargetsView {
    if ids.len() == 0 {
        match current {
            Some(c) => TargetsView::Chosen(SelectionView { projects: seq![c], not_found: Seq::empty() }),
            None => TargetsView::AskUser(workspace::names_of(w.projects)),
        }
    } else if is_all_flag(ids) {
        TargetsView::Chosen(SelectionView { projects: workspace::names_of(w.projects), not_found: Seq::empty() })
    } else {
        TargetsView::Chosen(resolved_selection(w, ids, true))
    }
}

/// What `worktree remove` works on, given the projects that have the
/// worktree: with no identifiers, the current project if it has the
/// worktree (refused if not), or else the user's pick from those projects
/// (none if there are none); with `--all`, all of them; otherwise the
/// projects the identifiers name.
pub open spec fn worktree_remove_targets(
    w: WorkspaceView,
    ids: Seq<Seq<char>>,
    current: Option<Seq<char>>,
    having: Seq<Seq<char>>,
) -> TargetsView {
    if ids.len() == 0 {
        match current {
            Some(c) => if having.contains(c) {
                TargetsView::Chosen(SelectionView { projects: seq![c], not_found: Seq::empty() })
            } else {
                TargetsView::CurrentLacksWorktree(c)
            },
            None => if having.len() > 0 {
                TargetsView::AskUser(having)
            } else {
                TargetsView::Chosen(SelectionView { projects: Seq::empty(), not_found: Seq::empty() })
            },
        }
    } else if is_all_flag(ids) {
        TargetsView::Chosen(SelectionView { projects: having, not_found: Seq::empty() })
    } else {
        TargetsView::Chosen(resolved_selection(w, ids, true))
    }
}

/// Resolves each identifier.
fn resolve_each(config: &WorkspaceConfig, ids: &Vec<String>, for_worktree: bool) -> (r: Selection)
    ensures
        r@ == resolved_selection(config@, text::strings_view(ids@), for_worktree),
{
    let ghost iv = text::strings_view(ids@);
    let ghost f = resolver(config@, for_worktree);
    let mut found: Vec<String> = Vec::new();
    let mut missing: Vec<String> = Vec::new();
    let mut i: usize = 0;
    assert(iv.take(0) =~= Seq::<Seq<char>>::empty());
    assert(text::strings_view(found@) =~= Seq::<Seq<char>>::empty());
    assert(text::strings_view(missing@) =~= Seq::<Seq<char>>::empty());
    while i < ids.len()
        invariant
            i <= ids.len(),
            iv == text::strings_view(ids@),
            f == resolver(config@, for_worktree),
            text::strings_view(found@) == resolved_with(iv.take(i as int), f),
            text::strings_view(missing@) == missing_with(iv.take(i as int), f),
        decreases ids.len() - i,
    {
        assert(iv.take(i + 1).drop_last() =~= iv.take(i as int));
        assert(iv.take(i + 1).last() == ids@[i as int]@);
        let res = if for_worktree {
            config.resolve_worktree_project(ids[i].as_str())
        } else {
            config.resolve_project_identifier(ids[i].as_str())
        };
        match res {
            Some(n) => {
                let ghost before = found@;
                found.push(n);
                proof {
                    text::lemma_strings_view_push(before, n);
                }
            },
            None => {
                let ghost before = missing@;
                let id = ids[i].clone();
                missing.push(id);
                proof {
                    text::lemma_strings_view_push(before, id);
                }
            },
        }
        i += 1;
    }
    assert(iv.take(ids.len() as int) =~= iv);
    Selection { projects: found, not_found: missing }
}

/// Whether the identifiers are the single flag `--all`.
fn all_flag_given(ids: &Vec<String>) -> (r: bool)
    ensures
        r == is_all_flag(text::strings_view(ids@)),
{
    ids.len() == 1 && ids[0] == String::from_str("--all")
}

/// A selection of the given projects with nothing unresolved.
fn chosen(projects: Vec<String>) -> (r: Selection)
    ensures
        r@ == (SelectionView { projects: text::strings_view(projects@), not_found: Seq::empty() }),
{
    let not_found: Vec<String> = Vec::new();
    assert(text::strings_view(not_found@) =~= Seq::<Seq<char>>::empty());
    Selection { projects, not_found }
}

/// A list holding one name.
fn single(name: &str) -> (r: Vec<String>)
    ensures
        text::strings_view(r@) == seq![name@],
{
    let mut r: Vec<String> = Vec::new();
    r.push(String::from_str(name));
    assert(text::strings_view(r@) =~= seq![name@]);
    r
}

/// The projects `run` works on (see [`run_targets`]).
pub fn select_run_targets(
    config: &WorkspaceConfig,
    script: &str,
    ids: &Vec<String>,
    current: Option<&str>,
) -> (r: Selection)
    ensures
        r@ == run_targets(
            config@,
            script@,
            text::strings_view(ids@),
            match current {
                Some(c) => Some(c@),
                None => None,
            },
        ),
{
    if ids.len() == 0 {
        match current {
            Some(c) => chosen(single(c)),
            None => chosen(find_projects_with_script(config, script)),
        }
    } else if all_flag_given(ids) {
        chosen(config.project_names())
    } else {
        resolve_each(config, ids, false)
    }
}

/// The projects `worktree add` works on (see [`worktree_add_targets`]).
pub fn select_worktree_add_targets(config: &WorkspaceConfig, ids: &Vec<String>, current: Option<&str>) -> (r: Targets)
    ensures
        r@ == worktree_add_targets(
            config@,
            text::strings_view(ids@),
            match current {
                Some(c) => Some(c@),
                None => None,
            },
        ),
{
    if ids.len() == 0 {
        match current {
            Some(c) => Targets::Chosen(chosen(single(c))),
            None => Targets::AskUser(config.project_names()),
        }
    } else if all_flag_given(ids) {
        Targets::Chosen(chosen(config.project_names()))
    } else {
        Targets::Chosen(resolve_each(config, ids, true))
    }
}

/// The projects `worktree remove` works on, given those that have the
/// worktree (see [`worktree_remove_targets`]).
pub fn select_worktree_remove_targets(
    config: &WorkspaceConfig,
    ids: &Vec<String>,
    current: Option<&str>,
    having: &Vec<String>,
) -> (r: Targets)
    ensures
        r@ == worktree_remove_targets(
            config@,
            text::strings_view(ids@),
            match current {
                Some(c) => Some(c@),
                None => None,
            },
            text::strings_view(having@),
        ),
{
    if ids.len() == 0 {
        match current {
            Some(c) => {
                let cs = String::from_str(c);
                if text::strings_contain(having, &cs) {
                    Targets::Chosen(chosen(single(c)))
                } else {
                    Targets::CurrentLacksWorktree(cs)
                }
            },
            None => if having.len() > 0 {
                Targets::AskUser(text::copy_strings(having))
            } else {
                let none: Vec<String> = Vec::new();
                assert(text::strings_view(none@) =~= Seq::<Seq<char>>::empty());
                Targets::Chosen(chosen(none))
            },
        }
    } else if all_flag_given(ids) {
        Targets::Chosen(chosen(text::copy_strings(having)))
    } else {
        Targets::Chosen(resolve_each(config, ids, true))
    }
}

/// Names that are in the list `allowed`.
pub open spec fn listed_in(allowed: Seq<Seq<char>>) -> spec_fn(Seq<char>) -> bool {
    |n: Seq<char>| allowed.contains(n)
}

/// The names of `names` that are also in `allowed`, in their order.
pub fn keep_listed(names: &Vec<String>, allowed: &Vec<String>) -> (r: Vec<String>)
    ensures
        text::strings_view(r@) == text::strings_view(names@).filter(listed_in(text::strings_view(allowed@))),
{
    let ghost nv = text::strings_view(names@);
    let ghost pred = listed_in(text::strings_view(allowed@));
    let mut r: Vec<String> = Vec::new();
    let mut i: usize = 0;
    assert(nv.take(0) =~= Seq::<Seq<char>>::empty());
    assert(text::strings_view(r@) =~= Seq::<Seq<char>>::empty());
    while i < names.len()
        invariant
            i <= names.len(),
            nv == text::strings_view(names@),
            pred == listed_in(text::strings_view(allowed@)),
            text::strings_view(r@) == nv.take(i as int).filter(pred),
        decreases names.len() - i,
    {
        assert(nv.take(i + 1) =~= nv.take(i as int).push(nv[i as int]));
        proof {
            nv.take(i as int).lemma_filter_push(nv[i as int], pred);
        }
        if text::strings_contain(allowed, &names[i]) {
            let ghost before = r@;
            let n = names[i].clone();
            r.push(n);
            proof {
                text::lemma_strings_view_push(before, n);
            }
        }
        i += 1;
    }
    assert(nv.take(names.len() as int) =~= nv);
    r
}

} // verus!
