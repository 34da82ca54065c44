//! Keeping project directories listed in the workspace's `.gitignore`:
//! adding an entry once and removing every line that names it.
use vstd::prelude::*;
use vstd::string::*;

use crate::text;
use crate::text::{is_space, lines, lines_state, strip_cr, trim, trim_end, trim_start};

verus! {

// ---------------------------------------------------------------------------
// Specifications
// ---------------------------------------------------------------------------

/// Some line of `content`, trimmed, equals `entry`.
pub open spec fn lists_entry(content: Seq<char>, entry: Seq<char>) -> bool {
    exists|i: int| 0 <= i < lines(content).len() && trim(lines(content)[i]) == entry
}

/// `content` with a line break added when it has text that does not end in
/// one, followed by `entry` and a line break.
pub open spec fn appended(content: Seq<char>, entry: Seq<char>) -> Seq<char> {
    let base = if content.len() > 0 && content.last() != '\n' {
        content.push('\n')
    } else {
        content
    };
    base + entry.push('\n')
}

/// A line is kept unless, trimmed, it equals `name`.
pub open spec fn keeps(name: Seq<char>) -> spec_fn(Seq<char>) -> bool {
    |l: Seq<char>| trim(l) != name
}

/// The lines of `content` that, trimmed, differ from `name`.
pub open spec fn kept_lines(content: Seq<char>, name: Seq<char>) -> Seq<Seq<char>> {
    lines(content).filter(keeps(name))
}

/// The lines joined with line breaks between them.
pub open spec fn joined(ls: Seq<Seq<char>>) -> Seq<char>
    decreases ls.len(),
{
    if ls.len() == 0 {
        Seq::empty()
    } else if ls.len() == 1 {
        ls[0]
    } else {
        joined(ls.drop_last()).push('\n') + ls.last()
    }
}

/// `content` without the lines naming `name`, each remaining line ended by a
/// line break.
pub open spec fn removed(content: Seq<char>, name: Seq<char>) -> Seq<char> {
    joined(kept_lines(content, name)).push('\n')
}

/// No character of `s` is a line break.
pub open spec fn no_newline(s: Seq<char>) -> bool {
    !s.contains('\n')
}

// ---------------------------------------------------------------------------
// Lemmas on lines
// ---------------------------------------------------------------------------

/// One character of line splitting.
pub open spec fn line_step(st: (Seq<Seq<char>>, Seq<char>), c: char) -> (Seq<Seq<char>>, Seq<char>) {
    if c == '\n' {
        (st.0.push(strip_cr(st.1)), Seq::empty())
    } else {
        (st.0, st.1.push(c))
    }
}

/// Line splitting continued over `b` from the state `st`.
pub open spec fn feed(st: (Seq<Seq<char>>, Seq<char>), b: Seq<char>) -> (Seq<Seq<char>>, Seq<char>)
    decreases b.len(),
{
    if b.len() == 0 {
        st
    } else {
        line_step(feed(st, b.drop_last()), b.last())
    }
}

/// Splitting `a + b` continues the splitting of `a` over `b`.
proof fn lemma_lines_state_concat(a: Seq<char>, b: Seq<char>)
    ensures
        lines_state(a + b) == feed(lines_state(a), b),
    decreases b.len(),
{
    if b.len() == 0 {
        assert(a + b =~= a);
    } else {
        lemma_lines_state_concat(a, b.drop_last());
        assert((a + b).drop_last() =~= a + b.drop_last());
        assert((a + b).last() == b.last());
    }
}

/// Feeding text without line breaks only extends the unfinished line.
proof fn lemma_feed_plain(st: (Seq<Seq<char>>, Seq<char>), b: Seq<char>)
    requires
        no_newline(b),
    ensures
        feed(st, b) == (st.0, st.1 + b),
    decreases b.len(),
{
    if b.len() == 0 {
        assert(st.1 + b =~= st.1);
    } else {
        assert(no_newline(b.drop_last())) by {
            if b.drop_last().contains('\n') {
                let i = choose|i: int| 0 <= i < b.drop_last().len() && b.drop_last()[i] == '\n';
                assert(b[i] == '\n');
            }
        }
        lemma_feed_plain(st, b.drop_last());
        assert(b[b.len() - 1] != '\n');
        assert((st.1 + b.drop_last()).push(b.last()) =~= st.1 + b);
    }
}

/// Feeding a line without breaks and then a break finishes that line.
proof fn lemma_feed_line(done: Seq<Seq<char>>, b: Seq<char>)
    requires
        no_newline(b),
    ensures
        feed((done, Seq::empty()), b.push('\n')) == (done.push(strip_cr(b)), Seq::<char>::empty()),
{
    lemma_feed_plain((done, Seq::empty()), b);
    assert(b.push('\n').drop_last() =~= b);
    assert(Seq::<char>::empty() + b =~= b);
}

/// Text that is empty or ends with a line break has no unfinished line.
proof fn lemma_state_at_break(s: Seq<char>)
    requires
        s.len() == 0 || s.last() == '\n',
    ensures
        lines_state(s).1 == Seq::<char>::empty(),
{
}

/// Finished lines and the unfinished line hold no line break.
proof fn lemma_lines_state_no_newline(s: Seq<char>)
    ensures
        no_newline(lines_state(s).1),
        forall|i: int| 0 <= i < lines_state(s).0.len() ==> no_newline(#[trigger] lines_state(s).0[i]),
    decreases s.len(),
{
    if s.len() > 0 {
        lemma_lines_state_no_newline(s.drop_last());
        let (done, cur) = lines_state(s.drop_last());
        if s.last() == '\n' {
            assert(no_newline(strip_cr(cur))) by {
                if strip_cr(cur).contains('\n') {
                    let i = choose|i: int| 0 <= i < strip_cr(cur).len() && strip_cr(cur)[i] == '\n';
                    assert(cur[i] == '\n');
                }
            }
            assert(no_newline(Seq::<char>::empty()));
            assert forall|i: int| 0 <= i < lines_state(s).0.len() implies no_newline(#[trigger] lines_state(s).0[i]) by {
                if i < done.len() {
                } else {
                }
            }
        } else {
            assert(no_newline(cur.push(s.last()))) by {
                if cur.push(s.last()).contains('\n') {
                    let i = choose|i: int| 0 <= i < cur.push(s.last()).len() && cur.push(s.last())[i] == '\n';
                    if i < cur.len() {
                        assert(cur[i] == '\n');
                    }
                }
            }
        }
    }
}

/// Lines hold no line break.
proof fn lemma_lines_no_newline(s: Seq<char>)
    ensures
        forall|i: int| 0 <= i < lines(s).len() ==> no_newline(#[trigger] lines(s)[i]),
{
    lemma_lines_state_no_newline(s);
}

/// Leading whitespace trimming and one more character.
proof fn lemma_trim_start_push(x: Seq<char>, c: char)
    ensures
        trim_start(x.push(c)) == (if trim_start(x).len() == 0 {
            if is_space(c) {
                Seq::<char>::empty()
            } else {
                seq![c]
            }
        } else {
            trim_start(x).push(c)
        }),
    decreases x.len(),
{
    if x.len() == 0 {
        assert(x.push(c) =~= seq![c]);
        assert(seq![c].drop_first() =~= Seq::<char>::empty());
        assert(trim_start(Seq::<char>::empty()) == Seq::<char>::empty());
        assert(trim_start(x) == Seq::<char>::empty());
        if is_space(c) {
            assert(trim_start(seq![c]) == trim_start(Seq::<char>::empty()));
        } else {
            assert(trim_start(seq![c]) == seq![c]);
        }
    } else {
        assert(x.push(c)[0] == x[0]);
        assert(x.push(c).len() > 0);
        if is_space(x[0]) {
            assert(x.push(c).drop_first() =~= x.drop_first().push(c));
            lemma_trim_start_push(x.drop_first(), c);
            assert(trim_start(x.push(c)) == trim_start(x.push(c).drop_first()));
            assert(trim_start(x) == trim_start(x.drop_first()));
        } else {
            assert(trim_start(x.push(c)) == x.push(c));
            assert(trim_start(x) == x);
        }
    }
}

/// A trailing carriage return does not change the trimmed text.
proof fn lemma_trim_strip_cr(l: Seq<char>)
    ensures
        trim(strip_cr(l)) == trim(l),
{
    if l.len() > 0 && l.last() == '\r' {
        let x = l.drop_last();
        assert(x.push('\r') =~= l);
        assert(is_space('\r'));
        lemma_trim_start_push(x, '\r');
        if trim_start(x).len() > 0 {
            let y = trim_start(x);
            assert(y.push('\r').drop_last() =~= y);
        }
    }
}

/// Text without trailing whitespace does not end with a carriage return.
proof fn lemma_trimmed_no_cr(e: Seq<char>)
    requires
        trim(e) == e,
    ensures
        strip_cr(e) == e,
{
    if e.len() > 0 && e.last() == '\r' {
        let s = trim_start(e);
        assert(is_space('\r'));
        // trim_end(s) == e, so it cannot end with whitespace
        lemma_trim_end_no_trailing_space(s);
        assert(false);
    }
}

/// What trailing trimming returns does not end with whitespace.
proof fn lemma_trim_end_no_trailing_space(s: Seq<char>)
    ensures
        trim_end(s).len() == 0 || !is_space(trim_end(s).last()),
    decreases s.len(),
{
    if s.len() > 0 && is_space(s.last()) {
        lemma_trim_end_no_trailing_space(s.drop_last());
    }
}

/// The joined lines followed by a break split back into the lines, each
/// stripped of one trailing carriage return.
proof fn lemma_lines_of_joined(ls: Seq<Seq<char>>)
    requires
        ls.len() > 0,
        forall|i: int| 0 <= i < ls.len() ==> no_newline(#[trigger] ls[i]),
    ensures
        lines_state(joined(ls).push('\n')) == (ls.map_values(|l: Seq<char>| strip_cr(l)), Seq::<char>::empty()),
    decreases ls.len(),
{
    if ls.len() == 1 {
        assert(joined(ls) == ls[0]);
        lemma_lines_state_concat(Seq::empty(), ls[0].push('\n'));
        assert(Seq::<char>::empty() + ls[0].push('\n') =~= ls[0].push('\n'));
        lemma_feed_line(Seq::empty(), ls[0]);
        assert(Seq::<Seq<char>>::empty().push(strip_cr(ls[0])) =~= ls.map_values(|l: Seq<char>| strip_cr(l)));
    } else {
        let front = ls.drop_last();
        assert forall|i: int| 0 <= i < front.len() implies no_newline(#[trigger] front[i]) by {
            assert(front[i] == ls[i]);
        }
        lemma_lines_of_joined(front);
        let a = joined(front).push('\n');
        let b = ls.last();
        assert(joined(ls).push('\n') =~= a + b.push('\n'));
        lemma_lines_state_concat(a, b.push('\n'));
        assert(no_newline(b)) by {
            assert(b == ls[ls.len() - 1]);
        }
        lemma_feed_line(front.map_values(|l: Seq<char>| strip_cr(l)), b);
        assert(front.map_values(|l: Seq<char>| strip_cr(l)).push(strip_cr(b)) =~= ls.map_values(
            |l: Seq<char>| strip_cr(l),
        ));
    }
}

// ---------------------------------------------------------------------------
// Laws
// ---------------------------------------------------------------------------

/// After an entry (a single line without surrounding whitespace) is appended,
/// the content lists it; so adding the same entry again changes nothing.
pub proof fn law_appended_lists_entry(content: Seq<char>, entry: Seq<char>)
    requires
        no_newline(entry),
        trim(entry) == entry,
    ensures
        lists_entry(appended(content, entry), entry),
{
    let base = if content.len() > 0 && content.last() != '\n' {
        content.push('\n')
    } else {
        content
    };
    lemma_state_at_break(base);
    lemma_lines_state_concat(base, entry.push('\n'));
    let st = lines_state(base);
    assert(st == (st.0, Seq::<char>::empty()));
    lemma_feed_line(st.0, entry);
    lemma_trimmed_no_cr(entry);
    let ls = lines(appended(content, entry));
    assert(ls == st.0.push(entry));
    assert(trim(ls[st.0.len() as int]) == entry);
}

/// After the lines naming `name` are removed, no line names it (for a
/// non-empty name: an empty one still matches the final empty line).
pub proof fn law_removed_lists_no_entry(content: Seq<char>, name: Seq<char>)
    requires
        name.len() > 0,
    ensures
        !lists_entry(removed(content, name), name),
{
    let pred = keeps(name);
    let ks = kept_lines(content, name);
    lemma_lines_no_newline(content);
    assert forall|i: int| 0 <= i < ks.len() implies no_newline(#[trigger] ks[i]) && trim(ks[i]) != name by {
        lines(content).lemma_filter_pred(pred, i);
        assert(ks.contains(ks[i]));
        lines(content).lemma_filter_contains_rev(pred, ks[i]);
        let j = choose|j: int| 0 <= j < lines(content).len() && lines(content)[j] == ks[i];
        assert(no_newline(lines(content)[j]));
    }
    if ks.len() == 0 {
        let r = removed(content, name);
        assert(r =~= seq!['\n']);
        assert(r.drop_last() =~= Seq::<char>::empty());
        assert(r.last() == '\n');
        assert(strip_cr(Seq::<char>::empty()) == Seq::<char>::empty());
        assert(lines_state(r.drop_last()).0 =~= Seq::<Seq<char>>::empty());
        assert(lines_state(r.drop_last()).1 =~= Seq::<char>::empty());
        assert(lines_state(r).0 =~= seq![Seq::<char>::empty()]);
        assert(lines(r) =~= seq![Seq::<char>::empty()]);
        assert(trim(Seq::<char>::empty()) =~= Seq::<char>::empty());
    } else {
        lemma_lines_of_joined(ks);
        let ls = lines(removed(content, name));
        assert(ls == ks.map_values(|l: Seq<char>| strip_cr(l)));
        assert forall|i: int| 0 <= i < ls.len() implies trim(ls[i]) != name by {
            lemma_trim_strip_cr(ks[i]);
        }
    }
}

/// Removing an entry right after adding it leaves no line naming it.
pub proof fn law_add_then_remove(content: Seq<char>, entry: Seq<char>)
    requires
        entry.len() > 0,
    ensures
        !lists_entry(removed(appended(content, entry), entry), entry),
{
    law_removed_lists_no_entry(appended(content, entry), entry);
}

// ---------------------------------------------------------------------------
// Executable functions
// ---------------------------------------------------------------------------

/// The new `.gitignore` content with `entry` added, or `None` when a line of
/// `content` already names it (trimmed) and nothing needs writing.
pub fn gitignore_with_entry(content: &str, entry: &str) -> (r: Option<String>)
    ensures
        r is None <==> lists_entry(content@, entry@),
        r matches Some(c) ==> c@ == appended(content@, entry@),
{
    let c = text::chars_of(content);
    let e = text::chars_of(entry);
    let ls = text::chars_lines(&c);
    let ghost lv = text::seqs_view(ls@);
    let mut i: usize = 0;
    while i < ls.len()
        invariant
            i <= ls.len(),
            lv == text::seqs_view(ls@),
            lv == lines(content@),
            e@ == entry@,
            forall|k: int| 0 <= k < i ==> trim(lv[k]) != entry@,
        decreases ls.len() - i,
    {
        let t = text::chars_trim(&ls[i]);
        assert(lv[i as int] == ls@[i as int]@);
        if text::chars_eq(&t, &e) {
            return None;
        }
        i += 1;
    }
    let mut out = String::from_str(content);
    let n = c.len();
    if n > 0 && c[n - 1] != '\n' {
        text::string_push(&mut out, '\n');
    }
    out.append(entry);
    text::string_push(&mut out, '\n');
    assert(out@ =~= appended(content@, entry@));
    Some(out)
}

/// The new `.gitignore` content without the lines naming `name` (trimmed):
/// the other lines joined by line breaks, with a final line break.
pub fn gitignore_without_entry(content: &str, name: &str) -> (r: String)
    ensures
        r@ == removed(content@, name@),
{
    let c = text::chars_of(content);
    let nm = text::chars_of(name);
    let ls = text::chars_lines(&c);
    let ghost lv = text::seqs_view(ls@);
    let ghost pred = keeps(name@);
    let mut kept: Vec<Vec<char>> = Vec::new();
    let mut i: usize = 0;
    while i < ls.len()
        invariant
            i <= ls.len(),
            lv == text::seqs_view(ls@),
            lv == lines(content@),
            nm@ == name@,
            pred == keeps(name@),
            text::seqs_view(kept@) == lv.take(i as int).filter(pred),
        decreases ls.len() - i,
    {
        let ghost before = kept@;
        assert(lv.take(i + 1) =~= lv.take(i as int).push(lv[i as int]));
        proof {
            lv.take(i as int).lemma_filter_push(lv[i as int], pred);
        }
        assert(lv[i as int] == ls@[i as int]@);
        let t = text::chars_trim(&ls[i]);
        if !text::chars_eq(&t, &nm) {
            let l = text::chars_slice(&ls[i], 0, ls[i].len());
            assert(l@ =~= ls@[i as int]@);
            kept.push(l);
            proof {
                text::lemma_seqs_view_push(before, l);
            }
        }
        i += 1;
    }
    assert(lv.take(ls.len() as int) =~= lv);
    let ghost ks = text::seqs_view(kept@);
    assert(ks == kept_lines(content@, name@));
    let mut out = String::new();
    let mut k: usize = 0;
    while k < kept.len()
        invariant
            k <= kept.len(),
            ks == text::seqs_view(kept@),
            out@ == joined(ks.take(k as int)),
        decreases kept.len() - k,
    {
        let ghost prev = ks.take(k as int);
        assert(ks.take(k + 1).drop_last() =~= prev);
        assert(ks.take(k + 1).last() == kept@[k as int]@);
        if k > 0 {
            text::string_push(&mut out, '\n');
        }
        let piece = text::string_of(&kept[k]);
        out.append(piece.as_str());
        proof {
            if k == 0 {
                assert(ks.take(1) =~= seq![kept@[0]@]);
                assert(out@ =~= joined(ks.take(1)));
            } else {
                assert(out@ =~= joined(ks.take(k + 1)));
            }
        }
        k += 1;
    }
    assert(ks.take(kept.len() as int) =~= ks);
    text::string_push(&mut out, '\n');
    out
}

} // verus!
