//! Applying a patch to text: the lines of a file, the search for a hunk's context, the
//! replacement of hunks, and the text of an added file.
use vstd::prelude::*;

use crate::patch::{after_lines, SpecPatchLine};
use crate::patch::PatchLine;
use crate::text::{
    chars_of, has_line_feed, join_lines, lemma_join_pieces, lemma_pieces_of_join, pieces_after,
    split_at_line_feeds,
};

verus! {

/// Start of the error for a hunk whose old lines are not found; the lines follow, written
/// as `Debug` writes a list of strings.
pub const CONTEXT_NOT_FOUND: &'static str = "could not find patch context ";

/// The list of strings `v` written as `Debug` writes a `Vec<String>`.
pub uninterp spec fn debug_string_list(v: Seq<Seq<char>>) -> Seq<char>;

/// `format!("{:?}", v)` (std's `Debug` for `Vec<String>`): the text is claimed to be
/// [`debug_string_list`] of the strings' characters, so that it depends on them alone; what
/// that text is (brackets, quotes, escapes) is not stated.
#[verifier::external_body]
fn debug_strings(v: &Vec<String>) -> (r: String)
    ensures
        r@ == debug_string_list(v.deep_view()),
{
    format!("{:?}", v)
}

/// The error for a hunk whose old lines, written out as `listed`, are not found.
pub fn missing_context_message(listed: String) -> (m: String)
    ensures
        m@ == CONTEXT_NOT_FOUND@ + listed@,
{
    let mut m = String::from_str(CONTEXT_NOT_FOUND);
    m.append(listed.as_str());
    m
}

/// Whether the text `t` ends with a line feed.
pub open spec fn ends_with_line_feed(t: Seq<char>) -> bool {
    t.len() > 0 && t.last() == '\n'
}

/// The lines of a file's text: one final line feed is dropped, then the text is cut at
/// every line feed.
pub open spec fn file_lines(t: Seq<char>) -> Seq<Seq<char>> {
    split_at_line_feeds(
        if ends_with_line_feed(t) {
            t.drop_last()
        } else {
            t
        },
    )
}

/// Cuts a file's text into its lines, after dropping one final line feed.
pub fn split_text_lines(text: &str) -> (r: Vec<String>)
    ensures
        r.deep_view() == file_lines(text@),
{
    let mut cs = chars_of(text);
    if cs.len() > 0 && cs[cs.len() - 1] == '\n' {
        cs.pop();
    }
    let ghost t = cs@;
    assert(t == if ends_with_line_feed(text@) {
        text@.drop_last()
    } else {
        text@
    });
    let mut out: Vec<String> = Vec::new();
    let mut cur = String::new();
    let mut k: usize = 0;
    assert(t.skip(0) == t);
    while k < cs.len()
        invariant
            cs@ == t,
            k <= cs.len(),
            split_at_line_feeds(t) == out.deep_view() + pieces_after(t.skip(k as int), cur@),
        decreases cs.len() - k,
    {
        let c = cs[k];
        let ghost rest = t.skip(k as int);
        let ghost before = out.deep_view();
        assert(rest[0] == c);
        assert(rest.drop_first() == t.skip(k + 1));
        if c == '\n' {
            let ghost piece = cur@;
            out.push(cur);
            cur = String::new();
            assert(out.deep_view() =~= before + seq![piece]);
            assert(before + (seq![piece] + pieces_after(t.skip(k + 1), seq![])) =~= before
                + seq![piece] + pieces_after(t.skip(k + 1), seq![]));
        } else {
            cur.push(c);
        }
        k = k + 1;
    }
    let ghost before = out.deep_view();
    let ghost piece = cur@;
    out.push(cur);
    assert(out.deep_view() =~= before + seq![piece]);
    out
}

/// Whether the lines `n` stand in `h` from index `i` on.
pub open spec fn matches_at(h: Seq<Seq<char>>, n: Seq<Seq<char>>, i: int) -> bool {
    0 <= i && i + n.len() <= h.len() && h.subrange(i, i + n.len()) == n
}

/// The first index from `i` on where `n` stands in `h`, where there is one.
pub open spec fn first_match_from(h: Seq<Seq<char>>, n: Seq<Seq<char>>, i: int) -> Option<int>
    decreases h.len() + 1 - i,
{
    if i < 0 || i + n.len() > h.len() {
        None
    } else if matches_at(h, n, i) {
        Some(i)
    } else {
        first_match_from(h, n, i + 1)
    }
}

/// Where the search for the lines `n` in `h` from `start` on ends: for no lines, at
/// `start` or at the end of `h`, whichever comes first; else at the first match.
pub open spec fn spec_find(h: Seq<Seq<char>>, n: Seq<Seq<char>>, start: int) -> Option<int> {
    if n.len() == 0 {
        Some(
            if start <= h.len() {
                start
            } else {
                h.len() as int
            },
        )
    } else {
        first_match_from(h, n, start)
    }
}

/// The first match from `i` on is a match, and none comes before it.
pub proof fn lemma_first_match(h: Seq<Seq<char>>, n: Seq<Seq<char>>, i: int)
    requires
        0 <= i,
    ensures
        match first_match_from(h, n, i) {
            Some(p) => i <= p && matches_at(h, n, p) && forall|j: int|
                i <= j < p ==> !matches_at(h, n, j),
            None => forall|j: int| i <= j ==> !matches_at(h, n, j),
        },
    decreases h.len() + 1 - i,
{
    if i + n.len() > h.len() {
    } else if matches_at(h, n, i) {
    } else {
        lemma_first_match(h, n, i + 1);
        match first_match_from(h, n, i + 1) {
            Some(p) => {
                assert forall|j: int| i <= j < p implies !matches_at(h, n, j) by {
                    if j > i {
                    }
                }
            },
            None => {
                assert forall|j: int| i <= j implies !matches_at(h, n, j) by {
                    if j > i {
                    }
                }
            },
        }
    }
}

/// Whether the strings `a` and the lines `b[at..at + a.len()]` agree.
fn window_equals(h: &[String], n: &[String], at: usize) -> (b: bool)
    requires
        at + n@.len() <= h@.len(),
    ensures
        b == (h.deep_view().subrange(at as int, at + n@.len()) == n.deep_view()),
{
    let ghost hv = h.deep_view();
    let ghost nv = n.deep_view();
    let mut k: usize = 0;
    while k < n.len()
        invariant
            at + n.len() <= h.len(),
            k <= n@.len(),
            hv == h.deep_view(),
            nv == n.deep_view(),
            forall|j: int| 0 <= j < k ==> hv[at + j] == nv[j],
        decreases n.len() - k,
    {
        if h[at + k] != n[k] {
            assert(hv.subrange(at as int, at + n@.len())[k as int] != nv[k as int]);
            return false;
        }
        k = k + 1;
    }
    assert(hv.subrange(at as int, at + n@.len()) =~= nv);
    true
}

/// Finds the first place at or after `start` where `needle` stands in `haystack`. An empty
/// needle is found at `start`, or at the end of `haystack` if `start` lies beyond it.
pub fn find_subsequence(haystack: &[String], needle: &[String], start: usize) -> (r: Option<usize>)
    ensures
        match r {
            Some(p) => spec_find(haystack.deep_view(), needle.deep_view(), start as int) == Some(
                p as int,
            ),
            None => spec_find(haystack.deep_view(), needle.deep_view(), start as int) is None,
        },
        needle@.len() == 0 ==> r == Some(
            if start <= haystack@.len() {
                start
            } else {
                haystack@.len() as usize
            },
        ),
        needle@.len() > 0 ==> match r {
            Some(p) => start <= p && matches_at(haystack.deep_view(), needle.deep_view(), p as int)
                && forall|j: int|
                start <= j < p ==> !matches_at(haystack.deep_view(), needle.deep_view(), j),
            None => forall|j: int|
                start <= j ==> !matches_at(haystack.deep_view(), needle.deep_view(), j),
        },
{
    let ghost hv = haystack.deep_view();
    let ghost nv = needle.deep_view();
    proof {
        lemma_first_match(hv, nv, start as int);
    }
    if needle.len() == 0 {
        return Some(
            if start <= haystack.len() {
                start
            } else {
                haystack.len()
            },
        );
    }
    if needle.len() > haystack.len() {
        return None;
    }
    let last = haystack.len() - needle.len();
    let mut i = start;
    while i <= last
        invariant
            last + needle.len() == haystack.len(),
            needle@.len() > 0,
            start <= i,
            hv == haystack.deep_view(),
            nv == needle.deep_view(),
            first_match_from(hv, nv, start as int) == first_match_from(hv, nv, i as int),
        decreases last + 1 - i,
    {
        if window_equals(haystack, needle, i) {
            assert(matches_at(hv, nv, i as int));
            assert(first_match_from(hv, nv, i as int) == Some(i as int));
            proof {
                lemma_first_match(hv, nv, start as int);
            }
            return Some(i);
        }
        i = i + 1;
    }
    proof {
        lemma_first_match(hv, nv, start as int);
    }
    None
}

/// One hunk: the lines it replaces and the lines it puts in their place.
pub type Hunk = (Seq<Seq<char>>, Seq<Seq<char>>);

/// The hunks of the update lines `pl`, when the hunk being read so far has the old lines
/// `old` and the new lines `new` and holds a line if `open`. Hunk headers split the lines
/// into hunks and a hunk with no line is dropped; context lines are both old and new,
/// deleted lines only old, added lines only new, and an end-of-file marker neither.
pub open spec fn hunks_after(
    pl: Seq<SpecPatchLine>,
    old: Seq<Seq<char>>,
    new: Seq<Seq<char>>,
    open: bool,
) -> Seq<Hunk>
    decreases pl.len(),
{
    if pl.len() == 0 {
        if open {
            seq![(old, new)]
        } else {
            seq![]
        }
    } else {
        let rest = pl.drop_first();
        match pl[0] {
            SpecPatchLine::HunkHeader => (if open {
                seq![(old, new)]
            } else {
                seq![]
            }) + hunks_after(rest, seq![], seq![], false),
            SpecPatchLine::Context(t) => hunks_after(rest, old.push(t), new.push(t), true),
            SpecPatchLine::Delete(t) => hunks_after(rest, old.push(t), new, true),
            SpecPatchLine::Add(t) => hunks_after(rest, old, new.push(t), true),
            SpecPatchLine::EndOfFile => hunks_after(rest, old, new, true),
        }
    }
}

/// The hunks of the update lines `pl`.
pub open spec fn hunks_of(pl: Seq<SpecPatchLine>) -> Seq<Hunk> {
    hunks_after(pl, seq![], seq![], false)
}

/// The lines `ls` with `len` lines from `at` on replaced by `new`.
pub open spec fn splice(ls: Seq<Seq<char>>, at: int, len: int, new: Seq<Seq<char>>) -> Seq<
    Seq<char>,
> {
    ls.take(at) + new + ls.skip(at + len)
}

/// One hunk applied to `ls`, searching from `cursor`: the new lines and the cursor after
/// them, or the error that names the hunk's old lines.
pub open spec fn apply_hunk_step(ls: Seq<Seq<char>>, h: Hunk, cursor: int) -> Result<
    (Seq<Seq<char>>, int),
    Seq<char>,
> {
    match spec_find(ls, h.0, cursor) {
        Some(p) => Ok((splice(ls, p, h.0.len() as int, h.1), p + h.1.len())),
        None => Err(CONTEXT_NOT_FOUND@ + debug_string_list(h.0)),
    }
}

/// The hunks `hs` applied in order to `ls`, each searched for from where the last one ended.
pub open spec fn apply_hunks(ls: Seq<Seq<char>>, hs: Seq<Hunk>, cursor: int) -> Result<
    Seq<Seq<char>>,
    Seq<char>,
>
    decreases hs.len(),
{
    if hs.len() == 0 {
        Ok(ls)
    } else {
        match apply_hunk_step(ls, hs[0], cursor) {
            Ok(next) => apply_hunks(next.0, hs.drop_first(), next.1),
            Err(e) => Err(e),
        }
    }
}

/// The text that updating `original` by the update lines `pl` gives: the hunks applied to
/// the file's lines, joined by line feeds, with a final line feed if `original` had one.
pub open spec fn spec_apply_update(original: Seq<char>, pl: Seq<SpecPatchLine>) -> Result<
    Seq<char>,
    Seq<char>,
> {
    match apply_hunks(file_lines(original), hunks_of(pl), 0) {
        Ok(ls) => Ok(
            join_lines(ls) + if ends_with_line_feed(original) {
                seq!['\n']
            } else {
                seq![]
            },
        ),
        Err(e) => Err(e),
    }
}

/// A copy of the strings `v`.
pub(crate) fn copy_strings(v: &[String]) -> (r: Vec<String>)
    ensures
        r.deep_view() == v.deep_view(),
{
    let mut r: Vec<String> = Vec::new();
    for i in 0..v.len()
        invariant
            r.deep_view() == v.deep_view().take(i as int),
    {
        let ghost before = r.deep_view();
        let c = v[i].clone();
        assert(c@ == v.deep_view()[i as int]);
        r.push(c);
        assert(r.deep_view() =~= before.push(c@));
        assert(before.push(c@) =~= v.deep_view().take(i + 1));
    }
    assert(v.deep_view().take(v.len() as int) =~= v.deep_view());
    r
}

/// Appends copies of `v[from..to]` to `out`.
fn push_copies(out: &mut Vec<String>, v: &[String], from: usize, to: usize)
    requires
        from <= to <= v@.len(),
    ensures
        final(out).deep_view() == old(out).deep_view() + v.deep_view().subrange(
            from as int,
            to as int,
        ),
{
    let ghost start = out.deep_view();
    let mut i = from;
    while i < to
        invariant
            from <= i <= to <= v@.len(),
            out.deep_view() == start + v.deep_view().subrange(from as int, i as int),
        decreases to - i,
    {
        let ghost before = out.deep_view();
        let c = v[i].clone();
        assert(c@ == v.deep_view()[i as int]);
        out.push(c);
        assert(out.deep_view() =~= before.push(c@));
        i = i + 1;
        assert(out.deep_view() =~= start + v.deep_view().subrange(from as int, i as int));
    }
}

/// One hunk with old lines `old` and new lines `new` applied to `lines` from `cursor` on.
fn apply_hunk(lines: &Vec<String>, old: &Vec<String>, new: &Vec<String>, cursor: usize) -> (r:
    Result<(Vec<String>, usize), String>)
    ensures
        match r {
            Ok(next) => apply_hunk_step(
                lines.deep_view(),
                (old.deep_view(), new.deep_view()),
                cursor as int,
            ) == Ok::<(Seq<Seq<char>>, int), Seq<char>>((next.0.deep_view(), next.1 as int)),
            Err(e) => apply_hunk_step(
                lines.deep_view(),
                (old.deep_view(), new.deep_view()),
                cursor as int,
            ) == Err::<(Seq<Seq<char>>, int), Seq<char>>(e@),
        },
{
    match find_subsequence(lines, old, cursor) {
        Some(p) => {
            let ghost lv = lines.deep_view();
            let ghost ov = old.deep_view();
            assert(p + old@.len() <= lines@.len()) by {
                if ov.len() > 0 {
                    lemma_first_match(lv, ov, cursor as int);
                }
            }
            let n = lines.len();
            let mut out: Vec<String> = Vec::new();
            assert(out.deep_view() =~= Seq::<Seq<char>>::empty());
            push_copies(&mut out, lines, 0, p);
            assert(out.deep_view().len() == p);
            push_copies(&mut out, new, 0, new.len());
            let total = out.len();
            assert(out.deep_view().len() == p + new@.len());
            assert(total == p + new@.len());
            assert(p + old@.len() <= n);
            let after = p + old.len();
            push_copies(&mut out, lines, after, lines.len());
            assert(lv.subrange(0, p as int) =~= lv.take(p as int));
            assert(new.deep_view().subrange(0, new@.len() as int) =~= new.deep_view());
            assert(lv.subrange(p + old@.len(), lines@.len() as int) =~= lv.skip(p + ov.len()));
            assert(Seq::<Seq<char>>::empty() + lv.take(p as int) =~= lv.take(p as int));
            Ok((out, total))
        },
        None => Err(missing_context_message(debug_strings(old))),
    }
}

/// The lines `ls` joined by line feeds.
fn join_with_line_feeds(ls: &Vec<String>) -> (r: String)
    ensures
        r@ == join_lines(ls.deep_view()),
{
    let ghost lv = ls.deep_view();
    let mut r = String::new();
    for i in 0..ls.len()
        invariant
            lv == ls.deep_view(),
            r@ == join_lines(lv.take(i as int)),
    {
        proof {
            crate::text::lemma_join_push(lv.take(i as int), lv[i as int]);
            assert(lv.take(i + 1) =~= lv.take(i as int).push(lv[i as int]));
        }
        if i > 0 {
            r.push('\n');
        }
        r.append(ls[i].as_str());
    }
    assert(lv.take(ls.len() as int) =~= lv);
    r
}

/// Applies the update lines `patch_lines` to the text `original`.
///
/// The text is cut into lines (one final line feed aside). Each hunk's old lines, its
/// context and deleted lines, are searched for from the end of the last hunk applied,
/// and replaced by its new lines, its context and added lines. The lines are then joined
/// by line feeds, with a final line feed if the text had one. A hunk whose old lines are
/// not found gives an error that lists them.
pub fn apply_update_lines(original: &str, patch_lines: &[PatchLine]) -> (r: Result<String, String>)
    ensures
        match r {
            Ok(t) => spec_apply_update(original@, patch_lines.deep_view()) == Ok::<
                Seq<char>,
                Seq<char>,
            >(t@),
            Err(e) => spec_apply_update(original@, patch_lines.deep_view()) == Err::<
                Seq<char>,
                Seq<char>,
            >(e@),
        },
{
    let ghost pl = patch_lines.deep_view();
    let ghost start = file_lines(original@);
    let mut lines = split_text_lines(original);
    let oc = chars_of(original);
    let trailing_newline = oc.len() > 0 && oc[oc.len() - 1] == '\n';
    let mut cursor: usize = 0;
    let mut old: Vec<String> = Vec::new();
    let mut new: Vec<String> = Vec::new();
    let mut open = false;
    let mut k: usize = 0;
    assert(pl.skip(0) =~= pl);
    assert(old.deep_view() =~= Seq::<Seq<char>>::empty());
    assert(new.deep_view() =~= Seq::<Seq<char>>::empty());
    while k < patch_lines.len()
        invariant
            k <= patch_lines@.len(),
            pl == patch_lines.deep_view(),
            start == file_lines(original@),
            apply_hunks(start, hunks_of(pl), 0) == apply_hunks(
                lines.deep_view(),
                hunks_after(pl.skip(k as int), old.deep_view(), new.deep_view(), open),
                cursor as int,
            ),
        decreases patch_lines.len() - k,
    {
        let ghost rest = pl.skip(k as int);
        let ghost ov = old.deep_view();
        let ghost nv = new.deep_view();
        assert(rest[0] == patch_lines@[k as int].deep_view());
        assert(rest.drop_first() =~= pl.skip(k + 1));
        match &patch_lines[k] {
            PatchLine::HunkHeader => {
                let ghost tail = hunks_after(pl.skip(k + 1), seq![], seq![], false);
                if open {
                    let ghost hs = seq![(ov, nv)] + tail;
                    assert(hs[0] == (ov, nv));
                    assert(hs.drop_first() =~= tail);
                    match apply_hunk(&lines, &old, &new, cursor) {
                        Ok(next) => {
                            lines = next.0;
                            cursor = next.1;
                        },
                        Err(e) => {
                            return Err(e);
                        },
                    }
                } else {
                    assert(Seq::<Hunk>::empty() + tail =~= tail);
                }
                old = Vec::new();
                new = Vec::new();
                open = false;
                assert(old.deep_view() =~= Seq::<Seq<char>>::empty());
                assert(new.deep_view() =~= Seq::<Seq<char>>::empty());
            },
            PatchLine::Context(t) => {
                old.push(t.clone());
                new.push(t.clone());
                assert(old.deep_view() =~= ov.push(t@));
                assert(new.deep_view() =~= nv.push(t@));
                open = true;
            },
            PatchLine::Delete(t) => {
                old.push(t.clone());
                assert(old.deep_view() =~= ov.push(t@));
                open = true;
            },
            PatchLine::Add(t) => {
                new.push(t.clone());
                assert(new.deep_view() =~= nv.push(t@));
                open = true;
            },
            PatchLine::EndOfFile => {
                open = true;
            },
        }
        k = k + 1;
    }
    assert(pl.skip(k as int) =~= Seq::<SpecPatchLine>::empty());
    if open {
        let ghost hs = seq![(old.deep_view(), new.deep_view())];
        assert(hs.drop_first() =~= Seq::<Hunk>::empty());
        match apply_hunk(&lines, &old, &new, cursor) {
            Ok(next) => {
                lines = next.0;
                assert(apply_hunks(lines.deep_view(), Seq::<Hunk>::empty(), next.1 as int) == Ok::<
                    Seq<Seq<char>>,
                    Seq<char>,
                >(lines.deep_view()));
            },
            Err(e) => {
                return Err(e);
            },
        }
    }
    let mut updated = join_with_line_feeds(&lines);
    if trailing_newline {
        updated.push('\n');
    }
    assert(updated@ == join_lines(lines.deep_view()) + if ends_with_line_feed(original@) {
        seq!['\n']
    } else {
        seq![]
    });
    Ok(updated)
}

/// The text of a file made of the lines `ls`: each line followed by a line feed.
pub open spec fn added_text(ls: Seq<Seq<char>>) -> Seq<char> {
    if ls.len() == 0 {
        seq![]
    } else {
        join_lines(ls) + seq!['\n']
    }
}

/// The text of a new file with the lines `lines`: empty for no lines, else the lines joined
/// by line feeds and followed by one.
pub fn lines_to_text(lines: Vec<String>) -> (r: String)
    ensures
        r@ == added_text(lines.deep_view()),
{
    if lines.len() == 0 {
        String::new()
    } else {
        let mut t = join_with_line_feeds(&lines);
        t.push('\n');
        t
    }
}

/// Cutting a file's text into lines and joining them again, with the final line feed it
/// had, gives back the text.
pub proof fn lemma_join_file_lines(original: Seq<char>)
    ensures
        join_lines(file_lines(original)) + (if ends_with_line_feed(original) {
            seq!['\n']
        } else {
            seq![]
        }) == original,
{
    let body = if ends_with_line_feed(original) {
        original.drop_last()
    } else {
        original
    };
    lemma_join_pieces(body, seq![]);
    assert(Seq::<char>::empty() + body =~= body);
    if ends_with_line_feed(original) {
        assert(original.drop_last() + seq!['\n'] =~= original);
    } else {
        assert(original + Seq::<char>::empty() =~= original);
    }
}

/// An update with no hunk leaves the text as it was: cutting a file's text into lines and
/// joining them again, with the final line feed it had, gives back the text.
pub proof fn law_update_without_hunks_keeps_text(original: Seq<char>, pl: Seq<SpecPatchLine>)
    requires
        hunks_of(pl).len() == 0,
    ensures
        spec_apply_update(original, pl) == Ok::<Seq<char>, Seq<char>>(original),
{
    lemma_join_file_lines(original);
}

/// The text written for an added file, cut into lines as an update reads it, gives back the
/// added lines, when there is at least one and none holds a line feed.
pub proof fn law_added_file_reads_back(ls: Seq<Seq<char>>)
    requires
        ls.len() >= 1,
        forall|i: int| 0 <= i < ls.len() ==> !has_line_feed(#[trigger] ls[i]),
    ensures
        file_lines(added_text(ls)) == ls,
{
    let t = added_text(ls);
    assert(t.last() == '\n');
    assert(t.drop_last() =~= join_lines(ls));
    lemma_pieces_of_join(ls);
}

/// Whether a hunk puts back exactly the lines it replaces.
pub open spec fn keeps_lines(h: Hunk) -> bool {
    h.0 == h.1
}

/// Whether the update line `l` neither adds nor deletes a line.
pub open spec fn is_unchanging(l: SpecPatchLine) -> bool {
    !(l is Add) && !(l is Delete)
}

/// Update lines that neither add nor delete give hunks that keep their lines.
pub proof fn lemma_unchanging_hunks(
    pl: Seq<SpecPatchLine>,
    old: Seq<Seq<char>>,
    new: Seq<Seq<char>>,
    open: bool,
)
    requires
        old == new,
        forall|i: int| 0 <= i < pl.len() ==> is_unchanging(#[trigger] pl[i]),
    ensures
        forall|i: int|
            0 <= i < hunks_after(pl, old, new, open).len() ==> keeps_lines(
                #[trigger] hunks_after(pl, old, new, open)[i],
            ),
    decreases pl.len(),
{
    if pl.len() == 0 {
        if open {
            assert(keeps_lines(hunks_after(pl, old, new, open)[0]));
        }
    } else {
        let rest = pl.drop_first();
        assert(forall|i: int| 0 <= i < rest.len() ==> is_unchanging(#[trigger] rest[i]) && rest[i] == pl[i + 1]);
        assert(is_unchanging(pl[0]));
        match pl[0] {
            SpecPatchLine::HunkHeader => {
                lemma_unchanging_hunks(rest, seq![], seq![], false);
                let first: Seq<Hunk> = if open {
                    seq![(old, new)]
                } else {
                    seq![]
                };
                let tail = hunks_after(rest, seq![], seq![], false);
                assert(hunks_after(pl, old, new, open) == first + tail);
                assert forall|i: int| 0 <= i < (first + tail).len() implies keeps_lines(
                    #[trigger] (first + tail)[i],
                ) by {
                    if i >= first.len() {
                        assert((first + tail)[i] == tail[i - first.len()]);
                    }
                }
            },
            SpecPatchLine::Context(t) => {
                lemma_unchanging_hunks(rest, old.push(t), new.push(t), true);
                assert(hunks_after(pl, old, new, open) == hunks_after(
                    rest,
                    old.push(t),
                    new.push(t),
                    true,
                ));
            },
            SpecPatchLine::EndOfFile => {
                lemma_unchanging_hunks(rest, old, new, true);
                assert(hunks_after(pl, old, new, open) == hunks_after(rest, old, new, true));
            },
            _ => {},
        }
    }
}

/// Applying hunks that keep their lines, when it succeeds, leaves the lines as they were.
pub proof fn lemma_keeping_hunks(ls: Seq<Seq<char>>, hs: Seq<Hunk>, cursor: int)
    requires
        0 <= cursor,
        forall|i: int| 0 <= i < hs.len() ==> keeps_lines(#[trigger] hs[i]),
    ensures
        apply_hunks(ls, hs, cursor) is Ok ==> apply_hunks(ls, hs, cursor) == Ok::<
            Seq<Seq<char>>,
            Seq<char>,
        >(ls),
    decreases hs.len(),
{
    if hs.len() > 0 {
        let h = hs[0];
        assert(keeps_lines(h));
        match spec_find(ls, h.0, cursor) {
            Some(p) => {
                if h.0.len() > 0 {
                    lemma_first_match(ls, h.0, cursor);
                    assert(ls.subrange(p, p + h.0.len()) == h.0);
                    assert(ls.take(p) + h.1 + ls.skip(p + h.0.len()) =~= ls);
                } else {
                    assert(h.1.len() == 0);
                    assert(ls.take(p) + h.1 + ls.skip(p) =~= ls);
                }
                let rest = hs.drop_first();
                assert(forall|i: int| 0 <= i < rest.len() ==> keeps_lines(#[trigger] rest[i]) && rest[i] == hs[i + 1]);
                lemma_keeping_hunks(ls, rest, p + h.1.len());
            },
            None => {},
        }
    }
}

/// An update made only of context lines, hunk headers and end-of-file markers, when it
/// applies, leaves the text as it was.
pub proof fn law_context_only_update_keeps_text(original: Seq<char>, pl: Seq<SpecPatchLine>)
    requires
        forall|i: int| 0 <= i < pl.len() ==> is_unchanging(#[trigger] pl[i]),
        spec_apply_update(original, pl) is Ok,
    ensures
        spec_apply_update(original, pl) == Ok::<Seq<char>, Seq<char>>(original),
{
    lemma_unchanging_hunks(pl, seq![], seq![], false);
    lemma_keeping_hunks(file_lines(original), hunks_of(pl), 0);
    lemma_join_file_lines(original);
}

/// A file's text always has at least one line, an empty text one empty line.
pub proof fn law_file_has_a_line(t: Seq<char>)
    ensures
        file_lines(t).len() >= 1,
{
    crate::text::lemma_pieces_nonempty(
        if ends_with_line_feed(t) {
            t.drop_last()
        } else {
            t
        },
        seq![],
    );
}

/// Whether the update line `l` is a hunk header or an end-of-file marker.
pub open spec fn is_marker(l: SpecPatchLine) -> bool {
    l is HunkHeader || l is EndOfFile
}

/// Update lines that are only markers give hunks with no old and no new lines.
pub proof fn lemma_marker_hunks(
    pl: Seq<SpecPatchLine>,
    old: Seq<Seq<char>>,
    new: Seq<Seq<char>>,
    open: bool,
)
    requires
        old.len() == 0,
        new.len() == 0,
        forall|i: int| 0 <= i < pl.len() ==> is_marker(#[trigger] pl[i]),
    ensures
        forall|i: int|
            0 <= i < hunks_after(pl, old, new, open).len() ==> (#[trigger] hunks_after(
                pl,
                old,
                new,
                open,
            )[i]).0.len() == 0 && hunks_after(pl, old, new, open)[i].1.len() == 0,
    decreases pl.len(),
{
    if pl.len() == 0 {
        if open {
            assert(hunks_after(pl, old, new, open)[0] == (old, new));
        }
    } else {
        let rest = pl.drop_first();
        assert(forall|i: int| 0 <= i < rest.len() ==> is_marker(#[trigger] rest[i]) && rest[i] == pl[i + 1]);
        assert(is_marker(pl[0]));
        match pl[0] {
            SpecPatchLine::HunkHeader => {
                lemma_marker_hunks(rest, seq![], seq![], false);
                let first: Seq<Hunk> = if open {
                    seq![(old, new)]
                } else {
                    seq![]
                };
                let tail = hunks_after(rest, seq![], seq![], false);
                assert(hunks_after(pl, old, new, open) == first + tail);
                assert forall|i: int| 0 <= i < (first + tail).len() implies (#[trigger] (first
                    + tail)[i]).0.len() == 0 && (first + tail)[i].1.len() == 0 by {
                    if i >= first.len() {
                        assert((first + tail)[i] == tail[i - first.len()]);
                    }
                }
            },
            SpecPatchLine::EndOfFile => {
                lemma_marker_hunks(rest, old, new, true);
                assert(hunks_after(pl, old, new, open) == hunks_after(rest, old, new, true));
            },
            _ => {},
        }
    }
}

/// Hunks with no old and no new lines always apply and change nothing.
pub proof fn lemma_empty_hunks(ls: Seq<Seq<char>>, hs: Seq<Hunk>, cursor: int)
    requires
        0 <= cursor,
        forall|i: int| 0 <= i < hs.len() ==> (#[trigger] hs[i]).0.len() == 0 && hs[i].1.len() == 0,
    ensures
        apply_hunks(ls, hs, cursor) == Ok::<Seq<Seq<char>>, Seq<char>>(ls),
    decreases hs.len(),
{
    if hs.len() > 0 {
        let h = hs[0];
        assert(h.0.len() == 0 && h.1.len() == 0);
        let p = if cursor <= ls.len() {
            cursor
        } else {
            ls.len() as int
        };
        assert(spec_find(ls, h.0, cursor) == Some(p));
        assert(ls.take(p) + h.1 + ls.skip(p + h.0.len()) =~= ls);
        let rest = hs.drop_first();
        assert(forall|i: int| 0 <= i < rest.len() ==> (#[trigger] rest[i]).0.len() == 0 && rest[i].1.len() == 0 && rest[i] == hs[i + 1]) by {
            assert forall|i: int| 0 <= i < rest.len() implies (#[trigger] rest[i]).0.len() == 0 && rest[i].1.len() == 0 && rest[i] == hs[i + 1] by {
                assert(hs[i + 1].0.len() == 0);
            }
        }
        lemma_empty_hunks(ls, rest, p);
    }
}

/// Every failure of applying hunks is the error for one hunk's old lines not being found.
pub proof fn lemma_hunk_failure(ls: Seq<Seq<char>>, hs: Seq<Hunk>, cursor: int)
    ensures
        apply_hunks(ls, hs, cursor) matches Err(e) ==> exists|i: int|
            0 <= i < hs.len() && e == CONTEXT_NOT_FOUND@ + debug_string_list(#[trigger] hs[i].0),
    decreases hs.len(),
{
    if hs.len() > 0 {
        match apply_hunk_step(ls, hs[0], cursor) {
            Ok(next) => {
                let rest = hs.drop_first();
                lemma_hunk_failure(next.0, rest, next.1);
                if let Err(e) = apply_hunks(ls, hs, cursor) {
                    let j = choose|j: int|
                        0 <= j < rest.len() && e == CONTEXT_NOT_FOUND@ + debug_string_list(
                            #[trigger] rest[j].0,
                        );
                    assert(rest[j] == hs[j + 1]);
                }
            },
            Err(e) => {
                assert(e == CONTEXT_NOT_FOUND@ + debug_string_list(hs[0].0));
            },
        }
    }
}

/// An update whose lines neither add nor delete either leaves the text as it was or fails
/// because some hunk's context is not found; one made only of hunk headers and end-of-file
/// markers always leaves the text as it was.
pub proof fn law_unchanging_update(original: Seq<char>, pl: Seq<SpecPatchLine>)
    requires
        forall|i: int| 0 <= i < pl.len() ==> is_unchanging(#[trigger] pl[i]),
    ensures
        spec_apply_update(original, pl) == Ok::<Seq<char>, Seq<char>>(original) || exists|
            old: Seq<Seq<char>>,
        |
            spec_apply_update(original, pl) == Err::<Seq<char>, Seq<char>>(
                CONTEXT_NOT_FOUND@ + #[trigger] debug_string_list(old),
            ),
        (forall|i: int| 0 <= i < pl.len() ==> is_marker(#[trigger] pl[i])) ==> spec_apply_update(
            original,
            pl,
        ) == Ok::<Seq<char>, Seq<char>>(original),
{
    lemma_hunk_failure(file_lines(original), hunks_of(pl), 0);
    if spec_apply_update(original, pl) is Ok {
        law_context_only_update_keeps_text(original, pl);
    } else {
        let e = spec_apply_update(original, pl)->Err_0;
        let hs = hunks_of(pl);
        let i = choose|i: int| 0 <= i < hs.len() && e == CONTEXT_NOT_FOUND@ + debug_string_list(#[trigger] hs[i].0);
        assert(spec_apply_update(original, pl) == Err::<Seq<char>, Seq<char>>(
            CONTEXT_NOT_FOUND@ + debug_string_list(hs[i].0),
        ));
    }
    if forall|i: int| 0 <= i < pl.len() ==> is_marker(#[trigger] pl[i]) {
        lemma_marker_hunks(pl, seq![], seq![], false);
        lemma_empty_hunks(file_lines(original), hunks_of(pl), 0);
        lemma_join_file_lines(original);
    }
}

/// Searching `a + b` from an index inside `b` finds what searching `b` finds, shifted by
/// the length of `a`.
proof fn lemma_first_match_shift(a: Seq<Seq<char>>, b: Seq<Seq<char>>, n: Seq<Seq<char>>, k: int)
    requires
        0 <= k,
    ensures
        first_match_from(a + b, n, a.len() + k) == match first_match_from(b, n, k) {
            Some(q) => Some(a.len() + q),
            None => None::<int>,
        },
    decreases b.len() + 1 - k,
{
    let h = a + b;
    let i = a.len() + k;
    if k + n.len() > b.len() {
    } else {
        assert(h.subrange(i, i + n.len()) =~= b.subrange(k, k + n.len()));
        if !matches_at(b, n, k) {
            lemma_first_match_shift(a, b, n, k + 1);
        }
    }
}

/// Hunks applied to `a + b` from an index inside `b` leave `a` as it is and do to `b` what
/// they do when applied to `b` alone.
proof fn lemma_apply_hunks_shift(a: Seq<Seq<char>>, b: Seq<Seq<char>>, hs: Seq<Hunk>, k: int)
    requires
        0 <= k,
    ensures
        apply_hunks(a + b, hs, a.len() + k) == after_lines(a, apply_hunks(b, hs, k)),
    decreases hs.len(),
{
    if hs.len() > 0 {
        let h = hs[0];
        lemma_first_match_shift(a, b, h.0, k);
        lemma_first_match(b, h.0, k);
        match spec_find(b, h.0, k) {
            Some(q) => {
                assert(spec_find(a + b, h.0, a.len() + k) == Some(a.len() + q));
                assert(q + h.0.len() <= b.len());
                assert(splice(a + b, a.len() + q, h.0.len() as int, h.1) =~= a + splice(
                    b,
                    q,
                    h.0.len() as int,
                    h.1,
                ));
                lemma_apply_hunks_shift(
                    a,
                    splice(b, q, h.0.len() as int, h.1),
                    hs.drop_first(),
                    q + h.1.len(),
                );
            },
            None => {
                assert(spec_find(a + b, h.0, a.len() + k) is None);
            },
        }
    }
}

/// Hunks apply one after another: updating by a first hunk and then more is putting the
/// first hunk's new lines where its old lines are first found, keeping the lines before
/// them, and applying the other hunks to the lines after those old lines, from the start
/// of those lines; the lines the first hunk put in are never searched again. If the first
/// hunk's old lines are not found, the update fails naming them.
pub proof fn law_hunks_apply_in_turn(ls: Seq<Seq<char>>, h: Hunk, hs: Seq<Hunk>)
    ensures
        apply_hunks(ls, seq![h] + hs, 0) == match spec_find(ls, h.0, 0) {
            Some(p) => after_lines(ls.take(p) + h.1, apply_hunks(ls.skip(p + h.0.len()), hs, 0)),
            None => Err(CONTEXT_NOT_FOUND@ + debug_string_list(h.0)),
        },
{
    let all = seq![h] + hs;
    assert(all[0] == h);
    assert(all.drop_first() =~= hs);
    lemma_first_match(ls, h.0, 0);
    if let Some(p) = spec_find(ls, h.0, 0) {
        assert(0 <= p && p + h.0.len() <= ls.len());
        let a = ls.take(p) + h.1;
        let b = ls.skip(p + h.0.len());
        assert(splice(ls, p, h.0.len() as int, h.1) =~= a + b);
        lemma_apply_hunks_shift(a, b, hs, 0);
    }
}

} // verus!
