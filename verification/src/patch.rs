//! The patch format: a text framed by `*** Begin Patch` and `*** End Patch` that adds,
//! deletes and updates files, and its parser.
use vstd::prelude::*;

use crate::text::{char_rows, lines_of, chars_from, equals_str, push_chars, starts_with, string_of, text_lines};

verus! {

/// First line of every patch.
pub const BEGIN_PATCH: &'static str = "*** Begin Patch";

/// Last line of every patch.
pub const END_PATCH: &'static str = "*** End Patch";

/// Header of a section that adds a file; the path follows it.
pub const ADD_FILE: &'static str = "*** Add File: ";

/// Header of a section that deletes a file; the path follows it.
pub const DELETE_FILE: &'static str = "*** Delete File: ";

/// Header of a section that updates a file; the path follows it.
pub const UPDATE_FILE: &'static str = "*** Update File: ";

/// Optional line after an update header that names the file's new path.
pub const MOVE_TO: &'static str = "*** Move to: ";

/// Every section header, and every line that ends a section, starts with this.
pub const SECTION_MARK: &'static str = "*** ";

/// Marker of the end of a file inside an update.
pub const END_OF_FILE: &'static str = "*** End of File";

/// A hunk header on its own.
pub const HUNK_HEADER: &'static str = "@@";

/// A hunk header followed by a hint.
pub const HUNK_HEADER_PREFIX: &'static str = "@@ ";

/// Error for a patch whose first line is not [`BEGIN_PATCH`].
pub const MISSING_BEGIN: &'static str = "patch must start with `*** Begin Patch`";

/// Error for a patch whose last line is not [`END_PATCH`].
pub const MISSING_END: &'static str = "patch must end with `*** End Patch`";

/// Start of the error for a line of an added file without `+`; the line follows.
pub const BAD_ADD_LINE: &'static str = "add file line must start with `+`: ";

/// Start of the error for a line of an update that is of no known kind; the line follows.
pub const BAD_UPDATE_LINE: &'static str = "unsupported update line: ";

/// Start of the error for a line where a section header was due; the line follows.
pub const BAD_HEADER: &'static str = "unsupported patch header: ";

/// One line of an update section.
#[derive(Debug, Clone, PartialEq, Eq)]
pub enum PatchLine {
    Context(String),
    Add(String),
    Delete(String),
    HunkHeader,
    EndOfFile,
}

/// One file operation of a patch.
#[derive(Debug, Clone, PartialEq, Eq)]
pub enum PatchOp {
    Add { path: String, lines: Vec<String> },
    Delete { path: String },
    Update { path: String, move_to: Option<String>, lines: Vec<PatchLine> },
}

/// The mathematical value of a [`PatchLine`].
pub enum SpecPatchLine {
    Context(Seq<char>),
    Add(Seq<char>),
    Delete(Seq<char>),
    HunkHeader,
    EndOfFile,
}

/// The mathematical value of a [`PatchOp`].
pub enum SpecPatchOp {
    Add { path: Seq<char>, lines: Seq<Seq<char>> },
    Delete { path: Seq<char> },
    Update { path: Seq<char>, move_to: Option<Seq<char>>, lines: Seq<SpecPatchLine> },
}

impl DeepView for PatchLine {
    type V = SpecPatchLine;

    open spec fn deep_view(&self) -> SpecPatchLine {
        match self {
            PatchLine::Context(t) => SpecPatchLine::Context(t@),
            PatchLine::Add(t) => SpecPatchLine::Add(t@),
            PatchLine::Delete(t) => SpecPatchLine::Delete(t@),
            PatchLine::HunkHeader => SpecPatchLine::HunkHeader,
            PatchLine::EndOfFile => SpecPatchLine::EndOfFile,
        }
    }
}

/// The view of an optional string.
pub open spec fn option_view(o: Option<String>) -> Option<Seq<char>> {
    match o {
        Some(s) => Some(s@),
        None => None,
    }
}

impl DeepView for PatchOp {
    type V = SpecPatchOp;

    open spec fn deep_view(&self) -> SpecPatchOp {
        match self {
            PatchOp::Add { path, lines } => SpecPatchOp::Add {
                path: path@,
                lines: lines.deep_view(),
            },
            PatchOp::Delete { path } => SpecPatchOp::Delete { path: path@ },
            PatchOp::Update { path, move_to, lines } => SpecPatchOp::Update {
                path: path@,
                move_to: option_view(*move_to),
                lines: lines.deep_view(),
            },
        }
    }
}

/// Whether `s` starts with `p`.
pub open spec fn has_prefix(s: Seq<char>, p: Seq<char>) -> bool {
    p.len() <= s.len() && s.take(p.len() as int) == p
}

/// Whether the line `l` ends the lines of a section: it starts with `*** `, and, inside an
/// update, it is not the end-of-file marker, which may close an update's hunk.
pub open spec fn ends_section(l: Seq<char>, in_update: bool) -> bool {
    has_prefix(l, SECTION_MARK@) && !(in_update && l == END_OF_FILE@)
}

/// How many lines at the start of `ls` belong to a section's body: those before the first
/// line that ends the section.
pub open spec fn section_len(ls: Seq<Seq<char>>, in_update: bool) -> nat
    decreases ls.len(),
{
    if ls.len() == 0 || ends_section(ls[0], in_update) {
        0
    } else {
        1 + section_len(ls.drop_first(), in_update)
    }
}

/// A section's body is no longer than the lines it is taken from.
pub proof fn lemma_section_len_bound(ls: Seq<Seq<char>>, in_update: bool)
    ensures
        section_len(ls, in_update) <= ls.len(),
    decreases ls.len(),
{
    if ls.len() > 0 && !ends_section(ls[0], in_update) {
        lemma_section_len_bound(ls.drop_first(), in_update);
    }
}

/// `r` with `done` put before its value, when it is one.
pub open spec fn after_lines<T>(done: Seq<T>, r: Result<Seq<T>, Seq<char>>) -> Result<
    Seq<T>,
    Seq<char>,
> {
    match r {
        Ok(rest) => Ok(done + rest),
        Err(e) => Err(e),
    }
}

/// Putting `done` and then `v` before a result is putting `done + [v]` before it.
pub proof fn lemma_after_lines_push<T>(done: Seq<T>, v: T, r: Result<Seq<T>, Seq<char>>)
    ensures
        after_lines(done.push(v), r) == after_lines(done, after_lines(seq![v], r)),
{
    if let Ok(t) = r {
        assert(done + (seq![v] + t) =~= done.push(v) + t);
    }
}

/// The contents of an added file's lines, each of which must start with `+`; the error
/// names the first line that does not.
pub open spec fn parse_add_lines(ls: Seq<Seq<char>>) -> Result<Seq<Seq<char>>, Seq<char>>
    decreases ls.len(),
{
    if ls.len() == 0 {
        Ok(seq![])
    } else if ls[0].len() > 0 && ls[0][0] == '+' {
        after_lines(seq![ls[0].drop_first()], parse_add_lines(ls.drop_first()))
    } else {
        Err(BAD_ADD_LINE@ + ls[0])
    }
}

/// The kind of one line of an update section.
pub open spec fn classify_update_line(l: Seq<char>) -> Result<SpecPatchLine, Seq<char>> {
    if l == HUNK_HEADER@ || has_prefix(l, HUNK_HEADER_PREFIX@) {
        Ok(SpecPatchLine::HunkHeader)
    } else if l == END_OF_FILE@ {
        Ok(SpecPatchLine::EndOfFile)
    } else if l.len() > 0 && l[0] == ' ' {
        Ok(SpecPatchLine::Context(l.drop_first()))
    } else if l.len() > 0 && l[0] == '+' {
        Ok(SpecPatchLine::Add(l.drop_first()))
    } else if l.len() > 0 && l[0] == '-' {
        Ok(SpecPatchLine::Delete(l.drop_first()))
    } else {
        Err(BAD_UPDATE_LINE@ + l)
    }
}

/// The lines of an update section; the error names the first line of no known kind.
pub open spec fn parse_update_lines(ls: Seq<Seq<char>>) -> Result<Seq<SpecPatchLine>, Seq<char>>
    decreases ls.len(),
{
    if ls.len() == 0 {
        Ok(seq![])
    } else {
        match classify_update_line(ls[0]) {
            Ok(pl) => after_lines(seq![pl], parse_update_lines(ls.drop_first())),
            Err(e) => Err(e),
        }
    }
}

/// The operations of the sections in `b`, the lines between the first and the last line
/// of a patch; the error is that of the first section that is wrong.
pub open spec fn parse_sections(b: Seq<Seq<char>>) -> Result<Seq<SpecPatchOp>, Seq<char>>
    decreases b.len(),
{
    if b.len() == 0 {
        Ok(seq![])
    } else {
        let h = b[0];
        let rest = b.drop_first();
        if has_prefix(h, ADD_FILE@) {
            let n = section_len(rest, false);
            proof {
                lemma_section_len_bound(rest, false);
            }
            match parse_add_lines(rest.take(n as int)) {
                Ok(ls) => after_lines(
                    seq![SpecPatchOp::Add { path: h.skip(ADD_FILE@.len() as int), lines: ls }],
                    parse_sections(rest.skip(n as int)),
                ),
                Err(e) => Err(e),
            }
        } else if has_prefix(h, DELETE_FILE@) {
            after_lines(
                seq![SpecPatchOp::Delete { path: h.skip(DELETE_FILE@.len() as int) }],
                parse_sections(rest),
            )
        } else if has_prefix(h, UPDATE_FILE@) {
            let move_to = if rest.len() > 0 && has_prefix(rest[0], MOVE_TO@) {
                Some(rest[0].skip(MOVE_TO@.len() as int))
            } else {
                None
            };
            let body = if move_to is Some {
                rest.drop_first()
            } else {
                rest
            };
            let n = section_len(body, true);
            proof {
                lemma_section_len_bound(body, true);
            }
            match parse_update_lines(body.take(n as int)) {
                Ok(pl) => after_lines(
                    seq![
                        SpecPatchOp::Update {
                            path: h.skip(UPDATE_FILE@.len() as int),
                            move_to: move_to,
                            lines: pl,
                        },
                    ],
                    parse_sections(body.skip(n as int)),
                ),
                Err(e) => Err(e),
            }
        } else {
            Err(BAD_HEADER@ + h)
        }
    }
}

/// What parsing the patch text `text` gives: the operations of its sections, or the error
/// for the first thing that is wrong with it.
pub open spec fn spec_parse_patch(text: Seq<char>) -> Result<Seq<SpecPatchOp>, Seq<char>> {
    let ls = text_lines(text);
    if ls.len() == 0 || ls[0] != BEGIN_PATCH@ {
        Err(MISSING_BEGIN@)
    } else if ls.last() != END_PATCH@ {
        Err(MISSING_END@)
    } else {
        parse_sections(ls.subrange(1, ls.len() - 1))
    }
}

/// A message made of `prefix` and then `line`.
fn message_with_line(prefix: &str, line: &[char]) -> (m: String)
    ensures
        m@ == prefix@ + line@,
{
    let mut m = String::from_str(prefix);
    push_chars(&mut m, line);
    m
}

/// Whether the line `line` ends the lines of a section.
fn line_ends_section(line: &Vec<char>, in_update: bool) -> (b: bool)
    ensures
        b == ends_section(line@, in_update),
{
    starts_with(line, SECTION_MARK) && !(in_update && equals_str(line, END_OF_FILE))
}

/// The end of the section body that starts at `start` and may reach at most `end`.
fn section_end(lines: &Vec<Vec<char>>, start: usize, end: usize, in_update: bool) -> (k: usize)
    requires
        start <= end <= lines@.len(),
    ensures
        start <= k <= end,
        k - start == section_len(char_rows(lines@).subrange(start as int, end as int), in_update),
{
    let ghost rows = char_rows(lines@);
    let mut k = start;
    while k < end && !line_ends_section(&lines[k], in_update)
        invariant
            start <= k <= end <= lines@.len(),
            rows == char_rows(lines@),
            section_len(rows.subrange(start as int, end as int), in_update) == (k - start)
                + section_len(rows.subrange(k as int, end as int), in_update),
        decreases end - k,
    {
        let ghost sub = rows.subrange(k as int, end as int);
        assert(sub[0] == lines@[k as int]@);
        assert(sub.drop_first() =~= rows.subrange(k + 1, end as int));
        k = k + 1;
    }
    proof {
        if k < end {
            assert(rows.subrange(k as int, end as int)[0] == lines@[k as int]@);
        }
    }
    k
}

/// The contents of the added file lines `lines[start..stop]`.
fn add_section_lines(lines: &Vec<Vec<char>>, start: usize, stop: usize) -> (r: Result<
    Vec<String>,
    String,
>)
    requires
        start <= stop <= lines@.len(),
    ensures
        match r {
            Ok(v) => parse_add_lines(char_rows(lines@).subrange(start as int, stop as int)) == Ok::<
                Seq<Seq<char>>,
                Seq<char>,
            >(v.deep_view()),
            Err(e) => parse_add_lines(char_rows(lines@).subrange(start as int, stop as int))
                == Err::<Seq<Seq<char>>, Seq<char>>(e@),
        },
{
    let ghost rows = char_rows(lines@);
    let mut out: Vec<String> = Vec::new();
    let mut k = start;
    while k < stop
        invariant
            start <= k <= stop <= lines@.len(),
            rows == char_rows(lines@),
            parse_add_lines(rows.subrange(start as int, stop as int)) == after_lines(
                out.deep_view(),
                parse_add_lines(rows.subrange(k as int, stop as int)),
            ),
        decreases stop - k,
    {
        let ghost sub = rows.subrange(k as int, stop as int);
        assert(sub[0] == lines@[k as int]@);
        assert(sub.drop_first() =~= rows.subrange(k + 1, stop as int));
        let line = &lines[k];
        if line.len() > 0 && line[0] == '+' {
            let content = string_of(&chars_from(line, 1));
            let ghost before = out.deep_view();
            out.push(content);
            assert(out.deep_view() =~= before.push(line@.drop_first()));
            assert(line@.skip(1) == line@.drop_first());
            proof {
                lemma_after_lines_push(
                    before,
                    line@.drop_first(),
                    parse_add_lines(rows.subrange(k + 1, stop as int)),
                );
            }
        } else {
            return Err(message_with_line(BAD_ADD_LINE, line));
        }
        k = k + 1;
    }
    assert(out.deep_view() + Seq::<Seq<char>>::empty() =~= out.deep_view());
    Ok(out)
}

/// The kind of the update line `line`.
fn classify_line(line: &Vec<char>) -> (r: Result<PatchLine, String>)
    ensures
        match r {
            Ok(pl) => classify_update_line(line@) == Ok::<SpecPatchLine, Seq<char>>(
                pl.deep_view(),
            ),
            Err(e) => classify_update_line(line@) == Err::<SpecPatchLine, Seq<char>>(e@),
        },
{
    if equals_str(line, HUNK_HEADER) || starts_with(line, HUNK_HEADER_PREFIX) {
        Ok(PatchLine::HunkHeader)
    } else if equals_str(line, END_OF_FILE) {
        Ok(PatchLine::EndOfFile)
    } else if line.len() > 0 && line[0] == ' ' {
        assert(line@.skip(1) == line@.drop_first());
        Ok(PatchLine::Context(string_of(&chars_from(line, 1))))
    } else if line.len() > 0 && line[0] == '+' {
        assert(line@.skip(1) == line@.drop_first());
        Ok(PatchLine::Add(string_of(&chars_from(line, 1))))
    } else if line.len() > 0 && line[0] == '-' {
        assert(line@.skip(1) == line@.drop_first());
        Ok(PatchLine::Delete(string_of(&chars_from(line, 1))))
    } else {
        Err(message_with_line(BAD_UPDATE_LINE, line))
    }
}

/// The update lines `lines[start..stop]`.
fn update_section_lines(lines: &Vec<Vec<char>>, start: usize, stop: usize) -> (r: Result<
    Vec<PatchLine>,
    String,
>)
    requires
        start <= stop <= lines@.len(),
    ensures
        match r {
            Ok(v) => parse_update_lines(char_rows(lines@).subrange(start as int, stop as int))
                == Ok::<Seq<SpecPatchLine>, Seq<char>>(v.deep_view()),
            Err(e) => parse_update_lines(char_rows(lines@).subrange(start as int, stop as int))
                == Err::<Seq<SpecPatchLine>, Seq<char>>(e@),
        },
{
    let ghost rows = char_rows(lines@);
    let mut out: Vec<PatchLine> = Vec::new();
    let mut k = start;
    while k < stop
        invariant
            start <= k <= stop <= lines@.len(),
            rows == char_rows(lines@),
            parse_update_lines(rows.subrange(start as int, stop as int)) == after_lines(
                out.deep_view(),
                parse_update_lines(rows.subrange(k as int, stop as int)),
            ),
        decreases stop - k,
    {
        let ghost sub = rows.subrange(k as int, stop as int);
        assert(sub[0] == lines@[k as int]@);
        assert(sub.drop_first() =~= rows.subrange(k + 1, stop as int));
        match classify_line(&lines[k]) {
            Ok(pl) => {
                let ghost before = out.deep_view();
                let ghost v = pl.deep_view();
                out.push(pl);
                assert(out.deep_view() =~= before.push(v));
                proof {
                    lemma_after_lines_push(
                        before,
                        v,
                        parse_update_lines(rows.subrange(k + 1, stop as int)),
                    );
                }
            },
            Err(e) => {
                return Err(e);
            },
        }
        k = k + 1;
    }
    assert(out.deep_view() + Seq::<SpecPatchLine>::empty() =~= out.deep_view());
    Ok(out)
}

/// Parses a patch text into its file operations.
///
/// The text's first line must be `*** Begin Patch` and its last `*** End Patch`. Between
/// them stand sections: `*** Add File: <path>` followed by the file's lines, each after a
/// `+`; `*** Delete File: <path>`; and `*** Update File: <path>`, optionally followed by
/// `*** Move to: <path>`, then hunk headers (`@@`, or `@@ ` and a hint) and lines of
/// context (after a space), added lines (after `+`) and deleted lines (after `-`). A
/// section's lines end at the next line that starts with `*** `, except that a
/// `*** End of File` line may close an update's hunk and belongs to the update.
pub fn parse_patch(patch: &str) -> (r: Result<Vec<PatchOp>, String>)
    ensures
        match r {
            Ok(ops) => spec_parse_patch(patch@) == Ok::<Seq<SpecPatchOp>, Seq<char>>(
                ops.deep_view(),
            ),
            Err(e) => spec_parse_patch(patch@) == Err::<Seq<SpecPatchOp>, Seq<char>>(e@),
        },
{
    let lines = lines_of(patch);
    let ghost rows = char_rows(lines@);
    if lines.len() == 0 || !equals_str(&lines[0], BEGIN_PATCH) {
        return Err(String::from_str(MISSING_BEGIN));
    }
    let end = lines.len() - 1;
    assert(rows.last() == lines@[end as int]@);
    if !equals_str(&lines[end], END_PATCH) {
        return Err(String::from_str(MISSING_END));
    }
    proof {
        reveal_strlit("*** Begin Patch");
        reveal_strlit("*** End Patch");
        assert(BEGIN_PATCH@.len() != END_PATCH@.len());
    }
    let mut ops: Vec<PatchOp> = Vec::new();
    let mut i: usize = 1;
    assert(parse_sections(rows.subrange(1, end as int)) == after_lines(
        ops.deep_view(),
        parse_sections(rows.subrange(1, end as int)),
    )) by {
        match parse_sections(rows.subrange(1, end as int)) {
            Ok(x) => {
                assert(ops.deep_view() + x =~= x);
            },
            Err(_) => {},
        }
    }
    while i < end
        invariant
            1 <= i <= end,
            end + 1 == lines@.len(),
            rows == char_rows(lines@),
            rows == text_lines(patch@),
            rows[0] == BEGIN_PATCH@,
            rows.last() == END_PATCH@,
            parse_sections(rows.subrange(1, end as int)) == after_lines(
                ops.deep_view(),
                parse_sections(rows.subrange(i as int, end as int)),
            ),
        decreases end - i,
    {
        let ghost b = rows.subrange(i as int, end as int);
        let ghost rest = b.drop_first();
        let ghost before = ops.deep_view();
        assert(b[0] == lines@[i as int]@);
        assert(rest =~= rows.subrange(i + 1, end as int));
        let line = &lines[i];
        if starts_with(line, ADD_FILE) {
            let path = string_of(&chars_from(line, ADD_FILE.unicode_len()));
            let stop = section_end(&lines, i + 1, end, false);
            let ghost n = (stop - (i + 1)) as int;
            assert(rest.take(n) =~= rows.subrange(i + 1, stop as int));
            assert(rest.skip(n) =~= rows.subrange(stop as int, end as int));
            match add_section_lines(&lines, i + 1, stop) {
                Ok(contents) => {
                    let op = PatchOp::Add { path: path, lines: contents };
                    let ghost v = op.deep_view();
                    ops.push(op);
                    assert(ops.deep_view() =~= before.push(v));
                    proof {
                        lemma_after_lines_push(
                            before,
                            v,
                            parse_sections(rows.subrange(stop as int, end as int)),
                        );
                    }
                    i = stop;
                },
                Err(e) => {
                    return Err(e);
                },
            }
        } else if starts_with(line, DELETE_FILE) {
            let path = string_of(&chars_from(line, DELETE_FILE.unicode_len()));
            let op = PatchOp::Delete { path: path };
            let ghost v = op.deep_view();
            ops.push(op);
            assert(ops.deep_view() =~= before.push(v));
            proof {
                lemma_after_lines_push(
                    before,
                    v,
                    parse_sections(rows.subrange(i + 1, end as int)),
                );
            }
            i = i + 1;
        } else if starts_with(line, UPDATE_FILE) {
            let path = string_of(&chars_from(line, UPDATE_FILE.unicode_len()));
            let mut j = i + 1;
            let mut move_to: Option<String> = None;
            if j < end && starts_with(&lines[j], MOVE_TO) {
                assert(rest[0] == lines@[j as int]@);
                move_to = Some(string_of(&chars_from(&lines[j], MOVE_TO.unicode_len())));
                j = j + 1;
            } else {
                proof {
                    if j < end {
                        assert(rest[0] == lines@[j as int]@);
                    }
                }
            }
            let ghost body = rows.subrange(j as int, end as int);
            assert(move_to is Some ==> body =~= rest.drop_first());
            assert(move_to is None ==> body =~= rest);
            let stop = section_end(&lines, j, end, true);
            let ghost n = (stop - j) as int;
            assert(body.take(n) =~= rows.subrange(j as int, stop as int));
            assert(body.skip(n) =~= rows.subrange(stop as int, end as int));
            match update_section_lines(&lines, j, stop) {
                Ok(pls) => {
                    let op = PatchOp::Update { path: path, move_to: move_to, lines: pls };
                    let ghost v = op.deep_view();
                    ops.push(op);
                    assert(ops.deep_view() =~= before.push(v));
                    proof {
                        lemma_after_lines_push(
                            before,
                            v,
                            parse_sections(rows.subrange(stop as int, end as int)),
                        );
                    }
                    i = stop;
                },
                Err(e) => {
                    return Err(e);
                },
            }
        } else {
            return Err(message_with_line(BAD_HEADER, line));
        }
    }
    assert(ops.deep_view() + Seq::<SpecPatchOp>::empty() =~= ops.deep_view());
    Ok(ops)
}

/// A line whose first character is not `*` does not end a section.
proof fn lemma_plain_line_stays_in_section(l: Seq<char>, in_update: bool)
    requires
        l.len() > 0,
        l[0] != '*',
    ensures
        !ends_section(l, in_update),
{
    reveal_strlit("*** ");
    if has_prefix(l, SECTION_MARK@) {
        assert(l.take(4)[0] == l[0]);
    }
}

/// Lines none of which starts with `*` all belong to the section body.
proof fn lemma_plain_lines_fill_section(ls: Seq<Seq<char>>, in_update: bool)
    requires
        forall|i: int| 0 <= i < ls.len() ==> #[trigger] ls[i].len() > 0 && ls[i][0] != '*',
    ensures
        section_len(ls, in_update) == ls.len(),
    decreases ls.len(),
{
    if ls.len() > 0 {
        lemma_plain_line_stays_in_section(ls[0], in_update);
        assert forall|i: int| 0 <= i < ls.drop_first().len() implies #[trigger] ls.drop_first()[i].len()
            > 0 && ls.drop_first()[i][0] != '*' by {
            assert(ls.drop_first()[i] == ls[i + 1]);
        }
        lemma_plain_lines_fill_section(ls.drop_first(), in_update);
    }
}

/// Lines that each start with `+` are an added file's lines without their `+`.
proof fn lemma_add_lines_strip_plus(ls: Seq<Seq<char>>)
    requires
        forall|i: int| 0 <= i < ls.len() ==> #[trigger] ls[i].len() > 0 && ls[i][0] == '+',
    ensures
        parse_add_lines(ls) == Ok::<Seq<Seq<char>>, Seq<char>>(
            ls.map_values(|l: Seq<char>| l.drop_first()),
        ),
    decreases ls.len(),
{
    if ls.len() == 0 {
        assert(ls.map_values(|l: Seq<char>| l.drop_first()) =~= seq![]);
    } else {
        let rest = ls.drop_first();
        assert(ls[0].len() > 0 && ls[0][0] == '+');
        assert forall|i: int| 0 <= i < rest.len() implies #[trigger] rest[i].len() > 0 && rest[i][0]
            == '+' by {
            assert(rest[i] == ls[i + 1]);
        }
        lemma_add_lines_strip_plus(rest);
        assert(seq![ls[0].drop_first()] + rest.map_values(|l: Seq<char>| l.drop_first())
            =~= ls.map_values(|l: Seq<char>| l.drop_first()));
    }
}

/// An `Add File` section whose lines all start with `+` adds the file at the path that
/// follows the header, with each of those lines, the `+` taken off, as its lines, in
/// order: a line that is a lone `+` gives an empty line.
pub proof fn law_added_lines_lose_their_plus(path: Seq<char>, ls: Seq<Seq<char>>)
    requires
        forall|i: int| 0 <= i < ls.len() ==> #[trigger] ls[i].len() > 0 && ls[i][0] == '+',
    ensures
        parse_sections(seq![ADD_FILE@ + path] + ls) == Ok::<Seq<SpecPatchOp>, Seq<char>>(
            seq![SpecPatchOp::Add { path: path, lines: ls.map_values(|l: Seq<char>| l.drop_first()) }],
        ),
{
    let b = seq![ADD_FILE@ + path] + ls;
    let h = ADD_FILE@ + path;
    assert(b[0] == h);
    assert(b.drop_first() =~= ls);
    assert(h.take(ADD_FILE@.len() as int) =~= ADD_FILE@);
    assert(h.skip(ADD_FILE@.len() as int) =~= path);
    lemma_plain_lines_fill_section(ls, false);
    lemma_add_lines_strip_plus(ls);
    assert(ls.take(ls.len() as int) =~= ls);
    assert(ls.skip(ls.len() as int) =~= Seq::<Seq<char>>::empty());
    let op = SpecPatchOp::Add { path: path, lines: ls.map_values(|l: Seq<char>| l.drop_first()) };
    assert(has_prefix(h, ADD_FILE@));
    assert(section_len(b.drop_first(), false) == ls.len());
    assert(parse_add_lines(b.drop_first().take(ls.len() as int)) == Ok::<Seq<Seq<char>>, Seq<char>>(
        ls.map_values(|l: Seq<char>| l.drop_first()),
    ));
    assert(parse_sections(b.drop_first().skip(ls.len() as int)) == Ok::<Seq<SpecPatchOp>, Seq<char>>(seq![]));
    assert(seq![op] + Seq::<SpecPatchOp>::empty() =~= seq![op]);
}

/// The line of a hunk's body that `l` is, by its first character: a space starts a
/// context line, `+` an added line and `-` a deleted one; the text is the rest of `l`.
pub open spec fn body_line(l: Seq<char>) -> SpecPatchLine {
    if l[0] == ' ' {
        SpecPatchLine::Context(l.drop_first())
    } else if l[0] == '+' {
        SpecPatchLine::Add(l.drop_first())
    } else {
        SpecPatchLine::Delete(l.drop_first())
    }
}

/// Whether `l` starts with a space, `+` or `-`.
pub open spec fn is_body_line(l: Seq<char>) -> bool {
    l.len() > 0 && (l[0] == ' ' || l[0] == '+' || l[0] == '-')
}

/// A line that starts with a space, `+` or `-` is of the kind its first character says,
/// with the rest of the line as its text.
proof fn lemma_classify_body_line(l: Seq<char>)
    requires
        is_body_line(l),
    ensures
        classify_update_line(l) == Ok::<SpecPatchLine, Seq<char>>(body_line(l)),
{
    reveal_strlit("@@");
    reveal_strlit("@@ ");
    reveal_strlit("*** End of File");
    if l == HUNK_HEADER@ {
        assert(l[0] == '@');
    }
    if has_prefix(l, HUNK_HEADER_PREFIX@) {
        assert(l.take(3)[0] == l[0]);
    }
    if l == END_OF_FILE@ {
        assert(l[0] == '*');
    }
}

/// Lines that each start with a space, `+` or `-` are the update lines their first
/// characters say.
proof fn lemma_body_lines(ls: Seq<Seq<char>>)
    requires
        forall|i: int| 0 <= i < ls.len() ==> #[trigger] is_body_line(ls[i]),
    ensures
        parse_update_lines(ls) == Ok::<Seq<SpecPatchLine>, Seq<char>>(
            ls.map_values(|l: Seq<char>| body_line(l)),
        ),
    decreases ls.len(),
{
    if ls.len() == 0 {
        assert(ls.map_values(|l: Seq<char>| body_line(l)) =~= seq![]);
    } else {
        let rest = ls.drop_first();
        assert(is_body_line(ls[0]));
        lemma_classify_body_line(ls[0]);
        assert forall|i: int| 0 <= i < rest.len() implies #[trigger] is_body_line(rest[i]) by {
            assert(rest[i] == ls[i + 1]);
            assert(is_body_line(ls[i + 1]));
        }
        lemma_body_lines(rest);
        assert(seq![body_line(ls[0])] + rest.map_values(|l: Seq<char>| body_line(l))
            =~= ls.map_values(|l: Seq<char>| body_line(l)));
    }
}

/// An `Update File` section whose lines all start with a space, `+` or `-` updates the
/// file at the path that follows the header, without a move, with one line for each of
/// them in order: a context line for a space, an added line for `+`, a deleted line for
/// `-`, each holding the rest of its line; a line that is a lone space is an empty
/// context line.
pub proof fn law_update_lines_keep_their_text(path: Seq<char>, ls: Seq<Seq<char>>)
    requires
        forall|i: int| 0 <= i < ls.len() ==> #[trigger] is_body_line(ls[i]),
    ensures
        parse_sections(seq![UPDATE_FILE@ + path] + ls) == Ok::<Seq<SpecPatchOp>, Seq<char>>(
            seq![
                SpecPatchOp::Update {
                    path: path,
                    move_to: None,
                    lines: ls.map_values(|l: Seq<char>| body_line(l)),
                },
            ],
        ),
{
    reveal_strlit("*** Add File: ");
    reveal_strlit("*** Delete File: ");
    reveal_strlit("*** Update File: ");
    reveal_strlit("*** Move to: ");
    let b = seq![UPDATE_FILE@ + path] + ls;
    let h = UPDATE_FILE@ + path;
    assert(b[0] == h);
    assert(b.drop_first() =~= ls);
    assert(h[4] == 'U');
    if has_prefix(h, ADD_FILE@) {
        assert(h.take(ADD_FILE@.len() as int)[4] == ADD_FILE@[4]);
    }
    if has_prefix(h, DELETE_FILE@) {
        assert(h.take(DELETE_FILE@.len() as int)[4] == DELETE_FILE@[4]);
    }
    assert(h.take(UPDATE_FILE@.len() as int) =~= UPDATE_FILE@);
    assert(h.skip(UPDATE_FILE@.len() as int) =~= path);
    if ls.len() > 0 {
        assert(is_body_line(ls[0]));
        if has_prefix(ls[0], MOVE_TO@) {
            assert(ls[0].take(MOVE_TO@.len() as int)[0] == ls[0][0]);
        }
    }
    assert forall|i: int| 0 <= i < ls.len() implies #[trigger] ls[i].len() > 0 && ls[i][0] != '*' by {
        assert(is_body_line(ls[i]));
    }
    lemma_plain_lines_fill_section(ls, true);
    lemma_body_lines(ls);
    assert(ls.take(ls.len() as int) =~= ls);
    assert(ls.skip(ls.len() as int) =~= Seq::<Seq<char>>::empty());
    let op = SpecPatchOp::Update {
        path: path,
        move_to: None,
        lines: ls.map_values(|l: Seq<char>| body_line(l)),
    };
    let rest = b.drop_first();
    assert(!has_prefix(h, ADD_FILE@));
    assert(!has_prefix(h, DELETE_FILE@));
    assert(has_prefix(h, UPDATE_FILE@));
    assert(!(rest.len() > 0 && has_prefix(rest[0], MOVE_TO@)));
    assert(section_len(rest, true) == ls.len());
    assert(parse_update_lines(rest.take(ls.len() as int)) == Ok::<Seq<SpecPatchLine>, Seq<char>>(
        ls.map_values(|l: Seq<char>| body_line(l)),
    ));
    assert(parse_sections(rest.skip(ls.len() as int)) == Ok::<Seq<SpecPatchOp>, Seq<char>>(seq![]));
    assert(seq![op] + Seq::<SpecPatchOp>::empty() =~= seq![op]);
}

} // verus!
