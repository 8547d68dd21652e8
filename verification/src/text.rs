//! Text helpers shared by the tools: characters and strings, line splitting in the
//! manner of `str::lines` and of a split at every line feed, joining, decimal
//! numerals and white space.
use vstd::prelude::*;

verus! {

/// `String::push` (std): the string afterwards is the string before with the character
/// `ch` added at its end. This is believed, not proved.
pub assume_specification[ String::push ](s: &mut String, ch: char)
    ensures
        final(s)@ == old(s)@.push(ch),
;

/// The characters of `s`, in order.
pub fn chars_of(s: &str) -> (v: Vec<char>)
    ensures
        v@ == s@,
{
    let mut v: Vec<char> = Vec::new();
    for c in iter: s.chars()
        invariant
            v@ == iter.seq().take(iter.index() as int),
    {
        v.push(c);
    }
    v
}

/// Appends the characters of `v` to `s`.
pub fn push_chars(s: &mut String, v: &[char])
    ensures
        final(s)@ == old(s)@ + v@,
{
    let ghost start = s@;
    for i in 0..v.len()
        invariant
            s@ == start + v@.take(i as int),
    {
        s.push(v[i]);
        assert(v@.take(i + 1) == v@.take(i as int).push(v@[i as int]));
    }
    assert(v@.take(v.len() as int) == v@);
}

/// A string holding the characters of `v`.
pub fn string_of(v: &[char]) -> (s: String)
    ensures
        s@ == v@,
{
    let mut s = String::new();
    push_chars(&mut s, v);
    s
}

/// Whether `v` begins with the characters of `p`.
pub fn starts_with(v: &[char], p: &str) -> (b: bool)
    ensures
        b == (p@.len() <= v@.len() && v@.take(p@.len() as int) == p@),
{
    let pc = chars_of(p);
    if pc.len() > v.len() {
        return false;
    }
    let mut i: usize = 0;
    while i < pc.len()
        invariant
            pc@ == p@,
            pc.len() <= v.len(),
            i <= pc.len(),
            v@.take(i as int) == pc@.take(i as int),
        decreases pc.len() - i,
    {
        if v[i] != pc[i] {
            assert(v@.take(pc.len() as int)[i as int] != pc@[i as int]);
            return false;
        }
        assert(v@.take(i + 1) == v@.take(i as int).push(v@[i as int]));
        assert(pc@.take(i + 1) == pc@.take(i as int).push(pc@[i as int]));
        i = i + 1;
    }
    assert(pc@.take(pc.len() as int) == pc@);
    true
}

/// Whether `v` holds exactly the characters of `p`.
pub fn equals_str(v: &[char], p: &str) -> (b: bool)
    ensures
        b == (v@ == p@),
{
    let pre = starts_with(v, p);
    if pre && v.len() == p.unicode_len() {
        assert(v@.take(v@.len() as int) == v@);
        true
    } else {
        proof {
            if v@ == p@ {
                assert(v@.take(p@.len() as int) == v@);
            }
        }
        false
    }
}

/// A copy of `v[from..]`.
pub fn chars_from(v: &[char], from: usize) -> (r: Vec<char>)
    requires
        from <= v@.len(),
    ensures
        r@ == v@.skip(from as int),
{
    let mut r: Vec<char> = Vec::new();
    let mut i = from;
    while i < v.len()
        invariant
            from <= i <= v.len(),
            r@ == v@.subrange(from as int, i as int),
        decreases v.len() - i,
    {
        r.push(v[i]);
        i = i + 1;
        assert(r@ == v@.subrange(from as int, i as int));
    }
    r
}

/// One carriage return dropped from the end of `s`, where there is one.
pub open spec fn strip_carriage_return(s: Seq<char>) -> Seq<char> {
    if s.len() > 0 && s.last() == '\r' {
        s.drop_last()
    } else {
        s
    }
}

/// The lines that `str::lines` yields for the rest `s` of a text whose current,
/// unfinished line so far is `cur`. A line feed ends a line, and the line then loses
/// the line feed and one carriage return before it; a last line without a line feed
/// is kept as it is, and an empty remainder after the last line feed yields no line.
pub open spec fn lines_after(s: Seq<char>, cur: Seq<char>) -> Seq<Seq<char>>
    decreases s.len(),
{
    if s.len() == 0 {
        if cur.len() == 0 {
            seq![]
        } else {
            seq![cur]
        }
    } else if s[0] == '\n' {
        seq![strip_carriage_return(cur)] + lines_after(s.drop_first(), seq![])
    } else {
        lines_after(s.drop_first(), cur.push(s[0]))
    }
}

/// The lines of `s` as `str::lines` yields them.
pub open spec fn text_lines(s: Seq<char>) -> Seq<Seq<char>> {
    lines_after(s, seq![])
}

/// The views of a sequence of character vectors.
pub open spec fn char_rows(v: Seq<Vec<char>>) -> Seq<Seq<char>> {
    Seq::new(v.len(), |i: int| v[i]@)
}

/// The lines of `s`, as `str::lines` cuts them, each as its characters.
pub fn lines_of(s: &str) -> (r: Vec<Vec<char>>)
    ensures
        char_rows(r@) == text_lines(s@),
{
    let chars = chars_of(s);
    let mut r: Vec<Vec<char>> = Vec::new();
    let mut cur: Vec<char> = Vec::new();
    let mut k: usize = 0;
    assert(chars@.skip(0) == chars@);
    while k < chars.len()
        invariant
            chars@ == s@,
            k <= chars.len(),
            text_lines(s@) == char_rows(r@) + lines_after(chars@.skip(k as int), cur@),
        decreases chars.len() - k,
    {
        let c = chars[k];
        let ghost rest = chars@.skip(k as int);
        let ghost old_r = char_rows(r@);
        assert(rest[0] == c);
        assert(rest.drop_first() == chars@.skip(k + 1));
        if c == '\n' {
            let ghost before = cur@;
            if cur.len() > 0 && cur[cur.len() - 1] == '\r' {
                cur.pop();
            }
            assert(cur@ == strip_carriage_return(before));
            let ghost line = cur@;
            r.push(cur);
            cur = Vec::new();
            assert(char_rows(r@) =~= old_r.push(line));
        } else {
            cur.push(c);
        }
        k = k + 1;
    }
    if cur.len() > 0 {
        let ghost old_r = char_rows(r@);
        let ghost line = cur@;
        r.push(cur);
        assert(char_rows(r@) =~= old_r.push(line));
    }
    r
}

/// The pieces of the rest `s` of a text cut at every line feed, when the current piece
/// so far is `cur`: there is always one piece more than there are line feeds.
pub open spec fn pieces_after(s: Seq<char>, cur: Seq<char>) -> Seq<Seq<char>>
    decreases s.len(),
{
    if s.len() == 0 {
        seq![cur]
    } else if s[0] == '\n' {
        seq![cur] + pieces_after(s.drop_first(), seq![])
    } else {
        pieces_after(s.drop_first(), cur.push(s[0]))
    }
}

/// The text `s` cut at every line feed, as `str::split('\n')` cuts it.
pub open spec fn split_at_line_feeds(s: Seq<char>) -> Seq<Seq<char>> {
    pieces_after(s, seq![])
}

/// The lines `ls` joined with a line feed between each two.
pub open spec fn join_lines(ls: Seq<Seq<char>>) -> Seq<char>
    decreases ls.len(),
{
    if ls.len() == 0 {
        seq![]
    } else if ls.len() == 1 {
        ls[0]
    } else {
        ls[0] + seq!['\n'] + join_lines(ls.drop_first())
    }
}

/// Whether `s` holds a line feed.
pub open spec fn has_line_feed(s: Seq<char>) -> bool {
    exists|i: int| 0 <= i < s.len() && s[i] == '\n'
}

/// Joining one more line adds a line feed and the line.
pub proof fn lemma_join_push(ls: Seq<Seq<char>>, x: Seq<char>)
    ensures
        join_lines(ls.push(x)) == if ls.len() == 0 {
            x
        } else {
            join_lines(ls) + seq!['\n'] + x
        },
    decreases ls.len(),
{
    let lx = ls.push(x);
    if ls.len() == 0 {
        assert(lx.len() == 1 && lx[0] == x);
        assert(join_lines(lx) == x);
    } else if ls.len() == 1 {
        assert(lx.len() == 2 && lx[0] == ls[0]);
        assert(lx.drop_first() =~= seq![x]);
        assert(join_lines(seq![x]) == x);
        assert(join_lines(lx) == ls[0] + seq!['\n'] + x);
        assert(join_lines(ls) == ls[0]);
    } else {
        assert(lx.len() > 2 && lx[0] == ls[0]);
        lemma_join_push(ls.drop_first(), x);
        assert(ls.push(x).drop_first() =~= ls.drop_first().push(x));
        assert(ls[0] + seq!['\n'] + (join_lines(ls.drop_first()) + seq!['\n'] + x) =~= ls[0]
            + seq!['\n'] + join_lines(ls.drop_first()) + seq!['\n'] + x);
    }
}

/// Cutting at line feeds always yields at least one piece.
pub proof fn lemma_pieces_nonempty(s: Seq<char>, cur: Seq<char>)
    ensures
        pieces_after(s, cur).len() >= 1,
    decreases s.len(),
{
    if s.len() > 0 {
        if s[0] == '\n' {
            lemma_pieces_nonempty(s.drop_first(), seq![]);
        } else {
            lemma_pieces_nonempty(s.drop_first(), cur.push(s[0]));
        }
    }
}

/// Joining the pieces gives back the text they were cut from.
pub proof fn lemma_join_pieces(s: Seq<char>, cur: Seq<char>)
    ensures
        join_lines(pieces_after(s, cur)) == cur + s,
    decreases s.len(),
{
    if s.len() == 0 {
        assert(cur + s =~= cur);
    } else if s[0] == '\n' {
        let rest = pieces_after(s.drop_first(), seq![]);
        lemma_join_pieces(s.drop_first(), seq![]);
        lemma_pieces_nonempty(s.drop_first(), seq![]);
        let all = seq![cur] + rest;
        assert(all[0] == cur);
        assert(all.drop_first() =~= rest);
        assert(seq![] + s.drop_first() =~= s.drop_first());
        assert(cur + seq!['\n'] + s.drop_first() =~= cur + s);
    } else {
        lemma_join_pieces(s.drop_first(), cur.push(s[0]));
        assert(cur.push(s[0]) + s.drop_first() =~= cur + s);
    }
}

/// Cutting a text without line feeds that follows `cur` continues the current piece.
pub proof fn lemma_pieces_plain_prefix(x: Seq<char>, s: Seq<char>, cur: Seq<char>)
    requires
        !has_line_feed(x),
    ensures
        pieces_after(x + s, cur) == pieces_after(s, cur + x),
    decreases x.len(),
{
    if x.len() == 0 {
        assert(x + s =~= s);
        assert(cur + x =~= cur);
    } else {
        assert((x + s)[0] == x[0]);
        assert((x + s).drop_first() =~= x.drop_first() + s);
        assert(!has_line_feed(x.drop_first())) by {
            if has_line_feed(x.drop_first()) {
                let i = choose|i: int| 0 <= i < x.drop_first().len() && x.drop_first()[i] == '\n';
                assert(x[i + 1] == '\n');
            }
        }
        lemma_pieces_plain_prefix(x.drop_first(), s, cur.push(x[0]));
        assert(cur.push(x[0]) + x.drop_first() =~= cur + x);
    }
}

/// Cutting the join of lines without line feeds gives back the lines.
pub proof fn lemma_pieces_of_join(ls: Seq<Seq<char>>)
    requires
        ls.len() >= 1,
        forall|i: int| 0 <= i < ls.len() ==> !has_line_feed(#[trigger] ls[i]),
    ensures
        split_at_line_feeds(join_lines(ls)) == ls,
    decreases ls.len(),
{
    if ls.len() == 1 {
        lemma_pieces_plain_prefix(ls[0], seq![], seq![]);
        assert(ls[0] + Seq::<char>::empty() =~= ls[0]);
        assert(Seq::<char>::empty() + ls[0] =~= ls[0]);
        assert(seq![ls[0]] =~= ls);
    } else {
        let rest = ls.drop_first();
        assert(forall|i: int| 0 <= i < rest.len() ==> !has_line_feed(#[trigger] rest[i]) && rest[i] == ls[i + 1]);
        lemma_pieces_of_join(rest);
        let j = join_lines(rest);
        let t = seq!['\n'] + j;
        assert(ls[0] + seq!['\n'] + j =~= ls[0] + t);
        lemma_pieces_plain_prefix(ls[0], t, seq![]);
        assert(Seq::<char>::empty() + ls[0] =~= ls[0]);
        assert(t[0] == '\n');
        assert(t.drop_first() =~= j);
        assert(seq![ls[0]] + rest =~= ls);
    }
}

/// The digit character for `d`, which is below ten.
pub open spec fn digit_char(d: nat) -> char {
    if d == 0 {
        '0'
    } else if d == 1 {
        '1'
    } else if d == 2 {
        '2'
    } else if d == 3 {
        '3'
    } else if d == 4 {
        '4'
    } else if d == 5 {
        '5'
    } else if d == 6 {
        '6'
    } else if d == 7 {
        '7'
    } else if d == 8 {
        '8'
    } else {
        '9'
    }
}

/// The decimal numeral of `n`, without leading zeros, as `Display` writes it.
pub open spec fn decimal(n: nat) -> Seq<char>
    decreases n,
{
    if n < 10 {
        seq![digit_char(n)]
    } else {
        decimal(n / 10).push(digit_char(n % 10))
    }
}

/// The decimal numeral of `n` with a minus sign when it is negative.
pub open spec fn signed_decimal(n: int) -> Seq<char> {
    if n < 0 {
        seq!['-'] + decimal((-n) as nat)
    } else {
        decimal(n as nat)
    }
}

fn digit(d: u128) -> (c: char)
    requires
        d < 10,
    ensures
        c == digit_char(d as nat),
{
    if d == 0 {
        '0'
    } else if d == 1 {
        '1'
    } else if d == 2 {
        '2'
    } else if d == 3 {
        '3'
    } else if d == 4 {
        '4'
    } else if d == 5 {
        '5'
    } else if d == 6 {
        '6'
    } else if d == 7 {
        '7'
    } else if d == 8 {
        '8'
    } else {
        '9'
    }
}

/// Appends the decimal numeral of `n` to `s`.
pub fn push_decimal(s: &mut String, n: u128)
    ensures
        final(s)@ == old(s)@ + decimal(n as nat),
    decreases n,
{
    if n >= 10 {
        push_decimal(s, n / 10);
    }
    let ghost mid = s@;
    s.push(digit(n % 10));
    proof {
        if n >= 10 {
            assert(old(s)@ + decimal(n as nat) =~= old(s)@ + decimal((n / 10) as nat) + seq![
                digit_char((n % 10) as nat),
            ]);
        } else {
            assert(n % 10 == n);
        }
    }
}

/// Appends the decimal numeral of `n`, signed, to `s`.
pub fn push_signed_decimal(s: &mut String, n: i32)
    ensures
        final(s)@ == old(s)@ + signed_decimal(n as int),
{
    if n < 0 {
        s.push('-');
        let m: i64 = n as i64;
        push_decimal(s, (-m) as u128);
        assert(old(s)@.push('-') + decimal((-n) as nat) =~= old(s)@ + (seq!['-'] + decimal(
            (-n) as nat,
        )));
    } else {
        push_decimal(s, n as u128);
    }
}

/// Whether `c` is white space in Unicode's sense (the property `White_Space`), as
/// `char::is_whitespace` and `str::trim` take it.
pub open spec fn is_white_space(c: char) -> bool {
    let u = c as u32;
    ||| 0x9 <= u <= 0xd
    ||| u == 0x20
    ||| u == 0x85
    ||| u == 0xa0
    ||| u == 0x1680
    ||| 0x2000 <= u <= 0x200a
    ||| u == 0x2028
    ||| u == 0x2029
    ||| u == 0x202f
    ||| u == 0x205f
    ||| u == 0x3000
}

/// Whether `c` is white space in Unicode's sense.
pub fn white_space(c: char) -> (b: bool)
    ensures
        b == is_white_space(c),
{
    let u = c as u32;
    (0x9 <= u && u <= 0xd) || u == 0x20 || u == 0x85 || u == 0xa0 || u == 0x1680 || (0x2000 <= u
        && u <= 0x200a) || u == 0x2028 || u == 0x2029 || u == 0x202f || u == 0x205f || u == 0x3000
}

/// Whether every character of `s` is white space, so that trimming leaves nothing.
pub open spec fn is_blank(s: Seq<char>) -> bool {
    forall|i: int| 0 <= i < s.len() ==> is_white_space(#[trigger] s[i])
}

/// Whether `s` is empty once trimmed of white space.
pub fn blank(s: &str) -> (b: bool)
    ensures
        b == is_blank(s@),
{
    let cs = chars_of(s);
    for i in 0..cs.len()
        invariant
            cs@ == s@,
            forall|j: int| 0 <= j < i ==> is_white_space(#[trigger] s@[j]),
    {
        if !white_space(cs[i]) {
            return false;
        }
    }
    true
}

/// `c` with an ASCII capital letter turned into its small letter, as
/// `char::to_ascii_lowercase` does.
pub open spec fn ascii_lower(c: char) -> char {
    if 65 <= c as u32 <= 90 {
        ((c as u32) + 32) as char
    } else {
        c
    }
}

/// Every character of `s` lowered by [`ascii_lower`].
pub open spec fn ascii_lowercase(s: Seq<char>) -> Seq<char> {
    s.map_values(|c: char| ascii_lower(c))
}

/// `s` with its ASCII capital letters turned into small letters.
pub fn to_ascii_lowercase(s: &[char]) -> (r: Vec<char>)
    ensures
        r@ == ascii_lowercase(s@),
{
    let mut r: Vec<char> = Vec::new();
    for i in 0..s.len()
        invariant
            r@ == ascii_lowercase(s@.take(i as int)),
    {
        let c = s[i];
        let u = c as u32;
        let l = if 65 <= u && u <= 90 {
            let b = u as u8;
            let l2 = (b + 32) as char;
            assert(l2 == ((c as u32) + 32) as char);
            l2
        } else {
            c
        };
        assert(l == ascii_lower(c));
        r.push(l);
        assert(ascii_lowercase(s@.take(i + 1)) =~= ascii_lowercase(s@.take(i as int)).push(
            ascii_lower(s@[i as int]),
        ));
    }
    assert(s@.take(s@.len() as int) == s@);
    r
}

} // verus!
