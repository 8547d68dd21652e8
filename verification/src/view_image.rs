//! The image tool: its arguments and result, the media type read off a path's extension,
//! and the data URL of an image's bytes.
use vstd::prelude::*;

use base64::Engine;

use crate::text::{ascii_lowercase, chars_of, equals_str, to_ascii_lowercase};
use crate::tools::{describes, tool_spec, ToolKind, ToolSpec};

verus! {

/// Arguments of the image tool.
#[derive(Debug, Clone)]
pub struct ViewImageArgs {
    /// Local filesystem path to an image file.
    pub path: String,
    /// Image detail hint. Defaults to `high`.
    pub detail: Option<ViewImageDetail>,
}

/// How much detail the image is wanted with.
#[derive(Debug, Clone, Copy, PartialEq, Eq, Structural)]
pub enum ViewImageDetail {
    High,
    Original,
}

/// The name of a detail level.
pub open spec fn detail_name(d: ViewImageDetail) -> Seq<char> {
    match d {
        ViewImageDetail::High => "high"@,
        ViewImageDetail::Original => "original"@,
    }
}

impl ViewImageDetail {
    /// The name of the detail level: `high` or `original`.
    pub fn as_str(&self) -> (s: &'static str)
        ensures
            s@ == detail_name(*self),
    {
        match self {
            ViewImageDetail::High => "high",
            ViewImageDetail::Original => "original",
        }
    }
}

/// Result of the image tool.
#[derive(Debug, Clone, PartialEq, Eq)]
pub struct ViewImageOutput {
    pub image_url: String,
    pub detail: String,
}

/// The image tool.
#[derive(Debug, Clone, Copy, Default)]
pub struct ViewImageTool;

impl ViewImageTool {
    /// The description of the image tool.
    pub fn tool(&self) -> (t: ToolSpec)
        ensures
            describes(t, ToolKind::ViewImage),
    {
        view_image_tool()
    }
}

/// The description of the image tool.
pub fn view_image_tool() -> (t: ToolSpec)
    ensures
        describes(t, ToolKind::ViewImage),
{
    tool_spec(ToolKind::ViewImage)
}

/// Whether `c` separates the components of a path: on Unix `/`; on Windows `/` and `\`,
/// except inside a verbatim path (one that starts with `\\?\`), where only `\` does.
pub open spec fn is_separator(c: char, windows: bool, verbatim: bool) -> bool {
    if !windows {
        c == '/'
    } else if verbatim {
        c == '\\'
    } else {
        c == '/' || c == '\\'
    }
}

/// Whether `c` is an ASCII letter.
pub open spec fn is_ascii_letter(c: char) -> bool {
    ('a' <= c && c <= 'z') || ('A' <= c && c <= 'Z')
}

/// Where the Windows path component of `p` that starts at `start` ends: at the first
/// separator from there, or at the end of `p`.
pub open spec fn component_end(p: Seq<char>, start: int, verbatim: bool) -> int
    decreases p.len() - start,
{
    if start >= p.len() || is_separator(p[start], true, verbatim) {
        start
    } else {
        component_end(p, start + 1, verbatim)
    }
}

/// The prefix of the Windows path `p`, as `std::path` reads it: its length (0 for none) and
/// whether the path is verbatim. `\\?\UNC\server\share`, `\\?\C:` and `\\?\name`
/// are verbatim; `\\.\device`, `\\server\share` (both names present) and `C:` are not.
/// The two leading separators may be either kind, except in a verbatim prefix.
pub open spec fn windows_prefix(p: Seq<char>) -> (int, bool) {
    let n = p.len();
    if n >= 2 && is_separator(p[0], true, false) && is_separator(p[1], true, false) {
        if n >= 4 && p[0] == '\\' && p[1] == '\\' && p[2] == '?' && p[3] == '\\' {
            if n >= 8 && p[4] == 'U' && p[5] == 'N' && p[6] == 'C' && is_separator(p[7], true, false) {
                let server_end = component_end(p, 8, true);
                if server_end < n && component_end(p, server_end + 1, true) > server_end + 1 {
                    (component_end(p, server_end + 1, true), true)
                } else {
                    (server_end, true)
                }
            } else if n >= 6 && is_ascii_letter(p[4]) && p[5] == ':' && (n == 6 || is_separator(
                p[6],
                true,
                false,
            )) {
                (6, true)
            } else {
                (component_end(p, 4, true), true)
            }
        } else if n >= 4 && p[2] == '.' && is_separator(p[3], true, false) {
            (component_end(p, 4, false), false)
        } else {
            let server_end = component_end(p, 2, false);
            if server_end > 2 && server_end < n && component_end(p, server_end + 1, false)
                > server_end + 1 {
                (component_end(p, server_end + 1, false), false)
            } else {
                (0, false)
            }
        }
    } else if n >= 2 && is_ascii_letter(p[0]) && p[1] == ':' {
        (2, false)
    } else {
        (0, false)
    }
}

/// The final name of the path body `p`, as `Path::file_name` gives it, when the part of the
/// last component already read from its end is `tail`: empty components are passed over, so
/// is `.` outside a verbatim path; a last component `..`, or `.` in a verbatim path, or none,
/// gives no name.
pub open spec fn name_before(p: Seq<char>, tail: Seq<char>, windows: bool, verbatim: bool) -> Option<
    Seq<char>,
>
    decreases p.len(),
{
    if p.len() == 0 || is_separator(p.last(), windows, verbatim) {
        if tail.len() == 0 || (tail == seq!['.'] && !verbatim) {
            if p.len() == 0 {
                None
            } else {
                name_before(p.drop_last(), seq![], windows, verbatim)
            }
        } else if tail == seq!['.'] || tail == seq!['.', '.'] {
            None
        } else {
            Some(tail)
        }
    } else {
        name_before(p.drop_last(), seq![p.last()] + tail, windows, verbatim)
    }
}

/// The prefix of the path `p` on the platform: its length and whether it is verbatim. Unix
/// paths have none.
pub open spec fn path_prefix(p: Seq<char>, windows: bool) -> (int, bool) {
    if windows {
        windows_prefix(p)
    } else {
        (0, false)
    }
}

/// Where the body of the path `p` starts: after its prefix and after the separator that
/// makes it absolute, if one follows the prefix.
pub open spec fn body_start(p: Seq<char>, windows: bool) -> int {
    let n = path_prefix(p, windows).0;
    if n < p.len() && is_separator(p[n], windows, false) {
        n + 1
    } else {
        n
    }
}

/// The final name of the path `p`, as `Path::file_name` gives it on Unix (`windows` false)
/// or on Windows (`windows` true).
pub open spec fn file_name(p: Seq<char>, windows: bool) -> Option<Seq<char>> {
    name_before(
        p.subrange(body_start(p, windows), p.len() as int),
        seq![],
        windows,
        path_prefix(p, windows).1,
    )
}

/// The extension of the file name `name`, read from its end with `tail` already read: the
/// part after the last dot, unless there is no dot or the only dot starts the name.
pub open spec fn extension_before(name: Seq<char>, tail: Seq<char>) -> Option<Seq<char>>
    decreases name.len(),
{
    if name.len() == 0 {
        None
    } else if name.last() == '.' {
        if name.len() == 1 {
            None
        } else {
            Some(tail)
        }
    } else {
        extension_before(name.drop_last(), seq![name.last()] + tail)
    }
}

/// The extension of the path `p`, as `Path::extension` gives it on the platform.
pub open spec fn path_extension(p: Seq<char>, windows: bool) -> Option<Seq<char>> {
    match file_name(p, windows) {
        Some(n) => extension_before(n, seq![]),
        None => None,
    }
}

/// The media type of an image whose extension, in small letters, is `e`.
pub open spec fn mime_for_extension(e: Seq<char>) -> Option<Seq<char>> {
    if e == "jpg"@ || e == "jpeg"@ {
        Some("image/jpeg"@)
    } else if e == "png"@ {
        Some("image/png"@)
    } else if e == "gif"@ {
        Some("image/gif"@)
    } else if e == "webp"@ {
        Some("image/webp"@)
    } else if e == "bmp"@ {
        Some("image/bmp"@)
    } else {
        None
    }
}

/// The media type of the image at the path `p` on the platform, read off its extension
/// whatever the case of its letters.
pub open spec fn spec_mime_type(p: Seq<char>, windows: bool) -> Option<Seq<char>> {
    match path_extension(p, windows) {
        Some(e) => mime_for_extension(ascii_lowercase(e)),
        None => None,
    }
}

/// Whether `c` separates path components (see [`is_separator`]).
fn separates(c: char, windows: bool, verbatim: bool) -> (b: bool)
    ensures
        b == is_separator(c, windows, verbatim),
{
    if !windows {
        c == '/'
    } else if verbatim {
        c == '\\'
    } else {
        c == '/' || c == '\\'
    }
}

/// Whether `c` is an ASCII letter.
fn ascii_letter(c: char) -> (b: bool)
    ensures
        b == is_ascii_letter(c),
{
    ('a' <= c && c <= 'z') || ('A' <= c && c <= 'Z')
}

/// Where the Windows path component of `p` that starts at `start` ends.
fn find_component_end(p: &Vec<char>, start: usize, verbatim: bool) -> (e: usize)
    requires
        start <= p@.len(),
    ensures
        start <= e <= p@.len(),
        e == component_end(p@, start as int, verbatim),
{
    let mut i = start;
    while i < p.len() && !separates(p[i], true, verbatim)
        invariant
            start <= i <= p@.len(),
            component_end(p@, start as int, verbatim) == component_end(p@, i as int, verbatim),
        decreases p@.len() - i,
    {
        i = i + 1;
    }
    i
}

/// The prefix of the Windows path `p`: its length and whether the path is verbatim.
fn windows_prefix_len(p: &Vec<char>) -> (r: (usize, bool))
    ensures
        r.0 <= p@.len(),
        r.0 as int == windows_prefix(p@).0,
        r.1 == windows_prefix(p@).1,
{
    let n = p.len();
    if n >= 2 && separates(p[0], true, false) && separates(p[1], true, false) {
        if n >= 4 && p[0] == '\\' && p[1] == '\\' && p[2] == '?' && p[3] == '\\' {
            if n >= 8 && p[4] == 'U' && p[5] == 'N' && p[6] == 'C' && separates(p[7], true, false) {
                let server_end = find_component_end(p, 8, true);
                if server_end < n {
                    let share_end = find_component_end(p, server_end + 1, true);
                    if share_end > server_end + 1 {
                        return (share_end, true);
                    }
                }
                (server_end, true)
            } else if n >= 6 && ascii_letter(p[4]) && p[5] == ':' && (n == 6 || separates(
                p[6],
                true,
                false,
            )) {
                (6, true)
            } else {
                (find_component_end(p, 4, true), true)
            }
        } else if n >= 4 && p[2] == '.' && separates(p[3], true, false) {
            (find_component_end(p, 4, false), false)
        } else {
            let server_end = find_component_end(p, 2, false);
            if server_end > 2 && server_end < n {
                let share_end = find_component_end(p, server_end + 1, false);
                if share_end > server_end + 1 {
                    return (share_end, false);
                }
            }
            (0, false)
        }
    } else if n >= 2 && ascii_letter(p[0]) && p[1] == ':' {
        (2, false)
    } else {
        (0, false)
    }
}

/// Where the final name of the path `p` stands in it, on the platform.
fn file_name_bounds(p: &Vec<char>, windows: bool) -> (r: Option<(usize, usize)>)
    ensures
        match r {
            Some((a, b)) => a <= b <= p@.len() && file_name(p@, windows) == Some(
                p@.subrange(a as int, b as int),
            ),
            None => file_name(p@, windows) is None,
        },
{
    let (n, verbatim) = if windows {
        windows_prefix_len(p)
    } else {
        (0, false)
    };
    let start = if n < p.len() && separates(p[n], windows, false) {
        n + 1
    } else {
        n
    };
    assert(start == body_start(p@, windows));
    assert(verbatim == path_prefix(p@, windows).1);
    let mut i = p.len();
    let mut j = p.len();
    assert(p@.subrange(i as int, j as int) =~= Seq::<char>::empty());
    loop
        invariant
            start <= i <= j <= p@.len(),
            file_name(p@, windows) == name_before(
                p@.subrange(start as int, i as int),
                p@.subrange(i as int, j as int),
                windows,
                verbatim,
            ),
        decreases i, j,
    {
        let ghost head = p@.subrange(start as int, i as int);
        let ghost tail = p@.subrange(i as int, j as int);
        if i == start || separates(p[i - 1], windows, verbatim) {
            assert(i > start ==> head.last() == p@[i - 1]);
            let len = j - i;
            let dot = len == 1 && p[i] == '.';
            let dots = len == 2 && p[i] == '.' && p[i + 1] == '.';
            proof {
                if len == 1 {
                    assert(tail[0] == p@[i as int]);
                    if p@[i as int] == '.' {
                        assert(tail =~= seq!['.']);
                    } else {
                        assert(tail != seq!['.']) by {
                            assert(seq!['.'][0] == '.');
                        }
                    }
                } else {
                    assert(tail.len() != 1);
                    assert(tail != seq!['.']) by {
                        assert(seq!['.'].len() == 1);
                    }
                }
                if len == 2 {
                    assert(tail[0] == p@[i as int]);
                    assert(tail[1] == p@[i + 1]);
                    if p@[i as int] == '.' && p@[i + 1] == '.' {
                        assert(tail =~= seq!['.', '.']);
                    } else {
                        assert(tail != seq!['.', '.']) by {
                            assert(seq!['.', '.'][0] == '.');
                            assert(seq!['.', '.'][1] == '.');
                        }
                    }
                } else {
                    assert(tail != seq!['.', '.']) by {
                        assert(seq!['.', '.'].len() == 2);
                    }
                }
            }
            if len == 0 || (dot && !verbatim) {
                if i == start {
                    return None;
                }
                assert(head.drop_last() =~= p@.subrange(start as int, i - 1));
                i = i - 1;
                j = i;
                assert(p@.subrange(i as int, j as int) =~= Seq::<char>::empty());
            } else if dot || dots {
                return None;
            } else {
                return Some((i, j));
            }
        } else {
            assert(head.last() == p@[i - 1]);
            assert(head.drop_last() =~= p@.subrange(start as int, i - 1));
            assert(seq![p@[i - 1]] + tail =~= p@.subrange(i - 1, j as int));
            i = i - 1;
        }
    }
}

/// Where the extension of the name `p[a..b]` stands in `p`.
fn extension_bounds(p: &Vec<char>, a: usize, b: usize) -> (r: Option<usize>)
    requires
        a <= b <= p@.len(),
    ensures
        match r {
            Some(s) => a <= s <= b && extension_before(p@.subrange(a as int, b as int), seq![])
                == Some(p@.subrange(s as int, b as int)),
            None => extension_before(p@.subrange(a as int, b as int), seq![]) is None,
        },
{
    let mut k = b;
    assert(p@.subrange(k as int, b as int) =~= Seq::<char>::empty());
    while k > a && p[k - 1] != '.'
        invariant
            a <= k <= b <= p@.len(),
            extension_before(p@.subrange(a as int, b as int), seq![]) == extension_before(
                p@.subrange(a as int, k as int),
                p@.subrange(k as int, b as int),
            ),
        decreases k,
    {
        let ghost name = p@.subrange(a as int, k as int);
        assert(name.last() == p@[k - 1]);
        assert(name.drop_last() =~= p@.subrange(a as int, k - 1));
        assert(seq![p@[k - 1]] + p@.subrange(k as int, b as int) =~= p@.subrange(k - 1, b as int));
        k = k - 1;
    }
    if k == a {
        None
    } else {
        assert(p@.subrange(a as int, k as int).last() == p@[k - 1]);
        if k - 1 == a {
            None
        } else {
            Some(k)
        }
    }
}

/// The media type of the image at `path`, read off its extension whatever the case of its
/// letters: JPEG, PNG, GIF, WebP or BMP; `None` for any other extension or none. The path
/// is read as a Windows path where `windows` holds, else as a Unix path.
pub fn mime_type_for_path(path: &str, windows: bool) -> (m: Option<&'static str>)
    ensures
        match m {
            Some(t) => spec_mime_type(path@, windows) == Some(t@),
            None => spec_mime_type(path@, windows) is None,
        },
{
    let p = chars_of(path);
    let (a, b) = match file_name_bounds(&p, windows) {
        Some(bounds) => bounds,
        None => {
            return None;
        },
    };
    let s = match extension_bounds(&p, a, b) {
        Some(s) => s,
        None => {
            return None;
        },
    };
    let mut ext: Vec<char> = Vec::new();
    let mut k = s;
    while k < b
        invariant
            s <= k <= b <= p@.len(),
            ext@ == p@.subrange(s as int, k as int),
        decreases b - k,
    {
        ext.push(p[k]);
        k = k + 1;
        assert(ext@ =~= p@.subrange(s as int, k as int));
    }
    let lower = to_ascii_lowercase(&ext);
    if equals_str(&lower, "jpg") || equals_str(&lower, "jpeg") {
        Some("image/jpeg")
    } else if equals_str(&lower, "png") {
        Some("image/png")
    } else if equals_str(&lower, "gif") {
        Some("image/gif")
    } else if equals_str(&lower, "webp") {
        Some("image/webp")
    } else if equals_str(&lower, "bmp") {
        Some("image/bmp")
    } else {
        None
    }
}

/// The standard Base64 alphabet: the character for the six bits `i` is the one at `i`.
pub const BASE64_ALPHABET: &'static str =
    "ABCDEFGHIJKLMNOPQRSTUVWXYZabcdefghijklmnopqrstuvwxyz0123456789+/";

/// The character of the standard Base64 alphabet for the six bits `i`.
pub open spec fn base64_digit(i: int) -> char {
    BASE64_ALPHABET@[i]
}

/// The standard Base64 text of the bytes `b` (RFC 4648, with padding): each group of three
/// bytes, read as 24 bits, gives four characters of six bits each; a last group of one or
/// two bytes is filled with zero bits and ends with two or one `=`.
pub open spec fn base64_standard(b: Seq<u8>) -> Seq<char>
    decreases b.len(),
{
    if b.len() == 0 {
        seq![]
    } else {
        let b0 = b[0] as int;
        let b1 = if b.len() > 1 {
            b[1] as int
        } else {
            0
        };
        let b2 = if b.len() > 2 {
            b[2] as int
        } else {
            0
        };
        let group = seq![
            base64_digit(b0 / 4),
            base64_digit((b0 % 4) * 16 + b1 / 16),
            if b.len() > 1 {
                base64_digit((b1 % 16) * 4 + b2 / 64)
            } else {
                '='
            },
            if b.len() > 2 {
                base64_digit(b2 % 64)
            } else {
                '='
            },
        ];
        if b.len() <= 3 {
            group
        } else {
            group + base64_standard(b.skip(3))
        }
    }
}

/// Whether the Base64 text of `n` bytes has a length that a `usize` can hold.
pub open spec fn base64_encodable(n: nat) -> bool {
    (n / 3) * 4 + (if n % 3 > 0 {
        4int
    } else {
        0int
    }) <= usize::MAX
}

/// `Engine::encode` of base64's `general_purpose::STANDARD` engine (the standard alphabet
/// with padding): the text is claimed to be [`base64_standard`] of the bytes. The engine
/// panics when the text's length does not fit a `usize`, which the precondition rules out.
#[verifier::external_body]
fn encode_base64(b: &[u8]) -> (s: String)
    requires
        base64_encodable(b@.len()),
    ensures
        s@ == base64_standard(b@),
{
    base64::engine::general_purpose::STANDARD.encode(b)
}

/// A data URL with the media type `mime` and the Base64 text `encoded`.
pub open spec fn spec_data_url(mime: Seq<char>, encoded: Seq<char>) -> Seq<char> {
    "data:"@ + mime + ";base64,"@ + encoded
}

/// The data URL of an image with the media type `mime` whose Base64 text is `encoded`.
pub fn image_data_url(mime: &str, encoded: &str) -> (u: String)
    ensures
        u@ == spec_data_url(mime@, encoded@),
{
    let mut u = String::from_str("data:");
    u.append(mime);
    u.append(";base64,");
    u.append(encoded);
    u
}

/// Start of the error for an image that could not be read; the path follows.
pub const READ_FAILED_START: &'static str = "failed to read image `";

/// Between the path and the cause of a failed read.
pub const READ_FAILED_CAUSE: &'static str = "`: ";

/// Start of the error for a path whose extension is not an image's; the path follows.
pub const UNSUPPORTED_START: &'static str = "unsupported image extension for `";

/// End of the error for a path whose extension is not an image's.
pub const UNSUPPORTED_END: &'static str = "`";

/// The text of an image that loaded.
pub open spec fn loaded_text(path: Seq<char>, d: ViewImageDetail) -> Seq<char> {
    "Loaded image `"@ + path + "` with detail `"@ + detail_name(d) + "`."@
}

/// The detail level a call asks for: the one it names, or `high`.
pub open spec fn chosen_detail(d: Option<ViewImageDetail>) -> ViewImageDetail {
    match d {
        Some(d) => d,
        None => ViewImageDetail::High,
    }
}

/// What reading a file gave, by its view: the bytes, or why it could not be read.
pub open spec fn read_view(read: Result<Vec<u8>, String>) -> Result<Seq<u8>, Seq<char>> {
    match read {
        Ok(bytes) => Ok(bytes@),
        Err(cause) => Err(cause@),
    }
}

/// The outcome of loading an image, by its view: the data URL, the detail's name and the
/// text of the result, or the error.
pub open spec fn outcome_view(r: Result<(ViewImageOutput, String), String>) -> Result<
    (Seq<char>, Seq<char>, Seq<char>),
    Seq<char>,
> {
    match r {
        Ok((out, text)) => Ok((out.image_url@, out.detail@, text@)),
        Err(e) => Err(e@),
    }
}

/// The outcome of loading the image at `path` with the detail `detail`, given what reading
/// the file gave: a failed read is reported first; then a path whose extension is not that
/// of a known image; else the result holds the bytes as a data URL and the detail's name.
pub open spec fn spec_view_image(
    path: Seq<char>,
    detail: Option<ViewImageDetail>,
    read: Result<Seq<u8>, Seq<char>>,
    windows: bool,
) -> Result<(Seq<char>, Seq<char>, Seq<char>), Seq<char>> {
    match read {
        Err(cause) => Err(READ_FAILED_START@ + path + READ_FAILED_CAUSE@ + cause),
        Ok(bytes) => match spec_mime_type(path, windows) {
            None => Err(UNSUPPORTED_START@ + path + UNSUPPORTED_END@),
            Some(mime) => Ok(
                (
                    spec_data_url(mime, base64_standard(bytes)),
                    detail_name(chosen_detail(detail)),
                    loaded_text(path, chosen_detail(detail)),
                ),
            ),
        },
    }
}

/// The outcome of loading the image at `path` with the detail `detail`, given what reading
/// the file gave (its bytes, or why it could not be read): the result and its text, or the
/// error, as [`spec_view_image`] says. The path is read as a Windows path where `windows`
/// holds, else as a Unix path.
pub fn view_image_outcome(
    path: &str,
    detail: Option<ViewImageDetail>,
    read: Result<Vec<u8>, String>,
    windows: bool,
) -> (r: Result<(ViewImageOutput, String), String>)
    requires
        read matches Ok(b) ==> base64_encodable(b@.len()),
    ensures
        outcome_view(r) == spec_view_image(path@, detail, read_view(read), windows),
{
    let d = match detail {
        Some(d) => d,
        None => ViewImageDetail::High,
    };
    let bytes = match read {
        Ok(bytes) => bytes,
        Err(cause) => {
            let mut e = String::from_str(READ_FAILED_START);
            e.append(path);
            e.append(READ_FAILED_CAUSE);
            e.append(cause.as_str());
            return Err(e);
        },
    };
    let mime = match mime_type_for_path(path, windows) {
        Some(m) => m,
        None => {
            let mut e = String::from_str(UNSUPPORTED_START);
            e.append(path);
            e.append(UNSUPPORTED_END);
            return Err(e);
        },
    };
    let encoded = encode_base64(bytes.as_slice());
    let output = ViewImageOutput {
        image_url: image_data_url(mime, encoded.as_str()),
        detail: String::from_str(d.as_str()),
    };
    let mut text = String::from_str("Loaded image `");
    text.append(path);
    text.append("` with detail `");
    text.append(d.as_str());
    text.append("`.");
    Ok((output, text))
}

/// Loading an image depends on nothing but its inputs: two loads of the same path with the
/// same detail, on the same platform, from the same read of the file, have the same outcome.
pub proof fn law_view_image_is_idempotent(
    path: Seq<char>,
    detail: Option<ViewImageDetail>,
    read: Result<Seq<u8>, Seq<char>>,
    windows: bool,
    first: Result<(ViewImageOutput, String), String>,
    second: Result<(ViewImageOutput, String), String>,
)
    requires
        outcome_view(first) == spec_view_image(path, detail, read, windows),
        outcome_view(second) == spec_view_image(path, detail, read, windows),
    ensures
        outcome_view(first) == outcome_view(second),
{
}

/// A loaded image carries the detail level that the call names, `original` or `high`,
/// and `high` when the call names none; the text of the result names the same level.
pub proof fn law_loaded_image_has_the_named_detail(
    path: Seq<char>,
    detail: Option<ViewImageDetail>,
    bytes: Seq<u8>,
    windows: bool,
)
    requires
        spec_mime_type(path, windows) is Some,
    ensures
        spec_view_image(path, detail, Ok(bytes), windows) matches Ok((_, name, text)) && name == (
        match detail {
            Some(ViewImageDetail::Original) => "original"@,
            _ => "high"@,
        }) && text == "Loaded image `"@ + path + "` with detail `"@ + name + "`."@,
{
}

} // verus!
