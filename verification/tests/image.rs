use codexify::view_image::{image_data_url, mime_type_for_path, view_image_outcome, ViewImageDetail};

#[test]
fn view_image_gives_png_data_url() {
    let (out, text) = view_image_outcome("/tmp/codexify-view-image.png", None, Ok(vec![137, 80, 78, 71]), false).unwrap();
    assert!(out.image_url.starts_with("data:image/png;base64,"));
    assert_eq!(out.image_url, "data:image/png;base64,iVBORw==");
    assert_eq!(out.detail, "high");
    assert_eq!(text, "Loaded image `/tmp/codexify-view-image.png` with detail `high`.");
}

#[test]
fn view_image_errors() {
    assert_eq!(
        view_image_outcome("a.png", Some(ViewImageDetail::Original), Err("not found".to_string()), false).unwrap_err(),
        "failed to read image `a.png`: not found"
    );
    assert_eq!(
        view_image_outcome("a.txt", None, Ok(vec![1]), false).unwrap_err(),
        "unsupported image extension for `a.txt`"
    );
    let (out, _) = view_image_outcome("A.JPEG", Some(ViewImageDetail::Original), Ok(vec![]), false).unwrap();
    assert_eq!(out.image_url, "data:image/jpeg;base64,");
    assert_eq!(out.detail, "original");
    assert_eq!(ViewImageDetail::High.as_str(), "high");
}

#[test]
fn mime_types_follow_path_extension() {
    assert_eq!(mime_type_for_path("x.jpg", false), Some("image/jpeg"));
    assert_eq!(mime_type_for_path("dir/x.JpG", false), Some("image/jpeg"));
    assert_eq!(mime_type_for_path("x.png", false), Some("image/png"));
    assert_eq!(mime_type_for_path("x.gif", false), Some("image/gif"));
    assert_eq!(mime_type_for_path("x.webp", false), Some("image/webp"));
    assert_eq!(mime_type_for_path("x.bmp", false), Some("image/bmp"));
    assert_eq!(mime_type_for_path("x.tar.png", false), Some("image/png"));
    assert_eq!(mime_type_for_path("a/b.png/", false), Some("image/png"));
    assert_eq!(mime_type_for_path("a/b.png/.", false), Some("image/png"));
    assert_eq!(mime_type_for_path(".png", false), None);
    assert_eq!(mime_type_for_path("a/.png", false), None);
    assert_eq!(mime_type_for_path("a.png/..", false), None);
    assert_eq!(mime_type_for_path("png", false), None);
    assert_eq!(mime_type_for_path("", false), None);
    assert_eq!(mime_type_for_path("/", false), None);
    assert_eq!(mime_type_for_path("x.svg", false), None);
    for p in [
        "x.png", "a/b.png/", "a/b.png/.", ".png", "a.png/..", "a..png", "a.", "..", ".", "/x.GIF",
        "a\\.png", "C:\\x.bmp", "./y.webp",
    ] {
        let ext = std::path::Path::new(p).extension().and_then(|e| e.to_str()).map(|e| e.to_ascii_lowercase());
        let expect = match ext.as_deref() {
            Some("jpg") | Some("jpeg") => Some("image/jpeg"),
            Some("png") => Some("image/png"),
            Some("gif") => Some("image/gif"),
            Some("webp") => Some("image/webp"),
            Some("bmp") => Some("image/bmp"),
            _ => None,
        };
        assert_eq!(mime_type_for_path(p, false), expect, "{p}");
    }
}

#[test]
fn data_url_joins_parts() {
    assert_eq!(image_data_url("image/gif", "R0lG"), "data:image/gif;base64,R0lG");
}

#[test]
fn windows_paths_split_at_both_separators_and_prefixes() {
    let cases: [(&str, Option<&str>); 22] = [
        ("a\\.png", None),
        ("a\\b.png", Some("image/png")),
        ("C:\\dir\\x.PNG", Some("image/png")),
        ("C:x.png", Some("image/png")),
        ("C:.png", None),
        ("a/b\\c.gif", Some("image/gif")),
        ("dir\\x.png\\.", Some("image/png")),
        ("dir\\x.png\\..", None),
        ("\\\\server\\share", None),
        ("\\\\server\\x.png", None),
        ("//server/share/x.webp", Some("image/webp")),
        ("\\\\server\\", None),
        ("\\\\server.png", Some("image/png")),
        ("\\\\.\\COM1\\x.bmp", Some("image/bmp")),
        ("\\\\.\\x.bmp", None),
        ("\\\\?\\C:\\a/b.png", Some("image/png")),
        ("\\\\?\\C:\\a.png\\.", None),
        ("\\\\?\\C:/.png", None),
        ("\\\\?\\UNC\\srv\\shr\\p.jpg", Some("image/jpeg")),
        ("\\\\?\\UNC\\srv\\p.jpg", None),
        ("\\\\?\\pre\\x.gif", Some("image/gif")),
        ("\\\\?\\x.gif", None),
    ];
    for (p, expect) in cases {
        assert_eq!(mime_type_for_path(p, true), expect, "{p}");
    }
    assert_eq!(mime_type_for_path("a\\.png", false), Some("image/png"));
    assert_eq!(
        view_image_outcome("C:\\img\\.gif", None, Ok(vec![1]), true).unwrap_err(),
        "unsupported image extension for `C:\\img\\.gif`"
    );
    let (out, _) = view_image_outcome("C:\\img\\x.gif", None, Ok(vec![1]), true).unwrap();
    assert_eq!(out.image_url, "data:image/gif;base64,AQ==");
}
