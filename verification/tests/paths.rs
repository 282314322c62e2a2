use std::path::Path;
use wiki_server::mime::{guess_content_type, html, textual};
use wiki_server::path::{
    extension_of, has_parent, is_space_char, join, sanitize_path, trim_bounds,
};
use wiki_server::text::{from_chars, to_chars};

fn chars(s: &str) -> Vec<char> {
    to_chars(s)
}

#[test]
fn sanitizer_refuses_parent_segments() {
    assert_eq!(sanitize_path("../secret"), None);
    assert_eq!(sanitize_path("a/../../etc/passwd"), None);
    assert_eq!(sanitize_path("a/.."), None);
    assert_eq!(sanitize_path(".."), None);
    assert_eq!(sanitize_path("  ../x  "), None);
    assert_eq!(sanitize_path("a//../b"), None);
}

#[test]
fn sanitizer_refuses_absolute_paths() {
    assert_eq!(sanitize_path("/etc/passwd"), None);
    assert_eq!(sanitize_path("/"), None);
    assert_eq!(sanitize_path("   /index.html"), None);
}

#[test]
fn sanitizer_refuses_empty_paths() {
    assert_eq!(sanitize_path(""), None);
    assert_eq!(sanitize_path("   "), None);
    assert_eq!(sanitize_path("\t\n"), None);
}

#[test]
fn sanitizer_returns_the_trimmed_path() {
    assert_eq!(sanitize_path("docs/page.html"), Some("docs/page.html".to_string()));
    assert_eq!(sanitize_path("  docs/page.html \n"), Some("docs/page.html".to_string()));
    assert_eq!(sanitize_path("a/./b"), Some("a/./b".to_string()));
    assert_eq!(sanitize_path("\u{3000}x\u{a0}"), Some("x".to_string()));
    assert_eq!(sanitize_path("a b"), Some("a b".to_string()));
}

#[test]
fn sanitizer_accepts_dots_that_are_no_parent_segment() {
    assert_eq!(sanitize_path("..foo/bar"), Some("..foo/bar".to_string()));
    assert_eq!(sanitize_path("a/..b"), Some("a/..b".to_string()));
    assert_eq!(sanitize_path("a/b.."), Some("a/b..".to_string()));
    assert_eq!(sanitize_path("..."), Some("...".to_string()));
    assert_eq!(sanitize_path("."), Some(".".to_string()));
}

#[test]
fn sanitizer_agrees_with_std_paths() {
    let inputs = [
        "", " ", "a", "a/b", "../a", "a/../b", "a/..", "/a", "..a", "a..", "a/./b", "./..", "a//b",
        " a/b ", "a/b/", "..//", "x/.../y", "\u{2003}a/..\u{2003}",
    ];
    for raw in inputs {
        let trimmed = raw.trim();
        let expected = if trimmed.is_empty()
            || Path::new(trimmed).is_absolute()
            || Path::new(trimmed).components().any(|c| c == std::path::Component::ParentDir)
        {
            None
        } else {
            Some(trimmed.to_string())
        };
        assert_eq!(sanitize_path(raw), expected, "input {:?}", raw);
    }
}

#[test]
fn trim_bounds_match_std_trim() {
    for s in ["", "  ", " a ", "a", "\ta b\r\n", "\u{85}x\u{1680}", "\u{200b}x"] {
        let c = chars(s);
        let (lo, hi) = trim_bounds(&c);
        assert_eq!(from_chars(&c[lo..hi]), s.trim(), "input {:?}", s);
    }
}

#[test]
fn has_parent_finds_whole_segments_only() {
    assert!(has_parent(&chars("..")));
    assert!(has_parent(&chars("a/../b")));
    assert!(!has_parent(&chars("a/..b")));
    assert!(!has_parent(&chars("")));
    assert!(!has_parent(&chars(".")));
}

#[test]
fn join_puts_one_separator_between() {
    assert_eq!(from_chars(&join(&chars("Data"), &chars("a/b.md"))), "Data/a/b.md");
    assert_eq!(from_chars(&join(&chars("Data/"), &chars("a"))), "Data/a");
    assert_eq!(from_chars(&join(&chars("Data"), &chars(""))), "Data/");
    assert_eq!(from_chars(&join(&chars(""), &chars("a"))), "a");
    assert_eq!(from_chars(&join(&chars("Data"), &chars("/abs"))), "/abs");
}

#[test]
fn join_agrees_with_std_paths() {
    for (base, rel) in [("Data", "x"), ("Data", ""), ("a/b/", "c"), ("", "c"), ("a", "/c"), ("Frontend/static", "css/site.css")] {
        let expected = Path::new(base).join(rel);
        assert_eq!(from_chars(&join(&chars(base), &chars(rel))), expected.to_str().unwrap());
    }
}

#[test]
fn extension_agrees_with_std_paths() {
    let inputs = [
        "", "a", "a.txt", "a.tar.gz", ".bashrc", ".bashrc.bak", "dir.d/file", "dir/file.png",
        "a.", "a..", "..", ".", "a/..", "a/.", "a.md/", "a.md/.", "a.md//", "/", "./", "x/.hidden",
        "a/b.c/d.e.f", "Data/", "...", "a/...", "a b.c d", "a.JPG",
    ];
    for p in inputs {
        let expected = Path::new(p).extension().and_then(|e| e.to_str()).map(|e| e.to_string());
        let got = extension_of(&chars(p)).map(|e| from_chars(&e));
        assert_eq!(got, expected, "path {:?}", p);
    }
}

#[test]
fn content_type_table() {
    assert_eq!(guess_content_type("a.html"), "text/html; charset=utf-8");
    assert_eq!(guess_content_type("a.htm"), "text/html; charset=utf-8");
    assert_eq!(guess_content_type("a.md"), "text/html; charset=utf-8");
    assert_eq!(guess_content_type("a.css"), "text/css; charset=utf-8");
    assert_eq!(guess_content_type("a.js"), "application/javascript; charset=utf-8");
    assert_eq!(guess_content_type("a.json"), "application/json; charset=utf-8");
    assert_eq!(guess_content_type("a.png"), "image/png");
    assert_eq!(guess_content_type("a.jpg"), "image/jpeg");
    assert_eq!(guess_content_type("a.jpeg"), "image/jpeg");
    assert_eq!(guess_content_type("a.gif"), "image/gif");
    assert_eq!(guess_content_type("a.svg"), "image/svg+xml");
    assert_eq!(guess_content_type("a.webp"), "image/webp");
    assert_eq!(guess_content_type("a.txt"), "text/plain; charset=utf-8");
    assert_eq!(guess_content_type("a.pdf"), "application/pdf");
    assert_eq!(guess_content_type("a.zip"), "application/zip");
}

#[test]
fn content_type_falls_back_to_binary() {
    assert_eq!(guess_content_type("a.exe"), "application/octet-stream");
    assert_eq!(guess_content_type("a"), "application/octet-stream");
    assert_eq!(guess_content_type(""), "application/octet-stream");
    assert_eq!(guess_content_type(".html"), "application/octet-stream");
    assert_eq!(guess_content_type("a.HTML"), "application/octet-stream");
    assert_eq!(guess_content_type("dir.html/file"), "application/octet-stream");
    assert_eq!(guess_content_type("a.tar.gz"), "application/octet-stream");
}

#[test]
fn content_type_is_the_same_on_every_call() {
    for p in ["x.png", "x.unknown", "x", "dir/x.md"] {
        assert_eq!(guess_content_type(p), guess_content_type(p));
    }
    assert_eq!(guess_content_type("one.css"), guess_content_type("other/two.css"));
}

#[test]
fn content_type_classes() {
    assert!(textual("text/html; charset=utf-8"));
    assert!(textual("text/css; charset=utf-8"));
    assert!(textual("application/javascript; charset=utf-8"));
    assert!(textual("application/json; charset=utf-8"));
    assert!(!textual("image/png"));
    assert!(!textual("image/svg+xml"));
    assert!(!textual("application/octet-stream"));
    assert!(!textual(""));
    assert!(html("text/html; charset=utf-8"));
    assert!(!html("text/html"));
    assert!(!html("text/plain; charset=utf-8"));
}

#[test]
fn white_space_is_what_std_calls_white_space() {
    let mut code: u32 = 0;
    while code <= 0x10FFFF {
        if let Some(c) = char::from_u32(code) {
            assert_eq!(is_space_char(c), c.is_whitespace(), "U+{:04X}", code);
        }
        code += 1;
    }
}
