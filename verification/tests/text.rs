use moltis_core::file_name::{extension, file_name, host_extension, Separators};
use moltis_core::megabytes::push_megabytes;
use moltis_core::numeral::{parse_u64, push_decimal, push_signed_decimal};
use moltis_core::text::{
    find_line_after_prefix, is_white_space, lines, same_text, strip_prefix, to_ascii_lowercase, trim,
};
use std::path::{is_separator, Path};

#[test]
fn white_space_is_that_of_unicode() {
    for code in 0..=0x10FFFFu32 {
        if let Some(c) = char::from_u32(code) {
            assert_eq!(is_white_space(c), c.is_whitespace());
        }
    }
}

#[test]
fn trimming() {
    for s in ["", " ", "a", " a", "a ", "\u{3000}a b\u{85}\n", "\t \r\n", "é\u{a0}", "\u{200b} x"] {
        assert_eq!(trim(s), s.trim());
    }
}

#[test]
fn splitting_into_lines() {
    for s in [
        "", "\n", "a", "a\n", "a\nb", "a\r\nb\r\n", "a\r", "a\r\r\nb", "\r\n", "\n\n", "a\rb\nc", "é\n\né",
    ] {
        assert_eq!(lines(s), s.lines().collect::<Vec<_>>());
    }
}

#[test]
fn prefixes() {
    assert_eq!(strip_prefix("héllo", "hé"), Some("llo"));
    assert_eq!(strip_prefix("héllo", "he"), None);
    assert_eq!(strip_prefix("h", "hé"), None);
    assert_eq!(strip_prefix("h", ""), Some("h"));
    assert_eq!(find_line_after_prefix("x\nk:1\nk:2", "k:"), Some("1".to_string()));
    assert_eq!(find_line_after_prefix("x\n k:1", "k:"), None);
}

#[test]
fn ascii_case() {
    for s in ["", "PNG", "jPeG", "É", "@AZ[`az{"] {
        assert_eq!(to_ascii_lowercase(s), s.to_ascii_lowercase());
    }
    assert!(same_text("é", "é"));
    assert!(!same_text("e", "é"));
}

#[test]
fn numerals_are_read_back() {
    for n in [0u64, 7, 9, 10, 99, 100, 20971520, u64::MAX - 1, u64::MAX] {
        let mut text = String::from("n=");
        push_decimal(&mut text, n);
        assert_eq!(text, format!("n={n}"));
        assert_eq!(parse_u64(&text[2..]), Some(n));
    }
    for n in [0i32, 5, -5, i32::MAX, i32::MIN] {
        let mut text = String::new();
        push_signed_decimal(&mut text, n);
        assert_eq!(text, n.to_string());
    }
}

#[test]
fn reading_numerals() {
    for s in [
        "", "+", "-", "0", "007", "+12", "++1", "-0", "-1", "1 ", " 1", "1a", "١", "18446744073709551615",
        "18446744073709551616", "99999999999999999999999", "000000000000000000000000001",
    ] {
        assert_eq!(parse_u64(s), s.parse::<u64>().ok());
    }
}

#[test]
fn megabytes_round_half_to_even() {
    for (bytes, expected) in [
        (0u64, "0.0"),
        (262144, "0.2"),
        (786432, "0.8"),
        (262145, "0.3"),
        (20971520, "20.0"),
        (u64::MAX, "17592186044416.0"),
    ] {
        let mut text = String::new();
        push_megabytes(&mut text, bytes);
        assert_eq!(text, expected);
        assert_eq!(text, format!("{:.1}", bytes as f64 / (1024.0 * 1024.0)));
    }
}

const SLASHES: Separators = Separators { slash: true, backslash: false };
const BACKSLASHES: Separators = Separators { slash: false, backslash: true };
const BOTH: Separators = Separators { slash: true, backslash: true };

const PATHS: [&str; 38] = [
    "", "/", ".", "..", "a", "/a", "a/", "a//", "a/.", "a/./", "./a", "./.", "a/..", "a/../b.c", "/tmp/foo.png",
    "/tmp/foo.png/", "/tmp/foo.png/.", "/tmp/.png", "/tmp/..png", "...", "a.", "a.tar.gz", "/tmp.d/foo",
    "/tmp/é.JPEG", "//", "/..", "a/...", ".hidden.gif", "a.b/", "a. b", " .x", "C:.png", "C:\\x\\.png", "a\\.png",
    "//server/share.png", "\\\\?\\C:\\a.d/b", "/tmp/10:30.png", "a.b\\c",
];

#[test]
fn file_names_and_extensions() {
    for path in PATHS {
        let reference = Path::new(path);
        assert_eq!(file_name(path, SLASHES), reference.file_name().map(|name| name.to_str().unwrap()));
        assert_eq!(extension(path, SLASHES), reference.extension().map(|ext| ext.to_str().unwrap()));
    }
}

#[test]
fn extensions_on_this_host_are_those_of_the_standard_library() {
    let seps = Separators { slash: is_separator('/'), backslash: is_separator('\\') };
    for path in PATHS {
        let reference = Path::new(path).extension().map(|ext| ext.to_str().unwrap());
        assert_eq!(host_extension(path, seps), reference);
    }
}

#[test]
fn backslashes_separate_on_some_hosts() {
    assert_eq!(extension("a\\.png", SLASHES), Some("png"));
    assert_eq!(extension("a\\.png", BOTH), None);
    assert_eq!(extension("\\dir.d\\b", BOTH), None);
    assert_eq!(extension("\\dir.d\\b", SLASHES), Some("d\\b"));
    assert_eq!(extension("dir/b.gif\\.\\", BOTH), Some("gif"));
    assert_eq!(extension("dir.d/b\\c.gif", BACKSLASHES), Some("gif"));
    assert_eq!(extension("c.gif/b", BACKSLASHES), Some("gif/b"));
    assert_eq!(extension("c.gif/b", BOTH), None);
    assert_eq!(file_name("dir\\..", BOTH), None);
    assert_eq!(file_name("dir\\b.gif", BOTH), Some("b.gif"));
    assert_eq!(file_name("dir\\b.gif", SLASHES), Some("dir\\b.gif"));
}

#[test]
fn plain_paths_are_portable() {
    for path in ["/tmp/foo.png", "./a/..", "/tmp/10:30.png", ".hidden.gif", "a/b.c/.", ""] {
        assert_eq!(host_extension(path, BOTH), host_extension(path, SLASHES));
    }
}

#[test]
fn prefixed_paths_are_left_to_the_standard_library() {
    for path in ["C:\\x\\.png", "C:.png", "C:x.gif", "//server/share.png", "\\\\?\\C:\\a.d/b"] {
        let reference = Path::new(path).extension().map(|ext| ext.to_str().unwrap());
        assert_eq!(host_extension(path, BOTH), reference);
    }
}

#[test]
fn files_keep_their_extension_on_every_host() {
    for dir in ["", "/tmp/", "a.b/", "a.b\\", "\\x\\", "C:\\", "C:\\x.d\\", "C:/x.d/", "C:x.d/", "./", "../"] {
        for (name, ext) in [("a.png", "png"), ("b.tar.GZ", "GZ"), (".hidden.gif", "gif"), ("...", ""), ("é.webp", "webp")] {
            let path = format!("{dir}{name}");
            for seps in [SLASHES, BACKSLASHES, BOTH] {
                assert_eq!(host_extension(&path, seps), Some(ext), "{path}");
            }
        }
    }
}
