use stress::errors::HttpError;
use stress::extract_ext;
use stress::extract_option;
use stress::import_mime_map;
use stress::import_status_messages;
use stress::strutil::str_eq;
use stress::strutil::trim_str;
use stress::strutil::u64_to_string;
use stress::strutil::upper_eq;

#[test]
fn extract_extention_helper() {
    assert_eq!(extract_ext("./main.rs"), "rs");
    assert_eq!(extract_ext(".script.sh"), "sh");
    assert_eq!(extract_ext("file.md"), "md");
    assert_eq!(extract_ext("poi.nte.d.file.buzz"), "buzz");
}

#[test]
fn extract_ext_without_dot_returns_whole_path() {
    assert_eq!(extract_ext("Makefile"), "Makefile");
    assert_eq!(extract_ext(""), "");
    assert_eq!(extract_ext("trailing."), "");
}

#[test]
fn extract_option_unwraps_and_rejects() {
    assert_eq!(extract_option(Some(7u32)).unwrap(), 7);
    let e = extract_option::<u32>(None).unwrap_err();
    assert!(matches!(e, HttpError::App(_)));
}

#[test]
fn status_table_lookups() {
    let t = import_status_messages();
    assert_eq!(t.lookup(200), "OK");
    assert_eq!(t.lookup(404), "Not Found");
    assert_eq!(t.lookup(500), "Internal Server Error");
    assert_eq!(t.lookup(301), "Moved Permanently");
    assert_eq!(t.lookup(418), "I'm a teapot");
    // unknown codes resolve to the empty phrase, not an error
    assert_eq!(t.lookup(999), "");
}

#[test]
fn mime_table_lookups() {
    let t = import_mime_map();
    assert_eq!(t.lookup("html"), "text/html");
    assert_eq!(t.lookup("css"), "text/css");
    assert_eq!(t.lookup("png"), "image/png");
    // unmapped extensions fall back to text/plain
    assert_eq!(t.lookup("xyz"), "text/plain");
    assert_eq!(t.lookup(""), "text/plain");
}

#[test]
fn decimal_rendering() {
    assert_eq!(u64_to_string(0), "0");
    assert_eq!(u64_to_string(7), "7");
    assert_eq!(u64_to_string(200), "200");
    assert_eq!(u64_to_string(65535), "65535");
    assert_eq!(u64_to_string(1000000), "1000000");
}

#[test]
fn string_helpers() {
    assert!(str_eq("abc", "abc"));
    assert!(!str_eq("abc", "abd"));
    assert!(!str_eq("abc", "ab"));
    assert!(upper_eq("get", "GET"));
    assert!(upper_eq("GeT", "GET"));
    assert!(!upper_eq("got", "GET"));
    assert_eq!(trim_str("  x y\t"), "x y");
    assert_eq!(trim_str("plain"), "plain");
    assert_eq!(trim_str(" \t "), "");
}
