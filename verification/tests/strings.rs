use gltf_import::path::extension;
use gltf_import::text::{bytes_eq, split_once, str_eq};

#[test]
fn strings_are_compared_by_their_characters() {
    assert!(str_eq("image/png", "image/png"));
    assert!(!str_eq("image/png", "image/jpeg"));
    assert!(!str_eq("image/png", "image/pn"));
    assert!(str_eq("", ""));
    assert!(str_eq("żółw", "żółw"));
    assert!(!str_eq("żółw", "żółv"));
    assert!(bytes_eq(b"abc", b"abc"));
    assert!(!bytes_eq(b"abc", b"abd"));
    assert!(!bytes_eq(b"abc", b"abcd"));
}

#[test]
fn strings_are_split_at_the_first_separator() {
    assert_eq!(split_once("a;base64,b;base64,c", ";base64,"), Some(("a", "b;base64,c")));
    assert_eq!(split_once(";base64,", ";base64,"), Some(("", "")));
    assert_eq!(split_once("a;base64", ";base64,"), None);
    assert_eq!(split_once("", ";base64,"), None);
    assert_eq!(split_once("żó→łw→", "→"), Some(("żó", "łw→")));
    assert_eq!(split_once("aaab", "aab"), Some(("a", "")));
}

#[test]
fn an_extension_follows_the_last_dot_of_a_file_name() {
    assert_eq!(extension(b"albedo.png"), Some(&b"png"[..]));
    assert_eq!(extension(b"albedo.tar.gz"), Some(&b"gz"[..]));
    assert_eq!(extension(b"albedo"), None);
    assert_eq!(extension(b".png"), None);
    assert_eq!(extension(b".a.png"), Some(&b"png"[..]));
    assert_eq!(extension(b"albedo."), Some(&b""[..]));
    assert_eq!(extension(b""), None);
    assert_eq!(extension(b"."), None);
    assert_eq!(extension(b"..."), Some(&b""[..]));
    assert_eq!(extension(b"\xff.png"), Some(&b"png"[..]));
}

#[test]
fn an_extension_is_what_the_standard_library_finds() {
    for name in ["b.png", ".png", "b.", "b..png", "a", "...", ".a.b", "b.jpeg", "a b.c d", "x.y.z"] {
        let expected = std::path::Path::new(name).extension().and_then(|s| s.to_str());
        assert_eq!(extension(name.as_bytes()), expected.map(|s| s.as_bytes()), "{name}");
    }
}
