use installer_package::manifest::{decode_chars, ComponentPart, PartKind};
use installer_package::text::to_chars;

fn part(kind: PartKind, path: &str) -> Option<ComponentPart> {
    Some(ComponentPart { kind, path: path.to_string() })
}

#[test]
fn decode_file_directive() {
    assert_eq!(ComponentPart::decode("file bin/rustc"), part(PartKind::File, "bin/rustc"));
}

#[test]
fn decode_dir_directive() {
    assert_eq!(ComponentPart::decode("dir share/doc"), part(PartKind::Dir, "share/doc"));
}

#[test]
fn decode_keeps_the_path_verbatim() {
    assert_eq!(
        ComponentPart::decode("file share/doc/My Notes.txt"),
        part(PartKind::File, "share/doc/My Notes.txt")
    );
    assert_eq!(ComponentPart::decode("dir a//b/../c/"), part(PartKind::Dir, "a//b/../c/"));
    assert_eq!(ComponentPart::decode("file lib/é.so "), part(PartKind::File, "lib/é.so "));
}

#[test]
fn decode_takes_any_whitespace_between_keyword_and_path() {
    assert_eq!(ComponentPart::decode("file\tbin/rustc"), part(PartKind::File, "bin/rustc"));
    assert_eq!(ComponentPart::decode("dir   share"), part(PartKind::Dir, "share"));
    assert_eq!(ComponentPart::decode("  file bin/x"), part(PartKind::File, "bin/x"));
}

#[test]
fn decode_rejects_unknown_keywords() {
    assert_eq!(ComponentPart::decode("link bin/rustc"), None);
    assert_eq!(ComponentPart::decode("File bin/rustc"), None);
    assert_eq!(ComponentPart::decode("files bin/rustc"), None);
    assert_eq!(ComponentPart::decode("fil bin/rustc"), None);
    assert_eq!(ComponentPart::decode("directory share"), None);
    assert_eq!(ComponentPart::decode("file:bin/rustc"), None);
}

#[test]
fn decode_rejects_a_missing_path() {
    assert_eq!(ComponentPart::decode("file"), None);
    assert_eq!(ComponentPart::decode("dir"), None);
    assert_eq!(ComponentPart::decode("file "), None);
    assert_eq!(ComponentPart::decode("dir \t "), None);
    assert_eq!(ComponentPart::decode(""), None);
    assert_eq!(ComponentPart::decode("   "), None);
}

#[test]
fn decode_chars_gives_the_start_of_the_path() {
    assert_eq!(decode_chars(&to_chars("file bin/rustc")), Some((PartKind::File, 5)));
    assert_eq!(decode_chars(&to_chars(" dir  share")), Some((PartKind::Dir, 6)));
    assert_eq!(decode_chars(&to_chars("dir")), None);
}
