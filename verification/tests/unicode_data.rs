use rustybuzz::tag::Tag;
use rustybuzz::unicode;

#[test]
fn tag_packs_bytes_most_significant_first() {
    let tag = Tag::from_bytes(b"liga");
    assert_eq!(tag.as_u32(), 0x6c69_6761);
    assert_eq!(tag.to_bytes(), *b"liga");
    assert!(!tag.is_null());
    assert!(Tag(0).is_null());
}

#[test]
fn script_of_latin_and_arabic_letters() {
    assert_eq!(unicode::script('a' as u32).0, Tag::from_bytes(b"Latn"));
    assert_eq!(unicode::script(0x0627).0, Tag::from_bytes(b"Arab"));
    assert_eq!(unicode::script(' ' as u32).0, Tag::from_bytes(b"Zyyy"));
    assert_eq!(unicode::script(0xD800).0, Tag::from_bytes(b"Zzzz"));
}

#[test]
fn combining_class_and_marks() {
    assert_eq!(unicode::canonical_combining_class(0x0301), 230);
    assert_eq!(unicode::canonical_combining_class(0x0323), 220);
    assert_eq!(unicode::canonical_combining_class('a' as u32), 0);
    assert!(unicode::is_combining_mark(0x0301));
    assert!(!unicode::is_combining_mark('a' as u32));
    assert!(!unicode::is_combining_mark(0xDFFF));
}

#[test]
fn decomposition_and_composition() {
    assert_eq!(unicode::decompose(0x00E9), vec![0x0065, 0x0301]);
    assert_eq!(unicode::decompose(0x1EA5), vec![0x0061, 0x0302, 0x0301]);
    assert_eq!(unicode::decompose('a' as u32), vec!['a' as u32]);
    assert_eq!(unicode::decompose(0xD800), vec![0xD800]);
    assert_eq!(unicode::compose(0x0065, 0x0301), Some(0x00E9));
    assert_eq!(unicode::compose(0x0065, 0x0066), None);
    assert_eq!(unicode::compose(0xD800, 0x0301), None);
}
