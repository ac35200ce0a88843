use extract_firmware_nouveau::version::{
    find_version, is_valid_revision, starts_space, version_of_line,
};

const SPACES: [&str; 25] = [
    "\t", "\n", "\u{b}", "\u{c}", "\r", " ", "\u{85}", "\u{a0}", "\u{1680}", "\u{2000}",
    "\u{2001}", "\u{2002}", "\u{2003}", "\u{2004}", "\u{2005}", "\u{2006}", "\u{2007}",
    "\u{2008}", "\u{2009}", "\u{200a}", "\u{2028}", "\u{2029}", "\u{202f}", "\u{205f}",
    "\u{3000}",
];

const NO_SPACES: [&str; 16] = [
    "a", "\u{8}", "\u{e}", "\u{1f}", "!", "\u{84}", "\u{86}", "\u{9f}", "\u{a1}", "\u{e9}",
    "\u{167f}", "\u{1681}", "\u{1fff}", "\u{200b}", "\u{2060}", "\u{3001}",
];

#[test]
fn revisions_are_numbers_with_dots() {
    assert!(is_valid_revision(b"535.113.01"));
    assert!(is_valid_revision(b"1.2"));
    assert!(is_valid_revision(b"0.0"));
    assert!(is_valid_revision(b"550.40.07.1"));
    assert!(is_valid_revision(b"00001.00002"));
}

#[test]
fn a_single_number_is_no_revision() {
    assert!(!is_valid_revision(b"535"));
    assert!(!is_valid_revision(b"0"));
    assert!(!is_valid_revision(b""));
}

#[test]
fn dots_stand_between_numbers() {
    assert!(!is_valid_revision(b"."));
    assert!(!is_valid_revision(b".1"));
    assert!(!is_valid_revision(b"1."));
    assert!(!is_valid_revision(b"1..2"));
    assert!(!is_valid_revision(b"1.2."));
    assert!(!is_valid_revision(b".1.2"));
    assert!(!is_valid_revision(b"1.2..3"));
}

#[test]
fn nothing_but_digits_and_dots() {
    assert!(!is_valid_revision(b"1.2a"));
    assert!(!is_valid_revision(b"a1.2"));
    assert!(!is_valid_revision(b"1.2 "));
    assert!(!is_valid_revision(b" 1.2"));
    assert!(!is_valid_revision(b"1.2\n"));
    assert!(!is_valid_revision(b"1,2"));
    assert!(!is_valid_revision(b"1.-2"));
    assert!(!is_valid_revision("1.٢".as_bytes()));
}

#[test]
fn version_is_the_word_behind_the_label() {
    assert_eq!(
        version_of_line(b"NVIDIA_VERSION = 535.113.01"),
        Some(b"535.113.01".to_vec())
    );
    assert_eq!(
        version_of_line(b"NVIDIA_VERSION = 535.113.01 # released"),
        Some(b"535.113.01".to_vec())
    );
    assert_eq!(
        version_of_line(b"NVIDIA_VERSION = beta\t1"),
        Some(b"beta".to_vec())
    );
    assert_eq!(version_of_line(b"NVIDIA_VERSION = x"), Some(b"x".to_vec()));
}

#[test]
fn version_line_begins_with_the_label() {
    assert_eq!(version_of_line(b" NVIDIA_VERSION = 535.113.01"), None);
    assert_eq!(version_of_line(b"#NVIDIA_VERSION = 535.113.01"), None);
    assert_eq!(version_of_line(b"NVIDIA_VERSION=535.113.01"), None);
    assert_eq!(version_of_line(b"NVIDIA_VERSION =  535.113.01"), None);
    assert_eq!(version_of_line(b"NVIDIA_VERSION = "), None);
    assert_eq!(version_of_line(b"NVIDIA_VERSION ="), None);
    assert_eq!(version_of_line(b""), None);
}

#[test]
fn first_line_with_a_version_counts() {
    let text = b"# comment\nNVIDIA_BUILD = 1\nNVIDIA_VERSION = \nNVIDIA_VERSION = 535.113.01\nNVIDIA_VERSION = 1.2\n";
    assert_eq!(find_version(text), Some(b"535.113.01".to_vec()));
}

#[test]
fn version_line_may_end_in_any_way() {
    assert_eq!(
        find_version(b"NVIDIA_VERSION = 535.113.01"),
        Some(b"535.113.01".to_vec())
    );
    assert_eq!(
        find_version(b"a\r\nNVIDIA_VERSION = 535.113.01\r\nb\r\n"),
        Some(b"535.113.01".to_vec())
    );
    assert_eq!(
        find_version(b"\n\nNVIDIA_VERSION = 535.113.01\n"),
        Some(b"535.113.01".to_vec())
    );
}

#[test]
fn text_without_a_version() {
    assert_eq!(find_version(b""), None);
    assert_eq!(find_version(b"\n"), None);
    assert_eq!(find_version(b"NVIDIA_VERSION\n= 535.113.01\n"), None);
    assert_eq!(find_version(b"x NVIDIA_VERSION = 535.113.01\n"), None);
}

#[test]
fn every_white_space_character_ends_the_word() {
    for space in SPACES {
        let line = format!("NVIDIA_VERSION = 1.2{}x", space);
        assert_eq!(
            version_of_line(line.as_bytes()),
            Some(b"1.2".to_vec()),
            "behind {:?}",
            space
        );
    }
}

#[test]
fn no_white_space_character_may_follow_the_label() {
    for space in SPACES {
        let line = format!("NVIDIA_VERSION = {}1.2", space);
        assert_eq!(version_of_line(line.as_bytes()), None, "with {:?}", space);
        let line = format!("NVIDIA_VERSION = {}", space);
        assert_eq!(version_of_line(line.as_bytes()), None, "with {:?}", space);
        let text = format!("NVIDIA_VERSION = {}\nNVIDIA_VERSION = 3.4{}5\n", space, space);
        assert_eq!(find_version(text.as_bytes()), Some(b"3.4".to_vec()), "with {:?}", space);
    }
}

#[test]
fn other_characters_belong_to_the_word() {
    for other in NO_SPACES {
        let word = format!("1.2{}x", other);
        let line = format!("NVIDIA_VERSION = {} y", word);
        assert_eq!(
            version_of_line(line.as_bytes()),
            Some(word.as_bytes().to_vec()),
            "with {:?}",
            other
        );
        let line = format!("NVIDIA_VERSION = {}", other);
        assert_eq!(
            version_of_line(line.as_bytes()),
            Some(other.as_bytes().to_vec()),
            "with {:?}",
            other
        );
    }
}

#[test]
fn white_space_needs_all_its_bytes() {
    assert_eq!(
        version_of_line(&[b"NVIDIA_VERSION = 1".as_slice(), &[0xc2]].concat()),
        Some(vec![b'1', 0xc2])
    );
    assert_eq!(
        version_of_line(&[b"NVIDIA_VERSION = 1".as_slice(), &[0xe2, 0x80]].concat()),
        Some(vec![b'1', 0xe2, 0x80])
    );
    assert_eq!(
        version_of_line(&[b"NVIDIA_VERSION = ".as_slice(), &[0xe3, 0x80]].concat()),
        Some(vec![0xe3, 0x80])
    );
}

#[test]
fn white_space_is_told_where_it_begins() {
    for space in SPACES {
        let text = format!("a{}b", space);
        let bytes = text.as_bytes();
        assert!(!starts_space(bytes, 0), "in {:?}", text);
        assert!(starts_space(bytes, 1), "in {:?}", text);
        assert!(!starts_space(bytes, bytes.len() - 1), "in {:?}", text);
    }
    for other in NO_SPACES {
        let text = format!("{}b", other);
        assert!(!starts_space(text.as_bytes(), 0), "in {:?}", text);
    }
    assert!(!starts_space(&[0xa0], 0));
    assert!(!starts_space(&[0xc2, 0xa0], 1));
    assert!(!starts_space(&[0xe2, 0x80, 0x8b], 0));
    assert!(starts_space(&[0xe2, 0x80, 0x8a], 0));
    assert!(!starts_space(&[0xe2, 0x80, 0x7f], 0));
}
