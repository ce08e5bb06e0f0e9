use certificate_manager::fzf::{chosen_file, declines_install};
use certificate_manager::text::{is_blank, is_white_space, trimmed};

#[test]
fn trimming_removes_surrounding_white_space() {
    assert_eq!(trimmed("  hello world \n"), "hello world");
    assert_eq!(trimmed("\t\u{3000}x\u{a0}"), "x");
    assert_eq!(trimmed(""), "");
    assert_eq!(trimmed(" \n\t "), "");
    assert_eq!(trimmed("a"), "a");
}

#[test]
fn blank_index_text() {
    assert!(is_blank(""));
    assert!(is_blank(" \n  \r\n"));
    assert!(!is_blank(" {} "));
}

#[test]
fn picked_path_is_trimmed_output() {
    assert_eq!(chosen_file(true, b"/home/u/x.pem\n"), Some("/home/u/x.pem".to_string()));
    assert_eq!(chosen_file(false, b"/home/u/x.pem\n"), None);
    assert_eq!(chosen_file(true, b"  \n"), None);
    assert_eq!(chosen_file(true, b""), None);
    assert_eq!(chosen_file(true, b"/a/\xffb.cer\n"), Some("/a/\u{fffd}b.cer".to_string()));
}

#[test]
fn install_answer() {
    assert!(declines_install("n\n"));
    assert!(declines_install(" No "));
    assert!(declines_install("NO"));
    assert!(!declines_install("\n"));
    assert!(!declines_install("y"));
    assert!(!declines_install("nope"));
}

#[test]
fn white_space_agrees_with_std() {
    for u in 0u32..=0x10FFFF {
        if let Some(c) = char::from_u32(u) {
            assert_eq!(is_white_space(c), c.is_whitespace(), "char {:#x}", u);
        }
    }
}
