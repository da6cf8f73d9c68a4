use k8s_job_dispatcher::numerals::{decimal_of, hex_of};
use k8s_job_dispatcher::text::{
    byte_count, chars_of, fitting_prefix, same_text, string_of, text_less, width_of,
};
use k8s_job_dispatcher::trim::{is_white, trim_end_of, trim_of, trim_white_of};
use k8s_job_dispatcher::words::fold_whitespace;

const SAMPLES: [&str; 12] = [
    "", "a", "ab", "b", "a b", " a ", "é", "eé", "😀", "\u{ffff}", "--a--", "a\u{3000}b\n",
];

#[test]
fn whitespace_is_what_unicode_says() {
    for code in 0..=0x10ffffu32 {
        if let Some(c) = char::from_u32(code) {
            assert_eq!(is_white(c), c.is_whitespace(), "{code:x}");
            assert_eq!(width_of(c), c.len_utf8(), "{code:x}");
        }
    }
}

#[test]
fn strings_are_ordered_like_their_bytes() {
    for a in SAMPLES {
        for b in SAMPLES {
            assert_eq!(text_less(a, b), a < b, "{a:?} {b:?}");
            assert_eq!(same_text(a, b), a == b, "{a:?} {b:?}");
        }
    }
}

#[test]
fn strings_are_measured_and_rebuilt() {
    for s in SAMPLES {
        assert_eq!(byte_count(s), s.len());
        assert_eq!(string_of(&chars_of(s)), s);
    }
}

#[test]
fn trimming_cuts_the_ends_alone() {
    for s in SAMPLES {
        assert_eq!(trim_white_of(s), s.trim());
        assert_eq!(trim_of(s, '-'), s.trim_matches('-'));
        assert_eq!(trim_end_of(s, '-'), s.trim_end_matches('-'));
        assert_eq!(
            fold_whitespace(s),
            s.split_whitespace().collect::<Vec<_>>().join(" ")
        );
    }
    assert_eq!(trim_of("---", '-'), "");
}

#[test]
fn folding_twice_is_folding_once() {
    let once = fold_whitespace("\u{2003}a\r\n\tb  c\u{85}");
    assert_eq!(once, "a b c");
    assert_eq!(fold_whitespace(&once), once);
}

#[test]
fn a_prefix_fits_by_whole_characters() {
    assert_eq!(fitting_prefix("aéb", 0), "");
    assert_eq!(fitting_prefix("aéb", 2), "a");
    assert_eq!(fitting_prefix("aéb", 3), "aé");
    assert_eq!(fitting_prefix("aéb", 100), "aéb");
    assert_eq!(fitting_prefix("😀a", 3), "");
}

#[test]
fn numbers_are_written_as_usual() {
    for n in [0, 9, 10, -1, 137, -10, i32::MAX, i32::MIN] {
        assert_eq!(decimal_of(n), n.to_string());
    }
    assert_eq!(hex_of(&[0x00, 0x0f, 0xf0, 0xab], 3), "000ff0");
}
