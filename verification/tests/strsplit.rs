use primitives::strsplit::{until_char, Delimiter, StrSplit};

#[test]
fn until_char_test() {
    assert_eq!(until_char("hello world", 'o'), "hell");
}

#[test]
fn it_works() {
    let haystack = "a b c d e";
    let letters: Vec<_> = StrSplit::new(haystack, " ").collect();
    assert_eq!(letters, vec!["a", "b", "c", "d", "e"]);
}

#[test]
fn tail() {
    let haystack = "a b c d ";
    let letters: Vec<_> = StrSplit::new(haystack, " ").collect();
    assert_eq!(letters, vec!["a", "b", "c", "d", ""]);
}

#[test]
fn until_char_without_occurrence() {
    assert_eq!(until_char("hello", 'z'), "hello");
    assert_eq!(until_char("", 'z'), "");
}

#[test]
fn until_char_at_start() {
    assert_eq!(until_char("ohm", 'o'), "");
}

#[test]
fn split_without_delimiter_gives_whole() {
    let pieces: Vec<_> = StrSplit::new("abc", ",").collect();
    assert_eq!(pieces, vec!["abc"]);
}

#[test]
fn split_empty_haystack_gives_one_empty_piece() {
    let pieces: Vec<_> = StrSplit::new("", ",").collect();
    assert_eq!(pieces, vec![""]);
}

#[test]
fn split_at_longer_delimiter() {
    let pieces: Vec<_> = StrSplit::new("one--two---three--", "--").collect();
    assert_eq!(pieces, vec!["one", "two", "-three", ""]);
}

#[test]
fn split_at_char_delimiter() {
    let pieces: Vec<_> = StrSplit::new(",a,,b", ',').collect();
    assert_eq!(pieces, vec!["", "a", "", "b"]);
}

#[test]
fn split_text_beyond_ascii() {
    let pieces: Vec<_> = StrSplit::new("żółw→łoś→ćma", "→").collect();
    assert_eq!(pieces, vec!["żółw", "łoś", "ćma"]);
    let pieces: Vec<_> = StrSplit::new("żółw→łoś→ćma", 'ł').collect();
    assert_eq!(pieces, vec!["żó", "w→", "oś→ćma"]);
}

#[test]
fn next_hands_out_pieces_then_nothing() {
    let mut split = StrSplit::new("a-b", '-');
    assert_eq!(split.next(), Some("a"));
    assert_eq!(split.next(), Some("b"));
    assert_eq!(split.next(), None);
    assert_eq!(split.next(), None);
}

#[test]
fn find_next_counts_characters() {
    assert_eq!("lo".find_next("hello world"), Some((3, 5)));
    assert_eq!('o'.find_next("hello world"), Some((4, 5)));
    assert_eq!('ś'.find_next("łoś→ćma"), Some((2, 3)));
    assert_eq!("ćm".find_next("łoś→ćma"), Some((4, 6)));
    assert_eq!("xyz".find_next("hello world"), None);
    assert_eq!("hello world!".find_next("hello world"), None);
    assert_eq!('x'.find_next(""), None);
}

#[test]
fn find_next_takes_first_occurrence() {
    assert_eq!("aa".find_next("baaaa"), Some((1, 3)));
    assert_eq!("ab".find_next("aab"), Some((1, 3)));
    assert_eq!("".find_next("abc"), Some((0, 0)));
}

/// Matches the first run of ASCII digits.
struct Digits;

impl Delimiter for Digits {
    fn find_next(&self, s: &str) -> Option<(usize, usize)> {
        let chars: Vec<char> = s.chars().collect();
        let start = chars.iter().position(|c| c.is_ascii_digit())?;
        let mut end = start;
        while end < chars.len() && chars[end].is_ascii_digit() {
            end += 1;
        }
        Some((start, end))
    }
}

#[test]
fn split_at_a_delimiter_of_ones_own() {
    let pieces: Vec<_> = StrSplit::new("łoś12ćma345", Digits).collect();
    assert_eq!(pieces, vec!["łoś", "ćma", ""]);
}
