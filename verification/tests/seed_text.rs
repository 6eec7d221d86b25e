use base64::prelude::BASE64_URL_SAFE;
use base64::Engine;
use slide_puzzle::seed_text::seed_formatted;
use slide_puzzle::seed_text::seed_text;
use slide_puzzle::seed_text::wrap_lines;
use slide_puzzle::seed_text::SEED_LINE_WIDTH;

#[test]
fn zero_seed_as_text() {
    assert_eq!(seed_text(&[0; 32]), "AAAAAAAAAAAAAAAAAAAAAAAAAAAAAAAAAAAAAAAAAAA=");
    assert_eq!(
        seed_formatted(&[0; 32]),
        "AAAAAAAAAAA\nAAAAAAAAAAA\nAAAAAAAAAAA\nAAAAAAAAAA="
    );
}

#[test]
fn text_uses_the_url_safe_alphabet() {
    assert_eq!(seed_text(&[255; 32]), "__________________________________________8=");
    assert_eq!(seed_text(&[251; 32]), "-_v7-_v7-_v7-_v7-_v7-_v7-_v7-_v7-_v7-_v7-_s=");
}

#[test]
fn text_decodes_back_to_the_seed() {
    let mut seed: [u8; 32] = [0; 32];
    for (i, byte) in seed.iter_mut().enumerate() {
        *byte = (i * 37 + 11) as u8;
    }
    let text: String = seed_text(&seed);
    assert_eq!(text.chars().count(), 44);
    assert_eq!(BASE64_URL_SAFE.decode(&text).unwrap(), seed.to_vec());
    let shown: String = seed_formatted(&seed);
    assert_eq!(shown.replace('\n', ""), text);
    assert_eq!(shown.lines().count(), 4);
    assert!(shown.lines().all(|line| line.chars().count() == SEED_LINE_WIDTH));
}

#[test]
fn lines_of_a_given_width() {
    assert_eq!(wrap_lines("", 3), "");
    assert_eq!(wrap_lines("ab", 3), "ab");
    assert_eq!(wrap_lines("abc", 3), "abc");
    assert_eq!(wrap_lines("abcd", 3), "abc\nd");
    assert_eq!(wrap_lines("abcdef", 3), "abc\ndef");
    assert_eq!(wrap_lines("abcdefg", 3), "abc\ndef\ng");
    assert_eq!(wrap_lines("abc", 1), "a\nb\nc");
    assert_eq!(wrap_lines("abc", usize::MAX), "abc");
    assert_eq!(wrap_lines("añb†c", 2), "añ\nb†\nc");
}
