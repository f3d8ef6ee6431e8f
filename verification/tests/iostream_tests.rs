use kumir3_shared::iostream::{TokenScan, TokenStep};

fn tokens_of(input: &[u8]) -> Vec<String> {
    let mut out = Vec::new();
    let mut bytes = input.iter();
    loop {
        let mut scan = TokenScan::new();
        loop {
            match scan.feed(bytes.next().copied()) {
                TokenStep::More => {}
                TokenStep::Done(t) => {
                    out.push(t);
                    break;
                }
                TokenStep::AtEnd => return out,
            }
        }
    }
}

#[test]
fn tokens_are_split_by_white_space() {
    assert_eq!(tokens_of(b"  12 abc\n\tx  "), vec!["12", "abc", "x"]);
    assert_eq!(tokens_of(b"last"), vec!["last"]);
    assert!(tokens_of(b" \n ").is_empty());
    // A broken sequence is replaced.
    assert_eq!(tokens_of(&[0xE9, b' ']), vec!["\u{FFFD}"]);
}

#[test]
fn tokens_are_decoded_as_utf8() {
    assert_eq!(tokens_of("Привет мир".as_bytes()), vec!["Привет", "мир"]);
    assert_eq!(tokens_of("  ab  cd".as_bytes()), vec!["ab", "cd"]);
    // Non-ASCII white space separates words too.
    assert_eq!(tokens_of("да\u{A0}нет\u{3000}𝄞".as_bytes()), vec!["да", "нет", "𝄞"]);
    // An incomplete sequence at the end is replaced.
    assert_eq!(tokens_of(&[b'a', 0xD0]), vec!["a\u{FFFD}"]);
}

#[test]
fn one_reader_starts_afresh_after_each_token() {
    let mut scan = TokenScan::new();
    let mut out = Vec::new();
    for b in "ab  cd ef".bytes().map(Some).chain(std::iter::once(None)) {
        match scan.feed(b) {
            TokenStep::More => {}
            TokenStep::Done(t) => out.push(t),
            TokenStep::AtEnd => break,
        }
    }
    assert_eq!(out, vec!["ab", "cd", "ef"]);
    assert!(matches!(scan.feed(None), TokenStep::AtEnd));
}
