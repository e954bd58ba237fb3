use schoolcbb::client::urlencoding_decode;
use schoolcbb::graphql::urlencoding;

#[test]
fn urlencoding_keeps_unreserved_and_escapes_the_rest() {
    assert_eq!(urlencoding("AZaz09-_.~"), "AZaz09-_.~");
    assert_eq!(urlencoding("a b&c=d"), "a%20b%26c%3Dd");
    assert_eq!(urlencoding("Peña"), "Pe%C3%B1a");
    assert_eq!(urlencoding("+/?#"), "%2B%2F%3F%23");
    assert_eq!(urlencoding(""), "");
}

#[test]
fn urlencoding_decode_reads_escapes_plus_and_bad_escapes() {
    assert_eq!(urlencoding_decode("a%20b+c"), "a b c");
    assert_eq!(urlencoding_decode("%41%4a%4A"), "AJJ");
    assert_eq!(urlencoding_decode("%zzX"), "X");
    assert_eq!(urlencoding_decode("%+4x"), "\u{4}x");
    assert_eq!(urlencoding_decode("%4"), "\u{4}");
    assert_eq!(urlencoding_decode("%"), "");
    assert_eq!(urlencoding_decode("%C3%B1"), "\u{C3}\u{B1}");
    assert_eq!(urlencoding_decode("ñ"), "ñ");
}

#[test]
fn decoding_undoes_encoding_for_ascii() {
    for s in ["", "hello world", "a+b=c&d", "100% ~ok~", "line\nbreak\t"] {
        assert_eq!(urlencoding_decode(&urlencoding(s)), s);
    }
}

#[test]
fn decoding_an_encoding_reads_the_bytes() {
    let s = "Peña";
    let expected: String = s.bytes().map(|b| b as char).collect();
    assert_eq!(urlencoding_decode(&urlencoding(s)), expected);
}

#[test]
fn encoded_text_is_query_safe() {
    let e = urlencoding("a&b=c d+e#f?");
    assert!(e.chars().all(|c| c.is_ascii_alphanumeric() || "-_.~%".contains(c)));
}
