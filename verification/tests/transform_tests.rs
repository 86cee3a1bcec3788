use nyaaan::flush;
use nyaaan::nyaanize;
use nyaaan::nyaanize_chunk;
use nyaaan::Nyaaan;

#[test]
fn test_simple() {
    let output = nyaanize(&Nyaaan::new("ny", 'a', "n"), "abcde");
    assert_eq!(output, "nyaan");
}

#[test]
fn test_multiline() {
    let output = nyaanize(&Nyaaan::new("ny", 'a', "n"), "abcde\nxyz");
    assert_eq!(output, "nyaan\nnya");
}

#[test]
fn test_fullwidth() {
    let output = nyaanize(&Nyaaan::new("ny", 'a', "n"), "\u{306b}\u{3083}\u{3093}");
    assert_eq!(output, "nya");
}

#[test]
fn test_punct() {
    let input = r#"
fn main() {
    println!("hello rust!");
}
"#;
    let want = r#"
ny nyan() {
    nyaaaan!("nyaan nyan!");
}
"#;
    let output = nyaanize(&Nyaaan::new("ny", 'a', "n"), input);
    assert_eq!(output, want);
}

#[test]
fn test_passthrough_no_word_chars() {
    let input = " ,.;!\n\t(){}\n";
    let output = nyaanize(&Nyaaan::new("ny", 'a', "n"), input);
    assert_eq!(output, input);
}

#[test]
fn test_empty_input() {
    assert_eq!(nyaanize(&Nyaaan::new("ny", 'a', "n"), ""), "");
}

#[test]
fn test_chunked_word_run_carries_over() {
    let t = Nyaaan::new("ny", 'a', "n");
    let (out, wl) = nyaanize_chunk(&t, "abc", 0);
    assert_eq!(out, "");
    assert_eq!(wl, 3);
    let (out, wl) = nyaanize_chunk(&t, "de!", wl);
    assert_eq!(out, "nyaan!");
    assert_eq!(wl, 0);
    assert_eq!(flush(&t, wl), "");
}

#[test]
fn test_flush_open_run() {
    let t = Nyaaan::new("ny", 'a', "n");
    let (out, wl) = nyaanize_chunk(&t, "wxyz", 0);
    assert_eq!(out, "");
    assert_eq!(wl, 4);
    assert_eq!(flush(&t, wl), "nyan");
}

#[test]
fn test_digits_are_word_chars() {
    let output = nyaanize(&Nyaaan::new("ny", 'a', "n"), "a1b2 c3");
    assert_eq!(output, "nyan ny");
}
