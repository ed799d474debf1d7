//! Tests for the command-line query expansion into codepoints.
use ucinfo::cmdline::Cmdline;
use ucinfo::cmdline::Command;
use ucinfo::cmdline::Glyphs;

fn cmdline_for(chars: &[&str]) -> Cmdline {
    Cmdline {
        command: Command {
            chars: chars.iter().map(|s| s.to_string()).collect(),
            search: None,
        },
        glyphs: Glyphs::Blocks,
    }
}

#[test]
fn test_cmdline() {
    let cmdline = cmdline_for(&["U+0061", "test"]);
    assert_eq!(cmdline.codepoints(), vec![0x61, 0x74, 0x65, 0x73, 0x74]);
}

#[test]
fn test_cmdline_lowercase_u_and_long_tokens() {
    assert_eq!(cmdline_for(&["u+0061"]).codepoints(), vec![0x61]);
    assert_eq!(cmdline_for(&["U+10FFFF"]).codepoints(), vec![0x10FFFF]);
    assert_eq!(cmdline_for(&["u+20aC"]).codepoints(), vec![0x20AC]);
}

#[test]
fn test_cmdline_non_token_strings_expand_to_chars() {
    // Too few digits for the U+ notation: taken as plain characters.
    assert_eq!(
        cmdline_for(&["U+61"]).codepoints(),
        vec![0x55, 0x2B, 0x36, 0x31]
    );
    // Too many digits.
    assert_eq!(
        cmdline_for(&["U+0000061"]).codepoints(),
        vec![0x55, 0x2B, 0x30, 0x30, 0x30, 0x30, 0x30, 0x36, 0x31]
    );
    // A non-hexadecimal digit.
    assert_eq!(
        cmdline_for(&["U+006g"]).codepoints(),
        vec![0x55, 0x2B, 0x30, 0x30, 0x36, 0x67]
    );
    // Non-ASCII characters expand to their codepoints.
    assert_eq!(cmdline_for(&["円"]).codepoints(), vec![0x5186]);
    assert_eq!(cmdline_for(&[]).codepoints(), Vec::<u32>::new());
}
