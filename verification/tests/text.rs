use icicle::text::{
    chars_of, find, has_suffix, indent_lines, index_of, is_space, leading_chars, replace_every,
    replace_once, same_text, trim,
};

fn indented(block: &str) -> String {
    let mut out = String::new();
    indent_lines(&mut out, block);
    out
}

fn indented_by_std(block: &str) -> String {
    let mut out = String::new();
    for line in block.lines() {
        out.push_str(&format!("  {}\n", line));
    }
    out
}

#[test]
fn chars_of_gives_every_character() {
    assert_eq!(chars_of("aé✓"), vec!['a', 'é', '✓']);
    assert_eq!(chars_of(""), Vec::<char>::new());
}

#[test]
fn find_gives_the_leftmost_match() {
    let text = chars_of("abcabc");
    assert_eq!(find(&text, &chars_of("bc")), Some(1));
    assert_eq!(find(&text, &chars_of("abcabc")), Some(0));
    assert_eq!(find(&text, &chars_of("cab")), Some(2));
    assert_eq!(find(&text, &chars_of("abcabcd")), None);
    assert_eq!(find(&text, &chars_of("x")), None);
    assert_eq!(find(&text, &chars_of("")), Some(0));
    assert_eq!(find(&chars_of(""), &chars_of("")), Some(0));
    assert_eq!(find(&chars_of(""), &chars_of("a")), None);
}

#[test]
fn replace_once_takes_the_first_match_only() {
    assert_eq!(replace_once("a@X@b@X@c", "@X@", "1"), "a1b@X@c");
    assert_eq!(replace_once("@X@", "@X@", ""), "");
    assert_eq!(replace_once("@X@@X@", "@X@", "yy"), "yy@X@");
}

#[test]
fn replace_once_without_a_match_changes_nothing() {
    assert_eq!(replace_once("abc", "@X@", "1"), "abc");
    assert_eq!(replace_once("", "@X@", "1"), "");
    assert_eq!(replace_once("@X", "@X@", "1"), "@X");
}

#[test]
fn replace_once_agrees_with_std() {
    let texts = ["", "a", "@A@", "x@A@y@A@z", "@@A@@", "é@A@✓", "@A", "A@@A@"];
    let subs = ["", "1", "@A@", "long text\nwith lines"];
    for text in texts {
        for sub in subs {
            assert_eq!(replace_once(text, "@A@", sub), text.replacen("@A@", sub, 1));
        }
    }
}

#[test]
fn replace_once_does_not_look_at_what_it_put_in() {
    assert_eq!(replace_once("[@A@]", "@A@", "@A@@A@"), "[@A@@A@]");
}

#[test]
fn replace_once_with_an_empty_pattern_puts_in_front() {
    assert_eq!(replace_once("abc", "", "-"), "-abc");
}

#[test]
fn replace_every_takes_every_match_from_the_left() {
    assert_eq!(replace_every("ARCH/x/ARCH", "ARCH", "aarch64-linux"), "aarch64-linux/x/aarch64-linux");
    assert_eq!(replace_every("aaa", "aa", "b"), "ba");
    assert_eq!(replace_every("aaaa", "aa", "b"), "bb");
    assert_eq!(replace_every("abc", "x", "y"), "abc");
    assert_eq!(replace_every("", "x", "y"), "");
    assert_eq!(replace_every("ab", "abc", "y"), "ab");
    assert_eq!(replace_every("abc", "abc", ""), "");
}

#[test]
fn replace_every_agrees_with_std() {
    let texts = ["", "ARCH", "/systems/ARCH/HOSTNAME", "ARCHARCH", "ARC", "xARCHyARCHz", "ARARCHCH"];
    let subs = ["", "x86_64-linux", "ARCH"];
    for text in texts {
        for sub in subs {
            assert_eq!(replace_every(text, "ARCH", sub), text.replace("ARCH", sub));
        }
    }
}

#[test]
fn replace_every_with_an_empty_pattern_changes_nothing() {
    assert_eq!(replace_every("abc", "", "-"), "abc");
}

#[test]
fn has_suffix_looks_at_the_end() {
    assert!(has_suffix("configuration.nix", ".nix"));
    assert!(has_suffix(".nix", ".nix"));
    assert!(!has_suffix("nix", ".nix"));
    assert!(!has_suffix("configuration.nix.bak", ".nix"));
    assert!(!has_suffix("", ".nix"));
    assert!(has_suffix("anything", ""));
}

#[test]
fn same_text_compares_characters() {
    assert!(same_text("/", "/"));
    assert!(!same_text("/", "/boot"));
    assert!(!same_text("/boot", "/"));
    assert!(same_text("", ""));
    assert!(!same_text("a", "b"));
}

#[test]
fn index_of_finds_the_first_from_a_start() {
    let v = chars_of("a+b+c");
    assert_eq!(index_of(&v, 0, '+'), 1);
    assert_eq!(index_of(&v, 1, '+'), 1);
    assert_eq!(index_of(&v, 2, '+'), 3);
    assert_eq!(index_of(&v, 4, '+'), 5);
    assert_eq!(index_of(&v, 5, '+'), 5);
}

#[test]
fn indent_lines_indents_every_line() {
    assert_eq!(indented("a\nb"), "  a\n  b\n");
    assert_eq!(indented("a\nb\n"), "  a\n  b\n");
    assert_eq!(indented("services.flatpak.enable = true;"), "  services.flatpak.enable = true;\n");
}

#[test]
fn indent_lines_keeps_empty_lines() {
    assert_eq!(indented("a\n\nb"), "  a\n  \n  b\n");
    assert_eq!(indented("\n"), "  \n");
    assert_eq!(indented("\n\n"), "  \n  \n");
}

#[test]
fn indent_lines_of_nothing_is_nothing() {
    assert_eq!(indented(""), "");
}

#[test]
fn indent_lines_drops_a_carriage_return_before_a_line_feed_only() {
    assert_eq!(indented("a\r\nb"), "  a\n  b\n");
    assert_eq!(indented("a\r\nb\r"), "  a\n  b\r\n");
    assert_eq!(indented("a\r\r\n"), "  a\r\n");
    assert_eq!(indented("\r\n"), "  \n");
    assert_eq!(indented("a\rb\n"), "  a\rb\n");
}

#[test]
fn indent_lines_appends_to_what_is_there() {
    let mut out = String::from("x");
    indent_lines(&mut out, "a");
    indent_lines(&mut out, "b\nc");
    assert_eq!(out, "x  a\n  b\n  c\n");
}

#[test]
fn indent_lines_agrees_with_std_lines() {
    let blocks = [
        "", "a", "a\n", "\n", "\r", "\r\n", "a\r", "a\r\n", "a\n\r", "a\n\r\n", "\n\n\n", "a\nb\r\nc\rd\n\re",
        "  nested = {\n    x = 1;\n  };\n", "é\n✓\r\n",
    ];
    for block in blocks {
        assert_eq!(indented(block), indented_by_std(block));
    }
}

#[test]
fn is_space_is_unicode_white_space() {
    let mut code: u32 = 0;
    while code <= 0x10ffff {
        if let Some(c) = char::from_u32(code) {
            assert_eq!(is_space(c), c.is_whitespace());
        }
        code += 1;
    }
}

#[test]
fn trim_removes_white_space_at_both_ends() {
    assert_eq!(trim("x86_64\n"), "x86_64");
    assert_eq!(trim("  aarch64 \t\r\n"), "aarch64");
    assert_eq!(trim("a b"), "a b");
    assert_eq!(trim(" a b "), "a b");
    assert_eq!(trim(""), "");
    assert_eq!(trim(" \n\t "), "");
    assert_eq!(trim("\u{3000}x\u{2028}"), "x");
}

#[test]
fn trim_agrees_with_std() {
    let texts = ["", " ", "a", " a", "a ", "\n\na\n\n", "\u{a0}a\u{85}", "a\u{200b}", "\u{1680}\u{2000}é\u{205f}"];
    for text in texts {
        assert_eq!(trim(text), text.trim());
    }
}

#[test]
fn leading_chars_needs_that_many() {
    assert_eq!(leading_chars("23.11.20231129.057f9ae", 5), Some(String::from("23.11")));
    assert_eq!(leading_chars("23.11", 5), Some(String::from("23.11")));
    assert_eq!(leading_chars("23.1", 5), None);
    assert_eq!(leading_chars("", 5), None);
    assert_eq!(leading_chars("", 0), Some(String::new()));
    assert_eq!(leading_chars("ééééé!", 5), Some(String::from("ééééé")));
}
