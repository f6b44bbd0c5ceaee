use zjit_options::decimal::{parse_decimal, parse_u64, parse_u8};
use zjit_options::jit_list::{parse_jit_list, IseqSet};
use zjit_options::substring::utf8_width;
use zjit_options::text::{chars_of, is_whitespace, same_text, spells, trim_bounds};
use zjit_options::usage::usage_lines;

fn trim(s: &str) -> String {
    let chars: Vec<char> = s.chars().collect();
    let (from, to) = trim_bounds(&chars);
    chars[from..to].iter().collect()
}

fn names_of(text: &str) -> Vec<String> {
    let mut names = parse_jit_list(text).names().clone();
    names.sort();
    names
}

fn lines_of(text: &str) -> Vec<String> {
    let mut names: Vec<String> = Vec::new();
    for line in text.lines() {
        let trimmed = line.trim();
        if !trimmed.is_empty() && !names.iter().any(|n| n == trimmed) {
            names.push(trimmed.to_string());
        }
    }
    names.sort();
    names
}

#[test]
fn chars_of_gives_every_character() {
    assert_eq!(chars_of(""), Vec::<char>::new());
    assert_eq!(chars_of("a=b"), vec!['a', '=', 'b']);
    assert_eq!(chars_of("h\u{00e9}\u{1F600}"), vec!['h', '\u{00e9}', '\u{1F600}']);
}

#[test]
fn whitespace_is_what_std_calls_whitespace() {
    let mut count = 0;
    for code in 0u32..=0x10FFFF {
        if let Some(c) = char::from_u32(code) {
            assert_eq!(is_whitespace(c), c.is_whitespace(), "U+{:04X}", code);
            if is_whitespace(c) {
                count += 1;
            }
        }
    }
    assert_eq!(count, 25);
}

#[test]
fn trim_bounds_on_plain_cases() {
    assert_eq!(trim_bounds(&chars_of("")), (0, 0));
    assert_eq!(trim_bounds(&chars_of(" \t\r\n")), (0, 0));
    assert_eq!(trim_bounds(&chars_of("abc")), (0, 3));
    assert_eq!(trim_bounds(&chars_of("  abc ")), (2, 5));
    assert_eq!(trim_bounds(&chars_of("a b")), (0, 3));
    assert_eq!(trim_bounds(&chars_of("\u{3000}x\u{00a0}")), (1, 2));
}

#[test]
fn trim_agrees_with_std() {
    let samples = [
        "", " ", "a", " a", "a ", "  a  b  ", "\t\tx\r", "\u{2003}wide\u{2003}", "\u{0085}nel",
        "no-space", " \u{00e9} ", "\u{200b}zero-width\u{200b}", "x\u{000b}\u{000c}",
    ];
    for sample in samples {
        assert_eq!(trim(sample), sample.trim(), "{:?}", sample);
    }
}

#[test]
fn spells_compares_whole_words() {
    assert!(spells(&chars_of("stats"), "stats"));
    assert!(spells(&chars_of(""), ""));
    assert!(!spells(&chars_of("stat"), "stats"));
    assert!(!spells(&chars_of("statss"), "stats"));
    assert!(!spells(&chars_of("stots"), "stats"));
    assert!(!spells(&chars_of(""), "stats"));
    assert!(!spells(&chars_of("stats"), ""));
    assert!(spells(&chars_of("\u{00e9}t\u{00e9}"), "\u{00e9}t\u{00e9}"));
}

#[test]
fn decimal_values() {
    assert_eq!(parse_u64("0"), Some(0));
    assert_eq!(parse_u64("42"), Some(42));
    assert_eq!(parse_u64("+42"), Some(42));
    assert_eq!(parse_u64("0000000000000000000000000000042"), Some(42));
    assert_eq!(parse_u64("18446744073709551615"), Some(u64::MAX));
    assert_eq!(parse_u64("18446744073709551616"), None);
    assert_eq!(parse_u64("28446744073709551615"), None);
    assert_eq!(parse_u64(""), None);
    assert_eq!(parse_u64("+"), None);
    assert_eq!(parse_u64("-"), None);
    assert_eq!(parse_u64("-0"), None);
    assert_eq!(parse_u64("++1"), None);
    assert_eq!(parse_u64("1+"), None);
    assert_eq!(parse_u64("12a"), None);
    assert_eq!(parse_u64("\u{ff11}"), None);
    assert_eq!(parse_u8("255"), Some(255));
    assert_eq!(parse_u8("256"), None);
    assert_eq!(parse_u8("300"), None);
    assert_eq!(parse_u8("+7"), Some(7));
    assert_eq!(parse_u8("0255"), Some(255));
}

#[test]
fn decimal_limit_is_respected() {
    let digits = chars_of("100");
    assert_eq!(parse_decimal(&digits, 100), Some(100));
    assert_eq!(parse_decimal(&digits, 99), None);
    assert_eq!(parse_decimal(&chars_of("7"), 5), None);
    assert_eq!(parse_decimal(&chars_of("5"), 5), Some(5));
    assert_eq!(parse_decimal(&chars_of("0"), 0), Some(0));
    assert_eq!(parse_decimal(&chars_of("1"), 0), None);
}

#[test]
fn decimal_agrees_with_std() {
    let samples = [
        "", "0", "1", "9", "10", "255", "256", "999", "+0", "+255", "+256", "-1", "+", "-", " 1",
        "1 ", "0x1", "1_0", "00", "0001", "65535", "4294967296", "18446744073709551615",
        "18446744073709551616", "184467440737095516150", "a", "1a", "a1", "\u{0661}", "1.0",
        "++1", "+-1", "1e3",
    ];
    for sample in samples {
        assert_eq!(parse_u64(sample), sample.parse::<u64>().ok(), "{:?}", sample);
        assert_eq!(parse_u8(sample), sample.parse::<u8>().ok(), "{:?}", sample);
    }
    for n in 0u32..2000 {
        let text = n.to_string();
        assert_eq!(parse_u8(&text), text.parse::<u8>().ok());
        assert_eq!(parse_u64(&text), Some(n as u64));
    }
}

#[test]
fn jit_list_with_blank_lines_and_duplicates() {
    let text = "foo@a.rb:1\n\n  bar@b.rb:2  \nfoo@a.rb:1\n\t\n baz \r\nbar@b.rb:2";
    let list = parse_jit_list(text);
    assert_eq!(list.len(), 3);
    assert!(list.contains("foo@a.rb:1"));
    assert!(list.contains("bar@b.rb:2"));
    assert!(list.contains("baz"));
    assert!(!list.contains(" baz "));
    assert!(!list.contains(""));
    assert!(!list.contains("foo"));
    assert_eq!(names_of(text), vec!["bar@b.rb:2", "baz", "foo@a.rb:1"]);
}

#[test]
fn jit_list_of_nothing_is_empty() {
    for text in ["", "\n", "\n\n\n", "   ", " \n\t\n\r\n", "\u{3000}\n"] {
        let list = parse_jit_list(text);
        assert!(list.is_empty(), "{:?}", text);
        assert_eq!(list.len(), 0);
    }
}

#[test]
fn jit_list_keeps_inner_spaces() {
    let list = parse_jit_list("  block in foo@a.rb:3  \n");
    assert_eq!(list.len(), 1);
    assert!(list.contains("block in foo@a.rb:3"));
}

#[test]
fn jit_list_last_line_needs_no_line_feed() {
    assert_eq!(names_of("a\nb"), vec!["a", "b"]);
    assert_eq!(names_of("a\nb\n"), vec!["a", "b"]);
    assert_eq!(names_of("a"), vec!["a"]);
}

#[test]
fn jit_list_agrees_with_std_lines() {
    let samples = [
        "", "a", "a\n", "\na", "a\r\nb\r\n", "a\rb\n", "a\n\nb", " a \n b \n a", "x\r", "\r\n",
        "\u{00e9}\n\u{1F600} \n", "one two\n  one two\nthree", "a\n\r\nb\n\n", "\t\ta\t\t",
        "a\u{2028}b\nc", "k=v\n=\n",
    ];
    for sample in samples {
        assert_eq!(names_of(sample), lines_of(sample), "{:?}", sample);
    }
}

#[test]
fn iseq_set_holds_each_name_once() {
    let mut set = IseqSet::new();
    assert!(set.is_empty());
    assert!(set.insert("a".to_string()));
    assert!(set.insert("b".to_string()));
    assert!(!set.insert("a".to_string()));
    assert_eq!(set.len(), 2);
    assert!(!set.is_empty());
    assert!(set.contains("a"));
    assert!(set.contains("b"));
    assert!(!set.contains("c"));
    assert_eq!(set.names(), &vec!["a".to_string(), "b".to_string()]);
    let copy = set.clone();
    assert_eq!(copy.names(), set.names());
}

#[test]
fn usage_lists_the_user_facing_options() {
    let lines = usage_lines();
    assert_eq!(lines.len(), 5);
    assert_eq!(
        lines[0],
        ("--zjit-call-threshold=num", "Number of calls to trigger JIT (default: 2).")
    );
    assert_eq!(
        lines[1],
        ("--zjit-num-profiles=num", "Number of profiled calls before JIT (default: 1, max: 255).")
    );
    assert_eq!(lines[2], ("--zjit-stats", "Enable collecting ZJIT statistics."));
    assert_eq!(
        lines[3],
        ("--zjit-perf", "Dump ISEQ symbols into /tmp/perf-{}.map for Linux perf.")
    );
    assert_eq!(
        lines[4],
        (
            "--zjit-log-compiled-iseqs=path",
            "Log compiled ISEQs to the file. The file will be truncated."
        )
    );
    for (syntax, description) in lines {
        assert!(syntax.chars().count() < 80);
        assert!(description.chars().count() < 80);
    }
}

#[test]
fn utf8_width_is_the_encoded_length() {
    for code in 0u32..=0x10FFFF {
        if let Some(c) = char::from_u32(code) {
            assert_eq!(utf8_width(c), c.len_utf8(), "U+{:04X}", code);
        }
    }
    assert_eq!(utf8_width('a'), 1);
    assert_eq!(utf8_width('\u{00e9}'), 2);
    assert_eq!(utf8_width('\u{3000}'), 3);
    assert_eq!(utf8_width('\u{1F600}'), 4);
}

#[test]
fn jit_list_names_in_many_scripts() {
    let text = "  \u{65e5}\u{672c}\u{8a9e}@a.rb:1 \n\u{1F600}\n\u{00e9}t\u{00e9}\u{3000}\n\u{65e5}\u{672c}\u{8a9e}@a.rb:1\n";
    let list = parse_jit_list(text);
    assert_eq!(list.len(), 3);
    assert!(list.contains("\u{65e5}\u{672c}\u{8a9e}@a.rb:1"));
    assert!(list.contains("\u{1F600}"));
    assert!(list.contains("\u{00e9}t\u{00e9}"));
}

#[test]
fn jit_list_of_many_lines() {
    let mut text = String::new();
    for i in 0..20000 {
        text.push_str(&format!("  method_{}@lib/file_{}.rb:{}  \n", i % 5000, i % 5000, i % 5000));
    }
    let list = parse_jit_list(&text);
    assert_eq!(list.len(), 5000);
    assert!(list.contains("method_4999@lib/file_4999.rb:4999"));
    assert!(!list.contains("method_5000@lib/file_5000.rb:5000"));
}

#[test]
fn same_text_is_string_equality() {
    let samples = ["", "a", "b", "ab", "a ", "\u{00e9}", "e\u{0301}", "\u{1F600}", "stats", "Stats"];
    for x in samples {
        for y in samples {
            assert_eq!(same_text(x, y), x == y, "{:?} {:?}", x, y);
        }
    }
}
