use colorrs::text::{
    chars_of, decimal, file_extension, file_name, file_stem, find_first, find_last, matches_at,
    replace_all, string_of,
};

fn replace(text: &str, from: &str, to: &str) -> String {
    let out = replace_all(&chars_of(text), &chars_of(from), &chars_of(to));
    string_of(&out, 0, out.len())
}

#[test]
fn chars_and_back() {
    let chars = chars_of("héllo");
    assert_eq!(chars, vec!['h', 'é', 'l', 'l', 'o']);
    assert_eq!(string_of(&chars, 0, 5), "héllo");
    assert_eq!(string_of(&chars, 1, 3), "él");
    assert_eq!(string_of(&chars, 2, 2), "");
    assert!(chars_of("").is_empty());
}

#[test]
fn occurrences_are_found_in_place() {
    let text = chars_of("abcabc");
    assert!(matches_at(&text, 0, &chars_of("abc")));
    assert!(matches_at(&text, 3, &chars_of("abc")));
    assert!(!matches_at(&text, 1, &chars_of("abc")));
    assert!(!matches_at(&text, 4, &chars_of("abc")));
    assert!(matches_at(&text, 6, &chars_of("")));
    assert!(!matches_at(&text, 7, &chars_of("")));
    assert!(!matches_at(&text, usize::MAX, &chars_of("a")));
    assert!(!matches_at(&text, 0, &chars_of("abcabca")));
}

#[test]
fn first_and_last_positions() {
    let text = chars_of("a/b/c");
    assert_eq!(find_first(&text, '/'), Some(1));
    assert_eq!(find_last(&text, '/'), Some(3));
    assert_eq!(find_first(&text, 'x'), None);
    assert_eq!(find_last(&text, 'x'), None);
    assert_eq!(find_first(&text, 'a'), Some(0));
    assert_eq!(find_last(&text, 'a'), Some(0));
    assert_eq!(find_last(&chars_of(""), 'a'), None);
}

#[test]
fn stems() {
    assert_eq!(file_stem("foo.toml"), "foo");
    assert_eq!(file_stem("foo"), "foo");
    assert_eq!(file_stem(".bashrc"), ".bashrc");
    assert_eq!(file_stem("foo.tar.gz"), "foo.tar");
    assert_eq!(file_stem("foo."), "foo");
    assert_eq!(file_stem(".a.b"), ".a");
    assert_eq!(file_stem(""), "");
}

#[test]
fn extensions() {
    assert_eq!(file_extension("foo.toml"), Some("toml".to_string()));
    assert_eq!(file_extension("foo"), None);
    assert_eq!(file_extension(".bashrc"), None);
    assert_eq!(file_extension("foo.tar.gz"), Some("gz".to_string()));
    assert_eq!(file_extension("foo."), Some(String::new()));
    assert_eq!(file_extension(""), None);
}

#[test]
fn file_names() {
    assert_eq!(file_name("/a/b/c.toml"), "c.toml");
    assert_eq!(file_name("c.toml"), "c.toml");
    assert_eq!(file_name("a/"), "");
    assert_eq!(file_name(""), "");
}

#[test]
fn replacing_goes_from_the_left_without_overlap() {
    assert_eq!(replace("aaa", "aa", "b"), "ba");
    assert_eq!(replace("abab", "ab", "ba"), "baba");
    assert_eq!(replace("hello", "l", ""), "heo");
    assert_eq!(replace("hello", "xyz", "!"), "hello");
    assert_eq!(replace("", "a", "b"), "");
    assert_eq!(replace("abc", "abc", "abcabc"), "abcabc");
    assert_eq!(replace("abc", "", "-"), "abc");
    assert_eq!(replace("aXbXc", "X", "YY"), "aYYbYYc");
}

#[test]
fn replacing_agrees_with_the_standard_library() {
    let texts = ["", "a", "{red}x{red}", "{{red}}", "aaaa", "abcabcab", "{reset}{reset"];
    let froms = ["a", "aa", "{red}", "abc", "{reset}", "b"];
    let tos = ["", "z", "\x1b[31m", "aa"];
    for text in texts {
        for from in froms {
            for to in tos {
                assert_eq!(replace(text, from, to), text.replace(from, to));
            }
        }
    }
}

#[test]
fn numbers_are_written_in_decimal() {
    assert_eq!(decimal(0), "0");
    assert_eq!(decimal(7), "7");
    assert_eq!(decimal(10), "10");
    assert_eq!(decimal(1234567890), "1234567890");
    assert_eq!(decimal(usize::MAX), usize::MAX.to_string());
}
