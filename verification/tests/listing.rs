use colorrs::listing::{file_label, select_named, select_random, toml_name, NamedFile};

#[test]
fn label_shows_the_extension_in_brackets() {
    assert_eq!(file_label("foo.toml"), "foo (toml)");
    assert_eq!(file_label("foo"), "foo");
    assert_eq!(file_label("a.b.sh"), "a.b (sh)");
    assert_eq!(file_label(".hidden"), ".hidden");
    assert_eq!(file_label("foo."), "foo ()");
    assert_eq!(file_label(""), "");
}

#[test]
fn nothing_is_picked_from_nothing() {
    assert_eq!(select_random(&Vec::new()), None);
}

#[test]
fn the_only_file_is_picked() {
    let files = vec!["only.toml".to_string()];
    for _ in 0..20 {
        assert_eq!(select_random(&files), Some("only.toml".to_string()));
    }
}

#[test]
fn a_picked_file_is_one_of_the_files() {
    let files = vec!["a".to_string(), "b.toml".to_string(), "c.sh".to_string()];
    for _ in 0..100 {
        let picked = select_random(&files).unwrap();
        assert!(files.contains(&picked));
    }
}

#[test]
fn toml_takes_the_place_of_the_extension() {
    assert_eq!(toml_name("foo"), "foo.toml");
    assert_eq!(toml_name("foo.sh"), "foo.toml");
    assert_eq!(toml_name("foo.toml"), "foo.toml");
    assert_eq!(toml_name(".foo"), ".foo.toml");
    assert_eq!(toml_name("a.b.c"), "a.b.toml");
}

#[test]
fn named_pattern_is_looked_up_as_given_first() {
    assert_eq!(select_named(true, true), NamedFile::AsGiven);
    assert_eq!(select_named(true, false), NamedFile::AsGiven);
    assert_eq!(select_named(false, true), NamedFile::WithToml);
    assert_eq!(select_named(false, false), NamedFile::Missing);
}
