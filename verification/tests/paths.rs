use euoni_converter::path::{extension, file_name, file_stem, join, without_extension};

#[test]
fn final_component_follows_unix_path_rules() {
    assert_eq!(file_name("a/b/c.txt").as_deref(), Some("c.txt"));
    assert_eq!(file_name("c.txt").as_deref(), Some("c.txt"));
    assert_eq!(file_name("foo.txt/.").as_deref(), Some("foo.txt"));
    assert_eq!(file_name("foo.txt/.//").as_deref(), Some("foo.txt"));
    assert_eq!(file_name("foo.txt/.."), None);
    assert_eq!(file_name("/"), None);
    assert_eq!(file_name(""), None);
    assert_eq!(file_name("."), None);
    assert_eq!(file_name("./"), None);
    assert_eq!(file_name(".."), None);
}

#[test]
fn extensions_and_stems_split_at_the_last_dot() {
    assert_eq!(extension("dir/file.tar.gz").as_deref(), Some("gz"));
    assert_eq!(file_stem("dir/file.tar.gz").as_deref(), Some("file.tar"));
    assert_eq!(extension(".bashrc"), None);
    assert_eq!(file_stem(".bashrc").as_deref(), Some(".bashrc"));
    assert_eq!(extension("name."), Some(String::new()));
    assert_eq!(file_stem("name.").as_deref(), Some("name"));
    assert_eq!(extension("a.b/noext"), None);
    assert_eq!(file_stem(".."), None);
}

#[test]
fn removing_the_extension_cuts_after_the_stem() {
    assert_eq!(without_extension("converted.png"), "converted");
    assert_eq!(without_extension("a/b.c/d.e.f"), "a/b.c/d.e");
    assert_eq!(without_extension("noext"), "noext");
    assert_eq!(without_extension("/"), "/");
}

#[test]
fn joining_adds_a_separator_when_needed() {
    assert_eq!(join("a", "b"), "a/b");
    assert_eq!(join("a/", "b"), "a/b");
    assert_eq!(join("", "b"), "b");
    assert_eq!(join("a", "/b"), "/b");
    assert_eq!(join("a", ""), "a/");
}
