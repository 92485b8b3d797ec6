use fast_share_qr::path::{file_name, resolve, Rejection, ResolvedPath};

fn resolved(root: &str, decoded: &str) -> ResolvedPath {
    match resolve(root, decoded) {
        Ok(path) => path,
        Err(rejection) => panic!("{:?} was refused: {:?}", decoded, rejection),
    }
}

#[test]
fn resolves_a_file_below_the_root() {
    let path = resolved("/tmp/share", "a.txt");
    assert_eq!(path.to_path(), "/tmp/share/a.txt");
    assert_eq!(path.relative(), "a.txt");
    assert_eq!(path.entry_name(), Some("a.txt".to_string()));
    assert!(!path.is_root());
}

#[test]
fn resolves_a_nested_path() {
    let path = resolved("/tmp/share", "sub/deeper/b.txt");
    assert_eq!(path.to_path(), "/tmp/share/sub/deeper/b.txt");
    assert_eq!(path.relative(), "sub/deeper/b.txt");
    assert_eq!(path.entry_name(), Some("b.txt".to_string()));
}

#[test]
fn the_empty_path_is_the_root() {
    let path = resolved("/tmp/share", "");
    assert!(path.is_root());
    assert_eq!(path.to_path(), "/tmp/share");
    assert_eq!(path.relative(), "");
    assert_eq!(path.entry_name(), Some("share".to_string()));
}

#[test]
fn at_root_is_what_the_empty_path_resolves_to() {
    assert_eq!(ResolvedPath::at_root("/tmp/share"), resolved("/tmp/share", ""));
}

#[test]
fn empty_segments_and_dots_are_worked_off() {
    assert_eq!(resolved("/tmp/share", "sub/").relative(), "sub");
    assert_eq!(resolved("/tmp/share", "sub//b.txt").relative(), "sub/b.txt");
    assert_eq!(resolved("/tmp/share", "./sub/./b.txt").relative(), "sub/b.txt");
    assert_eq!(resolved("/tmp/share", ".").relative(), "");
}

#[test]
fn a_parent_segment_inside_the_root_drops_a_name() {
    assert_eq!(resolved("/tmp/share", "sub/../a.txt").relative(), "a.txt");
    assert_eq!(resolved("/tmp/share", "sub/..").relative(), "");
    assert_eq!(resolved("/tmp/share", "a/b/../../c").to_path(), "/tmp/share/c");
}

#[test]
fn names_that_only_look_like_dots_are_names() {
    assert_eq!(resolved("/tmp/share", "...").relative(), "...");
    assert_eq!(resolved("/tmp/share", "..a").relative(), "..a");
    assert_eq!(resolved("/tmp/share", ".hidden").relative(), ".hidden");
}

#[test]
fn a_path_that_climbs_out_is_refused() {
    assert_eq!(resolve("/tmp/share", "../etc/passwd"), Err(Rejection::Escapes));
    assert_eq!(resolve("/tmp/share", ".."), Err(Rejection::Escapes));
    assert_eq!(resolve("/tmp/share", "sub/../../etc/passwd"), Err(Rejection::Escapes));
    assert_eq!(resolve("/tmp/share", "./.././"), Err(Rejection::Escapes));
}

#[test]
fn a_path_that_climbs_out_and_comes_back_is_refused() {
    assert_eq!(resolve("/tmp/share", "../share/a.txt"), Err(Rejection::Escapes));
    assert_eq!(resolve("/tmp/share", "a/../../share/a.txt"), Err(Rejection::Escapes));
}

#[test]
fn an_absolute_path_is_refused() {
    assert_eq!(resolve("/tmp/share", "/etc/passwd"), Err(Rejection::Absolute));
    assert_eq!(resolve("/tmp/share", "/"), Err(Rejection::Absolute));
    assert_eq!(resolve("/tmp/share", "/tmp/share/a.txt"), Err(Rejection::Absolute));
    assert_eq!(resolve("/tmp/share", "/../x"), Err(Rejection::Absolute));
}

#[test]
fn the_root_brings_its_own_separator_or_gets_one() {
    assert_eq!(resolved("/tmp/share/", "a.txt").to_path(), "/tmp/share/a.txt");
    assert_eq!(resolved("/", "a.txt").to_path(), "/a.txt");
    assert_eq!(resolved("", "a.txt").to_path(), "a.txt");
    assert_eq!(resolved("share", "sub/b.txt").to_path(), "share/sub/b.txt");
    assert_eq!(resolved("/tmp/share/", "").to_path(), "/tmp/share/");
}

#[test]
fn child_relative_adds_a_name() {
    assert_eq!(resolved("/tmp/share", "sub").child_relative("b.txt"), "sub/b.txt");
    assert_eq!(resolved("/tmp/share", "").child_relative("a.txt"), "a.txt");
    assert_eq!(resolved("/tmp/share", "x/y").child_relative("z"), "x/y/z");
}

#[test]
fn file_name_is_the_last_segment_that_counts() {
    assert_eq!(file_name("/tmp/share/a.txt"), Some("a.txt".to_string()));
    assert_eq!(file_name("a.txt"), Some("a.txt".to_string()));
    assert_eq!(file_name("/tmp/share/"), Some("share".to_string()));
    assert_eq!(file_name("/tmp/share/."), Some("share".to_string()));
    assert_eq!(file_name("/tmp/share//./"), Some("share".to_string()));
    assert_eq!(file_name("./a"), Some("a".to_string()));
}

#[test]
fn file_name_is_none_where_there_is_no_name() {
    assert_eq!(file_name(""), None);
    assert_eq!(file_name("/"), None);
    assert_eq!(file_name("."), None);
    assert_eq!(file_name(".."), None);
    assert_eq!(file_name("/tmp/share/.."), None);
    assert_eq!(file_name("/tmp/share/../"), None);
}

#[test]
fn the_name_of_the_root_is_taken_from_its_path() {
    assert_eq!(ResolvedPath::at_root("/tmp/notes.txt").entry_name(), Some("notes.txt".to_string()));
    assert_eq!(ResolvedPath::at_root("/").entry_name(), None);
    assert_eq!(ResolvedPath::at_root("/tmp/..").entry_name(), None);
}

#[test]
fn a_relative_path_resolves_to_itself() {
    for relative in ["a.txt", "sub/b.txt", "x/y/z", "with space/ü.txt"] {
        assert_eq!(resolved("/tmp/share", relative).relative(), relative);
    }
}
