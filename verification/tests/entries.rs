use untree::entry::strip_one;
use untree::get_entry;
use untree::normalize_path;
use untree::path::{join_segments, split_segments};
use untree::path_stack::PathStack;

#[test]
fn unindented_text_has_depth_zero() {
    assert_eq!(get_entry("name"), (0, "name"));
    assert_eq!(get_entry(""), (0, ""));
    assert_eq!(get_entry("   three spaces"), (0, "   three spaces"));
    assert_eq!(get_entry("\tname"), (0, "\tname"));
    assert_eq!(get_entry("a    b"), (0, "a    b"));
}

#[test]
fn each_token_counts_one_level() {
    assert_eq!(get_entry("    a"), (1, "a"));
    assert_eq!(get_entry("\u{2514}\u{2500}\u{2500} a"), (1, "a"));
    assert_eq!(get_entry("\u{251c}\u{2500}\u{2500} a"), (1, "a"));
    assert_eq!(get_entry("\u{2502}   a"), (1, "a"));
    assert_eq!(get_entry("\u{2502}\u{a0}\u{a0} a"), (1, "a"));
}

#[test]
fn tokens_are_stripped_as_long_as_one_matches() {
    assert_eq!(get_entry("        a"), (2, "a"));
    assert_eq!(get_entry("\u{2502}   \u{2502}\u{a0}\u{a0}     \u{2514}\u{2500}\u{2500} x y"), (4, "x y"));
    assert_eq!(get_entry("     a"), (1, " a"));
    assert_eq!(get_entry("        "), (2, ""));
    assert_eq!(get_entry("    \u{2502}  a"), (1, "\u{2502}  a"));
}

#[test]
fn incomplete_glyphs_are_part_of_the_name() {
    assert_eq!(get_entry("\u{2514}\u{2500} a"), (0, "\u{2514}\u{2500} a"));
    assert_eq!(get_entry("\u{2502}\u{a0} a"), (0, "\u{2502}\u{a0} a"));
    assert_eq!(get_entry("\u{2500}\u{2500} a"), (0, "\u{2500}\u{2500} a"));
}

#[test]
fn strip_one_takes_a_single_token() {
    assert_eq!(strip_one("        a"), Some("    a"));
    assert_eq!(strip_one("\u{251c}\u{2500}\u{2500}     a"), Some("    a"));
    assert_eq!(strip_one("a"), None);
    assert_eq!(strip_one(""), None);
}

#[test]
fn deep_entry_counts_every_token() {
    let mut line = String::new();
    for _ in 0..1000 {
        line.push_str("\u{2502}   ");
    }
    line.push_str("leaf");
    assert_eq!(get_entry(&line), (1000, "leaf"));
}

#[test]
fn segments_are_the_pieces_between_separators() {
    assert_eq!(split_segments("a/b/c"), vec!["a", "b", "c"]);
    assert_eq!(split_segments("/a//b/"), vec!["a", "b"]);
    assert_eq!(split_segments(""), Vec::<String>::new());
    assert_eq!(split_segments("///"), Vec::<String>::new());
    assert_eq!(split_segments("one"), vec!["one"]);
    assert_eq!(split_segments("./../x"), vec![".", "..", "x"]);
}

#[test]
fn joining_skips_empty_parts() {
    let parts = vec!["a".to_string(), String::new(), "b".to_string()];
    assert_eq!(join_segments(&parts), "a/b");
    assert_eq!(join_segments(&Vec::new()), "");
    assert_eq!(join_segments(&vec!["x".to_string()]), "x");
}

#[test]
fn normal_form_drops_dots_and_resolves_parents() {
    assert_eq!(normalize_path("a"), "a");
    assert_eq!(normalize_path("a/./b"), "a/b");
    assert_eq!(normalize_path("a/b/../c"), "a/c");
    assert_eq!(normalize_path("./a"), "a");
    assert_eq!(normalize_path("."), "");
    assert_eq!(normalize_path(""), "");
    assert_eq!(normalize_path("a/.."), "");
    assert_eq!(normalize_path("a//b/"), "a/b");
    assert_eq!(normalize_path("..."), "...");
}

#[test]
fn parents_that_find_nothing_escape_in_front() {
    assert_eq!(normalize_path(".."), "..");
    assert_eq!(normalize_path("../.."), "../..");
    assert_eq!(normalize_path("../a"), "../a");
    assert_eq!(normalize_path("a/../../b"), "../b");
    assert_eq!(normalize_path("a/../../b/../../c"), "../../c");
    assert_eq!(normalize_path("../a/.."), "..");
}

#[test]
fn normal_form_is_stable() {
    for path in ["a/b/../c", "../../x/./y", "a//b", "./.", "x/../../.."] {
        let once = normalize_path(path);
        assert_eq!(normalize_path(&once), once);
    }
}

#[test]
fn stack_begins_as_the_root() {
    let relative = PathStack::new("root/sub");
    assert!(!relative.absolute);
    assert_eq!(relative.names, vec!["root", "sub"]);
    assert_eq!(relative.len(), 2);
    assert_eq!(relative.to_string(), "root/sub");

    let absolute = PathStack::new("/tmp//out/");
    assert!(absolute.absolute);
    assert_eq!(absolute.names, vec!["tmp", "out"]);
    assert_eq!(absolute.to_string(), "/tmp/out");

    let top = PathStack::new("/");
    assert!(top.absolute);
    assert_eq!(top.len(), 0);
    assert_eq!(top.to_string(), "/");

    let here = PathStack::new("");
    assert!(!here.absolute);
    assert_eq!(here.len(), 0);
    assert_eq!(here.to_string(), "");

    let dotted = PathStack::new("./a/../b");
    assert_eq!(dotted.names, vec![".", "a", "..", "b"]);
    assert_eq!(dotted.to_string(), "./a/../b");
}

#[test]
fn stack_enters_leaves_and_replaces() {
    let mut stack = PathStack::new("root");
    assert_eq!(stack.len(), 1);
    stack.push("a".to_string());
    stack.push("b".to_string());
    assert_eq!(stack.len(), 3);
    assert_eq!(stack.to_string(), "root/a/b");
    stack.set_file_name("c".to_string());
    assert_eq!(stack.to_string(), "root/a/c");
    assert!(stack.pop());
    assert_eq!(stack.to_string(), "root/a");
    assert!(stack.pop());
    assert_eq!(stack.to_string(), "root");
}

#[test]
fn stack_takes_the_components_of_the_root_like_any_others() {
    let mut stack = PathStack::new("root/sub");
    stack.push("x".to_string());
    assert!(stack.pop());
    stack.set_file_name("b".to_string());
    assert_eq!(stack.to_string(), "root/b");
    assert!(stack.pop());
    assert!(stack.pop());
    assert_eq!(stack.len(), 0);
    assert_eq!(stack.to_string(), "");
    assert!(!stack.pop());
    stack.set_file_name("d".to_string());
    assert_eq!(stack.len(), 1);
    assert_eq!(stack.to_string(), "d");

    let mut absolute = PathStack::new("/etc");
    assert!(absolute.pop());
    assert!(!absolute.pop());
    assert_eq!(absolute.to_string(), "/");
    absolute.set_file_name("usr".to_string());
    assert_eq!(absolute.to_string(), "/usr");
}

#[test]
fn stack_skips_empty_names() {
    let mut stack = PathStack::new("");
    stack.push("a".to_string());
    assert_eq!(stack.to_string(), "a");
    stack.push(String::new());
    assert_eq!(stack.to_string(), "a");
    stack.push("b".to_string());
    assert_eq!(stack.to_string(), "a/b");
}
