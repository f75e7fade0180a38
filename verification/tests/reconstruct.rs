use std::io::{Error as IoError, ErrorKind};
use untree::functions::iter_tree;
use untree::tree_iterator::{Decision, TreeIterator};
use untree::{Error, PathKind};

fn listing(lines: &[&str]) -> Vec<Result<String, IoError>> {
    lines.iter().map(|line| Ok(line.to_string())).collect()
}

fn paths(decisions: &[Decision]) -> Vec<(String, PathKind)> {
    decisions
        .iter()
        .map(|decision| match decision {
            Ok((path, kind)) => (path.clone(), *kind),
            Err(err) => panic!("unexpected failure: {:?}", err),
        })
        .collect()
}

fn expect(pairs: &[(&str, PathKind)]) -> Vec<(String, PathKind)> {
    pairs.iter().map(|(path, kind)| (path.to_string(), *kind)).collect()
}

#[test]
fn nested_listing_below_root() {
    let decisions = iter_tree("root", listing(&["a", "    b", "    c", "d", ""]));
    assert_eq!(
        paths(&decisions),
        expect(&[
            ("root/a", PathKind::Directory),
            ("root/a/b", PathKind::FilePath),
            ("root/a/c", PathKind::FilePath),
            ("root/d", PathKind::FilePath),
        ])
    );
}

#[test]
fn empty_listing_gives_nothing() {
    let decisions = iter_tree("root", Vec::new());
    assert!(decisions.is_empty());
}

#[test]
fn single_line_without_blank_line_is_a_file() {
    let decisions = iter_tree("root", listing(&["only"]));
    assert_eq!(paths(&decisions), expect(&[("root/only", PathKind::FilePath)]));
}

#[test]
fn parent_entry_at_the_top_escapes_with_leading_dots() {
    let decisions = iter_tree("", listing(&["..", "x"]));
    assert_eq!(
        paths(&decisions),
        expect(&[("..", PathKind::FilePath), ("x", PathKind::FilePath)])
    );
    let below = iter_tree("root", listing(&["../../y"]));
    assert_eq!(paths(&below), expect(&[("root/../../y", PathKind::FilePath)]));
}

#[test]
fn failure_in_the_middle_comes_last() {
    let lines: Vec<Result<String, IoError>> = vec![
        Ok("a".to_string()),
        Ok("b".to_string()),
        Err(IoError::new(ErrorKind::Other, "broken pipe")),
        Ok("c".to_string()),
    ];
    let decisions = iter_tree("root", lines);
    assert_eq!(decisions.len(), 3);
    assert_eq!(
        paths(&decisions[..2]),
        expect(&[("root/a", PathKind::FilePath), ("root/b", PathKind::FilePath)])
    );
    match &decisions[2] {
        Err(Error::MissingContext(err)) => assert_eq!(err.to_string(), "broken pipe"),
        other => panic!("expected a failure without context, got {:?}", other),
    }
}

#[test]
fn lines_behind_a_blank_line_are_ignored() {
    let decisions = iter_tree("out", listing(&["a", "", "b", "c"]));
    assert_eq!(paths(&decisions), expect(&[("out/a", PathKind::FilePath)]));
}

#[test]
fn depth_may_fall_by_several_levels() {
    let decisions = iter_tree(
        "r",
        listing(&["a", "    b", "        c", "            d", "e"]),
    );
    assert_eq!(
        paths(&decisions),
        expect(&[
            ("r/a", PathKind::Directory),
            ("r/a/b", PathKind::Directory),
            ("r/a/b/c", PathKind::Directory),
            ("r/a/b/c/d", PathKind::FilePath),
            ("r/e", PathKind::FilePath),
        ])
    );
}

#[test]
fn first_entry_is_entered_whatever_its_depth() {
    let decisions = iter_tree("r", listing(&["        deep", "    up", "top"]));
    assert_eq!(
        paths(&decisions),
        expect(&[
            ("r/deep", PathKind::FilePath),
            ("up", PathKind::FilePath),
            ("top", PathKind::FilePath),
        ])
    );
}

#[test]
fn rising_above_the_first_entry_takes_from_the_root() {
    let decisions = iter_tree("root/sub", listing(&["    x", "b"]));
    assert_eq!(
        paths(&decisions),
        expect(&[("root/sub/x", PathKind::FilePath), ("root/b", PathKind::FilePath)])
    );
    let absolute = iter_tree("/a/b/c", listing(&["            w", "    x", "y", "z"]));
    assert_eq!(
        paths(&absolute),
        expect(&[
            ("/a/b/c/w", PathKind::FilePath),
            ("/a/x", PathKind::FilePath),
            ("/y", PathKind::FilePath),
            ("/z", PathKind::FilePath),
        ])
    );
}

#[test]
fn tree_glyphs_are_read_as_indentation() {
    let decisions = iter_tree(
        "",
        listing(&[
            "project",
            "\u{251c}\u{2500}\u{2500} src",
            "\u{2502}   \u{251c}\u{2500}\u{2500} lib.rs",
            "\u{2502}\u{a0}\u{a0} \u{2514}\u{2500}\u{2500} main.rs",
            "\u{2514}\u{2500}\u{2500} README.md",
        ]),
    );
    assert_eq!(
        paths(&decisions),
        expect(&[
            ("project", PathKind::Directory),
            ("project/src", PathKind::Directory),
            ("project/src/lib.rs", PathKind::FilePath),
            ("project/src/main.rs", PathKind::FilePath),
            ("project/README.md", PathKind::FilePath),
        ])
    );
}

#[test]
fn root_with_trailing_separator_gets_no_second_one() {
    let decisions = iter_tree("/tmp/out/", listing(&["a", "    b"]));
    assert_eq!(
        paths(&decisions),
        expect(&[("/tmp/out/a", PathKind::Directory), ("/tmp/out/a/b", PathKind::FilePath)])
    );
}

#[test]
fn stepping_by_hand_follows_the_states() {
    let machine = TreeIterator::new("root", Some(Ok("a".to_string())));
    assert!(machine.is_good());
    let (machine, first) = machine.step(Some(Ok("    b".to_string())));
    assert!(matches!(first, Some(Ok((ref path, PathKind::Directory))) if path == "root/a"));
    assert!(machine.is_good());
    let (machine, second) =
        machine.step(Some(Err(IoError::new(ErrorKind::UnexpectedEof, "cut"))));
    assert!(matches!(second, Some(Ok((ref path, PathKind::FilePath))) if path == "root/a/b"));
    assert!(!machine.is_good());
    assert!(!machine.is_empty());
    let (machine, third) = machine.step(None);
    assert!(matches!(third, Some(Err(Error::MissingContext(_)))));
    assert!(machine.is_empty());
    let (machine, fourth) = machine.step(None);
    assert!(fourth.is_none());
    assert!(machine.is_empty());
}

#[test]
fn failure_on_the_first_line_is_the_only_output() {
    let machine = TreeIterator::new("root", Some(Err(IoError::new(ErrorKind::Other, "x"))));
    assert!(!machine.is_good());
    let decisions = iter_tree("root", vec![Err(IoError::new(ErrorKind::Other, "x"))]);
    assert_eq!(decisions.len(), 1);
    assert!(matches!(decisions[0], Err(Error::MissingContext(_))));
}

#[test]
fn stack_is_balanced_over_a_listing() {
    let entries: [(i64, &str); 8] = [
        (0, "a"),
        (1, "b"),
        (2, "c"),
        (2, "d"),
        (1, "e"),
        (0, "f"),
        (1, "g"),
        (2, "h"),
    ];
    let lines: Vec<Result<String, IoError>> = entries
        .iter()
        .map(|(depth, name)| Ok(format!("{}{}", "    ".repeat(*depth as usize), name)))
        .collect();
    let decisions = iter_tree("r", lines);
    assert_eq!(decisions.len(), entries.len());

    let mut stack = untree::PathStack::new("r");
    let mut pushes = 0usize;
    let mut pops = 0usize;
    let mut old_depth = -1i64;
    for (i, (depth, name)) in entries.iter().enumerate() {
        if *depth <= old_depth {
            for _ in *depth..old_depth {
                assert!(stack.pop());
                pops += 1;
            }
            stack.set_file_name(name.to_string());
        } else {
            stack.push(name.to_string());
            pushes += 1;
        }
        old_depth = *depth;
        assert_eq!(stack.len() as i64, 1 + *depth + 1);
        match &decisions[i] {
            Ok((path, _)) => assert_eq!(*path, stack.to_string()),
            Err(err) => panic!("unexpected failure: {:?}", err),
        }
    }
    assert_eq!(pushes, 5);
    assert_eq!(pops, 2);
    assert_eq!(stack.len(), 1 + 3);
    assert_eq!(pops, pushes - (stack.len() - 1));
}
