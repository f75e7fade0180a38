use untree::iter_tree;
use untree::PathKind;

enum Node {
    File(&'static str),
    Dir(&'static str, Vec<Node>),
}

fn walk(
    nodes: &[Node],
    depth: usize,
    above: &str,
    glyphs: bool,
    lines: &mut Vec<Result<String, std::io::Error>>,
    found: &mut Vec<(String, PathKind)>,
) {
    for (i, node) in nodes.iter().enumerate() {
        let name = match node {
            Node::File(name) => name,
            Node::Dir(name, _) => name,
        };
        let mut line = String::new();
        for level in 0..depth {
            if !glyphs {
                line.push_str("    ");
            } else if level + 1 < depth {
                line.push_str("\u{2502}   ");
            } else if i + 1 < nodes.len() {
                line.push_str("\u{251c}\u{2500}\u{2500} ");
            } else {
                line.push_str("\u{2514}\u{2500}\u{2500} ");
            }
        }
        line.push_str(name);
        lines.push(Ok(line));
        let path = format!("{}/{}", above, name);
        match node {
            Node::File(_) => found.push((path, PathKind::FilePath)),
            Node::Dir(_, children) => {
                found.push((path.clone(), PathKind::Directory));
                walk(children, depth + 1, &path, glyphs, lines, found);
            }
        }
    }
}

fn sample() -> Vec<Node> {
    vec![
        Node::Dir(
            "src",
            vec![
                Node::Dir(
                    "bin",
                    vec![Node::File("main.rs"), Node::Dir("deep", vec![Node::File("x")])],
                ),
                Node::File("lib.rs"),
            ],
        ),
        Node::File("Cargo.toml"),
        Node::Dir("docs", vec![Node::File("index.md")]),
        Node::File("README.md"),
    ]
}

fn decided(lines: Vec<Result<String, std::io::Error>>) -> Vec<(String, PathKind)> {
    iter_tree("out", lines)
        .into_iter()
        .map(|decision| match decision {
            Ok(pair) => pair,
            Err(err) => panic!("unexpected failure: {:?}", err),
        })
        .collect()
}

#[test]
fn listing_of_a_tree_gives_the_tree_back() {
    let mut lines = Vec::new();
    let mut found = Vec::new();
    walk(&sample(), 0, "out", false, &mut lines, &mut found);
    assert_eq!(found.len(), 10);
    assert_eq!(decided(lines), found);
}

#[test]
fn listing_with_glyphs_gives_the_tree_back() {
    let mut lines = Vec::new();
    let mut found = Vec::new();
    walk(&sample(), 0, "out", true, &mut lines, &mut found);
    assert_eq!(decided(lines), found);
}

#[test]
fn directory_that_holds_nothing_comes_back_as_a_file() {
    let tree = vec![Node::Dir("empty", Vec::new()), Node::File("f")];
    let mut lines = Vec::new();
    let mut found = Vec::new();
    walk(&tree, 0, "out", false, &mut lines, &mut found);
    assert_eq!(
        decided(lines),
        vec![
            ("out/empty".to_string(), PathKind::FilePath),
            ("out/f".to_string(), PathKind::FilePath),
        ]
    );
}

#[test]
fn unindented_listing_is_flat() {
    let lines = ["a", "b c", "..x", "\u{2514} d"]
        .iter()
        .map(|line| Ok(line.to_string()))
        .collect();
    assert_eq!(
        decided(lines),
        vec![
            ("out/a".to_string(), PathKind::FilePath),
            ("out/b c".to_string(), PathKind::FilePath),
            ("out/..x".to_string(), PathKind::FilePath),
            ("out/\u{2514} d".to_string(), PathKind::FilePath),
        ]
    );
}

#[test]
fn names_are_brought_to_normal_form() {
    let lines = ["a/./b", "    ../c", "    d/../e", "."]
        .iter()
        .map(|line| Ok(line.to_string()))
        .collect();
    assert_eq!(
        decided(lines),
        vec![
            ("out/a/b".to_string(), PathKind::Directory),
            ("out/a/b/../c".to_string(), PathKind::FilePath),
            ("out/a/b/e".to_string(), PathKind::FilePath),
            ("out".to_string(), PathKind::FilePath),
        ]
    );
}

#[test]
fn each_path_is_its_parents_path_and_its_name() {
    let entries: [(usize, &str); 9] = [
        (0, "a"),
        (1, "b"),
        (2, "c"),
        (2, "d"),
        (1, "e"),
        (2, "f"),
        (0, "g"),
        (1, "h"),
        (0, "i"),
    ];
    for root in ["out", "/srv/www", "", "/", "x/y/"] {
        let lines = entries
            .iter()
            .map(|(depth, name)| Ok(format!("{}{}", "    ".repeat(*depth), name)))
            .collect();
        let decisions: Vec<(String, PathKind)> = iter_tree(root, lines)
            .into_iter()
            .map(|decision| match decision {
                Ok(pair) => pair,
                Err(err) => panic!("unexpected failure: {:?}", err),
            })
            .collect();
        assert_eq!(decisions.len(), entries.len());
        let top = match root {
            "x/y/" => "x/y",
            other => other,
        };
        for (i, (depth, name)) in entries.iter().enumerate() {
            let parent = (0..i).rev().find(|j| entries[*j].0 + 1 == *depth);
            let above = match parent {
                Some(j) => decisions[j].0.as_str(),
                None => top,
            };
            let joined = if above.is_empty() || above.ends_with('/') {
                format!("{}{}", above, name)
            } else {
                format!("{}/{}", above, name)
            };
            assert_eq!(decisions[i].0, joined);
            let deeper_next = i + 1 < entries.len() && entries[i + 1].0 > *depth;
            let kind = if deeper_next { PathKind::Directory } else { PathKind::FilePath };
            assert_eq!(decisions[i].1, kind);
        }
    }
}
