use ox_core::filetree::FileTree;

fn file(path: &str) -> FileTree {
    FileTree::File { path: path.to_string() }
}

fn dir(path: &str) -> FileTree {
    FileTree::Dir { path: path.to_string(), files: None }
}

fn paths_of(t: &FileTree) -> Vec<String> {
    match t {
        FileTree::File { path } => vec![path.clone()],
        FileTree::Dir { files, .. } => match files {
            None => vec![],
            Some(fs) => fs
                .iter()
                .map(|f| match f {
                    FileTree::File { path } => path.clone(),
                    FileTree::Dir { path, .. } => path.clone(),
                })
                .collect(),
        },
    }
}

#[test]
fn sort_puts_hidden_then_directories_then_names() {
    let mut tree = FileTree::Dir {
        path: "/root".to_string(),
        files: Some(vec![
            file("/root/zeta.txt"),
            dir("/root/src"),
            file("/root/.config"),
            file("/root/alpha.txt"),
            dir("/root/.git"),
            dir("/root/docs"),
        ]),
    };
    tree.sort();
    assert_eq!(
        paths_of(&tree),
        vec![
            "/root/.git".to_string(),
            "/root/.config".to_string(),
            "/root/docs".to_string(),
            "/root/src".to_string(),
            "/root/alpha.txt".to_string(),
            "/root/zeta.txt".to_string(),
        ]
    );
}

#[test]
fn sort_descends_into_expanded_directories() {
    let mut tree = FileTree::Dir {
        path: "/r".to_string(),
        files: Some(vec![FileTree::Dir {
            path: "/r/d".to_string(),
            files: Some(vec![file("/r/d/b"), file("/r/d/a")]),
        }]),
    };
    tree.sort();
    match &tree {
        FileTree::Dir { files: Some(fs), .. } => match &fs[0] {
            FileTree::Dir { files: Some(inner), .. } => {
                let names: Vec<String> = inner
                    .iter()
                    .map(|f| match f {
                        FileTree::File { path } => path.clone(),
                        FileTree::Dir { path, .. } => path.clone(),
                    })
                    .collect();
                assert_eq!(names, vec!["/r/d/a".to_string(), "/r/d/b".to_string()]);
            }
            _ => panic!("expected an expanded directory"),
        },
        _ => panic!("expected an expanded directory"),
    }
}

#[test]
fn hidden_nodes_are_judged_by_their_file_name() {
    assert!(file("/home/user/.bashrc").is_hidden());
    assert!(!file("/home/.user/note.txt").is_hidden());
    assert!(dir("/a/.git").is_hidden());
    assert!(!dir("/a/src").is_hidden());
}

#[test]
fn icons_follow_kind_visibility_and_expansion() {
    assert_eq!(file("/a/b.txt").icon(), "󰈤  ");
    assert_eq!(file("/a/.b").icon(), "󰘓  ");
    assert_eq!(dir("/a/src").icon(), "󰉖  ");
    assert_eq!(dir("/a/.git").icon(), "󱞞  ");
    let expanded = FileTree::Dir { path: "/a/src".to_string(), files: Some(vec![]) };
    assert_eq!(expanded.icon(), "󰷏  ");
}

#[test]
fn expand_at_fills_in_a_reachable_directory() {
    let mut tree = FileTree::Dir {
        path: "/r".to_string(),
        files: Some(vec![dir("/r/d"), file("/r/f")]),
    };
    let kids = vec![file("/r/d/a"), dir("/r/d/sub")];
    assert!(tree.expand_at("/r/d", kids));
    match &tree {
        FileTree::Dir { files: Some(fs), .. } => match &fs[0] {
            FileTree::Dir { path, files: Some(inner) } => {
                assert_eq!(path, "/r/d");
                assert_eq!(inner.len(), 2);
            }
            _ => panic!("expected the directory to be expanded"),
        },
        _ => panic!("expected an expanded root"),
    }
    // once expanded, the same path is no longer an expansion target
    assert!(!tree.expand_at("/r/d", vec![]));
    // an absent path finds nothing
    assert!(!tree.expand_at("/r/zzz", vec![file("/x")]));
}

#[test]
fn expand_at_reaches_into_expanded_directories() {
    let mut tree = FileTree::Dir {
        path: "/r".to_string(),
        files: Some(vec![FileTree::Dir {
            path: "/r/d".to_string(),
            files: Some(vec![dir("/r/d/deep")]),
        }]),
    };
    assert!(tree.expand_at("/r/d/deep", vec![file("/r/d/deep/leaf")]));
    match &tree {
        FileTree::Dir { files: Some(fs), .. } => match &fs[0] {
            FileTree::Dir { files: Some(inner), .. } => match &inner[0] {
                FileTree::Dir { files: Some(leafs), .. } => {
                    assert_eq!(leafs.len(), 1);
                }
                _ => panic!("expected the deep directory to be expanded"),
            },
            _ => panic!("expected the middle directory to stay expanded"),
        },
        _ => panic!("expected an expanded root"),
    }
}

#[test]
fn path_to_string_strips_the_verbatim_prefix() {
    assert_eq!(
        FileTree::path_to_string(&"\\\\?\\C:\\dir".to_string()),
        "C:\\dir".to_string()
    );
    assert_eq!(
        FileTree::path_to_string(&"/plain/path".to_string()),
        "/plain/path".to_string()
    );
}
