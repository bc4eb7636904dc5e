use super_analyzer::mirror::{mirror_tree, path_is_excluded};
use super_analyzer::tree::{FileContent, MenuNode, MirrorError, Page, Rules, SourceNode};

fn text(name: &str, content: &str) -> SourceNode {
    SourceNode::File { name: name.to_string(), content: FileContent::Text(content.to_string()) }
}

fn dir(name: &str, children: Vec<SourceNode>) -> SourceNode {
    SourceNode::Directory { name: name.to_string(), children }
}

fn file_entry(name: &str, path: &str, ext: &str) -> MenuNode {
    MenuNode::FileEntry {
        name: name.to_string(),
        relative_path: path.to_string(),
        extension: ext.to_string(),
    }
}

fn dir_entry(name: &str, children: Vec<MenuNode>) -> MenuNode {
    MenuNode::DirectoryEntry { name: name.to_string(), children }
}

fn rules(excluded: &[&str], pristine: &str) -> Rules {
    Rules {
        excluded: excluded.iter().map(|s| s.to_string()).collect(),
        pristine: pristine.to_string(),
    }
}

fn count_files(menu: &[MenuNode]) -> usize {
    menu.iter()
        .map(|node| match node {
            MenuNode::FileEntry { .. } => 1,
            MenuNode::DirectoryEntry { children, .. } => count_files(children),
        })
        .sum()
}

fn has_empty_directory(menu: &[MenuNode]) -> bool {
    menu.iter().any(|node| match node {
        MenuNode::FileEntry { .. } => false,
        MenuNode::DirectoryEntry { children, .. } => {
            children.is_empty() || has_empty_directory(children)
        }
    })
}

#[test]
fn mirror_of_the_sample_tree() {
    let root = vec![
        text("MainActivity.java", "class MainActivity {}"),
        dir("res", vec![dir("layout", vec![text("main.xml", "<LinearLayout/>")])]),
        dir("original", vec![text("MainActivity.java", "raw")]),
        dir(
            "com",
            vec![dir(
                "google",
                vec![dir("android", vec![dir("gms", vec![dir("ads", vec![text("Ad.java", "ad")])])])],
            )],
        ),
    ];
    let mirror = mirror_tree(&root, &rules(&["com/google/android/gms"], "original")).unwrap();
    assert_eq!(
        mirror.menu,
        vec![
            file_entry("MainActivity.java", "MainActivity.java", "java"),
            dir_entry(
                "res",
                vec![dir_entry("layout", vec![file_entry("main.xml", "res/layout/main.xml", "xml")])]
            ),
        ]
    );
    let outputs: Vec<String> =
        mirror.pages.iter().map(|p| format!("{}.html", p.relative_path)).collect();
    assert_eq!(outputs, vec!["MainActivity.java.html", "res/layout/main.xml.html"]);
    assert_eq!(
        mirror.pages,
        vec![
            Page {
                relative_path: "MainActivity.java".to_string(),
                code: "class MainActivity {}".to_string(),
                back_path: String::new(),
            },
            Page {
                relative_path: "res/layout/main.xml".to_string(),
                code: "<LinearLayout/>".to_string(),
                back_path: "../../".to_string(),
            },
        ]
    );
}

#[test]
fn every_eligible_file_gets_a_page_and_an_entry() {
    let root = vec![
        text("A.java", "a"),
        text("notes.txt", "n"),
        dir("x", vec![text("B.java", "b"), text("c.xml", "c"), dir("y", vec![text("D.java", "d")])]),
        dir("z", vec![text("e.xml", "e")]),
    ];
    let mirror = mirror_tree(&root, &rules(&[], "original")).unwrap();
    assert_eq!(mirror.pages.len(), 5);
    assert_eq!(count_files(&mirror.menu), 5);
    let paths: Vec<&str> = mirror.pages.iter().map(|p| p.relative_path.as_str()).collect();
    assert_eq!(paths, vec!["A.java", "x/B.java", "x/c.xml", "x/y/D.java", "z/e.xml"]);
    assert!(!has_empty_directory(&mirror.menu));
}

#[test]
fn directory_without_eligible_files_is_pruned() {
    let root = vec![
        dir("assets", vec![text("logo.png", ""), text("font.ttf", "")]),
        dir("empty", vec![]),
        dir("nested", vec![dir("deeper", vec![text("data.bin", "")])]),
        dir("wrapper", vec![dir("smali", vec![text("A.java", "a")])]),
        text("Keep.java", "k"),
    ];
    let mirror = mirror_tree(&root, &rules(&["wrapper/smali"], "original")).unwrap();
    assert_eq!(mirror.menu, vec![file_entry("Keep.java", "Keep.java", "java")]);
    assert_eq!(mirror.pages.len(), 1);
}

#[test]
fn excluded_path_is_never_mirrored() {
    let root = vec![dir(
        "classes",
        vec![
            dir("android", vec![text("View.java", "v"), dir("os", vec![text("Os.java", "o")])]),
            dir("app", vec![text("Main.java", "m")]),
        ],
    )];
    let r = rules(&["classes/android", "smali"], "original");
    let mirror = mirror_tree(&root, &r).unwrap();
    assert_eq!(
        mirror.menu,
        vec![dir_entry(
            "classes",
            vec![dir_entry("app", vec![file_entry("Main.java", "classes/app/Main.java", "java")])]
        )]
    );
    assert!(mirror.pages.iter().all(|p| !p.relative_path.starts_with("classes/android")));
    assert!(path_is_excluded(&r, "classes/android"));
    assert!(path_is_excluded(&r, "smali"));
    assert!(!path_is_excluded(&r, "classes"));
    assert!(!path_is_excluded(&r, "classes/android/os"));
}

#[test]
fn excluded_root_gives_nothing() {
    let root = vec![text("A.java", "a")];
    let mirror = mirror_tree(&root, &rules(&[""], "original")).unwrap();
    assert!(mirror.menu.is_empty());
    assert!(mirror.pages.is_empty());
}

#[test]
fn pristine_copy_is_skipped_only_at_its_path() {
    let root = vec![
        dir("original", vec![text("A.java", "a")]),
        dir("src", vec![dir("original", vec![text("B.java", "b")])]),
    ];
    let mirror = mirror_tree(&root, &rules(&[], "original")).unwrap();
    assert_eq!(
        mirror.menu,
        vec![dir_entry(
            "src",
            vec![dir_entry("original", vec![file_entry("B.java", "src/original/B.java", "java")])]
        )]
    );
}

#[test]
fn file_named_like_the_pristine_copy_is_kept() {
    let root = vec![text("original.java", "o")];
    let mirror = mirror_tree(&root, &rules(&[], "original.java")).unwrap();
    assert_eq!(mirror.pages.len(), 1);
}

#[test]
fn back_path_at_depth_three() {
    let root = vec![dir("a", vec![dir("b", vec![dir("c", vec![text("File.java", "f")])])])];
    let mirror = mirror_tree(&root, &rules(&[], "original")).unwrap();
    assert_eq!(mirror.pages.len(), 1);
    assert_eq!(mirror.pages[0].relative_path, "a/b/c/File.java");
    assert_eq!(mirror.pages[0].back_path, "../../../");
}

#[test]
fn unreadable_eligible_file_fails_the_mirror() {
    let root = vec![
        text("A.java", "a"),
        dir(
            "x",
            vec![SourceNode::File { name: "B.java".to_string(), content: FileContent::Unreadable }],
        ),
        SourceNode::File { name: "C.xml".to_string(), content: FileContent::NotText },
    ];
    assert_eq!(
        mirror_tree(&root, &rules(&[], "original")).err(),
        Some(MirrorError::Io { path: "x/B.java".to_string() })
    );
}

#[test]
fn binary_eligible_file_fails_the_mirror() {
    let root = vec![SourceNode::File { name: "C.xml".to_string(), content: FileContent::NotText }];
    assert_eq!(
        mirror_tree(&root, &rules(&[], "original")).err(),
        Some(MirrorError::Encoding { path: "C.xml".to_string() })
    );
}

#[test]
fn unreadable_file_that_is_left_out_does_no_harm() {
    let root = vec![
        SourceNode::File { name: "logo.png".to_string(), content: FileContent::NotText },
        dir(
            "smali",
            vec![SourceNode::File { name: "A.java".to_string(), content: FileContent::Unreadable }],
        ),
        dir(
            "original",
            vec![SourceNode::File { name: "A.java".to_string(), content: FileContent::Unreadable }],
        ),
    ];
    let mirror = mirror_tree(&root, &rules(&["smali"], "original")).unwrap();
    assert!(mirror.menu.is_empty());
    assert!(mirror.pages.is_empty());
}

#[test]
fn empty_tree_has_an_empty_mirror() {
    let mirror = mirror_tree(&Vec::new(), &rules(&[], "original")).unwrap();
    assert!(mirror.menu.is_empty());
    assert!(mirror.pages.is_empty());
}

#[test]
fn walk_passes_over_excluded_and_pristine_directories() {
    let r = rules(&["classes/android", "smali"], "original");
    assert!(super_analyzer::mirror::passes_over(&r, "original"));
    assert!(super_analyzer::mirror::passes_over(&r, "smali"));
    assert!(super_analyzer::mirror::passes_over(&r, "classes/android"));
    assert!(!super_analyzer::mirror::passes_over(&r, "classes"));
    assert!(!super_analyzer::mirror::passes_over(&r, "src/original"));
}
