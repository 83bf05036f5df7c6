use neatify::utils::{
    find_config_path, is_ignored, normalize_path, walk_dir, Entry, File, CONFIG_FILE_NAME,
};

fn entry(name: &str, path: &str, depth: usize, is_file: bool) -> Entry {
    let extension = match name.rfind('.') {
        Some(dot) if dot > 0 => name[dot + 1..].to_string(),
        _ => String::new(),
    };
    Entry {
        name: name.to_string(),
        path: path.to_string(),
        size: name.len() as u64,
        extension,
        depth,
        is_file,
    }
}

fn names(list: &[&str]) -> Vec<String> {
    list.iter().map(|n| n.to_string()).collect()
}

fn tree() -> Vec<Entry> {
    vec![
        entry("root", "root", 0, false),
        entry("a.rs", "root/a.rs", 1, true),
        entry("node_modules", "root/node_modules", 1, false),
        entry("x.js", "root/node_modules/x.js", 2, true),
        entry("deep", "root/node_modules/deep", 2, false),
        entry("y.js", "root/node_modules/deep/y.js", 3, true),
        entry("b.rs", "root/b.rs", 1, true),
        entry("src", "root/src", 1, false),
        entry("skip.txt", "root/src/skip.txt", 2, true),
        entry("c.rs", "root/src/c.rs", 2, true),
    ]
}

fn paths(files: &[File]) -> Vec<String> {
    files.iter().map(|f| f.path.clone()).collect()
}

#[test]
fn regular_files_are_catalogued_in_walk_order() {
    let files = walk_dir(tree(), Vec::new()).unwrap();
    assert_eq!(
        paths(&files),
        vec![
            "root/a.rs",
            "root/node_modules/x.js",
            "root/node_modules/deep/y.js",
            "root/b.rs",
            "root/src/skip.txt",
            "root/src/c.rs"
        ]
    );
}

#[test]
fn a_descriptor_takes_over_the_entry() {
    let files = walk_dir(vec![entry("a.tar.gz", "d/a.tar.gz", 1, true)], Vec::new()).unwrap();
    assert_eq!(
        files,
        vec![File::new("a.tar.gz".to_string(), "d/a.tar.gz".to_string(), 8, "gz".to_string(), false)]
    );
}

#[test]
fn an_ignored_directory_is_left_out_with_all_below_it() {
    let files = walk_dir(tree(), names(&["node_modules"])).unwrap();
    assert_eq!(paths(&files), vec!["root/a.rs", "root/b.rs", "root/src/skip.txt", "root/src/c.rs"]);
}

#[test]
fn an_ignored_file_is_left_out_alone() {
    let files = walk_dir(tree(), names(&["skip.txt", "a.rs"])).unwrap();
    assert_eq!(
        paths(&files),
        vec![
            "root/node_modules/x.js",
            "root/node_modules/deep/y.js",
            "root/b.rs",
            "root/src/c.rs"
        ]
    );
}

#[test]
fn an_ignored_name_inside_an_ignored_directory_ends_with_it() {
    let files = walk_dir(tree(), names(&["node_modules", "deep", "src"])).unwrap();
    assert_eq!(paths(&files), vec!["root/a.rs", "root/b.rs"]);
}

#[test]
fn a_sibling_after_an_ignored_file_is_kept() {
    let entries = vec![
        entry("d", "d", 0, false),
        entry("skip", "d/skip", 1, true),
        entry("keep", "d/keep", 1, true),
        entry("sub", "d/sub", 1, false),
        entry("skip", "d/sub/skip", 2, false),
        entry("in", "d/sub/skip/in", 3, true),
        entry("out", "d/sub/out", 2, true),
        entry("up", "d/up", 1, true),
    ];
    let files = walk_dir(entries, names(&["skip"])).unwrap();
    assert_eq!(paths(&files), vec!["d/keep", "d/sub/out", "d/up"]);
}

#[test]
fn backslashes_in_a_path_become_slashes() {
    let files = walk_dir(vec![entry("a.rs", ".\\src\\a.rs", 2, true)], Vec::new()).unwrap();
    assert_eq!(files[0].path, "./src/a.rs");
    assert_eq!(files[0].name, "a.rs");
    assert_eq!(normalize_path("a\\b/c\\\\d"), "a/b/c//d");
    assert_eq!(normalize_path(""), "");
}

#[test]
fn a_catalogue_without_files_is_an_error() {
    let message = "No files found in the directory".to_string();
    assert_eq!(walk_dir(Vec::new(), Vec::new()), Err(message.clone()));
    assert_eq!(walk_dir(vec![entry("root", "root", 0, false)], Vec::new()), Err(message.clone()));
    assert_eq!(walk_dir(tree(), names(&["root"])), Err(message.clone()));
    let only = vec![entry("d", "d", 0, false), entry("a", "d/a", 1, true)];
    assert_eq!(walk_dir(only, names(&["a"])), Err(message));
}

#[test]
fn the_same_entries_give_the_same_catalogue() {
    let first = walk_dir(tree(), names(&["src"]));
    let second = walk_dir(tree(), names(&["src"]));
    assert_eq!(first, second);
    assert_eq!(first.unwrap().len(), 4);
}

#[test]
fn a_name_is_ignored_only_as_a_whole() {
    let list = names(&["target", ".git"]);
    assert!(is_ignored(&"target".to_string(), &list));
    assert!(is_ignored(&".git".to_string(), &list));
    assert!(!is_ignored(&"targets".to_string(), &list));
    assert!(!is_ignored(&"Target".to_string(), &list));
    assert!(!is_ignored(&"".to_string(), &list));
    assert!(!is_ignored(&"target".to_string(), &Vec::new()));
}

#[test]
fn a_descriptor_can_be_marked_and_cloned() {
    let f = File::new("a".to_string(), "p/a".to_string(), 3, "".to_string(), false);
    assert_eq!(f.clone(), f);
    assert!(!f.clone().mark(false).is_modified);
    let marked = f.mark(true);
    assert!(marked.is_modified);
    assert_eq!(marked.path, "p/a");
    assert!(marked.mark(false).is_modified);
}

#[test]
fn the_first_entry_named_as_the_configuration_is_found() {
    assert_eq!(CONFIG_FILE_NAME, ".neatify.json");
    let entries = vec![
        entry(".", ".", 0, false),
        entry("x.neatify.json", "./x.neatify.json", 1, true),
        entry("sub", "./sub", 1, false),
        entry(".neatify.json", "./sub/.neatify.json", 2, true),
        entry(".neatify.json", "./.neatify.json", 1, true),
    ];
    assert_eq!(find_config_path(&entries), Ok("./sub/.neatify.json".to_string()));
    let entries = vec![entry(".neatify.json", ".\\.neatify.json", 1, true)];
    assert_eq!(find_config_path(&entries), Ok(".\\.neatify.json".to_string()));
}

#[test]
fn a_walk_without_a_configuration_file_is_an_error() {
    let message = "No config file found in the current directory".to_string();
    assert_eq!(find_config_path(&Vec::new()), Err(message.clone()));
    let entries = vec![
        entry(".", ".", 0, false),
        entry("neatify.json", "./neatify.json", 1, true),
        entry(".neatify.json.bak", "./.neatify.json.bak", 1, true),
        entry(".Neatify.json", "./.Neatify.json", 1, true),
    ];
    assert_eq!(find_config_path(&entries), Err(message));
}
