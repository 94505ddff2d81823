use viktor::crawler::{path_contained, relativize_listing, Crawler, WalkEntry};

fn rt() -> tokio::runtime::Runtime {
    tokio::runtime::Builder::new_current_thread().build().unwrap()
}

fn write_file(rt: &tokio::runtime::Runtime, path: &std::path::Path, content: &str) {
    rt.block_on(tokio::fs::write(path, content)).unwrap();
}

fn make_dir(rt: &tokio::runtime::Runtime, path: &std::path::Path) {
    rt.block_on(tokio::fs::create_dir_all(path)).unwrap();
}

#[test]
fn containment_decision() {
    assert!(path_contained("/root/ws", "/root/ws"));
    assert!(path_contained("/root/ws", "/root/ws/a/b.txt"));
    assert!(!path_contained("/root/ws", "/root/wsx"));
    assert!(!path_contained("/root/ws", "/etc/passwd"));
    assert!(!path_contained("/root/ws", "/root"));
    assert!(path_contained("/", "/etc"));
}

#[test]
fn relativization_excludes_start_and_outsiders() {
    let entries = vec![
        WalkEntry { path: "/r/start".to_string(), is_file: false, is_dir: true },
        WalkEntry { path: "/r/start/a".to_string(), is_file: false, is_dir: true },
        WalkEntry { path: "/r/start/a/b.txt".to_string(), is_file: true, is_dir: false },
        WalkEntry { path: "/elsewhere/c".to_string(), is_file: true, is_dir: false },
    ];
    let out = relativize_listing(&entries, "/r", "/r/start");
    assert_eq!(out, vec!["start/a".to_string(), "start/a/b.txt".to_string()]);
}

#[test]
fn listing_depth_zero_and_one() {
    let rt = rt();
    let tmp = tempfile::tempdir().unwrap();
    let root = tmp.path().canonicalize().unwrap();
    make_dir(&rt, &root.join("a"));
    write_file(&rt, &root.join("a/b.txt"), "hi");
    let crawler = Crawler::new(root.to_str().unwrap().to_string());

    let shallow = crawler.list_directory_contents(".", 0);
    assert_eq!(shallow, vec!["a".to_string()]);

    let mut deeper = crawler.list_directory_contents(".", 1);
    deeper.sort();
    assert_eq!(deeper, vec!["a".to_string(), "a/b.txt".to_string()]);
}

#[test]
fn listing_outside_root_is_empty() {
    let rt = rt();
    let tmp = tempfile::tempdir().unwrap();
    let root = tmp.path().canonicalize().unwrap();
    make_dir(&rt, &root.join("inner"));
    write_file(&rt, &root.join("inner/f.txt"), "x");
    let crawler = Crawler::new(root.join("inner").to_str().unwrap().to_string());
    assert!(crawler.list_directory_contents("..", 0).is_empty());
    assert!(crawler.list_directory_contents("/", 0).is_empty());
    assert!(crawler.list_directory_contents("f.txt", 0).is_empty());
}

#[test]
fn read_returns_contents_inside_root() {
    let rt = rt();
    let tmp = tempfile::tempdir().unwrap();
    let root = tmp.path().canonicalize().unwrap();
    make_dir(&rt, &root.join("a"));
    write_file(&rt, &root.join("a/b.txt"), "hi");
    let crawler = Crawler::new(root.to_str().unwrap().to_string());
    assert_eq!(crawler.read_file_contents("a/b.txt"), "hi");
}

#[test]
fn repeated_reads_of_unchanged_file_are_identical() {
    let rt = rt();
    let tmp = tempfile::tempdir().unwrap();
    let root = tmp.path().canonicalize().unwrap();
    write_file(&rt, &root.join("stable.txt"), "same content\n");
    let crawler = Crawler::new(root.to_str().unwrap().to_string());
    let first = crawler.read_file_contents("stable.txt");
    let second = crawler.read_file_contents("stable.txt");
    let third = crawler.read_file_contents("stable.txt");
    assert_eq!(first, "same content\n");
    assert_eq!(first, second);
    assert_eq!(second, third);
}

#[test]
fn traversal_and_symlink_escapes_read_empty() {
    let rt = rt();
    let tmp = tempfile::tempdir().unwrap();
    let base = tmp.path().canonicalize().unwrap();
    make_dir(&rt, &base.join("root"));
    write_file(&rt, &base.join("secret.txt"), "secret");
    rt.block_on(tokio::fs::symlink(base.join("secret.txt"), base.join("root/link.txt")))
        .unwrap();
    let crawler = Crawler::new(base.join("root").to_str().unwrap().to_string());

    assert_eq!(crawler.read_file_contents("../secret.txt"), "");
    assert_eq!(crawler.read_file_contents("a/../../secret.txt"), "");
    assert_eq!(crawler.read_file_contents(&base.join("secret.txt").to_str().unwrap()), "");
    // the symlink points outside the root, so its canonical target is rejected
    assert_eq!(crawler.read_file_contents("link.txt"), "");
}

#[test]
fn missing_and_nonfile_targets_read_empty() {
    let rt = rt();
    let tmp = tempfile::tempdir().unwrap();
    let root = tmp.path().canonicalize().unwrap();
    make_dir(&rt, &root.join("d"));
    let crawler = Crawler::new(root.to_str().unwrap().to_string());
    assert_eq!(crawler.read_file_contents("nope.txt"), "");
    assert_eq!(crawler.read_file_contents("d"), "");
}

#[test]
fn fuzzy_search_finds_and_orders_matches() {
    let rt = rt();
    let tmp = tempfile::tempdir().unwrap();
    let root = tmp.path().canonicalize().unwrap();
    make_dir(&rt, &root.join("tools/src/crawler"));
    write_file(&rt, &root.join("tools/src/crawler/tool.rs"), "fn main() {}");
    write_file(&rt, &root.join("readme.md"), "docs");
    let crawler = Crawler::new(root.to_str().unwrap().to_string());

    let hits = crawler.fuzzy_search_paths(&vec!["crawl".to_string()]);
    assert!(hits.iter().any(|h| h.path == "tools/src/crawler/tool.rs" && h.score > 0));

    let none = crawler.fuzzy_search_paths(&vec!["zzzzz".to_string()]);
    assert!(none.is_empty());
}

#[test]
fn fuzzy_search_is_deterministic_on_unchanged_tree() {
    let rt = rt();
    let tmp = tempfile::tempdir().unwrap();
    let root = tmp.path().canonicalize().unwrap();
    make_dir(&rt, &root.join("src"));
    write_file(&rt, &root.join("src/alpha.rs"), "a");
    write_file(&rt, &root.join("src/beta.rs"), "b");
    write_file(&rt, &root.join("alpha.md"), "c");
    let crawler = Crawler::new(root.to_str().unwrap().to_string());
    let queries = vec!["alpha".to_string(), "src".to_string()];
    let a = crawler.fuzzy_search_paths(&queries);
    let b = crawler.fuzzy_search_paths(&queries);
    assert!(!a.is_empty());
    assert_eq!(a.len(), b.len());
    for (x, y) in a.iter().zip(b.iter()) {
        assert_eq!(x.score, y.score);
        assert_eq!(x.path, y.path);
    }
}

#[test]
fn guarded_operations_refuse_uncontained_canonical_targets() {
    let rt = rt();
    let tmp = tempfile::tempdir().unwrap();
    let base = tmp.path().canonicalize().unwrap();
    make_dir(&rt, &base.join("root"));
    write_file(&rt, &base.join("outside.txt"), "outside");
    let crawler = Crawler::new(base.join("root").to_str().unwrap().to_string());
    let full = base.join("outside.txt").to_str().unwrap().to_string();
    // whatever the claimed kind, a canonical target outside the root is refused
    assert_eq!(crawler.guarded_read(&full, &full, true), "");
    assert_eq!(crawler.guarded_read(&full, &full, false), "");
    assert!(crawler.guarded_list(&base.to_str().unwrap().to_string(), true, 0).is_empty());
}

#[test]
fn construction_keeps_unresolvable_roots_as_given() {
    let crawler = Crawler::new("/definitely/not/a/real/dir".to_string());
    assert_eq!(crawler.root_path(), "/definitely/not/a/real/dir");
    assert_eq!(crawler.read_file_contents("x"), "");
    assert!(crawler.list_directory_contents(".", 0).is_empty());
}
