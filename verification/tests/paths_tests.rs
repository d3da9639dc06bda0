use zstar::paths::{is_under, relative_path, resolve, starts_with, Component};
use zstar::unpack::{
    deferred_order, dispatch, readonly_for_mode, restore_order, worker_queue_capacity,
    ArchiveEntry, DirMetadata, Step, UnpackAction,
};
use zstar::writer::EntryType;

fn parse(text: &str) -> Vec<Component> {
    std::path::Path::new(text)
        .components()
        .map(|c| match c {
            std::path::Component::Prefix(p) => {
                Component::Prefix(p.as_os_str().to_string_lossy().into_owned().into_bytes())
            }
            std::path::Component::RootDir => Component::Root,
            std::path::Component::CurDir => Component::Current,
            std::path::Component::ParentDir => Component::Parent,
            std::path::Component::Normal(n) => {
                Component::Normal(n.to_string_lossy().into_owned().into_bytes())
            }
        })
        .collect()
}

#[test]
fn relative_path_keeps_the_root_directory_name() {
    assert_eq!(relative_path(&parse("/home/u/d/a/b.txt"), &parse("/home/u/d")), parse("d/a/b.txt"));
    assert_eq!(relative_path(&parse("/home/u/d"), &parse("/home/u/d")), parse("d"));
    assert_eq!(relative_path(&parse("d/a"), &parse("d")), parse("d/a"));
}

#[test]
fn relative_path_of_a_root_without_parent() {
    assert_eq!(relative_path(&parse("/etc/passwd"), &parse("/")), parse("etc/passwd"));
    assert_eq!(relative_path(&parse("a/b"), &parse("")), parse("a/b"));
}

#[test]
fn relative_path_falls_back_to_the_last_name() {
    assert_eq!(relative_path(&parse("/other/place/f"), &parse("/home/u/d")), parse("f"));
    assert_eq!(relative_path(&parse("/home/x"), &parse("/home/u/d")), parse("x"));
}

#[test]
fn relative_path_without_a_name_is_unknown() {
    assert_eq!(relative_path(&parse("/other/.."), &parse("/home/u/d")), parse("unknown"));
    assert_eq!(relative_path(&parse("/"), &parse("/home/u/d")), parse("unknown"));
    assert_eq!(relative_path(&parse(""), &parse("/home/u/d")), parse("unknown"));
}

#[test]
fn relative_path_agrees_with_std() {
    let root = "/srv/data/tree";
    for path in ["/srv/data/tree/x", "/srv/data/tree/x/y/z", "/srv/data/tree", "/srv/data/other"] {
        let base = std::path::Path::new(root).parent().unwrap();
        let expected = std::path::Path::new(path).strip_prefix(base).unwrap();
        assert_eq!(relative_path(&parse(path), &parse(root)), parse(expected.to_str().unwrap()));
    }
}

#[test]
fn starts_with_compares_whole_components() {
    assert!(starts_with(&parse("/a/b/c"), &parse("/a/b")));
    assert!(starts_with(&parse("/a/b"), &parse("/a/b")));
    assert!(starts_with(&parse("/a/b"), &parse("")));
    assert!(!starts_with(&parse("/a/bc"), &parse("/a/b")));
    assert!(!starts_with(&parse("/a"), &parse("/a/b")));
    assert!(!starts_with(&parse("a/b"), &parse("/a")));
}

#[test]
fn resolve_drops_dots_and_climbs() {
    assert_eq!(resolve(&parse("a/./b/../c")), parse("a/c"));
    assert_eq!(resolve(&parse("a/..")), parse(""));
    assert_eq!(resolve(&parse("../a")), parse("../a"));
    assert_eq!(resolve(&parse("a/../../b")), parse("../b"));
    assert_eq!(resolve(&parse("/../a")), parse("/a"));
    assert_eq!(resolve(&parse("./a")), parse("a"));
}

#[test]
fn entries_below_the_root_are_safe() {
    let root = parse("/tmp/out");
    assert!(is_under(&root, &parse("d/a.txt")));
    assert!(is_under(&root, &parse("d/../e")));
    assert!(is_under(&root, &parse(".")));
    assert!(is_under(&root, &parse("")));
    assert!(is_under(&root, &parse("/tmp/out/x")));
    assert!(is_under(&parse("out"), &parse("d/x")));
    assert!(is_under(&parse("out"), &parse("../out/x")));
    assert!(is_under(&parse("."), &parse("d/x")));
}

#[test]
fn entries_that_leave_the_root_are_refused() {
    let root = parse("/tmp/out");
    assert!(!is_under(&root, &parse("../evil")));
    assert!(!is_under(&root, &parse("d/../../evil")));
    assert!(!is_under(&root, &parse("/etc/passwd")));
    assert!(!is_under(&root, &parse("/tmp/outside")));
    assert!(!is_under(&root, &parse("..")));
    assert!(!is_under(&parse("out"), &parse("../out2/x")));
    assert!(!is_under(&parse("."), &parse("../x")));
    assert!(!is_under(&parse("out"), &parse("/out/x")));
}

#[test]
fn absolute_entries_are_refused_under_a_relative_root() {
    for root in [".", "", "a/..", "out", "..", "./out/.."] {
        assert!(!is_under(&parse(root), &parse("/tmp/evil")), "{:?}", root);
        assert!(!is_under(&parse(root), &parse("/")), "{:?}", root);
    }
    assert!(is_under(&parse("/"), &parse("/tmp/evil")));
    assert!(is_under(&parse("/tmp"), &parse("/tmp/evil")));
    assert!(!is_under(&parse("/tmp/out"), &parse("/tmp/evil")));
    for entry_type in [EntryType::Directory, EntryType::Symlink, EntryType::Link, EntryType::Regular] {
        assert_eq!(dispatch(&parse("."), &entry("/tmp/evil", entry_type, 1, true)), UnpackAction::SkipUnsafe);
        assert_eq!(dispatch(&parse(""), &entry("/tmp/evil", entry_type, 1, true)), UnpackAction::SkipUnsafe);
    }
    assert_eq!(
        dispatch(&parse("."), &entry("d/ok", EntryType::Regular, 1, false)),
        UnpackAction::SendToWorker
    );
}

fn entry(path: &str, entry_type: EntryType, size: u64, has_link_name: bool) -> ArchiveEntry {
    ArchiveEntry { path: parse(path), entry_type, size, has_link_name }
}

#[test]
fn dispatch_by_type_and_size() {
    let root = parse("out");
    assert_eq!(dispatch(&root, &entry("d", EntryType::Directory, 0, false)), UnpackAction::CreateDir);
    assert_eq!(dispatch(&root, &entry("d/s", EntryType::Symlink, 0, true)), UnpackAction::DeferSymlink);
    assert_eq!(dispatch(&root, &entry("d/s", EntryType::Symlink, 0, false)), UnpackAction::Ignore);
    assert_eq!(dispatch(&root, &entry("d/h", EntryType::Link, 0, true)), UnpackAction::DeferHardLink);
    assert_eq!(dispatch(&root, &entry("d/h", EntryType::Link, 0, false)), UnpackAction::Ignore);
    assert_eq!(dispatch(&root, &entry("d/f", EntryType::Regular, 0, false)), UnpackAction::SendToWorker);
    assert_eq!(
        dispatch(&root, &entry("d/f", EntryType::Regular, 10 * 1024 * 1024, false)),
        UnpackAction::SendToWorker
    );
    assert_eq!(
        dispatch(&root, &entry("d/f", EntryType::Regular, 10 * 1024 * 1024 + 1, false)),
        UnpackAction::UnpackInPlace
    );
}

#[test]
fn dispatch_refuses_path_traversal_whatever_the_type() {
    let root = parse("out");
    for entry_type in [EntryType::Directory, EntryType::Symlink, EntryType::Link, EntryType::Regular] {
        assert_eq!(dispatch(&root, &entry("../x", entry_type, 1, true)), UnpackAction::SkipUnsafe);
        assert_eq!(dispatch(&root, &entry("/abs/x", entry_type, 1, true)), UnpackAction::SkipUnsafe);
    }
}

#[test]
fn queue_capacity_is_sixteen_per_thread() {
    assert_eq!(worker_queue_capacity(0), 0);
    assert_eq!(worker_queue_capacity(4), 64);
    assert_eq!(worker_queue_capacity(u32::MAX), 16 * (u32::MAX as u64));
}

#[test]
fn readonly_where_nobody_may_write() {
    assert!(readonly_for_mode(0o444));
    assert!(readonly_for_mode(0o555));
    assert!(readonly_for_mode(0));
    assert!(!readonly_for_mode(0o644));
    assert!(!readonly_for_mode(0o600));
    assert!(!readonly_for_mode(0o002));
}

fn dir(path: &str) -> DirMetadata {
    DirMetadata { path: parse(path), mode: 0o755, mtime: 1 }
}

#[test]
fn directories_are_restored_deepest_first() {
    let dirs = vec![dir("out/d"), dir("out/d/a"), dir("out/d/a/b"), dir("out/d/c"), dir("out"), dir("out/e/f/g/h")];
    assert_eq!(restore_order(&dirs), vec![5, 2, 1, 3, 0, 4]);
}

#[test]
fn restore_order_keeps_arrival_order_among_equals() {
    let dirs = vec![dir("a/z"), dir("a/y"), dir("a/x"), dir("a")];
    assert_eq!(restore_order(&dirs), vec![0, 1, 2, 3]);
    assert_eq!(restore_order(&Vec::new()), Vec::<usize>::new());
    assert_eq!(restore_order(&vec![dir("")]), vec![0]);
}

#[test]
fn restore_order_agrees_with_a_stable_sort() {
    let names = ["a/b/c", "a", "x/y", "a/b", "q", "x/y/z/w", "x", "m/n/o"];
    let dirs: Vec<DirMetadata> = names.iter().map(|n| dir(n)).collect();
    let mut expected: Vec<usize> = (0..dirs.len()).collect();
    expected.sort_by(|a, b| dirs[*b].path.len().cmp(&dirs[*a].path.len()));
    assert_eq!(restore_order(&dirs), expected);
}

#[test]
fn deferred_work_is_symlinks_then_hardlinks_then_directories() {
    let dirs = vec![dir("out/d"), dir("out/d/a"), dir("out")];
    assert_eq!(
        deferred_order(2, 3, &dirs),
        vec![
            Step::Symlink(0),
            Step::Symlink(1),
            Step::HardLink(0),
            Step::HardLink(1),
            Step::HardLink(2),
            Step::DirMetadata(1),
            Step::DirMetadata(0),
            Step::DirMetadata(2),
        ]
    );
    assert_eq!(deferred_order(0, 0, &Vec::new()), Vec::<Step>::new());
    assert_eq!(deferred_order(0, 1, &Vec::new()), vec![Step::HardLink(0)]);
}

#[test]
fn components_that_are_no_text_are_compared_byte_by_byte() {
    let odd = |last: u8| vec![Component::Root, Component::Normal(vec![0xff, last])];
    let mut path = odd(0x01);
    path.push(Component::Normal(b"f".to_vec()));
    assert_eq!(
        relative_path(&path, &odd(0x01)),
        vec![Component::Normal(vec![0xff, 0x01]), Component::Normal(b"f".to_vec())]
    );
    assert_eq!(relative_path(&path, &{ let mut r = odd(0x02); r.push(Component::Normal(b"g".to_vec())); r }), vec![Component::Normal(b"f".to_vec())]);
    assert!(starts_with(&path, &odd(0x01)));
    assert!(!starts_with(&path, &odd(0x02)));
    assert_eq!(relative_path(&parse("/"), &parse("/a/b")), vec![Component::Normal(b"unknown".to_vec())]);
}
