//! The live index and the path resolver, exercised end to end on concrete
//! stores.
use rm_cloudsync::element::{Element, ElementKind, Format, FsError, Id, Parent};
use rm_cloudsync::index::Filesystem;

fn dir(id: u128, name: &str, parent: Parent) -> Element {
    Element {
        id: Id::from_value(id),
        name: name.to_string(),
        parent,
        pinned: false,
        kind: ElementKind::Directory,
    }
}

fn doc(id: u128, name: &str, parent: Parent, pinned: bool) -> Element {
    Element {
        id: Id::from_value(id),
        name: name.to_string(),
        parent,
        pinned,
        kind: ElementKind::Document(Format::Notebook),
    }
}

fn segs(parts: &[&str]) -> Vec<String> {
    parts.iter().map(|p| p.to_string()).collect()
}

fn same_elements(a: &[Element], b: &[Element]) -> bool {
    a.len() == b.len() && a.iter().all(|x| b.contains(x)) && b.iter().all(|x| a.contains(x))
}

#[test]
fn rebuild_then_root_listing_is_exact() {
    let items = vec![
        dir(1, "Books", Parent::Root),
        doc(2, "Alice", Parent::Directory(Id::from_value(1)), false),
        doc(3, "Notes", Parent::Root, true),
        doc(4, "Gone", Parent::Trash, false),
    ];
    let mut fs = Filesystem::new();
    fs.rebuild(&items);
    let root = fs.list(&segs(&[])).unwrap();
    let expected = vec![dir(1, "Books", Parent::Root), doc(3, "Notes", Parent::Root, true)];
    assert!(same_elements(&root, &expected));
}

#[test]
fn rebuild_twice_gives_equal_contents() {
    let items = vec![
        dir(1, "Books", Parent::Root),
        doc(2, "Alice", Parent::Directory(Id::from_value(1)), true),
        doc(3, "Trashed", Parent::Trash, false),
    ];
    let mut fs1 = Filesystem::new();
    fs1.rebuild(&items);
    let mut fs2 = Filesystem::new();
    fs2.rebuild(&items);
    fs2.rebuild(&items);
    for id in [1u128, 2, 3] {
        let a = fs1.get_element(&Id::from_value(id)).unwrap();
        let b = fs2.get_element(&Id::from_value(id)).unwrap();
        assert_eq!(a, b);
    }
    assert!(same_elements(&fs1.list(&segs(&[])).unwrap(), &fs2.list(&segs(&[])).unwrap()));
    assert!(same_elements(&fs1.trash(), &fs2.trash()));
    assert!(same_elements(&fs1.pinned(), &fs2.pinned()));
}

#[test]
fn listing_a_directory_by_path() {
    // A ("Books", a directory at the root) and B ("Alice" inside A):
    // listing /Books returns exactly {B}.
    let a = dir(1, "Books", Parent::Root);
    let b = doc(2, "Alice", Parent::Directory(Id::from_value(1)), false);
    let mut fs = Filesystem::new();
    fs.rebuild(&vec![a, b.clone()]);
    let out = fs.list(&segs(&["Books"])).unwrap();
    assert_eq!(out.len(), 1);
    assert_eq!(out[0], b);
}

#[test]
fn name_collision_resolved_by_parent_chain() {
    // "Notes" exists under Folder1 and under Folder2; /Folder1/Notes must
    // pick the one whose parent chain runs through Folder1.
    let items = vec![
        dir(1, "Folder1", Parent::Root),
        dir(2, "Folder2", Parent::Root),
        doc(3, "Notes", Parent::Directory(Id::from_value(1)), false),
        doc(4, "Notes", Parent::Directory(Id::from_value(2)), false),
    ];
    let mut fs = Filesystem::new();
    fs.rebuild(&items);
    let (id, el) = fs.uuid_from_path(&segs(&["Folder1", "Notes"])).unwrap();
    assert_eq!(id.value, 3);
    assert_eq!(el.name(), "Notes");
    let (id2, _) = fs.uuid_from_path(&segs(&["Folder2", "Notes"])).unwrap();
    assert_eq!(id2.value, 4);
}

#[test]
fn deep_chain_verification() {
    let items = vec![
        dir(1, "Top", Parent::Root),
        dir(2, "Sub", Parent::Directory(Id::from_value(1))),
        doc(3, "Doc", Parent::Directory(Id::from_value(2)), false),
        dir(4, "Other", Parent::Root),
        dir(5, "Sub", Parent::Directory(Id::from_value(4))),
        doc(6, "Doc", Parent::Directory(Id::from_value(5)), false),
    ];
    let mut fs = Filesystem::new();
    fs.rebuild(&items);
    let (id, _) = fs.uuid_from_path(&segs(&["Top", "Sub", "Doc"])).unwrap();
    assert_eq!(id.value, 3);
    let (id2, _) = fs.uuid_from_path(&segs(&["Other", "Sub", "Doc"])).unwrap();
    assert_eq!(id2.value, 6);
}

#[test]
fn unique_name_resolves_without_chain_check() {
    // A sole candidate is returned even where its recorded parent dangles.
    let items = vec![doc(7, "Lonely", Parent::Directory(Id::from_value(99)), false)];
    let mut fs = Filesystem::new();
    fs.rebuild(&items);
    let (id, _) = fs.uuid_from_path(&segs(&["Lonely"])).unwrap();
    assert_eq!(id.value, 7);
}

#[test]
fn unknown_name_is_not_found() {
    let mut fs = Filesystem::new();
    fs.rebuild(&vec![dir(1, "Books", Parent::Root)]);
    assert_eq!(fs.uuid_from_path(&segs(&["Missing"])), Err(FsError::NotFound));
    assert_eq!(fs.uuid_from_path(&segs(&[])), Err(FsError::NotFound));
}

#[test]
fn unsettled_collision_is_ambiguous() {
    // Two elements named "N" whose parents match no segment of the given
    // path: combinations outside the documented checks are no match, so the
    // collision stays unresolved rather than falling back to an arbitrary
    // candidate.
    let items = vec![
        dir(1, "Other", Parent::Root),
        doc(2, "N", Parent::Trash, false),
        doc(3, "N", Parent::Directory(Id::from_value(99)), false),
    ];
    let mut fs = Filesystem::new();
    fs.rebuild(&items);
    assert_eq!(fs.uuid_from_path(&segs(&["Other", "N"])), Err(FsError::AmbiguousPath));
}

#[test]
fn trash_parent_matches_only_the_trash_path() {
    let items = vec![
        doc(2, "N", Parent::Trash, false),
        doc(3, "N", Parent::Root, false),
    ];
    let mut fs = Filesystem::new();
    fs.rebuild(&items);
    let (in_trash, _) = fs.uuid_from_path(&segs(&["Trash", "N"])).unwrap();
    assert_eq!(in_trash.value, 2);
    let (at_root, _) = fs.uuid_from_path(&segs(&["N"])).unwrap();
    assert_eq!(at_root.value, 3);
}

#[test]
fn list_reserved_views_and_errors() {
    let items = vec![
        dir(1, "Books", Parent::Root),
        doc(2, "Alice", Parent::Directory(Id::from_value(1)), true),
        doc(3, "Dead", Parent::Trash, false),
    ];
    let mut fs = Filesystem::new();
    fs.rebuild(&items);

    let trash = fs.list(&segs(&["Trash"])).unwrap();
    assert_eq!(trash.len(), 1);
    assert_eq!(trash[0].id.value, 3);

    let pinned = fs.list(&segs(&["Favorites"])).unwrap();
    assert_eq!(pinned.len(), 1);
    assert_eq!(pinned[0].id.value, 2);

    assert_eq!(fs.list(&segs(&["Nowhere"])), Err(FsError::NotFound));
    assert_eq!(fs.list(&segs(&["Books", "Alice"])), Err(FsError::NotADirectory));
}

#[test]
fn convenience_views_match_list() {
    let items = vec![
        doc(2, "Alice", Parent::Root, true),
        doc(3, "Dead", Parent::Trash, false),
    ];
    let mut fs = Filesystem::new();
    fs.rebuild(&items);
    assert!(same_elements(&fs.trash(), &fs.list(&segs(&["Trash"])).unwrap()));
    assert!(same_elements(&fs.pinned(), &fs.list(&segs(&["Favorites"])).unwrap()));
}

#[test]
fn insert_remove_and_get() {
    let mut fs = Filesystem::new();
    assert_eq!(fs.get_element(&Id::from_value(5)), None);
    fs.insert_element(doc(5, "Five", Parent::Root, false));
    assert_eq!(fs.get_element(&Id::from_value(5)).unwrap().name(), "Five");
    fs.insert_element(doc(5, "FiveRenamed", Parent::Root, false));
    assert_eq!(fs.get_element(&Id::from_value(5)).unwrap().name(), "FiveRenamed");
    fs.remove_element(&Id::from_value(5));
    assert_eq!(fs.get_element(&Id::from_value(5)), None);
}

#[test]
fn move_plan_resolves_element_and_target() {
    let items = vec![
        dir(1, "Books", Parent::Root),
        doc(2, "Alice", Parent::Root, false),
    ];
    let mut fs = Filesystem::new();
    fs.rebuild(&items);

    let (id, parent) = fs.move_elements(&segs(&["Alice"]), &segs(&["Books"])).unwrap();
    assert_eq!(id.value, 2);
    assert_eq!(parent, Parent::Directory(Id::from_value(1)));

    let (id2, parent2) = fs.move_elements(&segs(&["Alice"]), &segs(&[])).unwrap();
    assert_eq!(id2.value, 2);
    assert_eq!(parent2, Parent::Root);

    assert_eq!(fs.move_elements(&segs(&["Ghost"]), &segs(&["Books"])), Err(FsError::NotFound));
    assert_eq!(fs.move_elements(&segs(&["Alice"]), &segs(&["Ghost"])), Err(FsError::NotFound));
}

#[test]
fn element_accessors() {
    let d = dir(1, "Books", Parent::Root);
    assert!(d.is_dir());
    assert!(!d.is_file());
    assert!(!d.is_doc());
    assert_eq!(d.name(), "Books");
    let f = doc(2, "Alice", Parent::Root, false);
    assert!(f.is_file());
    assert!(f.is_doc());
    assert!(!f.is_dir());
}

#[test]
fn unicode_display_names_resolve() {
    let items = vec![
        dir(1, "Bücher", Parent::Root),
        doc(2, "Märchen", Parent::Directory(Id::from_value(1)), false),
        doc(3, "Märchen", Parent::Root, false),
    ];
    let mut fs = Filesystem::new();
    fs.rebuild(&items);
    let (id, _) = fs.uuid_from_path(&segs(&["Bücher", "Märchen"])).unwrap();
    assert_eq!(id.value, 2);
    let (id2, _) = fs.uuid_from_path(&segs(&["Märchen"])).unwrap();
    assert_eq!(id2.value, 3);
}

#[test]
fn a_document_does_not_verify_a_chain() {
    // The chain check demands a directory: a document with the matching
    // name in the parent position is no match.
    let items = vec![
        doc(1, "Folder1", Parent::Root, false),
        dir(2, "Folder2", Parent::Root),
        doc(3, "Notes", Parent::Directory(Id::from_value(1)), false),
        doc(4, "Notes", Parent::Directory(Id::from_value(2)), false),
    ];
    let mut fs = Filesystem::new();
    fs.rebuild(&items);
    assert_eq!(fs.uuid_from_path(&segs(&["Folder1", "Notes"])), Err(FsError::AmbiguousPath));
    let (id, _) = fs.uuid_from_path(&segs(&["Folder2", "Notes"])).unwrap();
    assert_eq!(id.value, 4);
}

#[test]
fn reserved_names_and_extensions() {
    assert_eq!(rm_cloudsync::resolve::TRASH_DIRECTORY, "Trash");
    assert_eq!(rm_cloudsync::resolve::PINNED_DIRECTORY, "Favorites");
    assert_eq!(rm_cloudsync::records::METADATA_EXTENSION, "metadata");
    assert_eq!(rm_cloudsync::records::CONTENT_EXTENSION, "content");
}

#[test]
fn default_doc_path_by_target() {
    assert_eq!(
        rm_cloudsync::default_doc_path(true),
        "/home/root/.local/share/remarkable/xochitl/"
    );
    assert_eq!(rm_cloudsync::default_doc_path(false), "./samples/v6/");
}
