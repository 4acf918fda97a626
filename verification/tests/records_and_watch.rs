//! The record reader and the debounced change watcher, exercised on
//! concrete records and notification streams.
use rm_cloudsync::element::{Element, ElementKind, Format, FsError, Id, Parent};
use rm_cloudsync::index::Filesystem;
use rm_cloudsync::records::{
    interpret_parent, parent_field_text, read, Content, Load, Metadata, RawContent, RawMetadata,
};
use rm_cloudsync::watch::PendingChanges;

const ID_A: &str = "a1a2a3a4-b1b2-c1c2-d1d2-d3d4d5d6d7d8";
const VAL_A: u128 = 0xa1a2a3a4b1b2c1c2d1d2d3d4d5d6d7d8;

fn raw_meta(kind: &str, name: &str, parent: &str, pinned: bool) -> RawMetadata {
    RawMetadata {
        kind: kind.to_string(),
        name: name.to_string(),
        parent: parent.to_string(),
        pinned,
    }
}

#[test]
fn classify_metadata_file_names() {
    let id = Metadata::validate_path(&format!("{}.metadata", ID_A)).unwrap();
    assert_eq!(id.value, VAL_A);
    assert_eq!(Metadata::validate_path(&format!("{}.content", ID_A)), None);
    assert_eq!(Metadata::validate_path("notes.metadata"), None);
    assert_eq!(Metadata::validate_path(ID_A), None);
    assert_eq!(Metadata::validate_path(".metadata"), None);
    assert_eq!(Metadata::validate_path(""), None);
}

#[test]
fn classify_content_file_names() {
    let id = Content::validate_path(&format!("{}.content", ID_A)).unwrap();
    assert_eq!(id.value, VAL_A);
    assert_eq!(Content::validate_path(&format!("{}.metadata", ID_A)), None);
    assert_eq!(Content::validate_path("x.content"), None);
}

#[test]
fn classification_agrees_with_uuid_crate() {
    let u = uuid::Uuid::parse_str("67e55044-10b1-426f-9247-bb680e5fe0c8").unwrap();
    let name = format!("{}.metadata", u);
    let id = Metadata::validate_path(&name).unwrap();
    assert_eq!(id.value, u.as_u128());
}

#[test]
fn parent_field_renders_exactly() {
    assert_eq!(parent_field_text(&Parent::Root), "");
    assert_eq!(parent_field_text(&Parent::Trash), "trash");
    assert_eq!(parent_field_text(&Parent::Directory(Id::from_value(VAL_A))), ID_A);
}

#[test]
fn parent_field_round_trips() {
    for p in [
        Parent::Root,
        Parent::Trash,
        Parent::Directory(Id::from_value(VAL_A)),
        Parent::Directory(Id::from_value(0)),
        Parent::Directory(Id::from_value(u128::MAX)),
    ] {
        let text = parent_field_text(&p);
        assert_eq!(interpret_parent(&text), Some(p));
    }
    assert_eq!(interpret_parent("not an identifier"), None);
}

#[test]
fn metadata_interpretation() {
    let md = Metadata::from_raw(&raw_meta("DocumentType", "Alice", "", true)).unwrap();
    assert_eq!(md.name, "Alice");
    assert_eq!(md.parent, Parent::Root);
    assert!(md.pinned);

    let md = Metadata::from_raw(&raw_meta("CollectionType", "Books", "trash", false)).unwrap();
    assert_eq!(md.parent, Parent::Trash);

    let md = Metadata::from_raw(&raw_meta("CollectionType", "Books", ID_A, false)).unwrap();
    assert_eq!(md.parent, Parent::Directory(Id::from_value(VAL_A)));

    assert_eq!(
        Metadata::from_raw(&raw_meta("Folder", "Books", "", false)),
        Err(FsError::ParseError)
    );
    assert_eq!(
        Metadata::from_raw(&raw_meta("DocumentType", "Books", "###", false)),
        Err(FsError::ParseError)
    );
}

#[test]
fn content_interpretation() {
    let nb = Content::from_raw(&RawContent { file_type: "notebook".to_string() }).unwrap();
    assert_eq!(nb.format, Format::Notebook);
    let pdf = Content::from_raw(&RawContent { file_type: "pdf".to_string() }).unwrap();
    assert_eq!(pdf.format, Format::Pdf);
    let epub = Content::from_raw(&RawContent { file_type: "epub".to_string() }).unwrap();
    assert_eq!(epub.format, Format::Epub);
    assert_eq!(
        Content::from_raw(&RawContent { file_type: "djvu".to_string() }),
        Err(FsError::ParseError)
    );
}

#[test]
fn read_assembles_elements() {
    let id = Id::from_value(VAL_A);
    let meta = Load::Loaded(raw_meta("DocumentType", "Alice", "", false));
    let content = Load::Loaded(RawContent { file_type: "pdf".to_string() });
    let el = read(id, &meta, &content).unwrap();
    assert_eq!(el.id, id);
    assert_eq!(el.name(), "Alice");
    assert_eq!(el.parent, Parent::Root);
    assert_eq!(el.kind, ElementKind::Document(Format::Pdf));

    let dir_meta = Load::Loaded(raw_meta("CollectionType", "Books", "trash", true));
    let el = read(id, &dir_meta, &Load::Absent).unwrap();
    assert_eq!(el.kind, ElementKind::Directory);
    assert_eq!(el.parent, Parent::Trash);
    assert!(el.pinned);
}

#[test]
fn read_error_taxonomy() {
    let id = Id::from_value(1);
    let doc_meta = Load::Loaded(raw_meta("DocumentType", "Alice", "", false));
    let content = Load::Loaded(RawContent { file_type: "pdf".to_string() });

    assert_eq!(read(id, &Load::Absent, &content), Err(FsError::NotFound));
    assert_eq!(read(id, &Load::Malformed, &content), Err(FsError::ParseError));
    assert_eq!(read(id, &doc_meta, &Load::Absent), Err(FsError::NotFound));
    assert_eq!(read(id, &doc_meta, &Load::Malformed), Err(FsError::ParseError));
    assert_eq!(
        read(id, &doc_meta, &Load::Loaded(RawContent { file_type: "odt".to_string() })),
        Err(FsError::ParseError)
    );
    let bad_meta = Load::Loaded(raw_meta("DocumentType", "Alice", "junk-parent", false));
    assert_eq!(read(id, &bad_meta, &content), Err(FsError::ParseError));
}

#[test]
fn repeated_notifications_coalesce() {
    // Three rapid update notifications for one identifier within a window
    // leave exactly one pending re-read.
    let mut pending = PendingChanges::new();
    let name = format!("{}.metadata", ID_A);
    pending.note_path(&name, false);
    pending.note_path(&name, false);
    pending.note_path(&name, false);
    let ups = pending.take_updates();
    assert_eq!(ups.len(), 1);
    assert_eq!(ups[0].value, VAL_A);
    assert_eq!(pending.take_updates().len(), 0);
}

#[test]
fn unclassifiable_paths_are_ignored() {
    let mut pending = PendingChanges::new();
    pending.note_path("random.txt", false);
    pending.note_path("noextension", true);
    assert_eq!(pending.take_updates().len(), 0);
    assert_eq!(pending.take_deletes().len(), 0);
}

#[test]
fn content_notifications_classify_too() {
    let mut pending = PendingChanges::new();
    pending.note_path(&format!("{}.content", ID_A), false);
    let ups = pending.take_updates();
    assert_eq!(ups.len(), 1);
    assert_eq!(ups[0].value, VAL_A);
}

#[test]
fn delete_then_update_leaves_element_present() {
    // Within one window, a delete notification followed by an update for the
    // same identifier: deletes are applied before updates, so a successful
    // re-read leaves the element present after the flush.
    let mut fs = Filesystem::new();
    let old = Element {
        id: Id::from_value(VAL_A),
        name: "Old".to_string(),
        parent: Parent::Root,
        pinned: false,
        kind: ElementKind::Directory,
    };
    fs.insert_element(old);

    let mut pending = PendingChanges::new();
    let name = format!("{}.metadata", ID_A);
    pending.note_path(&name, true);
    pending.note_path(&name, false);
    let dels = pending.take_deletes();
    let ups = pending.take_updates();
    assert_eq!(dels.len(), 1);
    assert_eq!(ups.len(), 1);

    let reread = Element {
        id: Id::from_value(VAL_A),
        name: "New".to_string(),
        parent: Parent::Root,
        pinned: false,
        kind: ElementKind::Directory,
    };
    let updates = vec![(ups[0], Some(reread))];
    fs.apply_flush(&dels, &updates);
    assert_eq!(fs.get_element(&Id::from_value(VAL_A)).unwrap().name(), "New");
}

#[test]
fn failed_reread_leaves_previous_entry() {
    let mut fs = Filesystem::new();
    let old = Element {
        id: Id::from_value(7),
        name: "Keep".to_string(),
        parent: Parent::Root,
        pinned: false,
        kind: ElementKind::Directory,
    };
    fs.insert_element(old);
    let updates = vec![(Id::from_value(7), None)];
    fs.apply_flush(&Vec::new(), &updates);
    assert_eq!(fs.get_element(&Id::from_value(7)).unwrap().name(), "Keep");
}

#[test]
fn deleted_without_update_is_gone() {
    let mut fs = Filesystem::new();
    fs.insert_element(Element {
        id: Id::from_value(9),
        name: "Doomed".to_string(),
        parent: Parent::Root,
        pinned: false,
        kind: ElementKind::Directory,
    });
    fs.apply_flush(&vec![Id::from_value(9)], &Vec::new());
    assert_eq!(fs.get_element(&Id::from_value(9)), None);
}

#[test]
fn move_write_through_reflected_by_rebuild() {
    // Plan a move, rewrite the parent field as a store write would, read the
    // records back, and rebuild: the element stands under its new parent.
    let books = Element {
        id: Id::from_value(1),
        name: "Books".to_string(),
        parent: Parent::Root,
        pinned: false,
        kind: ElementKind::Directory,
    };
    let alice = Element {
        id: Id::from_value(VAL_A),
        name: "Alice".to_string(),
        parent: Parent::Root,
        pinned: false,
        kind: ElementKind::Document(Format::Epub),
    };
    let mut fs = Filesystem::new();
    fs.rebuild(&vec![books.clone(), alice.clone()]);

    let (moved, new_parent) = fs
        .move_elements(
            &vec!["Alice".to_string()],
            &vec!["Books".to_string()],
        )
        .unwrap();
    assert_eq!(moved.value, VAL_A);

    // the store write rewrites only the parent field of the sidecar
    let rewritten = RawMetadata {
        kind: "DocumentType".to_string(),
        name: "Alice".to_string(),
        parent: parent_field_text(&new_parent),
        pinned: false,
    };
    let reread = read(
        moved,
        &Load::Loaded(rewritten),
        &Load::Loaded(RawContent { file_type: "epub".to_string() }),
    )
    .unwrap();
    fs.rebuild(&vec![books, reread]);

    let children = fs.list(&vec!["Books".to_string()]).unwrap();
    assert_eq!(children.len(), 1);
    assert_eq!(children[0].id.value, VAL_A);
    assert_eq!(children[0].parent, Parent::Directory(Id::from_value(1)));
    assert_eq!(fs.list(&Vec::new()).unwrap().len(), 1);
}
