//! The typed entries of the store: directories and documents, each addressed
//! by a stable identifier and located by a parent reference.
use vstd::prelude::*;

verus! {

/// The stable, externally assigned key of an element: the 128-bit value of
/// its uuid.
#[derive(Clone, Copy, PartialEq, Eq, Structural, Debug, Hash)]
pub struct Id {
    pub value: u128,
}

impl Id {
    /// The identifier with the given value.
    pub fn from_value(value: u128) -> (r: Id)
        ensures
            r.value == value,
    {
        Id { value }
    }
}

/// The logical location of an element: the root of the store, the trash, or
/// a directory given by its identifier. A `Directory` reference may dangle:
/// nothing guarantees the identifier is present in the index.
#[derive(Clone, Copy, PartialEq, Eq, Structural, Debug)]
pub enum Parent {
    Root,
    Trash,
    Directory(Id),
}

/// The format of a document's content.
#[derive(Clone, Copy, PartialEq, Eq, Structural, Debug)]
pub enum Format {
    Notebook,
    Pdf,
    Epub,
}

/// What an element is: a directory, or a document of some format.
#[derive(Clone, Copy, PartialEq, Eq, Structural, Debug)]
pub enum ElementKind {
    Document(Format),
    Directory,
}

/// One entry of the index: a directory or document with its display name,
/// location, and pinned flag. Display names are not unique across the store.
#[derive(Debug, PartialEq, Eq)]
pub struct Element {
    pub id: Id,
    pub name: String,
    pub parent: Parent,
    pub pinned: bool,
    pub kind: ElementKind,
}

/// The mathematical value of an `Element`: the same fields, with the display
/// name as its character sequence.
#[verifier::ext_equal]
pub ghost struct ElementView {
    pub id: u128,
    pub name: Seq<char>,
    pub parent: Parent,
    pub pinned: bool,
    pub kind: ElementKind,
}

impl View for Element {
    type V = ElementView;

    open spec fn view(&self) -> ElementView {
        ElementView {
            id: self.id.value,
            name: self.name@,
            parent: self.parent,
            pinned: self.pinned,
            kind: self.kind,
        }
    }
}

impl DeepView for Element {
    type V = ElementView;

    open spec fn deep_view(&self) -> ElementView {
        self.view()
    }
}

impl Clone for Element {
    fn clone(&self) -> (r: Self)
        ensures
            r@ == self@,
    {
        Element {
            id: self.id,
            name: self.name.clone(),
            parent: self.parent,
            pinned: self.pinned,
            kind: self.kind,
        }
    }
}

impl Element {
    /// The element's display name.
    pub fn name(&self) -> (r: &str)
        ensures
            r@ == self@.name,
    {
        self.name.as_str()
    }

    /// True of a directory.
    pub fn is_dir(&self) -> (r: bool)
        ensures
            r == (self@.kind is Directory),
    {
        match self.kind {
            ElementKind::Document(_) => false,
            ElementKind::Directory => true,
        }
    }

    /// True of a document.
    pub fn is_file(&self) -> (r: bool)
        ensures
            r == (self@.kind is Document),
    {
        match self.kind {
            ElementKind::Document(_) => true,
            ElementKind::Directory => false,
        }
    }

    /// True of a document; `is_file` under its other name.
    pub fn is_doc(&self) -> (r: bool)
        ensures
            r == (self@.kind is Document),
    {
        self.is_file()
    }
}

/// How an operation on the store fails.
#[derive(Clone, Copy, PartialEq, Eq, Structural, Debug)]
pub enum FsError {
    /// A sidecar file is absent, or a path resolves to no element.
    NotFound,
    /// A sidecar file is malformed or does not match the record schema.
    ParseError,
    /// A display-name collision that parent-chain verification did not
    /// resolve to a single element.
    AmbiguousPath,
    /// A listing was requested under a path that denotes a document.
    NotADirectory,
    /// A subscription to filesystem change notifications could not be set up.
    WatchSetup,
}

} // verus!
