//! The record reader: sidecar records as plain values, their interpretation
//! into typed metadata and content, the assembly of an element from both,
//! and the classification of file names as identifier-bearing sidecars.
use vstd::prelude::*;
use vstd::string::StrSliceExecFns;
use vstd::string::StringExecFns;

use crate::element::{Element, ElementKind, FsError, Format, Id, Parent};
use crate::ids::{id_to_text, parse_id_text, parsed_uuid, uuid_hyphenated};

verus! {

/// The file extension of a metadata sidecar.
pub const METADATA_EXTENSION: &'static str = "metadata";

/// The file extension of a content sidecar.
pub const CONTENT_EXTENSION: &'static str = "content";

/// The schema tag of a metadata record: a document or a directory.
#[derive(Clone, Copy, PartialEq, Eq, Structural, Debug)]
pub enum ElementType {
    Document,
    Directory,
}

/// The fields of a metadata sidecar, as read: the schema tag, display name
/// and parent still text, the pinned flag a plain boolean.
#[derive(Debug, Clone)]
pub struct RawMetadata {
    pub kind: String,
    pub name: String,
    pub parent: String,
    pub pinned: bool,
}

/// The value of a raw metadata record.
#[verifier::ext_equal]
pub ghost struct RawMetadataView {
    pub kind: Seq<char>,
    pub name: Seq<char>,
    pub parent: Seq<char>,
    pub pinned: bool,
}

impl View for RawMetadata {
    type V = RawMetadataView;

    open spec fn view(&self) -> RawMetadataView {
        RawMetadataView { kind: self.kind@, name: self.name@, parent: self.parent@, pinned: self.pinned }
    }
}

/// The fields of a content sidecar, as read: the format still text.
#[derive(Debug, Clone)]
pub struct RawContent {
    pub file_type: String,
}

/// How loading one sidecar file went: the file was absent, it held no record
/// of the expected shape, or its fields were read.
#[derive(Debug, Clone)]
pub enum Load<T> {
    Absent,
    Malformed,
    Loaded(T),
}

/// A typed metadata record.
#[derive(Debug, Clone, PartialEq, Eq)]
pub struct Metadata {
    pub kind: ElementType,
    pub name: String,
    pub parent: Parent,
    pub pinned: bool,
}

/// The value of a typed metadata record.
#[verifier::ext_equal]
pub ghost struct MetadataView {
    pub kind: ElementType,
    pub name: Seq<char>,
    pub parent: Parent,
    pub pinned: bool,
}

impl View for Metadata {
    type V = MetadataView;

    open spec fn view(&self) -> MetadataView {
        MetadataView { kind: self.kind, name: self.name@, parent: self.parent, pinned: self.pinned }
    }
}

/// A typed content record.
#[derive(Clone, Copy, PartialEq, Eq, Structural, Debug)]
pub struct Content {
    pub format: Format,
}

/// What the schema tag field denotes.
pub open spec fn element_type_of_field(s: Seq<char>) -> Option<ElementType> {
    if s == "DocumentType"@ {
        Option::Some(ElementType::Document)
    } else if s == "CollectionType"@ {
        Option::Some(ElementType::Directory)
    } else {
        Option::None
    }
}

/// What the format field denotes.
pub open spec fn format_of_field(s: Seq<char>) -> Option<Format> {
    if s == "notebook"@ {
        Option::Some(Format::Notebook)
    } else if s == "pdf"@ {
        Option::Some(Format::Pdf)
    } else if s == "epub"@ {
        Option::Some(Format::Epub)
    } else {
        Option::None
    }
}

/// The text a parent reference is stored as: empty for the root, `trash`
/// for the trash, the hyphenated identifier for a directory.
pub open spec fn parent_field(p: Parent) -> Seq<char> {
    match p {
        Parent::Root => Seq::<char>::empty(),
        Parent::Trash => "trash"@,
        Parent::Directory(id) => uuid_hyphenated(id.value),
    }
}

/// What the parent field denotes: empty text is the root, `trash` the
/// trash, and any other text a directory reference exactly when it parses
/// as an identifier.
pub open spec fn parent_of_field(s: Seq<char>) -> Option<Parent> {
    if s.len() == 0 {
        Option::Some(Parent::Root)
    } else if s == "trash"@ {
        Option::Some(Parent::Trash)
    } else {
        match parsed_uuid(s) {
            Option::Some(v) => Option::Some(Parent::Directory(Id { value: v })),
            Option::None => Option::None,
        }
    }
}

/// The typed record a raw metadata record denotes, if its schema tag and
/// parent field are well formed.
pub open spec fn metadata_of_raw(rv: RawMetadataView) -> Option<MetadataView> {
    match (element_type_of_field(rv.kind), parent_of_field(rv.parent)) {
        (Option::Some(t), Option::Some(p)) => Option::Some(
            MetadataView { kind: t, name: rv.name, parent: p, pinned: rv.pinned },
        ),
        _ => Option::None,
    }
}

/// View equality of two pieces of text.
fn str_eq(a: &str, b: &str) -> (r: bool)
    ensures
        r == (a@ == b@),
{
    let sa = a.to_owned();
    let sb = b.to_owned();
    sa == sb
}

/// Render a parent reference as its stored text.
pub fn parent_field_text(p: &Parent) -> (r: String)
    ensures
        r@ == parent_field(*p),
{
    match p {
        Parent::Root => {
            let r = String::new();
            proof {
                assert(r@ =~= Seq::<char>::empty());
            }
            r
        },
        Parent::Trash => String::from_str("trash"),
        Parent::Directory(id) => id_to_text(id),
    }
}

/// Interpret a stored parent field. Interpreting the text that
/// `parent_field_text` renders gives back the reference it rendered.
pub fn interpret_parent(s: &str) -> (r: Option<Parent>)
    ensures
        r == parent_of_field(s@),
        forall|p: Parent| s@ == parent_field(p) ==> r == Option::Some(p),
{
    proof {
        reveal_strlit("trash");
    }
    if s.is_empty() {
        Option::Some(Parent::Root)
    } else if str_eq(s, "trash") {
        Option::Some(Parent::Trash)
    } else {
        let parsed = parse_id_text(s);
        let r = match parsed {
            Option::Some(id) => Option::Some(Parent::Directory(id)),
            Option::None => Option::None,
        };
        proof {
            assert forall|p: Parent| s@ == parent_field(p) implies r == Option::Some(p) by {
                match p {
                    Parent::Root => {
                        assert(s@.len() != 0);
                    },
                    Parent::Trash => {},
                    Parent::Directory(id) => {
                        assert(parsed == Option::Some(Id { value: id.value }));
                    },
                }
            }
        }
        r
    }
}

impl Metadata {
    /// Interpret a raw metadata record: the schema tag and the parent field
    /// must be well formed, and the name and pinned flag carry over. A call
    /// also establishes that interpreting a rendered parent field gives back
    /// the rendered reference.
    pub fn from_raw(raw: &RawMetadata) -> (r: Result<Metadata, FsError>)
        ensures
            metadata_of_raw(raw@) is None ==> r == Result::<Metadata, FsError>::Err(
                FsError::ParseError,
            ),
            metadata_of_raw(raw@) matches Some(mv) ==> (r matches Ok(md) && md@ == mv),
            forall|p: Parent|
                raw@.parent == parent_field(p) ==> parent_of_field(raw@.parent) == Option::Some(p),
    {
        let parent = match interpret_parent(raw.parent.as_str()) {
            Option::None => {
                return Result::Err(FsError::ParseError);
            },
            Option::Some(parent) => parent,
        };
        let kind = if str_eq(self_kind_field(raw), "DocumentType") {
            ElementType::Document
        } else if str_eq(self_kind_field(raw), "CollectionType") {
            ElementType::Directory
        } else {
            return Result::Err(FsError::ParseError);
        };
        Result::Ok(Metadata { kind, name: raw.name.clone(), parent, pinned: raw.pinned })
    }
}

/// The schema tag field of a raw record.
fn self_kind_field(raw: &RawMetadata) -> (r: &str)
    ensures
        r@ == raw@.kind,
{
    raw.kind.as_str()
}

impl Content {
    /// Interpret a raw content record: the format field must be one of the
    /// known formats.
    pub fn from_raw(raw: &RawContent) -> (r: Result<Content, FsError>)
        ensures
            format_of_field(raw.file_type@) is None ==> r == Result::<Content, FsError>::Err(
                FsError::ParseError,
            ),
            format_of_field(raw.file_type@) matches Some(f) ==> r == Result::<Content, FsError>::Ok(
                Content { format: f },
            ),
    {
        if str_eq(raw.file_type.as_str(), "notebook") {
            Result::Ok(Content { format: Format::Notebook })
        } else if str_eq(raw.file_type.as_str(), "pdf") {
            Result::Ok(Content { format: Format::Pdf })
        } else if str_eq(raw.file_type.as_str(), "epub") {
            Result::Ok(Content { format: Format::Epub })
        } else {
            Result::Err(FsError::ParseError)
        }
    }
}

/// The position of the last dot in a piece of text, if any.
pub open spec fn last_dot_index(s: Seq<char>) -> Option<int>
    decreases s.len(),
{
    if s.len() == 0 {
        Option::None
    } else if s[s.len() - 1] == '.' {
        Option::Some(s.len() - 1)
    } else {
        last_dot_index(s.drop_last())
    }
}

proof fn lemma_last_dot(s: Seq<char>, k: int)
    requires
        0 <= k < s.len(),
        s[k] == '.',
        forall|j: int| k < j < s.len() ==> s[j] != '.',
    ensures
        last_dot_index(s) == Option::Some(k),
    decreases s.len(),
{
    if k == s.len() - 1 {
    } else {
        assert(s[s.len() - 1] != '.');
        assert(s.drop_last()[k] == s[k]);
        lemma_last_dot(s.drop_last(), k);
    }
}

proof fn lemma_no_dot(s: Seq<char>)
    requires
        forall|j: int| 0 <= j < s.len() ==> s[j] != '.',
    ensures
        last_dot_index(s) is None,
    decreases s.len(),
{
    if s.len() == 0 {
    } else {
        lemma_no_dot(s.drop_last());
    }
}

/// The stem of a file name whose extension is exactly `ext`: the text before
/// the last dot, which must not stand first. Nothing otherwise.
pub open spec fn sidecar_stem(s: Seq<char>, ext: Seq<char>) -> Option<Seq<char>> {
    match last_dot_index(s) {
        Option::Some(i) => if i >= 1 && s.subrange(i + 1, s.len() as int) == ext {
            Option::Some(s.subrange(0, i))
        } else {
            Option::None
        },
        Option::None => Option::None,
    }
}

/// Split a file name at its last dot, which must not stand first: the stem
/// and the extension.
fn split_extension(name: &str) -> (r: Option<(&str, &str)>)
    ensures
        match last_dot_index(name@) {
            Option::Some(i) => if i >= 1 {
                r matches Some(p) && p.0@ == name@.subrange(0, i) && p.1@ == name@.subrange(
                    i + 1,
                    name@.len() as int,
                )
            } else {
                r is None
            },
            Option::None => r is None,
        },
{
    let n = name.unicode_len();
    let mut i: usize = n;
    while i > 0
        invariant
            i <= n,
            n == name@.len(),
            forall|j: int| i <= j < n ==> name@[j] != '.',
        decreases i,
    {
        let c = name.get_char(i - 1);
        if c == '.' {
            proof {
                lemma_last_dot(name@, i - 1);
            }
            if i >= 2 {
                let stem = name.substring_char(0, i - 1);
                let ext = name.substring_char(i, n);
                return Option::Some((stem, ext));
            } else {
                return Option::None;
            }
        }
        i = i - 1;
    }
    proof {
        lemma_no_dot(name@);
    }
    Option::None
}

/// Classify a file name as an identifier-bearing sidecar with extension
/// `ext`: the name must split at a dot, the extension must match, and the
/// stem must parse as an identifier. Classifying a name whose stem is a
/// hyphenated rendering gives the rendered identifier.
fn classify_sidecar(name: &str, ext: &str) -> (r: Option<Id>)
    ensures
        sidecar_stem(name@, ext@) is None ==> r is None,
        sidecar_stem(name@, ext@) matches Some(stem) ==> r == match parsed_uuid(stem) {
            Option::Some(v) => Option::Some(Id { value: v }),
            Option::None => Option::None::<Id>,
        },
        forall|v: u128|
            sidecar_stem(name@, ext@) == Option::Some(#[trigger] uuid_hyphenated(v)) ==> r
                == Option::Some(Id { value: v }),
{
    match split_extension(name) {
        Option::None => Option::None,
        Option::Some((stem, e)) => {
            if str_eq(e, ext) {
                parse_id_text(stem)
            } else {
                Option::None
            }
        },
    }
}

impl Metadata {
    /// The identifier a metadata sidecar file name carries, if its extension
    /// is the metadata extension and its stem parses as an identifier.
    pub fn validate_path(name: &str) -> (r: Option<Id>)
        ensures
            sidecar_stem(name@, "metadata"@) is None ==> r is None,
            sidecar_stem(name@, "metadata"@) matches Some(stem) ==> r == match parsed_uuid(stem) {
                Option::Some(v) => Option::Some(Id { value: v }),
                Option::None => Option::None::<Id>,
            },
            forall|v: u128|
                sidecar_stem(name@, "metadata"@) == Option::Some(#[trigger] uuid_hyphenated(v))
                    ==> r == Option::Some(Id { value: v }),
    {
        classify_sidecar(name, "metadata")
    }
}

impl Content {
    /// The identifier a content sidecar file name carries, if its extension
    /// is the content extension and its stem parses as an identifier.
    pub fn validate_path(name: &str) -> (r: Option<Id>)
        ensures
            sidecar_stem(name@, "content"@) is None ==> r is None,
            sidecar_stem(name@, "content"@) matches Some(stem) ==> r == match parsed_uuid(stem) {
                Option::Some(v) => Option::Some(Id { value: v }),
                Option::None => Option::None::<Id>,
            },
            forall|v: u128|
                sidecar_stem(name@, "content"@) == Option::Some(#[trigger] uuid_hyphenated(v)) ==> r
                    == Option::Some(Id { value: v }),
    {
        classify_sidecar(name, "content")
    }
}

/// Assemble one element from its loaded sidecars. An absent metadata or —
/// for a document — an absent content sidecar is `NotFound`; a malformed or
/// schema-mismatched sidecar is `ParseError`; a directory needs no content
/// sidecar. A call also establishes that a rendered parent field reads back
/// as the reference it rendered.
pub fn read(id: Id, meta: &Load<RawMetadata>, content: &Load<RawContent>) -> (r: Result<
    Element,
    FsError,
>)
    ensures
        meta is Absent ==> r == Result::<Element, FsError>::Err(FsError::NotFound),
        meta is Malformed ==> r == Result::<Element, FsError>::Err(FsError::ParseError),
        meta matches Load::Loaded(rm) ==> match metadata_of_raw(rm@) {
            Option::None => r == Result::<Element, FsError>::Err(FsError::ParseError),
            Option::Some(md) => {
                if md.kind is Directory {
                    r matches Ok(el) && el@.id == id.value && el@.name == md.name && el@.parent
                        == md.parent && el@.pinned == md.pinned && el@.kind == ElementKind::Directory
                } else {
                    match content {
                        Load::Absent => r == Result::<Element, FsError>::Err(FsError::NotFound),
                        Load::Malformed => r == Result::<Element, FsError>::Err(
                            FsError::ParseError,
                        ),
                        Load::Loaded(rc) => match format_of_field(rc.file_type@) {
                            Option::None => r == Result::<Element, FsError>::Err(
                                FsError::ParseError,
                            ),
                            Option::Some(f) => r matches Ok(el) && el@.id == id.value && el@.name
                                == md.name && el@.parent == md.parent && el@.pinned == md.pinned
                                && el@.kind == ElementKind::Document(f),
                        },
                    }
                }
            },
        },
        forall|p: Parent|
            meta matches Load::Loaded(rm) ==> (rm@.parent == #[trigger] parent_field(p)
                ==> parent_of_field(rm@.parent) == Option::Some(p)),
{
    let rm = match meta {
        Load::Absent => {
            return Result::Err(FsError::NotFound);
        },
        Load::Malformed => {
            return Result::Err(FsError::ParseError);
        },
        Load::Loaded(rm) => rm,
    };
    let md = match Metadata::from_raw(rm) {
        Result::Err(e) => {
            return Result::Err(e);
        },
        Result::Ok(md) => md,
    };
    match md.kind {
        ElementType::Directory => Result::Ok(
            Element {
                id,
                name: md.name,
                parent: md.parent,
                pinned: md.pinned,
                kind: ElementKind::Directory,
            },
        ),
        ElementType::Document => {
            let rc = match content {
                Load::Absent => {
                    return Result::Err(FsError::NotFound);
                },
                Load::Malformed => {
                    return Result::Err(FsError::ParseError);
                },
                Load::Loaded(rc) => rc,
            };
            match Content::from_raw(rc) {
                Result::Err(e) => Result::Err(e),
                Result::Ok(c) => Result::Ok(
                    Element {
                        id,
                        name: md.name,
                        parent: md.parent,
                        pinned: md.pinned,
                        kind: ElementKind::Document(c.format),
                    },
                ),
            }
        },
    }
}

} // verus!
