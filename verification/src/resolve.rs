//! The path resolver: a path names an element by its final segment, and
//! display-name collisions are settled by walking the candidate's parent
//! chain against the path's earlier segments.
use vstd::prelude::*;
use vstd::string::StringExecFns;

use crate::element::{Element, ElementView, FsError, Id, Parent};
use crate::index::{exact_listing, Filesystem};

verus! {

/// The reserved virtual directory name of trashed elements.
pub const TRASH_DIRECTORY: &'static str = "Trash";

/// The reserved virtual directory name of pinned elements.
pub const PINNED_DIRECTORY: &'static str = "Favorites";

/// The reserved virtual directory of trashed elements.
pub open spec fn trash_name() -> Seq<char> {
    "Trash"@
}

/// The reserved virtual directory of pinned elements.
pub open spec fn pinned_name() -> Seq<char> {
    "Favorites"@
}

/// The two reserved names differ.
pub proof fn lemma_reserved_names_differ()
    ensures
        trash_name() != pinned_name(),
{
    reveal_strlit("Trash");
    reveal_strlit("Favorites");
    assert(trash_name().len() == 5);
    assert(pinned_name().len() == 9);
}

/// True when `s` is the reserved trash name.
pub fn is_trash_name(s: &String) -> (r: bool)
    ensures
        r == (s@ == trash_name()),
{
    let t = String::from_str("Trash");
    *s == t
}

/// True when `s` is the reserved pinned name.
pub fn is_pinned_name(s: &String) -> (r: bool)
    ensures
        r == (s@ == pinned_name()),
{
    let t = String::from_str("Favorites");
    *s == t
}

/// `k` is mapped and carries the display name `name`.
pub open spec fn is_candidate(m: Map<u128, ElementView>, name: Seq<char>, k: u128) -> bool {
    m.contains_key(k) && m[k].name == name
}

/// Some element carries the name.
pub open spec fn candidate_exists(m: Map<u128, ElementView>, name: Seq<char>) -> bool {
    exists|k: u128| is_candidate(m, name, k)
}

/// At most one element carries the name.
pub open spec fn candidate_unique(m: Map<u128, ElementView>, name: Seq<char>) -> bool {
    forall|k1: u128, k2: u128|
        is_candidate(m, name, k1) && is_candidate(m, name, k2) ==> k1 == k2
}

/// The parent-chain check: the element's parent reference agrees with the
/// path's earlier segments. A root element stands under a one-segment path;
/// a trashed element under a two-segment path whose first segment is the
/// trash name; an element in a directory requires that directory to be
/// mapped, be a directory, carry the next-to-last segment as its name, and
/// itself match the shortened path. Every other combination is no match.
/// The recursion shortens the path, never walks the parent chain on its own,
/// so it terminates on any store — dangling or cyclic parent references
/// included.
pub open spec fn chain_matches(
    m: Map<u128, ElementView>,
    segs: Seq<Seq<char>>,
    e: ElementView,
) -> bool
    decreases segs.len(),
{
    match e.parent {
        Parent::Root => segs.len() == 1,
        Parent::Trash => segs.len() == 2 && segs[0] == trash_name(),
        Parent::Directory(pid) => segs.len() >= 2 && m.contains_key(pid.value) && (m[pid.value].kind
            is Directory) && m[pid.value].name == segs[segs.len() - 2] && chain_matches(
            m,
            segs.drop_last(),
            m[pid.value],
        ),
    }
}

/// Some candidate for the path's final segment passes the chain check.
pub open spec fn matching_candidate_exists(m: Map<u128, ElementView>, segs: Seq<Seq<char>>) -> bool {
    exists|k: u128| is_candidate(m, segs.last(), k) && chain_matches(m, segs, m[k])
}

/// The path resolves: it has a final segment carried by some element, and
/// the name is either unambiguous or some candidate passes the chain check.
pub open spec fn resolvable(m: Map<u128, ElementView>, segs: Seq<Seq<char>>) -> bool {
    &&& segs.len() >= 1
    &&& candidate_exists(m, segs.last())
    &&& (candidate_unique(m, segs.last()) || matching_candidate_exists(m, segs))
}

/// `k` is an answer the resolver may give for the path.
pub open spec fn resolves_to(m: Map<u128, ElementView>, segs: Seq<Seq<char>>, k: u128) -> bool {
    &&& segs.len() >= 1
    &&& is_candidate(m, segs.last(), k)
    &&& (candidate_unique(m, segs.last()) || chain_matches(m, segs, m[k]))
}

/// How resolution fails: an empty path or an unknown name is `NotFound`; a
/// name collision that the chain check does not settle is `AmbiguousPath`.
pub open spec fn resolve_err(m: Map<u128, ElementView>, segs: Seq<Seq<char>>) -> FsError {
    if segs.len() == 0 || !candidate_exists(m, segs.last()) {
        FsError::NotFound
    } else {
        FsError::AmbiguousPath
    }
}

impl Filesystem {
    /// The executable parent-chain check over the first `upto` segments.
    fn chain_matches_exec(&self, segs: &Vec<String>, upto: usize, e: &Element) -> (r: bool)
        requires
            self.wf(),
            1 <= upto <= segs@.len(),
        ensures
            r == chain_matches(self.contents(), segs.deep_view().take(upto as int), e@),
        decreases upto,
    {
        let ghost m = self.contents();
        let ghost sv = segs.deep_view().take(upto as int);
        assert(sv.len() == upto);
        match &e.parent {
            Parent::Root => upto == 1,
            Parent::Trash => {
                if upto == 2 {
                    let r = is_trash_name(&segs[0]);
                    assert(sv[0] == segs@[0]@);
                    r
                } else {
                    false
                }
            },
            Parent::Directory(pid) => {
                if upto < 2 {
                    return false;
                }
                match self.get_element(pid) {
                    Option::None => false,
                    Option::Some(pe) => {
                        assert(pe@ == m[pid.value]);
                        if pe.is_dir() && pe.name == segs[upto - 2] {
                            assert(sv[upto - 2] == segs@[upto - 2]@);
                            let rec = self.chain_matches_exec(segs, upto - 1, &pe);
                            proof {
                                assert(sv.drop_last() =~= segs.deep_view().take(upto - 1));
                            }
                            rec
                        } else {
                            assert(sv[upto - 2] == segs@[upto - 2]@);
                            false
                        }
                    },
                }
            },
        }
    }

    /// Resolve a path to an identifier and its element. The final segment
    /// picks the candidates by display name; a sole candidate is returned
    /// without further checks, and a collision is settled by the parent
    /// chain. An empty path or an unknown name is `NotFound`; a collision no
    /// candidate survives is `AmbiguousPath`.
    pub fn uuid_from_path(&self, segs: &Vec<String>) -> (r: Result<(Id, Element), FsError>)
        requires
            self.wf(),
        ensures
            !resolvable(self.contents(), segs.deep_view()) ==> r == Result::<(Id, Element), FsError>::Err(
                resolve_err(self.contents(), segs.deep_view()),
            ),
            resolvable(self.contents(), segs.deep_view()) ==> r is Ok,
            r matches Ok(p) ==> resolves_to(self.contents(), segs.deep_view(), p.0.value) && p.1@
                == self.contents()[p.0.value],
    {
        let ghost m = self.contents();
        let ghost sv = segs.deep_view();
        if segs.len() == 0 {
            return Result::Err(FsError::NotFound);
        }
        let name: &String = &segs[segs.len() - 1];
        assert(name@ == sv.last());
        let es = self.elements_entries();
        assert(sv.len() == segs@.len());
        let mut cands: Vec<(Id, Element)> = Vec::new();
        let mut i: usize = 0;
        while i < es.len()
            invariant
                i <= es@.len(),
                self.wf(),
                m == self.contents(),
                name@ == sv.last(),
                forall|ii: int|
                    0 <= ii < es@.len() ==> m.contains_key(#[trigger] es@[ii].0.value)
                        && es@[ii].1@ == m[es@[ii].0.value],
                forall|k: u128|
                    m.contains_key(k) ==> exists|ii: int|
                        0 <= ii < es@.len() && #[trigger] es@[ii].0.value == k,
                forall|ii: int, jj: int|
                    0 <= ii < jj < es@.len() ==> es@[ii].0.value != es@[jj].0.value,
                forall|j: int|
                    0 <= j < cands@.len() ==> is_candidate(
                        m,
                        sv.last(),
                        (#[trigger] cands@[j]).0.value,
                    ) && cands@[j].1@ == m[cands@[j].0.value],
                forall|j: int|
                    0 <= j < cands@.len() ==> exists|ii: int|
                        0 <= ii < i && (#[trigger] cands@[j]).0.value == es@[ii].0.value,
                forall|ii: int|
                    0 <= ii < i && (#[trigger] es@[ii]).1@.name == sv.last() ==> exists|j: int|
                        0 <= j < cands@.len() && (#[trigger] cands@[j]).0.value == es@[ii].0.value,
                forall|j1: int, j2: int|
                    0 <= j1 < j2 < cands@.len() ==> cands@[j1].0.value != cands@[j2].0.value,
            decreases es@.len() - i,
        {
            let hit = es[i].1.name == *name;
            let ghost prev = cands@;
            if hit {
                cands.push((es[i].0, es[i].1.clone()));
            }
            proof {
                assert forall|j: int| 0 <= j < cands@.len() implies exists|ii: int|
                    0 <= ii < i + 1 && (#[trigger] cands@[j]).0.value == es@[ii].0.value by {
                    if j < prev.len() {
                        assert(cands@[j] == prev[j]);
                        let ii = choose|ii: int|
                            0 <= ii < i && (#[trigger] prev[j]).0.value == es@[ii].0.value;
                        assert(0 <= ii < i + 1 && cands@[j].0.value == es@[ii].0.value);
                    } else {
                        assert(cands@[j].0.value == es@[i as int].0.value);
                    }
                }
                assert forall|ii: int|
                    0 <= ii < i + 1 && (#[trigger] es@[ii]).1@.name == sv.last() implies exists|
                    j: int,
                |
                    0 <= j < cands@.len() && (#[trigger] cands@[j]).0.value
                        == es@[ii].0.value by {
                    if ii < i {
                        let j = choose|j: int|
                            0 <= j < prev.len() && (#[trigger] prev[j]).0.value
                                == es@[ii].0.value;
                        assert(cands@[j] == prev[j]);
                    } else {
                        assert(hit);
                        let j = prev.len() as int;
                        assert(0 <= j < cands@.len() && cands@[j].0.value == es@[ii].0.value);
                    }
                }
                assert forall|j1: int, j2: int|
                    0 <= j1 < j2 < cands@.len() implies cands@[j1].0.value
                    != cands@[j2].0.value by {
                    if j2 < prev.len() {
                        assert(cands@[j1] == prev[j1] && cands@[j2] == prev[j2]);
                    } else if j2 == prev.len() {
                        assert(cands@[j1] == prev[j1]);
                        let ii = choose|ii: int|
                            0 <= ii < i && (#[trigger] prev[j1]).0.value == es@[ii].0.value;
                        assert(cands@[j2].0.value == es@[i as int].0.value);
                        assert(es@[ii].0.value != es@[i as int].0.value);
                    }
                }
            }
            i = i + 1;
        }
        proof {
            assert forall|k: u128| is_candidate(m, sv.last(), k) implies exists|j: int|
                0 <= j < cands@.len() && (#[trigger] cands@[j]).0.value == k by {
                let ii = choose|ii: int| 0 <= ii < es@.len() && #[trigger] es@[ii].0.value == k;
                assert(es@[ii].1@.name == sv.last());
                let j = choose|j: int|
                    0 <= j < cands@.len() && (#[trigger] cands@[j]).0.value == es@[ii].0.value;
                assert(cands@[j].0.value == k);
            }
        }
        if cands.len() == 0 {
            proof {
                assert forall|k: u128| !is_candidate(m, sv.last(), k) by {
                    if is_candidate(m, sv.last(), k) {
                        let j = choose|j: int|
                            0 <= j < cands@.len() && (#[trigger] cands@[j]).0.value == k;
                        assert(false);
                    }
                }
            }
            return Result::Err(FsError::NotFound);
        }
        if cands.len() == 1 {
            proof {
                assert forall|k1: u128, k2: u128|
                    is_candidate(m, sv.last(), k1) && is_candidate(
                        m,
                        sv.last(),
                        k2,
                    ) implies k1 == k2 by {
                    let j1 = choose|j: int|
                        0 <= j < cands@.len() && (#[trigger] cands@[j]).0.value == k1;
                    let j2 = choose|j: int|
                        0 <= j < cands@.len() && (#[trigger] cands@[j]).0.value == k2;
                    assert(j1 == 0 && j2 == 0);
                }
            }
            let id = cands[0].0;
            let el = cands[0].1.clone();
            return Result::Ok((id, el));
        }
        proof {
            assert(cands@[0].0.value != cands@[1].0.value);
            assert(!candidate_unique(m, sv.last()));
        }
        let mut j: usize = 0;
        while j < cands.len()
            invariant
                j <= cands@.len(),
                self.wf(),
                m == self.contents(),
                name@ == sv.last(),
                sv == segs.deep_view(),
                sv.len() >= 1,
                forall|jj: int|
                    0 <= jj < cands@.len() ==> is_candidate(
                        m,
                        sv.last(),
                        (#[trigger] cands@[jj]).0.value,
                    ) && cands@[jj].1@ == m[cands@[jj].0.value],
                forall|k: u128|
                    is_candidate(m, sv.last(), k) ==> exists|jj: int|
                        0 <= jj < cands@.len() && (#[trigger] cands@[jj]).0.value == k,
                forall|jj: int| 0 <= jj < j ==> !chain_matches(m, sv, (#[trigger] cands@[jj]).1@),
            decreases cands@.len() - j,
        {
            let hit = self.chain_matches_exec(segs, segs.len(), &cands[j].1);
            proof {
                assert(sv.take(sv.len() as int) =~= sv);
            }
            if hit {
                let id = cands[j].0;
                let el = cands[j].1.clone();
                return Result::Ok((id, el));
            }
            j = j + 1;
        }
        proof {
            assert forall|k: u128|
                !(is_candidate(m, sv.last(), k) && chain_matches(m, sv, m[k])) by {
                if is_candidate(m, sv.last(), k) && chain_matches(m, sv, m[k]) {
                    let jj = choose|jj: int|
                        0 <= jj < cands@.len() && (#[trigger] cands@[jj]).0.value == k;
                    assert(cands@[jj].1@ == m[k]);
                    assert(false);
                }
            }
        }
        Result::Err(FsError::AmbiguousPath)
    }

    /// List a path's children. An empty path lists the elements at the root;
    /// the reserved trash and pinned names list those virtual views; any
    /// other path is resolved and its directory's children are returned. A
    /// path that resolves to a document is refused, and a path that does not
    /// resolve fails with the resolver's error.
    pub fn list(&self, segs: &Vec<String>) -> (r: Result<Vec<Element>, FsError>)
        requires
            self.wf(),
        ensures
            segs.deep_view().len() == 0 ==> (r matches Ok(out) && exact_listing(
                self.contents(),
                (|e: ElementView| e.parent == Parent::Root),
                out.deep_view(),
            )),
            is_trash_path(segs.deep_view()) ==> (r matches Ok(out) && exact_listing(
                self.contents(),
                (|e: ElementView| e.parent == Parent::Trash),
                out.deep_view(),
            )),
            is_pinned_path(segs.deep_view()) ==> (r matches Ok(out) && exact_listing(
                self.contents(),
                (|e: ElementView| e.pinned),
                out.deep_view(),
            )),
            is_plain_path(segs.deep_view()) ==> {
                &&& !resolvable(self.contents(), segs.deep_view()) ==> r == Result::<
                    Vec<Element>,
                    FsError,
                >::Err(resolve_err(self.contents(), segs.deep_view()))
                &&& (r matches Ok(out) ==> exists|k: u128|
                    {
                        &&& #[trigger] resolves_to(self.contents(), segs.deep_view(), k)
                        &&& self.contents()[k].kind is Directory
                        &&& exact_listing(
                            self.contents(),
                            (|e: ElementView| e.parent == Parent::Directory(Id { value: k })),
                            out.deep_view(),
                        )
                    })
                &&& (r == Result::<Vec<Element>, FsError>::Err(FsError::NotADirectory) ==> exists|
                    k: u128,
                |
                    #[trigger] resolves_to(self.contents(), segs.deep_view(), k)
                        && self.contents()[k].kind is Document)
                &&& (resolvable(self.contents(), segs.deep_view()) ==> (r is Ok || r == Result::<
                    Vec<Element>,
                    FsError,
                >::Err(FsError::NotADirectory)))
            },
    {
        if segs.len() == 0 {
            return Result::Ok(self.children_with_parent(&Parent::Root));
        }
        if segs.len() == 1 && is_trash_name(&segs[0]) {
            proof {
                lemma_reserved_names_differ();
                assert(is_trash_path(segs.deep_view()));
            }
            return Result::Ok(self.trash());
        }
        if segs.len() == 1 && is_pinned_name(&segs[0]) {
            assert(is_pinned_path(segs.deep_view()));
            return Result::Ok(self.pinned());
        }
        assert(is_plain_path(segs.deep_view()));
        match self.uuid_from_path(segs) {
            Result::Err(e) => Result::Err(e),
            Result::Ok((id, el)) => {
                if el.is_file() {
                    Result::Err(FsError::NotADirectory)
                } else {
                    Result::Ok(self.children_with_parent(&Parent::Directory(id)))
                }
            },
        }
    }

    /// Plan a move: resolve the element's path, and resolve the target path
    /// to a parent reference — the root when the target path is empty, the
    /// resolved element's directory reference otherwise. The element's
    /// resolution error comes first. Writing the new parent through to the
    /// store and refreshing the moved entry are the caller's part.
    pub fn move_elements(&self, element_path: &Vec<String>, target_path: &Vec<String>) -> (r:
        Result<(Id, Parent), FsError>)
        requires
            self.wf(),
        ensures
            !resolvable(self.contents(), element_path.deep_view()) ==> r == Result::<
                (Id, Parent),
                FsError,
            >::Err(resolve_err(self.contents(), element_path.deep_view())),
            resolvable(self.contents(), element_path.deep_view()) && target_path.deep_view().len()
                != 0 && !resolvable(self.contents(), target_path.deep_view()) ==> r == Result::<
                (Id, Parent),
                FsError,
            >::Err(resolve_err(self.contents(), target_path.deep_view())),
            resolvable(self.contents(), element_path.deep_view()) && (target_path.deep_view().len()
                == 0 || resolvable(self.contents(), target_path.deep_view())) ==> r is Ok,
            r matches Ok(p) ==> {
                &&& resolves_to(self.contents(), element_path.deep_view(), p.0.value)
                &&& target_path.deep_view().len() == 0 ==> p.1 == Parent::Root
                &&& target_path.deep_view().len() != 0 ==> (p.1 matches Parent::Directory(t)
                    && resolves_to(self.contents(), target_path.deep_view(), t.value))
            },
    {
        let element_id = match self.uuid_from_path(element_path) {
            Result::Err(e) => {
                return Result::Err(e);
            },
            Result::Ok((id, _)) => id,
        };
        let target_parent = if target_path.len() == 0 {
            Parent::Root
        } else {
            match self.uuid_from_path(target_path) {
                Result::Err(e) => {
                    return Result::Err(e);
                },
                Result::Ok((id, _)) => Parent::Directory(id),
            }
        };
        Result::Ok((element_id, target_parent))
    }
}

/// A one-segment path holding the reserved trash name.
pub open spec fn is_trash_path(segs: Seq<Seq<char>>) -> bool {
    segs.len() == 1 && segs[0] == trash_name()
}

/// A one-segment path holding the reserved pinned name.
pub open spec fn is_pinned_path(segs: Seq<Seq<char>>) -> bool {
    segs.len() == 1 && segs[0] == pinned_name()
}

/// A non-empty path that is neither reserved view.
pub open spec fn is_plain_path(segs: Seq<Seq<char>>) -> bool {
    segs.len() >= 1 && !is_trash_path(segs) && !is_pinned_path(segs)
}

} // verus!
