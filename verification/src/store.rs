//! Document store: maps document paths to content, confined to the
//! configured root. Every operation first rejects paths that would resolve
//! outside the root, then acts on the path-keyed content map.

use vstd::prelude::*;
use vstd::pervasive::VecAdditionalExecFns;
use crate::bytes::concat_bytes;
use crate::bytes::copy_bytes;
use crate::bytes::ct_eq;
use crate::errors::StoreError;

verus! {

/// The byte `/`, the path separator.
pub const SEP: u8 = 47;

/// The byte `.`.
pub const DOT: u8 = 46;

/// Whether the path holds a `..` traversal component starting at index `i`:
/// two dots delimited by the start of the path, the end of the path, or
/// separators.
pub open spec fn dotdot_component_at(p: Seq<u8>, i: int) -> bool {
    &&& 0 <= i
    &&& i + 2 <= p.len()
    &&& p[i] == DOT
    &&& p[i + 1] == DOT
    &&& (i == 0 || p[i - 1] == SEP)
    &&& (i + 2 == p.len() || p[i + 2] == SEP)
}

/// A path stays under the root iff it is nonempty and has no `..`
/// component anywhere.
pub open spec fn path_confined(p: Seq<u8>) -> bool {
    p.len() > 0 && !(exists|i: int| dotdot_component_at(p, i))
}

/// Decides `path_confined` by scanning every position once.
pub fn check_path(path: &Vec<u8>) -> (r: bool)
    ensures
        r == path_confined(path@),
{
    let n = path.len();
    if n == 0 {
        return false;
    }
    let mut found = false;
    let mut i: usize = 0;
    while i < n
        invariant
            n == path@.len(),
            i <= n,
            found <==> exists|j: int| j < i && dotdot_component_at(path@, j),
        decreases n - i,
    {
        if n - i >= 2 {
            let c0 = path[i];
            let c1 = path[i + 1];
            let head_ok = i == 0 || path[i - 1] == SEP;
            let tail_ok = i + 2 == n || path[i + 2] == SEP;
            if c0 == DOT && c1 == DOT && head_ok && tail_ok {
                proof {
                    assert(dotdot_component_at(path@, i as int));
                }
                found = true;
            }
        }
        i = i + 1;
    }
    !found
}

/// One stored document.
struct Doc {
    path: Vec<u8>,
    body: Vec<u8>,
}

/// No two entries share a path.
spec fn paths_unique(s: Seq<Doc>) -> bool {
    forall|i: int, j: int|
        0 <= i < j < s.len() ==> (#[trigger] s[i].path@) != (#[trigger] s[j].path@)
}

/// The content map an entry sequence denotes, later entries shadowing
/// earlier ones (with unique paths nothing is shadowed).
spec fn doc_map(s: Seq<Doc>) -> Map<Seq<u8>, Seq<u8>>
    decreases s.len(),
{
    if s.len() == 0 {
        Map::empty()
    } else {
        doc_map(s.drop_last()).insert(s.last().path@, s.last().body@)
    }
}

proof fn lemma_paths_unique_drop_last(s: Seq<Doc>)
    requires
        paths_unique(s),
        s.len() > 0,
    ensures
        paths_unique(s.drop_last()),
{
    assert forall|a: int, b: int| 0 <= a < b < s.drop_last().len() implies (#[trigger] s
        .drop_last()[a].path@) != (#[trigger] s.drop_last()[b].path@) by {
        assert(s[a].path@ != s[b].path@);
    }
}

proof fn lemma_doc_map_contains(s: Seq<Doc>, k: Seq<u8>)
    ensures
        doc_map(s).contains_key(k) <==> exists|i: int|
            0 <= i < s.len() && (#[trigger] s[i].path@) == k,
    decreases s.len(),
{
    if s.len() == 0 {
    } else {
        lemma_doc_map_contains(s.drop_last(), k);
        if k == s.last().path@ {
            assert(s[s.len() - 1].path@ == k);
        } else {
            if doc_map(s.drop_last()).contains_key(k) {
                let i = choose|i: int|
                    0 <= i < s.drop_last().len() && (#[trigger] s.drop_last()[i].path@) == k;
                assert(s[i].path@ == k);
            }
            if exists|i: int| 0 <= i < s.len() && (#[trigger] s[i].path@) == k {
                let i = choose|i: int| 0 <= i < s.len() && (#[trigger] s[i].path@) == k;
                assert(i < s.len() - 1);
                assert(s.drop_last()[i].path@ == k);
            }
        }
    }
}

proof fn lemma_doc_map_get(s: Seq<Doc>, i: int)
    requires
        paths_unique(s),
        0 <= i < s.len(),
    ensures
        doc_map(s).contains_key(s[i].path@),
        doc_map(s)[s[i].path@] == s[i].body@,
    decreases s.len(),
{
    if i == s.len() - 1 {
    } else {
        lemma_paths_unique_drop_last(s);
        assert(s.drop_last()[i] == s[i]);
        lemma_doc_map_get(s.drop_last(), i);
        assert(s[i].path@ != s.last().path@);
    }
}

proof fn lemma_doc_map_push(s: Seq<Doc>, d: Doc)
    requires
        paths_unique(s),
        forall|i: int| 0 <= i < s.len() ==> (#[trigger] s[i].path@) != d.path@,
    ensures
        doc_map(s.push(d)) == doc_map(s).insert(d.path@, d.body@),
        paths_unique(s.push(d)),
{
    let s2 = s.push(d);
    assert(s2.drop_last() =~= s);
    assert(s2.last() == d);
    assert forall|a: int, b: int| 0 <= a < b < s2.len() implies (#[trigger] s2[a].path@)
        != (#[trigger] s2[b].path@) by {
        if b < s.len() {
            assert(s[a].path@ != s[b].path@);
        } else {
            assert(s[a].path@ != d.path@);
        }
    }
}

proof fn lemma_doc_map_update(s: Seq<Doc>, i: int, d: Doc)
    requires
        paths_unique(s),
        0 <= i < s.len(),
        d.path@ == s[i].path@,
    ensures
        doc_map(s.update(i, d)) == doc_map(s).insert(d.path@, d.body@),
        paths_unique(s.update(i, d)),
    decreases s.len(),
{
    let s2 = s.update(i, d);
    assert forall|a: int, b: int| 0 <= a < b < s2.len() implies (#[trigger] s2[a].path@)
        != (#[trigger] s2[b].path@) by {
        assert(s[a].path@ != s[b].path@);
        if a == i {
            assert(s2[a].path@ == s[i].path@);
        }
        if b == i {
            assert(s2[b].path@ == s[i].path@);
        }
    }
    if i == s.len() - 1 {
        assert(s2.drop_last() =~= s.drop_last());
        assert(s2.last() == d);
        assert(doc_map(s).insert(d.path@, d.body@) =~= doc_map(s.drop_last()).insert(
            d.path@,
            d.body@,
        ));
    } else {
        lemma_paths_unique_drop_last(s);
        assert(s2.drop_last() =~= s.drop_last().update(i, d));
        assert(s2.last() == s.last());
        assert(s.drop_last()[i] == s[i]);
        lemma_doc_map_update(s.drop_last(), i, d);
        assert(s.last().path@ != d.path@);
        assert(doc_map(s.drop_last()).insert(d.path@, d.body@).insert(
            s.last().path@,
            s.last().body@,
        ) =~= doc_map(s.drop_last()).insert(s.last().path@, s.last().body@).insert(
            d.path@,
            d.body@,
        ));
    }
}

proof fn lemma_doc_map_remove(s: Seq<Doc>, i: int)
    requires
        paths_unique(s),
        0 <= i < s.len(),
    ensures
        doc_map(s.remove(i)) == doc_map(s).remove(s[i].path@),
        paths_unique(s.remove(i)),
    decreases s.len(),
{
    let s2 = s.remove(i);
    s.remove_ensures(i);
    assert forall|a: int, b: int| 0 <= a < b < s2.len() implies (#[trigger] s2[a].path@)
        != (#[trigger] s2[b].path@) by {
        let a0: int = if a < i { a } else { a + 1 };
        let b0: int = if b < i { b } else { b + 1 };
        assert(s2[a] == s[a0]);
        assert(s2[b] == s[b0]);
        assert(s[a0].path@ != s[b0].path@);
    }
    if i == s.len() - 1 {
        assert(s2 =~= s.drop_last());
        lemma_paths_unique_drop_last(s);
        lemma_doc_map_contains(s.drop_last(), s[i].path@);
        assert(forall|a: int|
            0 <= a < s.drop_last().len() ==> (#[trigger] s.drop_last()[a].path@) != s[i].path@);
        assert(!doc_map(s.drop_last()).contains_key(s[i].path@));
        assert(doc_map(s).remove(s[i].path@) =~= doc_map(s.drop_last()));
    } else {
        lemma_paths_unique_drop_last(s);
        assert(s2.drop_last() =~= s.drop_last().remove(i));
        assert(s2.last() == s.last());
        assert(s.drop_last()[i] == s[i]);
        lemma_doc_map_remove(s.drop_last(), i);
        assert(s.last().path@ != s[i].path@);
        assert(doc_map(s.drop_last()).remove(s[i].path@).insert(s.last().path@, s.last().body@)
            =~= doc_map(s.drop_last()).insert(s.last().path@, s.last().body@).remove(s[i].path@));
    }
}

/// What `read` returns over the content map.
pub open spec fn spec_read(m: Map<Seq<u8>, Seq<u8>>, p: Seq<u8>) -> Result<Seq<u8>, StoreError> {
    if !path_confined(p) {
        Result::Err(StoreError::PathEscapesRoot)
    } else if !m.contains_key(p) {
        Result::Err(StoreError::NotFound)
    } else {
        Result::Ok(m[p])
    }
}

/// What `create` does to the content map: write-if-absent, never a silent
/// overwrite.
pub open spec fn spec_create(m: Map<Seq<u8>, Seq<u8>>, p: Seq<u8>, b: Seq<u8>) -> (Map<
    Seq<u8>,
    Seq<u8>,
>, Result<(), StoreError>) {
    if !path_confined(p) {
        (m, Result::Err(StoreError::PathEscapesRoot))
    } else if m.contains_key(p) {
        (m, Result::Err(StoreError::AlreadyExists))
    } else {
        (m.insert(p, b), Result::Ok(()))
    }
}

/// What `replace` does to the content map: full overwrite of an existing
/// document only.
pub open spec fn spec_replace(m: Map<Seq<u8>, Seq<u8>>, p: Seq<u8>, b: Seq<u8>) -> (Map<
    Seq<u8>,
    Seq<u8>,
>, Result<(), StoreError>) {
    if !path_confined(p) {
        (m, Result::Err(StoreError::PathEscapesRoot))
    } else if !m.contains_key(p) {
        (m, Result::Err(StoreError::NotFound))
    } else {
        (m.insert(p, b), Result::Ok(()))
    }
}

/// What `patch` does to the content map. The one patch form accepted is a
/// guarded append: the delta names the content length it was computed
/// against, and the suffix to add. A delta against any other length cannot
/// be applied cleanly and is rejected rather than merged best-effort.
pub open spec fn spec_patch(
    m: Map<Seq<u8>, Seq<u8>>,
    p: Seq<u8>,
    base_len: int,
    delta: Seq<u8>,
) -> (Map<Seq<u8>, Seq<u8>>, Result<(), StoreError>) {
    if !path_confined(p) {
        (m, Result::Err(StoreError::PathEscapesRoot))
    } else if !m.contains_key(p) {
        (m, Result::Err(StoreError::NotFound))
    } else if m[p].len() != base_len {
        (m, Result::Err(StoreError::PatchConflict))
    } else {
        (m.insert(p, m[p] + delta), Result::Ok(()))
    }
}

/// What `delete` does to the content map.
pub open spec fn spec_delete(m: Map<Seq<u8>, Seq<u8>>, p: Seq<u8>) -> (Map<Seq<u8>, Seq<u8>>, Result<
    (),
    StoreError,
>) {
    if !path_confined(p) {
        (m, Result::Err(StoreError::PathEscapesRoot))
    } else if !m.contains_key(p) {
        (m, Result::Err(StoreError::NotFound))
    } else {
        (m.remove(p), Result::Ok(()))
    }
}

/// The view of a byte-carrying result, for stating contracts.
pub open spec fn res_view(r: Result<Vec<u8>, StoreError>) -> Result<Seq<u8>, StoreError> {
    match r {
        Result::Ok(b) => Result::Ok(b@),
        Result::Err(e) => Result::Err(e),
    }
}

/// The document tree: path-keyed content, viewed as a map from path bytes
/// to content bytes.
pub struct DocStore {
    docs: Vec<Doc>,
}

impl View for DocStore {
    type V = Map<Seq<u8>, Seq<u8>>;

    closed spec fn view(&self) -> Map<Seq<u8>, Seq<u8>> {
        doc_map(self.docs@)
    }
}

impl DocStore {
    /// Internal invariant: entry paths are unique, so the map view loses
    /// nothing.
    pub closed spec fn wf(&self) -> bool {
        paths_unique(self.docs@)
    }

    /// An empty tree.
    pub fn new() -> (s: DocStore)
        ensures
            s.wf(),
            s@ == Map::<Seq<u8>, Seq<u8>>::empty(),
    {
        DocStore { docs: Vec::new() }
    }

    /// The index holding `path`, if any.
    fn find(&self, path: &Vec<u8>) -> (r: Option<usize>)
        ensures
            match r {
                Option::Some(i) => i < self.docs@.len() && self.docs@[i as int].path@ == path@,
                Option::None => forall|i: int|
                    0 <= i < self.docs@.len() ==> (#[trigger] self.docs@[i].path@) != path@,
            },
    {
        let mut i: usize = 0;
        while i < self.docs.len()
            invariant
                i <= self.docs@.len(),
                forall|j: int| 0 <= j < i ==> (#[trigger] self.docs@[j].path@) != path@,
            decreases self.docs@.len() - i,
        {
            if ct_eq(&self.docs[i].path, path) {
                return Option::Some(i);
            }
            i = i + 1;
        }
        Option::None
    }

    /// Reads a document's content; `NotFound` if absent, and no path outside
    /// the root is ever consulted.
    pub fn read(&self, path: &Vec<u8>) -> (r: Result<Vec<u8>, StoreError>)
        requires
            self.wf(),
        ensures
            res_view(r) == spec_read(self@, path@),
    {
        if !check_path(path) {
            return Result::Err(StoreError::PathEscapesRoot);
        }
        proof {
            lemma_doc_map_contains(self.docs@, path@);
        }
        match self.find(path) {
            Option::None => Result::Err(StoreError::NotFound),
            Option::Some(i) => {
                proof {
                    lemma_doc_map_get(self.docs@, i as int);
                }
                Result::Ok(copy_bytes(&self.docs[i].body))
            },
        }
    }

    /// Creates a document; `AlreadyExists` if the path is occupied, and the
    /// occupying content is left untouched.
    pub fn create(&mut self, path: &Vec<u8>, body: Vec<u8>) -> (r: Result<(), StoreError>)
        requires
            old(self).wf(),
        ensures
            final(self).wf(),
            (final(self)@, r) == spec_create(old(self)@, path@, body@),
    {
        if !check_path(path) {
            return Result::Err(StoreError::PathEscapesRoot);
        }
        proof {
            lemma_doc_map_contains(self.docs@, path@);
        }
        match self.find(path) {
            Option::Some(_) => Result::Err(StoreError::AlreadyExists),
            Option::None => {
                let d = Doc { path: copy_bytes(path), body };
                proof {
                    lemma_doc_map_push(self.docs@, d);
                }
                self.docs.push(d);
                Result::Ok(())
            },
        }
    }

    /// Replaces a document's content in full; `NotFound` if absent.
    pub fn replace(&mut self, path: &Vec<u8>, body: Vec<u8>) -> (r: Result<(), StoreError>)
        requires
            old(self).wf(),
        ensures
            final(self).wf(),
            (final(self)@, r) == spec_replace(old(self)@, path@, body@),
    {
        if !check_path(path) {
            return Result::Err(StoreError::PathEscapesRoot);
        }
        proof {
            lemma_doc_map_contains(self.docs@, path@);
        }
        match self.find(path) {
            Option::None => Result::Err(StoreError::NotFound),
            Option::Some(i) => {
                let d = Doc { path: copy_bytes(path), body };
                proof {
                    lemma_doc_map_get(self.docs@, i as int);
                    lemma_doc_map_update(self.docs@, i as int, d);
                }
                self.docs.set(i, d);
                Result::Ok(())
            },
        }
    }

    /// Applies a guarded append: `delta` is added at the end provided the
    /// current content still has the length the delta was computed against;
    /// otherwise the patch conflicts and nothing changes.
    pub fn patch(&mut self, path: &Vec<u8>, base_len: usize, delta: &Vec<u8>) -> (r: Result<
        (),
        StoreError,
    >)
        requires
            old(self).wf(),
        ensures
            final(self).wf(),
            (final(self)@, r) == spec_patch(old(self)@, path@, base_len as int, delta@),
    {
        if !check_path(path) {
            return Result::Err(StoreError::PathEscapesRoot);
        }
        proof {
            lemma_doc_map_contains(self.docs@, path@);
        }
        match self.find(path) {
            Option::None => Result::Err(StoreError::NotFound),
            Option::Some(i) => {
                proof {
                    lemma_doc_map_get(self.docs@, i as int);
                }
                if self.docs[i].body.len() != base_len {
                    Result::Err(StoreError::PatchConflict)
                } else {
                    let nb = concat_bytes(&self.docs[i].body, delta);
                    let d = Doc { path: copy_bytes(path), body: nb };
                    proof {
                        lemma_doc_map_update(self.docs@, i as int, d);
                    }
                    self.docs.set(i, d);
                    Result::Ok(())
                }
            },
        }
    }

    /// Deletes a document; `NotFound` if absent.
    pub fn delete(&mut self, path: &Vec<u8>) -> (r: Result<(), StoreError>)
        requires
            old(self).wf(),
        ensures
            final(self).wf(),
            (final(self)@, r) == spec_delete(old(self)@, path@),
    {
        if !check_path(path) {
            return Result::Err(StoreError::PathEscapesRoot);
        }
        proof {
            lemma_doc_map_contains(self.docs@, path@);
        }
        match self.find(path) {
            Option::None => Result::Err(StoreError::NotFound),
            Option::Some(i) => {
                proof {
                    lemma_doc_map_get(self.docs@, i as int);
                    lemma_doc_map_remove(self.docs@, i as int);
                }
                self.docs.remove(i);
                Result::Ok(())
            },
        }
    }
}

/// Path confinement: an operation on a path holding a traversal component
/// fails with `PathEscapesRoot` and changes nothing.
pub proof fn lemma_traversal_rejected(
    m: Map<Seq<u8>, Seq<u8>>,
    p: Seq<u8>,
    b: Seq<u8>,
    base_len: int,
    i: int,
)
    requires
        dotdot_component_at(p, i),
    ensures
        !path_confined(p),
        spec_read(m, p) == Result::<Seq<u8>, StoreError>::Err(StoreError::PathEscapesRoot),
        spec_create(m, p, b) == (m, Result::<(), StoreError>::Err(StoreError::PathEscapesRoot)),
        spec_replace(m, p, b) == (m, Result::<(), StoreError>::Err(StoreError::PathEscapesRoot)),
        spec_patch(m, p, base_len, b) == (
            m,
            Result::<(), StoreError>::Err(StoreError::PathEscapesRoot),
        ),
        spec_delete(m, p) == (m, Result::<(), StoreError>::Err(StoreError::PathEscapesRoot)),
{
}

/// Create/replace distinction: `create` on an occupied path fails with
/// `AlreadyExists` and leaves the content unchanged; `replace` on a missing
/// path fails with `NotFound`.
pub proof fn lemma_create_replace_distinction(m: Map<Seq<u8>, Seq<u8>>, p: Seq<u8>, b: Seq<u8>)
    requires
        path_confined(p),
    ensures
        m.contains_key(p) ==> spec_create(m, p, b) == (
            m,
            Result::<(), StoreError>::Err(StoreError::AlreadyExists),
        ),
        !m.contains_key(p) ==> spec_replace(m, p, b) == (
            m,
            Result::<(), StoreError>::Err(StoreError::NotFound),
        ),
{
}

} // verus!
