//! Version control adapter: wraps every document mutation in a commit
//! record, producing a linear, append-only history. Reads bypass it. The
//! caller owns the actual backend (and the lock that serializes the
//! mutation-plus-commit critical section); it reports the backend's verdict
//! on the stage-and-commit step through `backend_ok`, and a refusal there is
//! surfaced distinctly as `CommitFailed` because content and history have
//! then diverged.

use vstd::prelude::*;
use crate::bytes::concat_bytes;
use crate::bytes::copy_bytes;
use crate::errors::ApiError;
use crate::errors::StoreError;
use crate::store::DocStore;
use crate::store::path_confined;
use crate::store::res_view;
use crate::store::spec_create;
use crate::store::spec_delete;
use crate::store::spec_patch;
use crate::store::spec_read;
use crate::store::spec_replace;

verus! {

/// The mutating verbs; reads never reach the adapter.
#[derive(Clone, Copy, Debug, PartialEq, Eq, Structural)]
pub enum Verb {
    Create,
    Replace,
    Patch,
    Delete,
}

/// A mutating operation descriptor handed in by the API layer.
pub enum Op {
    /// Write-if-absent with this body.
    Create(Vec<u8>),
    /// Full overwrite with this body.
    Replace(Vec<u8>),
    /// Guarded append: the content length the delta was computed against,
    /// and the suffix to add.
    Patch(usize, Vec<u8>),
    /// Remove the document.
    Delete,
}

/// The view of an operation descriptor.
pub enum OpView {
    Create(Seq<u8>),
    Replace(Seq<u8>),
    Patch(int, Seq<u8>),
    Delete,
}

impl View for Op {
    type V = OpView;

    open spec fn view(&self) -> OpView {
        match self {
            Op::Create(b) => OpView::Create(b@),
            Op::Replace(b) => OpView::Replace(b@),
            Op::Patch(n, d) => OpView::Patch(*n as int, d@),
            Op::Delete => OpView::Delete,
        }
    }
}

/// The verb an operation performs.
pub open spec fn verb_of(op: OpView) -> Verb {
    match op {
        OpView::Create(_) => Verb::Create,
        OpView::Replace(_) => Verb::Replace,
        OpView::Patch(_, _) => Verb::Patch,
        OpView::Delete => Verb::Delete,
    }
}

/// One history entry: which verb touched which path, and — as a
/// specification-level record — the snapshot of the whole content map right
/// after the mutation. The summary a backend would record is `"<verb> <path>"`.
pub struct Commit {
    pub verb: Verb,
    pub path: Vec<u8>,
    pub snapshot: Ghost<Map<Seq<u8>, Seq<u8>>>,
}

/// The view of a commit.
pub struct CommitView {
    pub verb: Verb,
    pub path: Seq<u8>,
    pub snapshot: Map<Seq<u8>, Seq<u8>>,
}

impl View for Commit {
    type V = CommitView;

    open spec fn view(&self) -> CommitView {
        CommitView { verb: self.verb, path: self.path@, snapshot: self.snapshot@ }
    }
}

/// The name of a verb, as the bytes of its lower-case word.
pub open spec fn verb_bytes(v: Verb) -> Seq<u8> {
    match v {
        Verb::Create => seq![99u8, 114u8, 101u8, 97u8, 116u8, 101u8],
        Verb::Replace => seq![114u8, 101u8, 112u8, 108u8, 97u8, 99u8, 101u8],
        Verb::Patch => seq![112u8, 97u8, 116u8, 99u8, 104u8],
        Verb::Delete => seq![100u8, 101u8, 108u8, 101u8, 116u8, 101u8],
    }
}

/// The deterministic message a commit records: the verb's name, one space,
/// the path.
pub open spec fn summary_bytes(verb: Verb, path: Seq<u8>) -> Seq<u8> {
    verb_bytes(verb) + seq![32u8] + path
}

/// Renders the message a commit for this verb and path records.
pub fn render_summary(verb: Verb, path: &Vec<u8>) -> (r: Vec<u8>)
    ensures
        r@ == summary_bytes(verb, path@),
{
    let mut label: Vec<u8> = Vec::new();
    match verb {
        Verb::Create => {
            label.push(99);
            label.push(114);
            label.push(101);
            label.push(97);
            label.push(116);
            label.push(101);
        },
        Verb::Replace => {
            label.push(114);
            label.push(101);
            label.push(112);
            label.push(108);
            label.push(97);
            label.push(99);
            label.push(101);
        },
        Verb::Patch => {
            label.push(112);
            label.push(97);
            label.push(116);
            label.push(99);
            label.push(104);
        },
        Verb::Delete => {
            label.push(100);
            label.push(101);
            label.push(108);
            label.push(101);
            label.push(116);
            label.push(101);
        },
    }
    proof {
        assert(label@ =~= verb_bytes(verb));
    }
    label.push(32);
    let r = concat_bytes(&label, path);
    proof {
        assert(label@ + path@ =~= summary_bytes(verb, path@));
    }
    r
}

impl Op {
    /// The verb this operation performs.
    pub fn verb(&self) -> (v: Verb)
        ensures
            v == verb_of(self@),
    {
        match self {
            Op::Create(_) => Verb::Create,
            Op::Replace(_) => Verb::Replace,
            Op::Patch(_, _) => Verb::Patch,
            Op::Delete => Verb::Delete,
        }
    }
}

impl Commit {
    /// Renders this entry's message, `"<verb> <path>"`.
    pub fn summary(&self) -> (r: Vec<u8>)
        ensures
            r@ == summary_bytes(self.verb, self.path@),
    {
        render_summary(self.verb, &self.path)
    }
}

/// The adapter's state as specifications see it: the content map and the
/// commit chain.
pub struct AdapterView {
    pub docs: Map<Seq<u8>, Seq<u8>>,
    pub history: Seq<CommitView>,
}

/// What a store verb does to the content map.
pub open spec fn store_apply(m: Map<Seq<u8>, Seq<u8>>, p: Seq<u8>, op: OpView) -> (Map<
    Seq<u8>,
    Seq<u8>,
>, Result<(), StoreError>) {
    match op {
        OpView::Create(b) => spec_create(m, p, b),
        OpView::Replace(b) => spec_replace(m, p, b),
        OpView::Patch(n, d) => spec_patch(m, p, n, d),
        OpView::Delete => spec_delete(m, p),
    }
}

/// The adapter's protocol per mutating call: run the store step; on a store
/// error nothing at all changes; on success, if the backend accepted the
/// stage-and-commit the history is extended by exactly one commit snapshot
/// of the new content, and if it refused, the content is already mutated
/// while the history is not — reported as `CommitFailed`, never as plain
/// success or plain failure.
pub open spec fn adapter_apply(v: AdapterView, p: Seq<u8>, op: OpView, backend_ok: bool) -> (
    AdapterView,
    Result<(), ApiError>,
) {
    let (m2, sr) = store_apply(v.docs, p, op);
    match sr {
        Result::Err(e) => (v, Result::Err(ApiError::Store(e))),
        Result::Ok(_) => if backend_ok {
            (
                AdapterView {
                    docs: m2,
                    history: v.history.push(
                        CommitView { verb: verb_of(op), path: p, snapshot: m2 },
                    ),
                },
                Result::Ok(()),
            )
        } else {
            (AdapterView { docs: m2, history: v.history }, Result::Err(ApiError::CommitFailed))
        },
    }
}

/// The versioned store: documents plus their linear commit history. The
/// history is append-only; nothing here rewrites or drops an entry.
pub struct Adapter {
    store: DocStore,
    history: Vec<Commit>,
}

impl View for Adapter {
    type V = AdapterView;

    closed spec fn view(&self) -> AdapterView {
        AdapterView {
            docs: self.store@,
            history: self.history@.map_values(|c: Commit| c@),
        }
    }
}

impl Adapter {
    /// Internal invariant of the document tree.
    pub closed spec fn wf(&self) -> bool {
        self.store.wf()
    }

    /// A fresh adapter: empty tree, empty history — the repository root.
    pub fn new() -> (a: Adapter)
        ensures
            a.wf(),
            a@.docs == Map::<Seq<u8>, Seq<u8>>::empty(),
            a@.history == Seq::<CommitView>::empty(),
    {
        let a = Adapter { store: DocStore::new(), history: Vec::new() };
        proof {
            assert(a.history@.map_values(|c: Commit| c@) =~= Seq::<CommitView>::empty());
        }
        a
    }

    /// Reads bypass the commit protocol and observe committed content only.
    pub fn read(&self, path: &Vec<u8>) -> (r: Result<Vec<u8>, StoreError>)
        requires
            self.wf(),
        ensures
            res_view(r) == spec_read(self@.docs, path@),
    {
        self.store.read(path)
    }

    /// How many commits the history holds.
    pub fn history_len(&self) -> (n: usize)
        ensures
            n == self@.history.len(),
    {
        self.history.len()
    }

    /// The verb a history entry records.
    pub fn commit_verb(&self, i: usize) -> (v: Verb)
        requires
            i < self@.history.len(),
        ensures
            v == self@.history[i as int].verb,
    {
        self.history[i].verb
    }

    /// The path a history entry records.
    pub fn commit_path(&self, i: usize) -> (p: &Vec<u8>)
        requires
            i < self@.history.len(),
        ensures
            p@ == self@.history[i as int].path,
    {
        &self.history[i].path
    }

    /// The rendered message of a history entry, `"<verb> <path>"`.
    pub fn commit_summary(&self, i: usize) -> (r: Vec<u8>)
        requires
            i < self@.history.len(),
        ensures
            r@ == summary_bytes(self@.history[i as int].verb, self@.history[i as int].path),
    {
        self.history[i].summary()
    }

    /// What an operation will leave at the path, decided without changing
    /// anything: the exact bytes a backend must write (`Some`), the removal
    /// it must perform (`None`), or the store error the operation is bound
    /// to fail with. This lets the caller bring the working tree in line
    /// before asking for the mutation itself.
    pub fn plan(&self, path: &Vec<u8>, op: &Op) -> (r: Result<Option<Vec<u8>>, StoreError>)
        requires
            self.wf(),
        ensures
            ({
                let (m2, sr) = store_apply(self@.docs, path@, op@);
                match r {
                    Result::Err(e) => sr == Result::<(), StoreError>::Err(e),
                    Result::Ok(Option::Some(b)) => sr is Ok && m2 == self@.docs.insert(path@, b@),
                    Result::Ok(Option::None) => sr is Ok && m2 == self@.docs.remove(path@),
                }
            }),
    {
        let cur = self.read(path);
        match op {
            Op::Create(b) => match cur {
                Result::Ok(_) => Result::Err(StoreError::AlreadyExists),
                Result::Err(StoreError::NotFound) => Result::Ok(Option::Some(copy_bytes(b))),
                Result::Err(e) => Result::Err(e),
            },
            Op::Replace(b) => match cur {
                Result::Ok(_) => Result::Ok(Option::Some(copy_bytes(b))),
                Result::Err(e) => Result::Err(e),
            },
            Op::Patch(n, d) => match cur {
                Result::Ok(current) => {
                    if current.len() != *n {
                        Result::Err(StoreError::PatchConflict)
                    } else {
                        Result::Ok(Option::Some(concat_bytes(&current, d)))
                    }
                },
                Result::Err(e) => Result::Err(e),
            },
            Op::Delete => match cur {
                Result::Ok(_) => Result::Ok(Option::None),
                Result::Err(e) => Result::Err(e),
            },
        }
    }

    /// One mutating call: the store mutation, then the commit record,
    /// indivisible from the caller's perspective. The caller performs the
    /// backend's stage-and-commit inside its serialization lock and hands
    /// the verdict in as `backend_ok`.
    pub fn apply(&mut self, path: &Vec<u8>, op: Op, backend_ok: bool) -> (r: Result<(), ApiError>)
        requires
            old(self).wf(),
        ensures
            final(self).wf(),
            (final(self)@, r) == adapter_apply(old(self)@, path@, op@, backend_ok),
    {
        let verb = op.verb();
        let sr = match op {
            Op::Create(body) => self.store.create(path, body),
            Op::Replace(body) => self.store.replace(path, body),
            Op::Patch(base_len, delta) => self.store.patch(path, base_len, &delta),
            Op::Delete => self.store.delete(path),
        };
        match sr {
            Result::Err(e) => Result::Err(ApiError::Store(e)),
            Result::Ok(()) => {
                if backend_ok {
                    let c = Commit {
                        verb,
                        path: copy_bytes(path),
                        snapshot: Ghost(self.store@),
                    };
                    let ghost h0 = self.history@.map_values(|c: Commit| c@);
                    let ghost cv = c@;
                    self.history.push(c);
                    proof {
                        assert(self.history@.map_values(|c: Commit| c@) =~= h0.push(cv));
                    }
                    Result::Ok(())
                } else {
                    Result::Err(ApiError::CommitFailed)
                }
            },
        }
    }
}

/// Whether the newest commit's snapshot matches the current content: the
/// state in which disk and history agree.
pub open spec fn synced(v: AdapterView) -> bool {
    v.history.len() > 0 ==> v.history.last().snapshot == v.docs
}

/// Atomicity of mutation plus commit: a successful call leaves the content
/// matching exactly the newly appended commit's snapshot; a store error
/// changes nothing at all; only a `CommitFailed` outcome leaves the content
/// advanced beyond the history.
pub proof fn lemma_mutation_synced(v: AdapterView, p: Seq<u8>, op: OpView, backend_ok: bool)
    ensures
        ({
            let (v2, r) = adapter_apply(v, p, op, backend_ok);
            &&& r is Ok ==> synced(v2) && v2.history.len() == v.history.len() + 1
                && v2.history.last() == (CommitView {
                verb: verb_of(op),
                path: p,
                snapshot: v2.docs,
            })
            &&& (r matches Err(e) && e != ApiError::CommitFailed) ==> v2 == v
            &&& r == Result::<(), ApiError>::Err(ApiError::CommitFailed) ==> v2.history == v.history
                && v2.docs == store_apply(v.docs, p, op).0
        }),
{
}

/// Serialization: two creates for two different paths, run one after the
/// other under the mutation lock, succeed and append exactly two commits,
/// in that order, each recording its own path and snapshot — never a merged
/// or corrupted entry.
pub proof fn lemma_serialized_creates(
    v: AdapterView,
    p1: Seq<u8>,
    b1: Seq<u8>,
    p2: Seq<u8>,
    b2: Seq<u8>,
)
    requires
        path_confined(p1),
        path_confined(p2),
        p1 != p2,
        !v.docs.contains_key(p1),
        !v.docs.contains_key(p2),
    ensures
        ({
            let (v1, r1) = adapter_apply(v, p1, OpView::Create(b1), true);
            let (v2, r2) = adapter_apply(v1, p2, OpView::Create(b2), true);
            &&& r1 is Ok
            &&& r2 is Ok
            &&& v2.history.len() == v.history.len() + 2
            &&& v2.history[v.history.len() as int] == CommitView {
                verb: Verb::Create,
                path: p1,
                snapshot: v.docs.insert(p1, b1),
            }
            &&& v2.history[v.history.len() as int + 1] == CommitView {
                verb: Verb::Create,
                path: p2,
                snapshot: v.docs.insert(p1, b1).insert(p2, b2),
            }
            &&& v2.docs == v.docs.insert(p1, b1).insert(p2, b2)
        }),
{
}

} // verus!
