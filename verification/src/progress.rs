use vstd::prelude::*;
use crate::strings::{append_text, debug_quoted, quoted};

verus! {

/// A long-running operation whose progress is shown.
#[derive(Debug, Clone)]
pub enum ProgressOperation {
    Filtering,
    Searching,
    /// Loading a file, with its path when known.
    BufferLoading(Option<String>),
    /// Saving a file, with its path when known.
    BufferSaving(Option<String>),
}

/// Operations are told apart by their kind alone: two loadings are the same
/// operation whatever their paths.
pub open spec fn op_kind(op: ProgressOperation) -> int {
    match op {
        ProgressOperation::BufferLoading(_) => 0,
        ProgressOperation::BufferSaving(_) => 1,
        ProgressOperation::Filtering => 2,
        ProgressOperation::Searching => 3,
    }
}

/// The text shown for an operation.
pub open spec fn op_label(op: ProgressOperation) -> Seq<char> {
    match op {
        ProgressOperation::Filtering => seq!['F', 'i', 'l', 't', 'e', 'r', 'i', 'n', 'g', ' ', '.', '.', '.'],
        ProgressOperation::Searching => seq!['S', 'e', 'a', 'r', 'c', 'h', 'i', 'n', 'g', ' ', '.', '.', '.'],
        ProgressOperation::BufferLoading(Some(p)) => seq!['L', 'o', 'a', 'd', 'i', 'n', 'g', ' '] + debug_quoted(p@),
        ProgressOperation::BufferLoading(None) => seq!['L', 'o', 'a', 'd', 'i', 'n', 'g', ' ', '.', '.', '.'],
        ProgressOperation::BufferSaving(Some(p)) => seq!['S', 'a', 'v', 'i', 'n', 'g', ' '] + debug_quoted(p@),
        ProgressOperation::BufferSaving(None) => seq!['S', 'a', 'v', 'i', 'n', 'g', ' ', '.', '.', '.'],
    }
}

impl PartialEq for ProgressOperation {
    fn eq(&self, other: &Self) -> (r: bool) {
        self.kind() == other.kind()
    }
}

impl vstd::std_specs::cmp::PartialEqSpecImpl for ProgressOperation {
    open spec fn obeys_eq_spec() -> bool {
        true
    }

    open spec fn eq_spec(&self, other: &Self) -> bool {
        op_kind(*self) == op_kind(*other)
    }
}

impl ProgressOperation {
    /// The kind of the operation: loading, saving, filtering, searching, from 0 to 3.
    pub fn kind(&self) -> (k: u8)
        ensures
            k == op_kind(*self),
    {
        match self {
            ProgressOperation::BufferLoading(_) => 0,
            ProgressOperation::BufferSaving(_) => 1,
            ProgressOperation::Filtering => 2,
            ProgressOperation::Searching => 3,
        }
    }

    /// The text shown for the operation.
    pub fn label(&self) -> (s: String)
        ensures
            s@ == op_label(*self),
    {
        match self {
            ProgressOperation::Filtering => {
                let s = String::from_str("Filtering ...");
                proof {
                    reveal_strlit("Filtering ...");
                }
                s
            },
            ProgressOperation::Searching => {
                let s = String::from_str("Searching ...");
                proof {
                    reveal_strlit("Searching ...");
                }
                s
            },
            ProgressOperation::BufferLoading(path) => match path {
                Some(p) => {
                    let mut s = String::from_str("Loading ");
                    proof {
                        reveal_strlit("Loading ");
                    }
                    let q = quoted(p.as_str());
                    append_text(&mut s, q.as_str());
                    s
                },
                None => {
                    let s = String::from_str("Loading ...");
                    proof {
                        reveal_strlit("Loading ...");
                    }
                    s
                },
            },
            ProgressOperation::BufferSaving(path) => match path {
                Some(p) => {
                    let mut s = String::from_str("Saving ");
                    proof {
                        reveal_strlit("Saving ");
                    }
                    let q = quoted(p.as_str());
                    append_text(&mut s, q.as_str());
                    s
                },
                None => {
                    let s = String::from_str("Saving ...");
                    proof {
                        reveal_strlit("Saving ...");
                    }
                    s
                },
            },
        }
    }
}

/// How far an operation has come.
#[derive(Debug)]
pub struct Progress {
    pub label: String,
    pub current: u64,
    pub max: u64,
}

impl Progress {
    /// An operation that has not started yet.
    pub fn new(label: String, max: u64) -> (p: Self)
        ensures
            p.label@ == label@,
            p.current == 0,
            p.max == max,
    {
        Progress { label, current: 0, max }
    }
}

/// What a progress entry holds: kind of operation, label, current value, maximum.
pub open spec fn entry_view(e: (ProgressOperation, Progress)) -> (int, Seq<char>, u64, u64) {
    (op_kind(e.0), e.1.label@, e.1.current, e.1.max)
}

/// The running operations, at most one of each kind.
#[derive(Debug)]
pub struct ProgressManager {
    progress: Vec<(ProgressOperation, Progress)>,
}

impl ProgressManager {
    /// No two running operations are of the same kind.
    #[verifier::type_invariant]
    pub closed spec fn kinds_unique(&self) -> bool {
        forall|i: int, j: int| 0 <= i < j < self.progress@.len()
            ==> op_kind(#[trigger] self.progress@[i].0) != op_kind(#[trigger] self.progress@[j].0)
    }

    /// The entries, in the order they were added.
    pub closed spec fn entries(&self) -> Seq<(int, Seq<char>, u64, u64)> {
        self.progress@.map_values(|e: (ProgressOperation, Progress)| entry_view(e))
    }

    /// No running operation.
    pub fn new() -> (m: Self)
        ensures
            m.entries() == Seq::<(int, Seq<char>, u64, u64)>::empty(),
            kinds_distinct(m.entries()),
    {
        let m = ProgressManager { progress: Vec::new() };
        assert(m.entries() =~= Seq::<(int, Seq<char>, u64, u64)>::empty());
        proof {
            lemma_distinct_entries(m.progress@);
        }
        m
    }

    /// The index of the entry of the operation's kind.
    fn find(&self, id: &ProgressOperation) -> (r: Option<usize>)
        ensures
            match r {
                Some(k) => k < self.entries().len() && self.entries()[k as int].0 == op_kind(*id),
                None => forall|k: int| 0 <= k < self.entries().len() ==> (#[trigger] self.entries()[k]).0 != op_kind(*id),
            },
    {
        let kind = id.kind();
        let mut k: usize = 0;
        while k < self.progress.len()
            invariant
                k <= self.progress@.len(),
                kind == op_kind(*id),
                forall|m: int| 0 <= m < k ==> op_kind(#[trigger] self.progress@[m].0) != kind,
            decreases self.progress@.len() - k,
        {
            if self.progress[k].0.kind() == kind {
                return Some(k);
            }
            k = k + 1;
        }
        None
    }

    /// Starts (or restarts) an operation: its entry gets the operation's label,
    /// a current value of zero and the given maximum.
    pub fn add(&mut self, id: ProgressOperation, max: u64)
        ensures
            final(self).entries() == added(old(self).entries(), id, max),
            kinds_distinct(final(self).entries()),
    {
        proof {
            use_type_invariant(&*self);
        }
        let label = id.label();
        match self.find(&id) {
            Some(k) => {
                proof {
                    lemma_entry_index(self.entries(), op_kind(id), k as int);
                }
                let mut v: Vec<(ProgressOperation, Progress)> = Vec::new();
                std::mem::swap(&mut v, &mut self.progress);
                v.set(k, (id, Progress::new(label, max)));
                self.progress = v;
                assert(self.entries() =~= old(self).entries().update(k as int, (op_kind(id), op_label(id), 0u64, max)));
            },
            None => {
                proof {
                    lemma_entry_index_none(self.entries(), op_kind(id));
                }
                let ghost es = self.entries();
                let ghost old_v = self.progress@;
                let mut v: Vec<(ProgressOperation, Progress)> = Vec::new();
                std::mem::swap(&mut v, &mut self.progress);
                v.push((id, Progress::new(label, max)));
                proof {
                    assert forall|i: int, j: int| 0 <= i < j < v@.len()
                        implies op_kind(#[trigger] v@[i].0) != op_kind(#[trigger] v@[j].0) by {
                        assert(v@[i] == old_v[i]);
                        if j == v@.len() - 1 {
                            assert(es[i].0 == op_kind(old_v[i].0));
                        } else {
                            assert(v@[j] == old_v[j]);
                        }
                    }
                }
                self.progress = v;
                assert(self.entries() =~= old(self).entries().push((op_kind(id), op_label(id), 0u64, max)));
            },
        }
        proof {
            use_type_invariant(&*self);
            lemma_distinct_entries(self.progress@);
        }
    }
}

impl ProgressManager {
    /// Replaces the entry at `k` by one with the same operation and a new current value.
    fn set_current(&mut self, k: usize, current: u64)
        requires
            k < old(self).entries().len(),
        ensures
            final(self).entries() == old(self).entries().update(k as int,
                (old(self).entries()[k as int].0, old(self).entries()[k as int].1, current, old(self).entries()[k as int].3)),
    {
        proof {
            use_type_invariant(&*self);
        }
        let ghost old_v = self.progress@;
        let mut v: Vec<(ProgressOperation, Progress)> = Vec::new();
        std::mem::swap(&mut v, &mut self.progress);
        let (op, p) = v.remove(k);
        let ghost mid = v@;
        v.insert(k, (op, Progress { label: p.label, current, max: p.max }));
        proof {
            assert forall|i: int| 0 <= i < v@.len() implies #[trigger] v@[i].0 == old_v[i].0 by {
                if i < k {
                    assert(v@[i] == mid[i]);
                } else if i > k {
                    assert(v@[i] == mid[i - 1]);
                }
            }
            assert forall|i: int, j: int| 0 <= i < j < v@.len()
                implies op_kind(#[trigger] v@[i].0) != op_kind(#[trigger] v@[j].0) by {
                assert(v@[i].0 == old_v[i].0);
                assert(v@[j].0 == old_v[j].0);
            }
        }
        self.progress = v;
        assert(self.entries() =~= old(self).entries().update(k as int,
            (old(self).entries()[k as int].0, old(self).entries()[k as int].1, current, old(self).entries()[k as int].3)));
    }

    /// Sets the current value of the operation's entry, if it has one.
    pub fn update(&mut self, id: &ProgressOperation, current: u64)
        ensures
            final(self).entries() == updated(old(self).entries(), op_kind(*id), current),
            kinds_distinct(final(self).entries()),
    {
        proof {
            use_type_invariant(&*self);
        }
        match self.find(id) {
            Some(k) => {
                proof {
                    lemma_entry_index(self.entries(), op_kind(*id), k as int);
                }
                self.set_current(k, current);
            },
            None => {
                proof {
                    lemma_entry_index_none(self.entries(), op_kind(*id));
                }
            },
        }
        proof {
            use_type_invariant(&*self);
            lemma_distinct_entries(self.progress@);
        }
    }

    /// Adds `amount` to the current value of the operation's entry, if it has one.
    pub fn increment(&mut self, id: &ProgressOperation, amount: u64)
        requires
            entry_index(old(self).entries(), op_kind(*id)) matches Some(k)
                ==> old(self).entries()[k].2 + amount <= u64::MAX,
        ensures
            final(self).entries() == match entry_index(old(self).entries(), op_kind(*id)) {
                Some(k) => updated(old(self).entries(), op_kind(*id), (old(self).entries()[k].2 + amount) as u64),
                None => old(self).entries(),
            },
            kinds_distinct(final(self).entries()),
    {
        proof {
            use_type_invariant(&*self);
        }
        match self.find(id) {
            Some(k) => {
                proof {
                    lemma_entry_index(self.entries(), op_kind(*id), k as int);
                }
                let current = self.progress[k].1.current + amount;
                self.set_current(k, current);
            },
            None => {
                proof {
                    lemma_entry_index_none(self.entries(), op_kind(*id));
                }
            },
        }
        proof {
            use_type_invariant(&*self);
            lemma_distinct_entries(self.progress@);
        }
    }

    /// Drops the operation's entry, if it has one.
    pub fn remove(&mut self, id: &ProgressOperation)
        ensures
            final(self).entries() == removed(old(self).entries(), op_kind(*id)),
            kinds_distinct(final(self).entries()),
    {
        proof {
            use_type_invariant(&*self);
        }
        match self.find(id) {
            Some(k) => {
                proof {
                    lemma_entry_index(self.entries(), op_kind(*id), k as int);
                }
                let ghost old_v = self.progress@;
                let mut v: Vec<(ProgressOperation, Progress)> = Vec::new();
                std::mem::swap(&mut v, &mut self.progress);
                let _removed = v.remove(k);
                proof {
                    assert forall|i: int, j: int| 0 <= i < j < v@.len()
                        implies op_kind(#[trigger] v@[i].0) != op_kind(#[trigger] v@[j].0) by {
                        let oi = if i < k { i } else { i + 1 };
                        let oj = if j < k { j } else { j + 1 };
                        assert(v@[i] == old_v[oi]);
                        assert(v@[j] == old_v[oj]);
                    }
                }
                self.progress = v;
                assert(self.entries() =~= old(self).entries().remove(k as int));
            },
            None => {
                proof {
                    lemma_entry_index_none(self.entries(), op_kind(*id));
                }
            },
        }
        proof {
            use_type_invariant(&*self);
            lemma_distinct_entries(self.progress@);
        }
    }

    /// Whether no operation is running.
    pub fn is_empty(&self) -> (b: bool)
        ensures
            b == (self.entries().len() == 0),
    {
        self.progress.len() == 0
    }

    /// The number of running operations.
    pub fn len(&self) -> (n: usize)
        ensures
            n == self.entries().len(),
    {
        self.progress.len()
    }

    /// The running operations with their progress, in the order they were added.
    pub fn iter(&self) -> (v: &Vec<(ProgressOperation, Progress)>)
        ensures
            v@.map_values(|e: (ProgressOperation, Progress)| entry_view(e)) == self.entries(),
    {
        &self.progress
    }
}

proof fn lemma_distinct_entries(v: Seq<(ProgressOperation, Progress)>)
    requires
        forall|i: int, j: int| 0 <= i < j < v.len() ==> op_kind(#[trigger] v[i].0) != op_kind(#[trigger] v[j].0),
    ensures
        kinds_distinct(v.map_values(|e: (ProgressOperation, Progress)| entry_view(e))),
{
    let es = v.map_values(|e: (ProgressOperation, Progress)| entry_view(e));
    assert forall|i: int, j: int| 0 <= i < j < es.len() implies (#[trigger] es[i]).0 != (#[trigger] es[j]).0 by {
        assert(es[i].0 == op_kind(v[i].0));
        assert(es[j].0 == op_kind(v[j].0));
    }
}

/// A manager whose invariant holds (every manager the program holds, by
/// `use_type_invariant`) has entries of distinct kinds.
pub proof fn lemma_entries_distinct(m: &ProgressManager)
    requires
        m.kinds_unique(),
    ensures
        kinds_distinct(m.entries()),
{
    lemma_distinct_entries(m.progress@);
}

/// No two entries are of the same kind.
pub open spec fn kinds_distinct(entries: Seq<(int, Seq<char>, u64, u64)>) -> bool {
    forall|i: int, j: int| 0 <= i < j < entries.len() ==> (#[trigger] entries[i]).0 != (#[trigger] entries[j]).0
}

/// The entries after starting an operation.
pub open spec fn added(entries: Seq<(int, Seq<char>, u64, u64)>, id: ProgressOperation, max: u64) -> Seq<(int, Seq<char>, u64, u64)> {
    let e = (op_kind(id), op_label(id), 0u64, max);
    match entry_index(entries, op_kind(id)) {
        Some(k) => entries.update(k, e),
        None => entries.push(e),
    }
}

/// The entries after setting the current value of the entry of a kind.
pub open spec fn updated(entries: Seq<(int, Seq<char>, u64, u64)>, kind: int, current: u64) -> Seq<(int, Seq<char>, u64, u64)> {
    match entry_index(entries, kind) {
        Some(k) => entries.update(k, (entries[k].0, entries[k].1, current, entries[k].3)),
        None => entries,
    }
}

/// The entries after dropping the entry of a kind.
pub open spec fn removed(entries: Seq<(int, Seq<char>, u64, u64)>, kind: int) -> Seq<(int, Seq<char>, u64, u64)> {
    match entry_index(entries, kind) {
        Some(k) => entries.remove(k),
        None => entries,
    }
}

/// Where the entry of a kind stands among the entries, if any.
pub open spec fn entry_index(entries: Seq<(int, Seq<char>, u64, u64)>, kind: int) -> Option<int> {
    if exists|k: int| 0 <= k < entries.len() && (#[trigger] entries[k]).0 == kind {
        Some(choose|k: int| 0 <= k < entries.len() && (#[trigger] entries[k]).0 == kind)
    } else {
        None
    }
}

proof fn lemma_entry_index(entries: Seq<(int, Seq<char>, u64, u64)>, kind: int, k: int)
    requires
        0 <= k < entries.len(),
        entries[k].0 == kind,
        forall|i: int, j: int| 0 <= i < j < entries.len() ==> (#[trigger] entries[i]).0 != (#[trigger] entries[j]).0,
    ensures
        entry_index(entries, kind) == Some(k),
{
    let c = choose|c: int| 0 <= c < entries.len() && (#[trigger] entries[c]).0 == kind;
    if c < k {
        assert(entries[c].0 != entries[k].0);
    } else if c > k {
        assert(entries[k].0 != entries[c].0);
    }
}

proof fn lemma_entry_index_none(entries: Seq<(int, Seq<char>, u64, u64)>, kind: int)
    requires
        forall|k: int| 0 <= k < entries.len() ==> (#[trigger] entries[k]).0 != kind,
    ensures
        entry_index(entries, kind) is None,
{
}

/// The view that shows the running operations.
#[derive(Debug)]
pub struct ProgressManagerPanel<'a> {
    progress_manager: &'a ProgressManager,
}

impl<'a> ProgressManagerPanel<'a> {
    pub closed spec fn shown(&self) -> Seq<(int, Seq<char>, u64, u64)> {
        self.progress_manager.entries()
    }

    /// A view of the given operations.
    pub fn new(progress_manager: &'a ProgressManager) -> (p: Self)
        ensures
            p.shown() == progress_manager.entries(),
    {
        ProgressManagerPanel { progress_manager }
    }

    /// The operations shown.
    pub fn progress_manager(&self) -> (m: &'a ProgressManager)
        ensures
            m.entries() == self.shown(),
    {
        self.progress_manager
    }
}

/// Starting an operation leaves exactly one entry of its kind, fresh: its
/// label, a current value of zero and the given maximum.
pub proof fn law_started_operation_is_fresh(entries: Seq<(int, Seq<char>, u64, u64)>, id: ProgressOperation, max: u64)
    requires
        kinds_distinct(entries),
    ensures
        kinds_distinct(added(entries, id, max)),
        entry_index(added(entries, id, max), op_kind(id)) matches Some(k)
            && added(entries, id, max)[k] == (op_kind(id), op_label(id), 0u64, max),
{
    let after = added(entries, id, max);
    let e = (op_kind(id), op_label(id), 0u64, max);
    match entry_index(entries, op_kind(id)) {
        Some(k) => {
            assert(entries[k].0 == op_kind(id));
            assert forall|i: int, j: int| 0 <= i < j < after.len() implies (#[trigger] after[i]).0 != (#[trigger] after[j]).0 by {
                assert(after[i].0 == entries[i].0);
                assert(after[j].0 == entries[j].0);
            }
            lemma_entry_index(after, op_kind(id), k);
        },
        None => {
            assert forall|i: int, j: int| 0 <= i < j < after.len() implies (#[trigger] after[i]).0 != (#[trigger] after[j]).0 by {
                assert(after[i] == entries[i]);
                if j < entries.len() {
                    assert(after[j] == entries[j]);
                }
            }
            lemma_entry_index(after, op_kind(id), entries.len() as int);
        },
    }
}

/// After an operation finishes, no entry of its kind is left.
pub proof fn law_finished_operation_is_gone(entries: Seq<(int, Seq<char>, u64, u64)>, kind: int)
    requires
        kinds_distinct(entries),
    ensures
        entry_index(removed(entries, kind), kind) is None,
        kinds_distinct(removed(entries, kind)),
{
    let after = removed(entries, kind);
    match entry_index(entries, kind) {
        Some(k) => {
            assert(entries[k].0 == kind);
            assert forall|i: int| 0 <= i < after.len() implies (#[trigger] after[i]).0 != kind by {
                if i < k {
                    assert(after[i] == entries[i]);
                } else {
                    assert(after[i] == entries[i + 1]);
                }
            }
            assert forall|i: int, j: int| 0 <= i < j < after.len() implies (#[trigger] after[i]).0 != (#[trigger] after[j]).0 by {
                let oi = if i < k { i } else { i + 1 };
                let oj = if j < k { j } else { j + 1 };
                assert(after[i] == entries[oi]);
                assert(after[j] == entries[oj]);
            }
        },
        None => {
            assert forall|i: int| 0 <= i < after.len() implies (#[trigger] after[i]).0 != kind by {
                if after[i].0 == kind {
                    assert(entries[i].0 == kind);
                }
            }
        },
    }
}

} // verus!
