//! Per-window registry of `driver_id`-annotated elements.
//!
//! Records are collected only while a "collection draw" is in progress: a caller runs
//! [`Registry::begin_collect`], forces a full redraw, and then [`Registry::end_collect`].
//! Parent/child structure is recovered from prepaint nesting: children prepaint inside
//! their parent's prepaint, so a per-window stack of in-flight records gives each new
//! record its parent index.

use std::collections::HashMap;
use vstd::prelude::*;
use crate::tree::{NodeRecord, RecordView, records_view, parents_precede, clone_records};
use crate::nesting::{nested, reaches, lemma_reaches_push, lemma_reaches_trans};

verus! {

broadcast use vstd::std_specs::hash::group_hash_axioms;

/// Collection state of one window.
pub struct WindowNodes<B> {
    collecting: bool,
    records: Vec<NodeRecord<B>>,
    stack: Vec<usize>,
}

/// Registry of all windows' collected records.
pub struct Registry<B> {
    windows: HashMap<u64, WindowNodes<B>>,
}

/// Mathematical value of one window's collection state.
pub struct WindowState<B> {
    pub collecting: bool,
    pub records: Seq<RecordView<B>>,
    /// Indices of the records whose prepaint is in flight, innermost last.
    pub stack: Seq<usize>,
}

/// The state of a window that was never touched.
pub open spec fn idle_window<B>() -> WindowState<B> {
    WindowState { collecting: false, records: Seq::empty(), stack: Seq::empty() }
}

/// Every parent precedes its child and nests as prepaint does; the in-flight records
/// form a chain from a root down to an ancestor-or-self of the latest record.
pub open spec fn window_wf<B>(w: WindowState<B>) -> bool {
    &&& parents_precede(w.records)
    &&& nested(w.records)
    &&& w.records.len() <= usize::MAX
    &&& forall|k: int| 0 <= k < w.stack.len() ==> #[trigger] w.stack[k] < w.records.len()
    &&& forall|k: int|
        0 <= k < w.stack.len() ==> w.records[#[trigger] w.stack[k] as int].parent == if k == 0 {
            None
        } else {
            Some(w.stack[k - 1])
        }
    &&& w.stack.len() > 0 ==> reaches(w.records, w.records.len() - 1, w.stack.last() as int)
}

/// The state after recording `rv` while collecting: `rv` becomes the innermost
/// in-flight record.
pub open spec fn entered<B>(w: WindowState<B>, rv: RecordView<B>) -> WindowState<B> {
    WindowState {
        collecting: true,
        records: w.records.push(RecordView {
            parent: if w.stack.len() == 0 { None } else { Some(w.stack.last()) },
            ..rv
        }),
        stack: w.stack.push(w.records.len() as usize),
    }
}

/// The state after the innermost in-flight record's prepaint returns.
pub open spec fn exited<B>(w: WindowState<B>) -> WindowState<B> {
    WindowState { stack: if w.stack.len() == 0 { w.stack } else { w.stack.drop_last() }, ..w }
}

proof fn lemma_entered_wf<B>(w: WindowState<B>, rv: RecordView<B>)
    requires
        window_wf(w),
        w.records.len() < usize::MAX,
    ensures
        window_wf(entered(w, rv)),
{
    let nw = entered(w, rv);
    let n = w.records.len() as int;
    let x = nw.records[n];
    assert(nw.records == w.records.push(x));
    assert forall|i: int| 0 <= i < nw.records.len() implies match #[trigger] nw.records[i].parent {
        Some(p) => p < i,
        None => true,
    } by {
        if i < n {
            assert(nw.records[i] == w.records[i]);
        } else if w.stack.len() > 0 {
            assert(w.stack[w.stack.len() - 1] < w.records.len());
        }
    }
    assert forall|j: int| 0 <= j < nw.records.len() implies match #[trigger] nw.records[j].parent {
        Some(p) => j > 0 && reaches(nw.records, j - 1, p as int),
        None => true,
    } by {
        if j < n {
            assert(nw.records[j] == w.records[j]);
            if let Some(p) = w.records[j].parent {
                lemma_reaches_push(w.records, x, j - 1, p as int);
            }
        } else if w.stack.len() > 0 {
            let t = w.stack.last();
            assert(w.stack[w.stack.len() - 1] < w.records.len());
            lemma_reaches_push(w.records, x, n - 1, t as int);
        }
    }
    assert forall|k: int| 0 <= k < nw.stack.len() implies #[trigger] nw.stack[k] < nw.records.len() by {
        if k < w.stack.len() {
            assert(w.stack[k] < w.records.len());
        }
    }
    assert forall|k: int| 0 <= k < nw.stack.len() implies nw.records[#[trigger] nw.stack[k] as int].parent == if k == 0 {
        None
    } else {
        Some(nw.stack[k - 1])
    } by {
        if k < w.stack.len() {
            assert(w.stack[k] < w.records.len());
            assert(nw.records[w.stack[k] as int] == w.records[w.stack[k] as int]);
        }
    }
    assert(reaches(nw.records, n, n));
}

proof fn lemma_exited_wf<B>(w: WindowState<B>)
    requires
        window_wf(w),
    ensures
        window_wf(exited(w)),
{
    let nw = exited(w);
    if w.stack.len() > 0 {
        assert forall|k: int| 0 <= k < nw.stack.len() implies #[trigger] nw.stack[k] < nw.records.len() by {
            assert(w.stack[k] < w.records.len());
        }
        assert forall|k: int| 0 <= k < nw.stack.len() implies nw.records[#[trigger] nw.stack[k] as int].parent == if k == 0 {
            None
        } else {
            Some(nw.stack[k - 1])
        } by {
            assert(nw.stack[k] == w.stack[k]);
        }
        if nw.stack.len() > 0 {
            let top = w.stack.last() as int;
            let below = nw.stack.last() as int;
            let k = w.stack.len() - 1;
            assert(w.stack[k] < w.records.len());
            assert(w.records[w.stack[k] as int].parent == Some(w.stack[k - 1]));
            assert(w.stack[k - 1] < w.records.len());
            assert(reaches(w.records, below, below));
            assert(reaches(w.records, top, below));
            lemma_reaches_trans(w.records, w.records.len() - 1, top, below);
        }
    }
}

impl<B> WindowNodes<B> {
    spec fn state(self) -> WindowState<B> {
        WindowState { collecting: self.collecting, records: records_view(self.records@), stack: self.stack@ }
    }

    fn idle() -> (w: Self)
        ensures
            w.state() == idle_window::<B>(),
    {
        let w = WindowNodes { collecting: false, records: Vec::new(), stack: Vec::new() };
        assert(records_view(w.records@) =~= Seq::<RecordView<B>>::empty());
        w
    }
}

impl<B> Registry<B> {
    /// The collection state of window `id` (the idle state if it was never touched).
    pub closed spec fn window(self, id: u64) -> WindowState<B> {
        if self.windows@.contains_key(id) {
            self.windows@[id].state()
        } else {
            idle_window()
        }
    }

    /// Every window's state is well formed.
    pub open spec fn wf(self) -> bool {
        forall|id: u64| window_wf(#[trigger] self.window(id))
    }

    /// The registry is always well formed.
    #[verifier::type_invariant]
    closed spec fn registry_inv(self) -> bool {
        self.wf()
    }
}

impl<B: Copy> Registry<B> {
    /// An empty registry.
    pub fn new() -> (r: Self)
        ensures
            r.wf(),
            forall|id: u64| #[trigger] r.window(id) == idle_window::<B>(),
    {
        let r = Registry { windows: HashMap::new() };
        assert forall|id: u64| window_wf(#[trigger] r.window(id)) by {
            assert(records_view(Seq::<NodeRecord<B>>::empty()) =~= Seq::<RecordView<B>>::empty());
        }
        r
    }

    /// Replaces window `id`'s state by `w`, returning the previous state (idle if
    /// absent).
    fn swap_window(&mut self, id: u64, w: WindowNodes<B>) -> (prev: WindowNodes<B>)
        requires
            window_wf(w.state()),
        ensures
            prev.state() == old(self).window(id),
            final(self).window(id) == w.state(),
            forall|other: u64| other != id ==> #[trigger] final(self).window(other) == old(self).window(other),
    {
        proof {
            use_type_invariant(&*self);
        }
        let ghost before = *self;
        let mut map = HashMap::new();
        std::mem::swap(&mut map, &mut self.windows);
        let prev = match map.remove(&id) {
            Some(p) => p,
            None => WindowNodes::idle(),
        };
        map.insert(id, w);
        proof {
            assert forall|other: u64| window_wf(#[trigger] (Registry { windows: map }).window(other)) by {
                if other != id {
                    assert((Registry { windows: map }).window(other) == before.window(other));
                }
            }
        }
        self.windows = map;
        assert forall|other: u64| other != id implies #[trigger] self.window(other) == before.window(other) by {}
        prev
    }

    /// Starts collecting for a window, clearing its previous records.
    pub fn begin_collect(&mut self, window_id: u64)
        ensures
            final(self).window(window_id) == (WindowState::<B> {
                collecting: true,
                records: Seq::empty(),
                stack: Seq::empty(),
            }),
            forall|id: u64| id != window_id ==> #[trigger] final(self).window(id) == old(self).window(id),
    {
        let mut w = WindowNodes::idle();
        w.collecting = true;
        let _ = self.swap_window(window_id, w);
    }

    /// Stops collecting for a window and returns everything recorded since
    /// `begin_collect`. The records stay until the next `begin_collect`.
    pub fn end_collect(&mut self, window_id: u64) -> (records: Vec<NodeRecord<B>>)
        ensures
            records_view(records@) == old(self).window(window_id).records,
            parents_precede(records_view(records@)),
            nested(records_view(records@)),
            final(self).window(window_id) == (WindowState::<B> {
                collecting: false,
                records: old(self).window(window_id).records,
                stack: Seq::empty(),
            }),
            forall|id: u64| id != window_id ==> #[trigger] final(self).window(id) == old(self).window(id),
    {
        proof {
            use_type_invariant(&*self);
            assert(window_wf(old(self).window(window_id)));
        }
        let mut w = self.swap_window(window_id, WindowNodes::idle());
        w.collecting = false;
        w.stack.clear();
        let records = clone_records(&w.records);
        let _ = self.swap_window(window_id, w);
        records
    }

    /// Whether window `id` is collecting.
    pub fn is_collecting(&self, window_id: u64) -> (b: bool)
        ensures
            b == self.window(window_id).collecting,
    {
        match self.windows.get(&window_id) {
            Some(w) => w.collecting,
            None => false,
        }
    }

    /// Records a node and pushes it onto the nesting stack; its parent is the
    /// innermost in-flight record. Returns the record's index, or `None` (recording
    /// nothing) when the window is not collecting.
    pub fn enter(&mut self, window_id: u64, record: NodeRecord<B>) -> (index: Option<usize>)
        ensures
            ({
                let w = old(self).window(window_id);
                if w.collecting {
                    &&& index == Some(w.records.len() as usize)
                    &&& final(self).window(window_id) == entered(w, record@)
                } else {
                    &&& index is None
                    &&& final(self).window(window_id) == w
                }
            }),
            forall|id: u64| id != window_id ==> #[trigger] final(self).window(id) == old(self).window(id),
    {
        proof {
            use_type_invariant(&*self);
            assert(window_wf(old(self).window(window_id)));
        }
        if !self.is_collecting(window_id) {
            return None;
        }
        let ghost w0 = old(self).window(window_id);
        let mut record = record;
        let ghost rv = record@;
        let mut w = self.swap_window(window_id, WindowNodes::idle());
        record.parent = if w.stack.len() == 0 { None } else { Some(w.stack[w.stack.len() - 1]) };
        let index = w.records.len();
        w.records.push(record);
        let filled = w.records.len();
        w.stack.push(index);
        proof {
            assert(filled == w0.records.len() + 1);
            assert(records_view(w.records@) =~= entered(w0, rv).records);
            assert(w.state() =~= entered(w0, rv));
            lemma_entered_wf(w0, rv);
        }
        let _ = self.swap_window(window_id, w);
        Some(index)
    }

    /// Pops the nesting stack of a window. Call after the wrapped element's prepaint
    /// returns, only if `enter` returned `Some`.
    pub fn exit(&mut self, window_id: u64)
        ensures
            final(self).window(window_id) == exited(old(self).window(window_id)),
            forall|id: u64| id != window_id ==> #[trigger] final(self).window(id) == old(self).window(id),
    {
        proof {
            use_type_invariant(&*self);
            assert(window_wf(old(self).window(window_id)));
        }
        if self.windows.contains_key(&window_id) {
            let ghost w0 = old(self).window(window_id);
            let mut w = self.swap_window(window_id, WindowNodes::idle());
            w.stack.pop();
            proof {
                lemma_exited_wf(w0);
                assert(w.state() =~= exited(w0));
            }
            let _ = self.swap_window(window_id, w);
        }
    }
}

} // verus!
