//! A mark-and-sweep garbage collector over a heap of traced objects.
//!
//! The heap is a table of slots. An object stays alive while a `Rooted`
//! refers to it (its root count is positive) or while it can be reached from
//! such an object through the `Handle`s that objects hold. A collection frees
//! exactly the objects that cannot be reached, cycles among them included.

use vstd::prelude::*;

verus! {

/// A reference to a heap object that does not keep it alive: objects refer
/// to each other through handles.
#[derive(Copy, Clone, PartialEq, Eq, Debug, Structural)]
pub struct Handle {
    pub slot: usize,
}

/// The tracer's state during marking, as the contracts see it: the color of
/// marked objects, the handles still to visit, each slot's color, and which
/// slots hold an object.
pub struct TracerV {
    pub traced: bool,
    pub worklist: Seq<Handle>,
    pub colors: Seq<bool>,
    pub live: Seq<bool>,
}

/// Tracing one handle: it is queued unless its object already has the
/// tracer's color.
pub open spec fn trace_one(t: TracerV, h: Handle) -> TracerV {
    if t.colors[h.slot as int] != t.traced {
        TracerV { traced: t.traced, worklist: t.worklist.push(h), colors: t.colors, live: t.live }
    } else {
        t
    }
}

/// Tracing handles one after the other.
pub open spec fn trace_all(t: TracerV, hs: Seq<Handle>) -> TracerV
    decreases hs.len(),
{
    if hs.len() == 0 {
        t
    } else {
        trace_one(trace_all(t, hs.drop_last()), hs.last())
    }
}

/// Whether every handle of `hs` names a slot the tracer has a color for and
/// that holds an object: tracing a handle to a freed object is a use after
/// free.
pub open spec fn traceable(t: TracerV, hs: Seq<Handle>) -> bool {
    forall|i: int|
        0 <= i < hs.len() ==> (#[trigger] hs[i]).slot < t.colors.len() && hs[i].slot
            < t.live.len() && t.live[hs[i].slot as int]
}

/// Which slots of the heap hold an object.
pub open spec fn live_slots<T>(h: HeapV<T>) -> Seq<bool> {
    Seq::new(h.objs.len(), |i: int| h.objs[i] is Some)
}

/// Collects, during marking, the handles of the objects being marked.
pub struct Tracer {
    traced: bool,
    worklist: Vec<Handle>,
    colors: Vec<bool>,
    live: Ghost<Seq<bool>>,
}

impl View for Tracer {
    type V = TracerV;

    closed spec fn view(&self) -> TracerV {
        TracerV { traced: self.traced, worklist: self.worklist@, colors: self.colors@, live: self.live@ }
    }
}

/// A value that can live on the heap: it reports the handles it holds.
pub trait Trace {
    /// The handles this value holds, in the order it reports them.
    spec fn handles(&self) -> Seq<Handle>;

    /// Traces every handle this value holds with `tracer.trace_handle`.
    fn trace(&self, tracer: &mut Tracer)
        requires
            traceable(old(tracer)@, self.handles()),
        ensures
            final(tracer)@ == trace_all(old(tracer)@, self.handles()),
    ;
}

impl Tracer {
    /// Enqueues the object behind `handle` for marking, unless it is
    /// already marked.
    pub fn trace_handle(&mut self, handle: Handle)
        requires
            handle.slot < old(self)@.colors.len(),
            handle.slot < old(self)@.live.len(),
            old(self)@.live[handle.slot as int],
        ensures
            final(self)@ == trace_one(old(self)@, handle),
    {
        let traced = self.colors[handle.slot] == self.traced;
        if !traced {
            self.worklist.push(handle);
        }
    }
}

/// Tracing keeps the color and the colors, keeps what was queued, queues
/// only handles it was given, and leaves each of them either marked or
/// queued.
pub proof fn lemma_trace_all(t: TracerV, hs: Seq<Handle>)
    requires
        traceable(t, hs),
    ensures
        trace_all(t, hs).traced == t.traced,
        trace_all(t, hs).colors == t.colors,
        trace_all(t, hs).live == t.live,
        trace_all(t, hs).worklist.len() >= t.worklist.len(),
        forall|k: int|
            0 <= k < t.worklist.len() ==> #[trigger] trace_all(t, hs).worklist[k] == t.worklist[k],
        forall|k: int|
            t.worklist.len() <= k < trace_all(t, hs).worklist.len() ==> hs.contains(
                #[trigger] trace_all(t, hs).worklist[k],
            ),
        forall|j: int|
            0 <= j < hs.len() ==> t.colors[(#[trigger] hs[j]).slot as int] == t.traced
                || trace_all(t, hs).worklist.contains(hs[j]),
    decreases hs.len(),
{
    if hs.len() > 0 {
        let hd = hs.drop_last();
        assert forall|i: int| 0 <= i < hd.len() implies (#[trigger] hd[i]).slot < t.colors.len()
            && hd[i].slot < t.live.len() && t.live[hd[i].slot as int] by {
            assert(hd[i] == hs[i]);
        }
        lemma_trace_all(t, hd);
        let u = trace_all(t, hd);
        let v = trace_all(t, hs);
        let h = hs.last();
        assert(hs[hs.len() - 1] == h);
        assert forall|k: int|
            t.worklist.len() <= k < v.worklist.len() implies hs.contains(
            #[trigger] v.worklist[k],
        ) by {
            if k < u.worklist.len() {
                assert(v.worklist[k] == u.worklist[k]);
                assert(hd.contains(u.worklist[k]));
                let j = choose|j: int| 0 <= j < hd.len() && hd[j] == u.worklist[k];
                assert(hs[j] == hd[j]);
            } else {
                assert(v.worklist[k] == h);
                assert(hs[hs.len() - 1] == h);
            }
        }
        assert forall|j: int|
            0 <= j < hs.len() implies t.colors[(#[trigger] hs[j]).slot as int] == t.traced
                || v.worklist.contains(hs[j]) by {
            if j < hs.len() - 1 {
                assert(hs[j] == hd[j]);
                if t.colors[hd[j].slot as int] != t.traced {
                    assert(u.worklist.contains(hd[j]));
                    let k = choose|k: int| 0 <= k < u.worklist.len() && u.worklist[k] == hd[j];
                    assert(v.worklist[k] == u.worklist[k]);
                }
            } else {
                if t.colors[h.slot as int] != t.traced {
                    assert(v.worklist[v.worklist.len() - 1] == h);
                }
            }
        }
    }
}

/// A heap object as the contracts see it: its value and how many `Rooted`
/// refer to it.
pub struct HeapObj<T> {
    pub object: T,
    pub roots: nat,
}

/// The collector as the contracts see it: each slot empty or holding an
/// object, the color marking gives, and the heap size at which allocation
/// next collects.
pub struct HeapV<T> {
    pub objs: Seq<Option<HeapObj<T>>>,
    pub traced_color: bool,
    pub next_gc: nat,
}

/// The number of objects in the slots.
pub open spec fn count_live<T>(objs: Seq<Option<HeapObj<T>>>) -> nat
    decreases objs.len(),
{
    if objs.len() == 0 {
        0
    } else {
        count_live(objs.drop_last()) + if objs.last() is Some {
            1nat
        } else {
            0nat
        }
    }
}

impl<T: Trace> HeapV<T> {
    /// Whether slot `s` holds an object.
    pub open spec fn live(self, s: int) -> bool {
        0 <= s < self.objs.len() && self.objs[s] is Some
    }

    /// The object in slot `s`.
    pub open spec fn value(self, s: int) -> T {
        self.objs[s].unwrap().object
    }

    /// Whether a `Rooted` refers to the object in slot `s`.
    pub open spec fn rooted(self, s: int) -> bool {
        self.live(s) && self.objs[s].unwrap().roots > 0
    }

    /// Whether the object in slot `a` holds a handle to slot `b`.
    pub open spec fn edge(self, a: int, b: int) -> bool {
        self.live(a) && exists|j: int|
            0 <= j < self.value(a).handles().len() && (#[trigger] self.value(a).handles()[j]).slot
                == b
    }

    /// A path from a rooted object along handles, through objects only.
    pub open spec fn is_path(self, p: Seq<int>) -> bool {
        &&& p.len() > 0
        &&& self.rooted(p[0])
        &&& forall|i: int| 0 <= i < p.len() ==> self.live(#[trigger] p[i])
        &&& forall|i: int| 0 <= i < p.len() - 1 ==> #[trigger] self.edge(p[i], p[i + 1])
    }

    /// Whether the object in slot `s` can be reached from a rooted object.
    pub open spec fn reachable(self, s: int) -> bool {
        exists|p: Seq<int>| #[trigger] self.is_path(p) && p.last() == s
    }

    /// A walk along handles, through objects only.
    pub open spec fn is_walk(self, p: Seq<int>) -> bool {
        &&& p.len() > 0
        &&& forall|i: int| 0 <= i < p.len() ==> self.live(#[trigger] p[i])
        &&& forall|i: int| 0 <= i < p.len() - 1 ==> #[trigger] self.edge(p[i], p[i + 1])
    }

    /// Whether the object in slot `s` can be reached, along handles, from
    /// an object that a handle of `ws` names.
    pub open spec fn reaches_from(self, ws: Seq<Handle>, s: int) -> bool {
        exists|p: Seq<int>, k: int|
            #![trigger self.is_walk(p), ws[k]]
            self.is_walk(p) && 0 <= k < ws.len() && p[0] == ws[k].slot as int && p.last() == s
    }

    /// Whether every handle of `hs` names a slot holding an object.
    pub open spec fn handles_live(self, hs: Seq<Handle>) -> bool {
        forall|i: int| 0 <= i < hs.len() ==> self.live((#[trigger] hs[i]).slot as int)
    }

    /// Whether the handles of every object name slots holding objects.
    pub open spec fn closed(self) -> bool {
        forall|s: int| #[trigger] self.live(s) ==> self.handles_live(self.value(s).handles())
    }

    /// The number of objects on the heap.
    pub open spec fn size(self) -> nat {
        count_live(self.objs)
    }
}

/// Whether every slot of `set` holds an object that is rooted or that an
/// object of `set` holds a handle to. Freeing, again and again, objects that
/// are neither rooted nor named by a handle never frees one of them.
pub open spec fn self_supported<T: Trace>(h: HeapV<T>, set: Set<int>) -> bool {
    forall|s: int| #[trigger] set.contains(s) ==> h.live(s) && (h.rooted(s) || exists|x: int|
        set.contains(x) && h.edge(x, s))
}

/// A rooted object, reached through a path, reaches along its handles.
pub proof fn lemma_reach_step<T: Trace>(h: HeapV<T>, a: int, b: int)
    requires
        h.reachable(a),
        h.edge(a, b),
        h.live(b),
    ensures
        h.reachable(b),
{
    let p = choose|p: Seq<int>| #[trigger] h.is_path(p) && p.last() == a;
    let q = p.push(b);
    assert forall|i: int| 0 <= i < q.len() implies h.live(#[trigger] q[i]) by {
        if i < p.len() {
            assert(q[i] == p[i]);
        }
    }
    assert forall|i: int| 0 <= i < q.len() - 1 implies #[trigger] h.edge(q[i], q[i + 1]) by {
        assert(q[i] == p[i]);
        if i < p.len() - 1 {
            assert(q[i + 1] == p[i + 1]);
        }
    }
    assert(h.is_path(q));
}

/// A reachable slot holds an object.
pub proof fn lemma_reachable_live<T: Trace>(h: HeapV<T>, s: int)
    requires
        h.reachable(s),
    ensures
        h.live(s),
{
    let p = choose|p: Seq<int>| #[trigger] h.is_path(p) && p.last() == s;
    assert(h.live(p[p.len() - 1]));
}

/// A rooted object is reachable.
pub proof fn lemma_rooted_reachable<T: Trace>(h: HeapV<T>, s: int)
    requires
        h.rooted(s),
    ensures
        h.reachable(s),
{
    let p = seq![s];
    assert(h.is_path(p));
}

/// An object a handle of `ws` names is reached from `ws`.
pub proof fn lemma_handle_reaches<T: Trace>(h: HeapV<T>, ws: Seq<Handle>, k: int)
    requires
        0 <= k < ws.len(),
        h.live(ws[k].slot as int),
    ensures
        h.reaches_from(ws, ws[k].slot as int),
{
    let p = seq![ws[k].slot as int];
    assert(h.is_walk(p));
}

/// What is reached from `ws` reaches along its handles.
pub proof fn lemma_walk_step<T: Trace>(h: HeapV<T>, ws: Seq<Handle>, a: int, b: int)
    requires
        h.reaches_from(ws, a),
        h.edge(a, b),
        h.live(b),
    ensures
        h.reaches_from(ws, b),
{
    let (p, k) = choose|p: Seq<int>, k: int|
        #![trigger h.is_walk(p), ws[k]]
        h.is_walk(p) && 0 <= k < ws.len() && p[0] == ws[k].slot as int && p.last() == a;
    let q = p.push(b);
    assert forall|i: int| 0 <= i < q.len() implies h.live(#[trigger] q[i]) by {
        if i < p.len() {
            assert(q[i] == p[i]);
        }
    }
    assert forall|i: int| 0 <= i < q.len() - 1 implies #[trigger] h.edge(q[i], q[i + 1]) by {
        assert(q[i] == p[i]);
        if i < p.len() - 1 {
            assert(q[i + 1] == p[i + 1]);
        }
    }
    assert(q[0] == p[0]);
    assert(h.is_walk(q));
    assert(ws[k] == ws[k]);
}

/// A set of slots that holds the objects `ws` names and is closed along
/// handles holds every object reached from `ws`.
pub proof fn lemma_closed_set_holds_reached<T: Trace>(
    h: HeapV<T>,
    ws: Seq<Handle>,
    m: spec_fn(int) -> bool,
    s: int,
)
    requires
        forall|k: int| 0 <= k < ws.len() ==> m((#[trigger] ws[k]).slot as int),
        forall|x: int, y: int| m(x) && #[trigger] h.edge(x, y) ==> m(y),
        h.reaches_from(ws, s),
    ensures
        m(s),
{
    let (p, k) = choose|p: Seq<int>, k: int|
        #![trigger h.is_walk(p), ws[k]]
        h.is_walk(p) && 0 <= k < ws.len() && p[0] == ws[k].slot as int && p.last() == s;
    assert(m(ws[k].slot as int));
    lemma_walk_in_set(h, m, p, p.len() - 1);
}

proof fn lemma_walk_in_set<T: Trace>(h: HeapV<T>, m: spec_fn(int) -> bool, p: Seq<int>, i: int)
    requires
        m(p[0]),
        forall|x: int, y: int| m(x) && #[trigger] h.edge(x, y) ==> m(y),
        h.is_walk(p),
        0 <= i < p.len(),
    ensures
        m(p[i]),
    decreases i,
{
    if i > 0 {
        lemma_walk_in_set(h, m, p, i - 1);
        let j = i - 1;
        assert(h.edge(p[j], p[j + 1]));
    }
}

/// From handles to exactly the rooted objects, what is reached is what is
/// reachable.
pub proof fn lemma_roots_reach<T: Trace>(h: HeapV<T>, ws: Seq<Handle>, s: int)
    requires
        h.objs.len() <= usize::MAX,
        forall|k: int| 0 <= k < ws.len() ==> h.rooted((#[trigger] ws[k]).slot as int),
        forall|x: int| #[trigger] h.rooted(x) ==> ws.contains(Handle { slot: x as usize }),
    ensures
        h.reaches_from(ws, s) <==> h.reachable(s),
{
    if h.reaches_from(ws, s) {
        let (p, k) = choose|p: Seq<int>, k: int|
            #![trigger h.is_walk(p), ws[k]]
            h.is_walk(p) && 0 <= k < ws.len() && p[0] == ws[k].slot as int && p.last() == s;
        assert(h.rooted(ws[k].slot as int));
        assert(h.is_path(p));
    }
    if h.reachable(s) {
        let p = choose|p: Seq<int>| #[trigger] h.is_path(p) && p.last() == s;
        assert(h.rooted(p[0]));
        assert(h.is_walk(p));
        assert(h.live(p[0]));
        assert((p[0] as usize) as int == p[0]);
        assert(ws.contains(Handle { slot: p[0] as usize }));
        let k = choose|k: int| 0 <= k < ws.len() && ws[k] == Handle { slot: p[0] as usize };
        assert(h.is_walk(p) && 0 <= k < ws.len() && p[0] == ws[k].slot as int && p.last() == s);
    }
}

/// The number of objects marked in `colors` with `c` is at most the number
/// of objects, and marking one more object raises it by one.
proof fn lemma_count_unmarked_update<T>(
    objs: Seq<Option<HeapObj<T>>>,
    colors: Seq<bool>,
    c: bool,
    k: int,
)
    requires
        colors.len() == objs.len(),
        0 <= k < objs.len(),
        objs[k] is Some,
        colors[k] != c,
    ensures
        count_unmarked(objs, colors.update(k, c), c) + 1 == count_unmarked(objs, colors, c),
    decreases objs.len(),
{
    let n = objs.len();
    if k < n - 1 {
        lemma_count_unmarked_update(objs.drop_last(), colors.drop_last(), c, k);
        assert(colors.update(k, c).drop_last() =~= colors.drop_last().update(k, c));
    } else {
        assert(colors.update(k, c).drop_last() =~= colors.drop_last());
    }
}

/// The number of objects whose color is not `c`.
pub open spec fn count_unmarked<T>(objs: Seq<Option<HeapObj<T>>>, colors: Seq<bool>, c: bool) -> nat
    decreases objs.len(),
{
    if objs.len() == 0 || colors.len() == 0 {
        0
    } else {
        count_unmarked(objs.drop_last(), colors.drop_last(), c) + if objs.last() is Some
            && colors.last() != c {
            1nat
        } else {
            0nat
        }
    }
}

/// Emptying slot `k`, which holds an object, lowers the count by one.
/// Slots emptied, none filled: the object count does not grow.
proof fn lemma_count_live_subset<T>(a: Seq<Option<HeapObj<T>>>, b: Seq<Option<HeapObj<T>>>)
    requires
        a.len() == b.len(),
        forall|i: int| 0 <= i < b.len() && b[i] is Some ==> a[i] is Some,
    ensures
        count_live(b) <= count_live(a),
    decreases a.len(),
{
    if a.len() > 0 {
        assert forall|i: int| 0 <= i < b.drop_last().len() && b.drop_last()[i] is Some implies a.drop_last()[i] is Some by {
            assert(b.drop_last()[i] == b[i]);
            assert(a.drop_last()[i] == a[i]);
        }
        lemma_count_live_subset(a.drop_last(), b.drop_last());
    }
}

proof fn lemma_count_live_free<T>(objs: Seq<Option<HeapObj<T>>>, k: int)
    requires
        0 <= k < objs.len(),
        objs[k] is Some,
    ensures
        count_live(objs.update(k, None)) + 1 == count_live(objs),
    decreases objs.len(),
{
    if k < objs.len() - 1 {
        lemma_count_live_free(objs.drop_last(), k);
        assert(objs.update(k, None).drop_last() =~= objs.drop_last().update(k, None));
    } else {
        assert(objs.update(k, None).drop_last() =~= objs.drop_last());
    }
}

/// There are no more objects than slots.
proof fn lemma_count_live_bound<T>(objs: Seq<Option<HeapObj<T>>>)
    ensures
        count_live(objs) <= objs.len(),
    decreases objs.len(),
{
    if objs.len() > 0 {
        lemma_count_live_bound(objs.drop_last());
    }
}

/// An object on the heap.
pub struct GcData<T> {
    pub object: T,
    pub roots: usize,
}

/// A reference that keeps its object alive. Give it back with
/// `Gc::unroot` once it is no longer needed.
pub struct Rooted {
    pub slot: usize,
}

impl Rooted {
    /// A handle to the object, to be stored in other objects. As long as
    /// this `Rooted` exists, the handle stays valid.
    pub fn new_handle(&self) -> (h: Handle)
        ensures
            h.slot == self.slot,
    {
        Handle { slot: self.slot }
    }
}

/// A garbage collector managing objects of type `T`.
pub struct Gc<T> {
    /// The heap's slots; a freed slot stays empty.
    objs: Vec<Option<GcData<T>>>,
    /// Each slot's mark color.
    colors: Vec<bool>,
    traced_color: bool,
    /// Total number of objects after which allocation next collects.
    next_gc: usize,
    /// The number of objects on the heap.
    live: usize,
}

/// An object as the contracts see it.
pub open spec fn heap_obj<T>(o: Option<GcData<T>>) -> Option<HeapObj<T>> {
    match o {
        Some(d) => Some(HeapObj { object: d.object, roots: d.roots as nat }),
        None => None,
    }
}

impl<T: Trace> View for Gc<T> {
    type V = HeapV<T>;

    closed spec fn view(&self) -> HeapV<T> {
        HeapV {
            objs: self.objs@.map_values(|o: Option<GcData<T>>| heap_obj(o)),
            traced_color: self.traced_color,
            next_gc: self.next_gc as nat,
        }
    }
}

impl<T: Trace> Gc<T> {
    /// The collector's internal invariant: a color for every slot, every
    /// object unmarked between collections, the object count kept, and
    /// handles naming only slots that hold objects.
    pub closed spec fn wf(&self) -> bool {
        &&& self.colors@.len() == self.objs@.len()
        &&& forall|s: int| #[trigger] self@.live(s) ==> self.colors@[s] != self.traced_color
        &&& self.live == self@.size()
        &&& self@.closed()
    }

    /// An empty heap that first collects once it holds 32 objects.
    pub fn new() -> (gc: Self)
        ensures
            gc.wf(),
            gc@.objs == Seq::<Option<HeapObj<T>>>::empty(),
            gc@.traced_color,
            gc@.next_gc == 32,
    {
        let gc = Gc { objs: Vec::new(), colors: Vec::new(), traced_color: true, next_gc: 32, live: 0 };
        assert(gc@.objs =~= Seq::<Option<HeapObj<T>>>::empty());
        gc
    }

    /// The number of objects on the heap.
    pub fn estimate_heap_size(&self) -> (n: usize)
        requires
            self.wf(),
        ensures
            n == self@.size(),
    {
        self.live
    }

    /// Whether the object a handle names is still on the heap.
    pub fn is_alive(&self, h: Handle) -> (b: bool)
        ensures
            b == self@.live(h.slot as int),
    {
        h.slot < self.objs.len() && self.objs[h.slot].is_some()
    }

    /// The mark color of slot `s`.
    pub closed spec fn color(&self, s: int) -> bool {
        self.colors@[s]
    }

    /// Handles to the rooted objects, in slot order.
    pub fn roots(&self) -> (r: Vec<Handle>)
        ensures
            forall|k: int| 0 <= k < r@.len() ==> self@.rooted((#[trigger] r@[k]).slot as int),
            forall|x: int| #[trigger] self@.rooted(x) ==> r@.contains(Handle { slot: x as usize }),
            forall|i: int, j: int| 0 <= i < j < r@.len() ==> r@[i].slot < r@[j].slot,
    {
        let ghost h = self@;
        let n = self.objs.len();
        let mut roots: Vec<Handle> = Vec::new();
        let mut s: usize = 0;
        while s < n
            invariant
                n == self.objs@.len(),
                h == self@,
                s <= n,
                forall|k: int| 0 <= k < roots@.len() ==> #[trigger] h.rooted(roots@[k].slot as int),
                forall|k: int| 0 <= k < roots@.len() ==> (#[trigger] roots@[k]).slot < s,
                forall|x: int| 0 <= x < s && #[trigger] h.rooted(x) ==> roots@.contains(
                    Handle { slot: x as usize },
                ),
                forall|i: int, j: int| 0 <= i < j < roots@.len() ==> roots@[i].slot < roots@[j].slot,
            decreases n - s,
        {
            let is_root = match &self.objs[s] {
                Some(d) => d.roots > 0,
                None => false,
            };
            proof {
                assert(h.objs[s as int] == heap_obj(self.objs@[s as int]));
            }
            if is_root {
                let ghost before = roots@;
                roots.push(Handle { slot: s });
                proof {
                    assert forall|x: int| 0 <= x < s + 1 && #[trigger] h.rooted(x) implies roots@.contains(
                        Handle { slot: x as usize },
                    ) by {
                        if x < s {
                            let k = choose|k: int| 0 <= k < before.len() && before[k] == Handle { slot: x as usize };
                            assert(roots@[k] == before[k]);
                        } else {
                            assert(roots@[before.len() as int] == Handle { slot: x as usize });
                        }
                    }
                    assert forall|k: int| 0 <= k < roots@.len() implies #[trigger] h.rooted(
                        roots@[k].slot as int,
                    ) by {
                        if k < before.len() {
                            assert(roots@[k] == before[k]);
                        }
                    }
                    assert forall|k: int| 0 <= k < roots@.len() implies (#[trigger] roots@[k]).slot
                        < s + 1 by {
                        if k < before.len() {
                            assert(roots@[k] == before[k]);
                        }
                    }
                    assert forall|i: int, j: int| 0 <= i < j < roots@.len() implies roots@[i].slot
                        < roots@[j].slot by {
                        assert(roots@[i] == before[i]);
                        if j < before.len() {
                            assert(roots@[j] == before[j]);
                        }
                    }
                }
            }
            s = s + 1;
        }
        roots
    }

    /// The object a `Rooted` refers to.
    pub fn get(&self, r: &Rooted) -> (v: &T)
        requires
            self@.live(r.slot as int),
        ensures
            *v == self@.value(r.slot as int),
    {
        proof {
            assert(heap_obj(self.objs@[r.slot as int]) is Some);
        }
        let d = self.objs[r.slot].as_ref().unwrap();
        &d.object
    }

    /// Places `t` in a new slot, rooted once, without collecting.
    pub fn allocate_nocollect(&mut self, t: T) -> (r: Rooted)
        requires
            old(self).wf(),
            old(self)@.handles_live(t.handles()),
        ensures
            final(self).wf(),
            r.slot == old(self)@.objs.len(),
            final(self)@.objs == old(self)@.objs.push(Some(HeapObj { object: t, roots: 1 })),
            final(self).color(r.slot as int) == !old(self)@.traced_color,
            final(self)@.traced_color == old(self)@.traced_color,
            final(self)@.next_gc == old(self)@.next_gc,
    {
        let ghost old_view = self@;
        let slot = self.objs.len();
        proof {
            lemma_count_live_bound(self@.objs);
        }
        self.objs.push(Some(GcData { object: t, roots: 1 }));
        self.colors.push(!self.traced_color);
        // The slot count is a usize, so the object count below it grows without overflow.
        let _n = self.objs.len();
        self.live = self.live + 1;
        proof {
            let nv = self@;
            assert(nv.objs =~= old_view.objs.push(Some(HeapObj { object: t, roots: 1 })));
            assert(nv.objs.drop_last() =~= old_view.objs);
            assert forall|s: int| #[trigger] nv.live(s) implies nv.handles_live(
                nv.value(s).handles(),
            ) by {
                if s < slot {
                    assert(old_view.live(s));
                    assert(nv.value(s) == old_view.value(s));
                    assert forall|i: int|
                        0 <= i < nv.value(s).handles().len() implies nv.live(
                        (#[trigger] nv.value(s).handles()[i]).slot as int,
                    ) by {
                        assert(old_view.live(old_view.value(s).handles()[i].slot as int));
                    }
                } else {
                    assert forall|i: int| 0 <= i < t.handles().len() implies nv.live(
                        (#[trigger] t.handles()[i]).slot as int,
                    ) by {
                        assert(old_view.live(t.handles()[i].slot as int));
                    }
                }
            }
            assert forall|s: int| #[trigger] nv.live(s) implies self.colors@[s]
                != self.traced_color by {
                if s < slot {
                    assert(old_view.live(s));
                }
            }
        }
        Rooted { slot }
    }

    /// Gives back a `Rooted`: its object loses one root.
    pub fn unroot(&mut self, r: Rooted)
        requires
            old(self).wf(),
            old(self)@.rooted(r.slot as int),
        ensures
            final(self).wf(),
            final(self)@.objs == old(self)@.objs.update(
                r.slot as int,
                Some(
                    HeapObj {
                        object: old(self)@.value(r.slot as int),
                        roots: (old(self)@.objs[r.slot as int].unwrap().roots - 1) as nat,
                    },
                ),
            ),
            final(self)@.traced_color == old(self)@.traced_color,
            final(self)@.next_gc == old(self)@.next_gc,
    {
        let ghost old_view = self@;
        let s = r.slot;
        let mut cell: Option<GcData<T>> = None;
        std::mem::swap(&mut cell, &mut self.objs[s]);
        match cell {
            Some(d) => {
                assert(heap_obj(old(self).objs@[s as int]) is Some);
                let nd = GcData { object: d.object, roots: d.roots - 1 };
                self.objs.set(s, Some(nd));
            },
            None => {
                proof {
                    assert(heap_obj(old(self).objs@[s as int]) is Some);
                }
            },
        }
        proof {
            let nv = self@;
            assert(nv.objs =~= old_view.objs.update(
                s as int,
                Some(
                    HeapObj {
                        object: old_view.value(s as int),
                        roots: (old_view.objs[s as int].unwrap().roots - 1) as nat,
                    },
                ),
            ));
            lemma_same_shape(old_view, nv);
        }
    }

    /// Replaces the object a `Rooted` refers to with `t`, giving back the
    /// old one. This is how objects come to hold handles to objects
    /// allocated after them.
    pub fn replace(&mut self, r: &Rooted, t: T) -> (old_value: T)
        requires
            old(self).wf(),
            old(self)@.live(r.slot as int),
            old(self)@.handles_live(t.handles()),
        ensures
            final(self).wf(),
            old_value == old(self)@.value(r.slot as int),
            final(self)@.objs == old(self)@.objs.update(
                r.slot as int,
                Some(HeapObj { object: t, roots: old(self)@.objs[r.slot as int].unwrap().roots }),
            ),
            final(self)@.traced_color == old(self)@.traced_color,
            final(self)@.next_gc == old(self)@.next_gc,
    {
        let ghost old_view = self@;
        let s = r.slot;
        let mut cell: Option<GcData<T>> = None;
        std::mem::swap(&mut cell, &mut self.objs[s]);
        assert(heap_obj(old(self).objs@[s as int]) is Some);
        let d = cell.unwrap();
        let nd = GcData { object: t, roots: d.roots };
        self.objs.set(s, Some(nd));
        proof {
            let nv = self@;
            assert(nv.objs =~= old_view.objs.update(
                s as int,
                Some(HeapObj { object: t, roots: old_view.objs[s as int].unwrap().roots }),
            ));
            assert forall|x: int| #[trigger] nv.live(x) implies old_view.live(x) by {}
            assert forall|x: int| #[trigger] nv.live(x) implies nv.handles_live(
                nv.value(x).handles(),
            ) by {
                assert(old_view.live(x));
                if x != s {
                    assert(nv.value(x) == old_view.value(x));
                    assert forall|i: int|
                        0 <= i < nv.value(x).handles().len() implies nv.live(
                        (#[trigger] nv.value(x).handles()[i]).slot as int,
                    ) by {
                        assert(old_view.live(old_view.value(x).handles()[i].slot as int));
                    }
                } else {
                    assert forall|i: int| 0 <= i < t.handles().len() implies nv.live(
                        (#[trigger] t.handles()[i]).slot as int,
                    ) by {
                        assert(old_view.live(t.handles()[i].slot as int));
                    }
                }
            }
            lemma_count_same_shape(old_view.objs, nv.objs);
            assert forall|x: int| #[trigger] nv.live(x) implies self.colors@[x]
                != self.traced_color by {
                assert(old_view.live(x));
            }
        }
        d.object
    }
}

impl<T: Trace> Gc<T> {
    /// Collects every object that cannot be reached from a rooted one,
    /// cycles included: the objects left are exactly the reachable ones,
    /// unchanged, and the marking color flips. Objects that are neither
    /// rooted nor named by any object's handle are freed first, again and
    /// again until there are none; the rest is marked from the rooted
    /// objects and swept.
    pub fn force_full_collect(&mut self)
        requires
            old(self).wf(),
        ensures
            final(self).wf(),
            final(self)@.objs.len() == old(self)@.objs.len(),
            forall|s: int|
                0 <= s < old(self)@.objs.len() ==> (#[trigger] final(self)@.live(s) <==> old(
                    self,
                )@.reachable(s)),
            forall|s: int|
                #[trigger] final(self)@.live(s) ==> final(self)@.objs[s] == old(self)@.objs[s],
            final(self)@.traced_color == !old(self)@.traced_color,
            final(self)@.next_gc == old(self)@.next_gc,
            collected(old(self)@, final(self)@),
    {
        let ghost h0 = self@;
        self.free_unreferenced();
        let ghost h1 = self@;
        self.mark_and_sweep();
        proof {
            let f = self@;
            assert forall|x: int| 0 <= x < h0.objs.len() implies (#[trigger] f.live(x)
                <==> h0.reachable(x)) by {
                assert(h1.reachable(x) == h0.reachable(x));
            }
            assert forall|x: int| #[trigger] f.live(x) implies f.objs[x] == h0.objs[x] by {
                assert(h1.reachable(x));
                lemma_reachable_live(h1, x);
            }
        }
    }

    /// Marks the objects reachable from the rooted ones and frees the rest.
    fn mark_and_sweep(&mut self)
        requires
            old(self).wf(),
        ensures
            final(self).wf(),
            final(self)@.objs.len() == old(self)@.objs.len(),
            forall|s: int|
                0 <= s < old(self)@.objs.len() ==> (#[trigger] final(self)@.live(s) <==> old(
                    self,
                )@.reachable(s)),
            forall|s: int|
                #[trigger] final(self)@.live(s) ==> final(self)@.objs[s] == old(self)@.objs[s],
            final(self)@.traced_color == !old(self)@.traced_color,
            final(self)@.next_gc == old(self)@.next_gc,
    {
        let ghost h = self@;
        let c = self.traced_color;
        let n = self.objs.len();
        let roots = self.roots();
        let mut colors: Vec<bool> = Vec::new();
        std::mem::swap(&mut colors, &mut self.colors);
        let mut tracer = Tracer { traced: c, worklist: roots, colors, live: Ghost(live_slots(h)) };
        proof {
            assert forall|k: int| 0 <= k < tracer.worklist@.len() implies h.live(
                (#[trigger] tracer.worklist@[k]).slot as int,
            ) by {
                assert(h.rooted(tracer.worklist@[k].slot as int));
            }
        }
        let ghost w0 = tracer.worklist@;
        let ghost c0 = tracer.colors@;
        tracer.mark_all(&self.objs, Ghost(h));
        std::mem::swap(&mut tracer.colors, &mut self.colors);
        proof {
            assert forall|x: int| 0 <= x < n implies #[trigger] self.colors@[x] == if h.reachable(x) {
                c
            } else {
                c0[x]
            } by {
                lemma_roots_reach(h, w0, x);
            }
            assert forall|x: int| #[trigger] h.reachable(x) implies self.colors@[x] == c by {
                lemma_reachable_live(h, x);
            }
        }
        self.sweep(Ghost(h));
        let ghost swept = self@;
        self.traced_color = !self.traced_color;
        proof {
            assert(self@.objs == swept.objs);
            assert forall|x: int| 0 <= x < h.objs.len() implies (#[trigger] self@.live(x)
                <==> h.reachable(x)) by {
                assert(swept.live(x) == self@.live(x));
            }
            assert forall|x: int| #[trigger] self@.live(x) implies self@.objs[x] == h.objs[x] by {
                assert(swept.live(x));
            }
            assert forall|x: int| #[trigger] self@.live(x) implies self.colors@[x]
                != self.traced_color by {
                assert(swept.live(x));
                assert(h.reachable(x));
            }
            assert forall|x: int| #[trigger] self@.live(x) implies self@.handles_live(
                self@.value(x).handles(),
            ) by {
                assert(swept.live(x));
                assert(swept.handles_live(swept.value(x).handles()));
                assert forall|i: int| 0 <= i < self@.value(x).handles().len() implies self@.live(
                    (#[trigger] self@.value(x).handles()[i]).slot as int,
                ) by {
                    assert(swept.live(swept.value(x).handles()[i].slot as int));
                }
            }
            assert(self@.size() == swept.size());
        }
    }

    /// Frees every object whose color is not the marking color.
    fn sweep(&mut self, Ghost(h): Ghost<HeapV<T>>)
        requires
            old(self)@ == h,
            old(self).colors@.len() == old(self).objs@.len(),
            old(self).live == h.size(),
            h.closed(),
            forall|x: int| #[trigger] h.live(x) && old(self).colors@[x] == h.traced_color ==> h.reachable(x),
            forall|x: int| #[trigger] h.reachable(x) ==> old(self).colors@[x] == h.traced_color,
        ensures
            final(self).colors@ == old(self).colors@,
            final(self).traced_color == old(self).traced_color,
            final(self).next_gc == old(self).next_gc,
            final(self)@.objs.len() == h.objs.len(),
            forall|s: int| 0 <= s < h.objs.len() ==> (#[trigger] final(self)@.live(s) <==> h.reachable(s)),
            forall|s: int| #[trigger] final(self)@.live(s) ==> final(self)@.objs[s] == h.objs[s],
            final(self).live == final(self)@.size(),
            final(self)@.closed(),
    {
        let c = self.traced_color;
        let n = self.objs.len();
        let mut s: usize = 0;
        while s < n
            invariant
                n == self.objs@.len(),
                n == h.objs.len(),
                c == h.traced_color,
                c == self.traced_color,
                self.colors@ == old(self).colors@,
                self.next_gc == old(self).next_gc,
                self.colors@.len() == n,
                s <= n,
                self.live == self@.size(),
                forall|x: int| #[trigger] h.live(x) && self.colors@[x] == c ==> h.reachable(x),
                forall|x: int| #[trigger] h.reachable(x) ==> self.colors@[x] == c,
                forall|x: int| 0 <= x < s ==> (#[trigger] self@.live(x) <==> h.reachable(x)),
                forall|x: int| s <= x < n ==> #[trigger] self@.objs[x] == h.objs[x],
                forall|x: int| #[trigger] self@.live(x) ==> self@.objs[x] == h.objs[x],
            decreases n - s,
        {
            let ghost before = self@;
            let present = self.objs[s].is_some();
            proof {
                assert(before.objs[s as int] == heap_obj(self.objs@[s as int]));
                assert(before.objs[s as int] == h.objs[s as int]);
            }
            let free = present && self.colors[s] != c;
            if free {
                proof {
                    assert(before.live(s as int));
                    lemma_count_live_free(before.objs, s as int);
                    lemma_count_live_bound(before.objs);
                }
                self.objs.set(s, None);
                self.live = self.live - 1;
            }
            proof {
                if free {
                    assert(self@.objs =~= before.objs.update(s as int, None));
                } else {
                    assert(self@.objs =~= before.objs);
                }
                assert forall|x: int| 0 <= x < n && x != s implies #[trigger] self@.objs[x] == before.objs[x] by {}
                if h.reachable(s as int) {
                    lemma_reachable_live(h, s as int);
                    assert(self.colors@[s as int] == c);
                    assert(!free);
                    assert(self@.live(s as int));
                } else {
                    if present {
                        assert(h.live(s as int));
                        assert(self.colors@[s as int] != c);
                    }
                    assert(!self@.live(s as int));
                }
                assert forall|x: int| 0 <= x < s + 1 implies (#[trigger] self@.live(x)
                    <==> h.reachable(x)) by {
                    if x != s {
                        assert(self@.objs[x] == before.objs[x]);
                        assert(before.live(x) == self@.live(x));
                    }
                }
                assert forall|x: int| #[trigger] self@.live(x) implies self@.objs[x] == h.objs[x] by {
                    if x != s {
                        assert(self@.objs[x] == before.objs[x]);
                        assert(before.live(x));
                    }
                }
                assert forall|x: int| s + 1 <= x < n implies #[trigger] self@.objs[x] == h.objs[x] by {
                    assert(self@.objs[x] == before.objs[x]);
                }
            }
            s = s + 1;
        }
        proof {
            let f = self@;
            assert forall|x: int| #[trigger] f.live(x) implies f.handles_live(f.value(x).handles()) by {
                assert(h.reachable(x));
                assert(h.live(x));
                assert(f.value(x) == h.value(x));
                assert(h.handles_live(h.value(x).handles()));
                assert forall|i: int| 0 <= i < f.value(x).handles().len() implies f.live(
                    (#[trigger] f.value(x).handles()[i]).slot as int,
                ) by {
                    let y = h.value(x).handles()[i].slot as int;
                    assert(h.live(y));
                    assert(h.edge(x, y));
                    lemma_reach_step(h, x, y);
                }
            }
        }
    }
}

impl Tracer {
    /// Starting from the handles queued, marks with the tracer's color every
    /// object they reach along handles, tracing each object once, and
    /// leaves the queue empty; every other slot keeps its color. `h` is the
    /// heap `objs` holds; its objects start unmarked.
    pub fn mark_all<T: Trace>(&mut self, objs: &Vec<Option<GcData<T>>>, Ghost(h): Ghost<HeapV<T>>)
        requires
            h.objs == objs@.map_values(|o: Option<GcData<T>>| heap_obj(o)),
            h.closed(),
            old(self)@.colors.len() == objs@.len(),
            old(self)@.live == live_slots(h),
            forall|x: int| #[trigger] h.live(x) ==> old(self)@.colors[x] != old(self)@.traced,
            forall|k: int|
                0 <= k < old(self)@.worklist.len() ==> h.live(
                    (#[trigger] old(self)@.worklist[k]).slot as int,
                ),
        ensures
            final(self)@.traced == old(self)@.traced,
            final(self)@.live == old(self)@.live,
            final(self)@.worklist.len() == 0,
            final(self)@.colors.len() == old(self)@.colors.len(),
            forall|x: int|
                0 <= x < objs@.len() ==> #[trigger] final(self)@.colors[x] == if h.reaches_from(
                    old(self)@.worklist,
                    x,
                ) {
                    old(self)@.traced
                } else {
                    old(self)@.colors[x]
                },
    {
        let c = self.traced;
        let ghost w0 = self@.worklist;
        let ghost c0 = self@.colors;
        proof {
            assert forall|k: int| 0 <= k < w0.len() implies h.reaches_from(
                w0,
                (#[trigger] w0[k]).slot as int,
            ) by {
                lemma_handle_reaches(h, w0, k);
            }
        }
        while self.worklist.len() > 0
            invariant
                h.objs == objs@.map_values(|o: Option<GcData<T>>| heap_obj(o)),
                h.closed(),
                self.colors@.len() == objs@.len(),
                c0.len() == objs@.len(),
                self.live@ == live_slots(h),
                c == self.traced,
                forall|x: int| #[trigger] h.live(x) ==> c0[x] != c,
                forall|k: int|
                    0 <= k < self.worklist@.len() ==> {
                        let w = #[trigger] self.worklist@[k];
                        h.live(w.slot as int) && h.reaches_from(w0, w.slot as int)
                    },
                forall|x: int| #[trigger] h.live(x) && self.colors@[x] == c ==> h.reaches_from(w0, x),
                forall|x: int|
                    0 <= x < objs@.len() ==> #[trigger] self.colors@[x] == c0[x] || (h.live(x)
                        && self.colors@[x] == c),
                forall|k: int| 0 <= k < w0.len() ==> h.live((#[trigger] w0[k]).slot as int),
                forall|k: int|
                    0 <= k < w0.len() ==> self.colors@[(#[trigger] w0[k]).slot as int] == c
                        || self.worklist@.contains(w0[k]),
                forall|x: int, j: int|
                    h.live(x) && self.colors@[x] == c && 0 <= j < h.value(x).handles().len() ==> {
                        let y = (#[trigger] h.value(x).handles()[j]).slot;
                        self.colors@[y as int] == c || self.worklist@.contains(Handle { slot: y })
                    },
            decreases count_unmarked(h.objs, self.colors@, c), self.worklist@.len(),
        {
            let ghost before = self@;
            let hd = self.worklist.pop().unwrap();
            proof {
                assert(before.worklist[before.worklist.len() - 1] == hd);
                assert(self.worklist@ =~= before.worklist.drop_last());
            }
            if self.colors[hd.slot] != c {
                proof {
                    lemma_count_unmarked_update(h.objs, self.colors@, c, hd.slot as int);
                    assert(h.objs[hd.slot as int] == heap_obj(objs@[hd.slot as int]));
                }
                self.colors.set(hd.slot, c);
                let ghost mid = self@;
                proof {
                    assert(objs@[hd.slot as int] is Some);
                }
                let d = objs[hd.slot].as_ref().unwrap();
                proof {
                    assert(d.object == h.value(hd.slot as int));
                    assert(h.handles_live(h.value(hd.slot as int).handles()));
                    assert forall|i: int| 0 <= i < d.object.handles().len() implies (
                    #[trigger] d.object.handles()[i]).slot < mid.colors.len()
                        && d.object.handles()[i].slot < mid.live.len()
                        && mid.live[d.object.handles()[i].slot as int] by {
                        assert(h.live(d.object.handles()[i].slot as int));
                    }
                }
                d.object.trace(self);
                proof {
                    let hs = h.value(hd.slot as int).handles();
                    lemma_trace_all(mid, hs);
                    let after = self@;
                    assert forall|k: int| 0 <= k < after.worklist.len() implies {
                        let w = #[trigger] after.worklist[k];
                        h.live(w.slot as int) && h.reaches_from(w0, w.slot as int)
                    } by {
                        if k < mid.worklist.len() {
                            assert(after.worklist[k] == mid.worklist[k]);
                            assert(mid.worklist[k] == before.worklist[k]);
                        } else {
                            assert(hs.contains(after.worklist[k]));
                            let j = choose|j: int| 0 <= j < hs.len() && hs[j] == after.worklist[k];
                            assert(h.live(hs[j].slot as int));
                            assert(h.edge(hd.slot as int, hs[j].slot as int));
                            lemma_walk_step(h, w0, hd.slot as int, hs[j].slot as int);
                        }
                    }
                    assert forall|x: int| #[trigger] h.live(x) && after.colors[x] == c implies h.reaches_from(
                        w0,
                        x,
                    ) by {
                        if x != hd.slot {
                            assert(before.colors[x] == c);
                        }
                    }
                    assert forall|x: int| 0 <= x < objs@.len() implies #[trigger] after.colors[x]
                        == c0[x] || (h.live(x) && after.colors[x] == c) by {
                        if x == hd.slot {
                            assert(h.live(x));
                        } else {
                            assert(after.colors[x] == before.colors[x]);
                        }
                    }
                    assert forall|k: int| 0 <= k < w0.len() implies after.colors[(
                    #[trigger] w0[k]).slot as int] == c || after.worklist.contains(w0[k]) by {
                        let x = w0[k].slot;
                        if before.colors[x as int] != c && x != hd.slot {
                            let i = choose|i: int| 0 <= i < before.worklist.len() && before.worklist[i] == w0[k];
                            if i == before.worklist.len() - 1 {
                                assert(before.worklist[i].slot == hd.slot);
                                assert(false);
                            }
                            assert(mid.worklist[i] == before.worklist[i]);
                            assert(after.worklist[i] == mid.worklist[i]);
                        }
                    }
                    assert forall|x: int, j: int|
                        h.live(x) && after.colors[x] == c && 0 <= j < h.value(x).handles().len() implies {
                            let y = (#[trigger] h.value(x).handles()[j]).slot;
                            after.colors[y as int] == c || after.worklist.contains(Handle { slot: y })
                        } by {
                        let y = h.value(x).handles()[j].slot;
                        if x == hd.slot {
                            assert(hs[j] == h.value(x).handles()[j]);
                            if after.colors[y as int] != c {
                                assert(after.worklist.contains(hs[j]));
                            }
                        } else {
                            assert(before.colors[x] == c);
                            if after.colors[y as int] != c {
                                assert(y != hd.slot);
                                let i = choose|i: int| 0 <= i < before.worklist.len() && before.worklist[i] == Handle { slot: y };
                                if i == before.worklist.len() - 1 {
                                    assert(before.worklist[i].slot == hd.slot);
                                    assert(false);
                                }
                                assert(mid.worklist[i] == before.worklist[i]);
                                assert(after.worklist[i] == mid.worklist[i]);
                            }
                        }
                    }
                }
            } else {
                proof {
                    let after = self@;
                    assert forall|k: int| 0 <= k < w0.len() implies after.colors[(
                    #[trigger] w0[k]).slot as int] == c || after.worklist.contains(w0[k]) by {
                        if before.colors[w0[k].slot as int] != c {
                            let i = choose|i: int| 0 <= i < before.worklist.len() && before.worklist[i] == w0[k];
                            if i == before.worklist.len() - 1 {
                                assert(before.worklist[i].slot == hd.slot);
                                assert(false);
                            }
                            assert(after.worklist[i] == before.worklist[i]);
                        }
                    }
                    assert forall|x: int, j: int|
                        h.live(x) && after.colors[x] == c && 0 <= j < h.value(x).handles().len() implies {
                            let y = (#[trigger] h.value(x).handles()[j]).slot;
                            after.colors[y as int] == c || after.worklist.contains(Handle { slot: y })
                        } by {
                        let y = h.value(x).handles()[j].slot;
                        if after.colors[y as int] != c {
                            let i = choose|i: int| 0 <= i < before.worklist.len() && before.worklist[i] == Handle { slot: y };
                            if i == before.worklist.len() - 1 {
                                assert(before.worklist[i].slot == hd.slot);
                                assert(false);
                            }
                            assert(after.worklist[i] == before.worklist[i]);
                        }
                    }
                }
            }
        }
        proof {
            let f = self@;
            assert(f.worklist.len() == 0);
            assert forall|x: int| 0 <= x < objs@.len() implies #[trigger] f.colors[x] == if h.reaches_from(
                w0,
                x,
            ) {
                c
            } else {
                c0[x]
            } by {
                if h.reaches_from(w0, x) {
                    let m = |y: int| h.live(y) && f.colors[y] == c;
                    assert forall|k: int| 0 <= k < w0.len() implies m((#[trigger] w0[k]).slot as int) by {
                        assert(!f.worklist.contains(w0[k]));
                    }
                    assert forall|y: int, z: int| m(y) && #[trigger] h.edge(y, z) implies m(z) by {
                        let j = choose|j: int|
                            0 <= j < h.value(y).handles().len() && (#[trigger] h.value(y).handles()[j]).slot == z;
                        assert(h.handles_live(h.value(y).handles()));
                        assert(h.live(h.value(y).handles()[j].slot as int));
                        assert(!f.worklist.contains(Handle { slot: h.value(y).handles()[j].slot }));
                    }
                    lemma_closed_set_holds_reached(h, w0, m, x);
                }
            }
        }
    }
}

/// The heap once `t` is placed in a new slot, rooted once.
pub open spec fn placed<T>(h: HeapV<T>, t: T) -> HeapV<T> {
    HeapV {
        objs: h.objs.push(Some(HeapObj { object: t, roots: 1 })),
        traced_color: h.traced_color,
        next_gc: h.next_gc,
    }
}

/// What a collection leaves of heap `h`: the reachable objects, unchanged,
/// with the marking color flipped; `g` is the heap after it.
pub open spec fn collected<T: Trace>(h: HeapV<T>, g: HeapV<T>) -> bool {
    &&& g.objs.len() == h.objs.len()
    &&& forall|s: int| 0 <= s < h.objs.len() ==> (#[trigger] g.live(s) <==> h.reachable(s))
    &&& forall|s: int| #[trigger] g.live(s) ==> g.objs[s] == h.objs[s]
    &&& g.traced_color == !h.traced_color
}

impl<T: Trace> Gc<T> {
    /// Places `t` in a new slot, rooted once. When the heap then holds at
    /// least the threshold number of objects, collects, and sets the next
    /// threshold to twice the number of objects left (twice the number of
    /// objects must fit in a `usize` for that).
    pub fn allocate(&mut self, t: T) -> (r: Rooted)
        requires
            old(self).wf(),
            old(self)@.handles_live(t.handles()),
            2 * (old(self)@.size() + 1) <= usize::MAX,
        ensures
            final(self).wf(),
            r.slot == old(self)@.objs.len(),
            placed(old(self)@, t).size() >= old(self)@.next_gc ==> {
                &&& collected(placed(old(self)@, t), final(self)@)
                &&& final(self)@.next_gc == 2 * final(self)@.size()
            },
            placed(old(self)@, t).size() < old(self)@.next_gc ==> final(self)@ == placed(
                old(self)@,
                t,
            ),
    {
        let ghost h = self@;
        let root = self.allocate_nocollect(t);
        proof {
            assert(self@ == placed(h, t));
        }
        if self.estimate_heap_size() >= self.next_gc {
            self.do_collect();
            proof {
                lemma_count_live_bound(self@.objs);
                let p = placed(h, t);
                assert(p.objs.drop_last() =~= h.objs);
                assert(p.size() == h.size() + 1);
                assert forall|i: int| 0 <= i < self@.objs.len() && self@.objs[i] is Some implies p.objs[i] is Some by {
                    assert(self@.live(i));
                }
                lemma_count_live_subset(p.objs, self@.objs);
            }
            let ghost g0 = self@;
            self.next_gc = self.estimate_heap_size() * 2;
            proof {
                let g = self@;
                assert(g.objs == g0.objs);
                assert forall|x: int| #[trigger] g.live(x) implies self.colors@[x]
                    != self.traced_color by {
                    assert(g0.live(x));
                }
                assert forall|x: int| #[trigger] g.live(x) implies g.handles_live(
                    g.value(x).handles(),
                ) by {
                    assert(g0.live(x));
                    assert forall|i: int| 0 <= i < g.value(x).handles().len() implies g.live(
                        (#[trigger] g.value(x).handles()[i]).slot as int,
                    ) by {
                        assert(g0.live(g0.value(x).handles()[i].slot as int));
                    }
                }
                assert forall|x: int| 0 <= x < h.objs.len() + 1 implies (#[trigger] g.live(x)
                    <==> placed(h, t).reachable(x)) by {
                    assert(g0.live(x) == g.live(x));
                }
                assert forall|x: int| #[trigger] g.live(x) implies g.objs[x] == placed(h, t).objs[x] by {
                    assert(g0.live(x));
                }
            }
        }
        root
    }

    fn do_collect(&mut self)
        requires
            old(self).wf(),
        ensures
            final(self).wf(),
            collected(old(self)@, final(self)@),
            final(self)@.next_gc == old(self)@.next_gc,
    {
        self.force_full_collect();
    }
}

/// Allocates `x` on `gc`'s heap, as `Gc::allocate` does.
pub fn gc_alloc<X: Trace>(gc: &mut Gc<X>, x: X) -> (r: Rooted)
    requires
        old(gc).wf(),
        old(gc)@.handles_live(x.handles()),
        2 * (old(gc)@.size() + 1) <= usize::MAX,
    ensures
        final(gc).wf(),
        r.slot == old(gc)@.objs.len(),
        placed(old(gc)@, x).size() >= old(gc)@.next_gc ==> {
            &&& collected(placed(old(gc)@, x), final(gc)@)
            &&& final(gc)@.next_gc == 2 * final(gc)@.size()
        },
        placed(old(gc)@, x).size() < old(gc)@.next_gc ==> final(gc)@ == placed(old(gc)@, x),
{
    gc.allocate(x)
}

/// Collects `gc`'s heap, as `Gc::force_full_collect` does.
pub fn gc_collect<X: Trace>(gc: &mut Gc<X>)
    requires
        old(gc).wf(),
    ensures
        final(gc).wf(),
        collected(old(gc)@, final(gc)@),
        final(gc)@.next_gc == old(gc)@.next_gc,
{
    gc.force_full_collect();
}

impl Trace for Handle {
    open spec fn handles(&self) -> Seq<Handle> {
        seq![*self]
    }

    fn trace(&self, tracer: &mut Tracer) {
        let ghost t0 = tracer@;
        proof {
            assert(seq![*self][0] == *self);
            assert(seq![*self].drop_last() =~= Seq::<Handle>::empty());
            assert(trace_all(t0, seq![*self]) == trace_one(trace_all(t0, Seq::<Handle>::empty()), *self));
        }
        tracer.trace_handle(*self);
    }
}

/// The handles of the values of `s`, in order.
pub open spec fn seq_handles<T: Trace>(s: Seq<T>) -> Seq<Handle>
    decreases s.len(),
{
    if s.len() == 0 {
        Seq::empty()
    } else {
        seq_handles(s.drop_last()) + s.last().handles()
    }
}

/// Tracing two runs of handles is tracing them one after the other.
pub proof fn lemma_trace_all_concat(t: TracerV, a: Seq<Handle>, b: Seq<Handle>)
    ensures
        trace_all(t, a + b) == trace_all(trace_all(t, a), b),
    decreases b.len(),
{
    if b.len() == 0 {
        assert(a + b =~= a);
    } else {
        lemma_trace_all_concat(t, a, b.drop_last());
        assert((a + b).drop_last() =~= a + b.drop_last());
        assert((a + b).last() == b.last());
    }
}

/// Each handle of an element is among the handles of the sequence.
proof fn lemma_seq_handles_contains<T: Trace>(s: Seq<T>, i: int, j: int)
    requires
        0 <= i < s.len(),
        0 <= j < s[i].handles().len(),
    ensures
        seq_handles(s).contains(s[i].handles()[j]),
    decreases s.len(),
{
    let h = s[i].handles()[j];
    if i == s.len() - 1 {
        let k = seq_handles(s.drop_last()).len() + j;
        assert(seq_handles(s)[k] == h);
    } else {
        assert(s.drop_last()[i] == s[i]);
        lemma_seq_handles_contains(s.drop_last(), i, j);
        let k = choose|k: int| 0 <= k < seq_handles(s.drop_last()).len() && seq_handles(s.drop_last())[k] == h;
        assert(seq_handles(s)[k] == h);
    }
}

impl<T: Trace> Trace for Vec<T> {
    open spec fn handles(&self) -> Seq<Handle> {
        seq_handles(self@)
    }

    fn trace(&self, tracer: &mut Tracer) {
        let ghost t0 = tracer@;
        let mut i: usize = 0;
        assert(self@.take(0) =~= Seq::<T>::empty());
        while i < self.len()
            invariant
                i <= self@.len(),
                traceable(t0, seq_handles(self@)),
                tracer@.colors == t0.colors,
                tracer@.live == t0.live,
                tracer@ == trace_all(t0, seq_handles(self@.take(i as int))),
            decreases self@.len() - i,
        {
            let ghost before = tracer@;
            let ghost hs = self@[i as int].handles();
            proof {
                assert forall|j: int| 0 <= j < hs.len() implies (#[trigger] hs[j]).slot
                    < before.colors.len() && hs[j].slot < before.live.len()
                    && before.live[hs[j].slot as int] by {
                    lemma_seq_handles_contains(self@, i as int, j);
                    let k = choose|k: int| 0 <= k < seq_handles(self@).len() && seq_handles(self@)[k] == hs[j];
                }
            }
            self[i].trace(tracer);
            proof {
                lemma_trace_all(before, hs);
                assert(self@.take(i + 1).drop_last() =~= self@.take(i as int));
                assert(self@.take(i + 1).last() == self@[i as int]);
                lemma_trace_all_concat(t0, seq_handles(self@.take(i as int)), hs);
            }
            i = i + 1;
        }
        proof {
            assert(self@.take(self@.len() as int) =~= self@);
        }
    }
}

impl Trace for u8 {
    open spec fn handles(&self) -> Seq<Handle> {
        Seq::empty()
    }

    fn trace(&self, tracer: &mut Tracer) {
    }
}

impl Trace for u16 {
    open spec fn handles(&self) -> Seq<Handle> {
        Seq::empty()
    }

    fn trace(&self, tracer: &mut Tracer) {
    }
}

impl Trace for u32 {
    open spec fn handles(&self) -> Seq<Handle> {
        Seq::empty()
    }

    fn trace(&self, tracer: &mut Tracer) {
    }
}

impl Trace for u64 {
    open spec fn handles(&self) -> Seq<Handle> {
        Seq::empty()
    }

    fn trace(&self, tracer: &mut Tracer) {
    }
}

impl Trace for bool {
    open spec fn handles(&self) -> Seq<Handle> {
        Seq::empty()
    }

    fn trace(&self, tracer: &mut Tracer) {
    }
}

impl Trace for i8 {
    open spec fn handles(&self) -> Seq<Handle> {
        Seq::empty()
    }

    fn trace(&self, tracer: &mut Tracer) {
    }
}

impl Trace for i16 {
    open spec fn handles(&self) -> Seq<Handle> {
        Seq::empty()
    }

    fn trace(&self, tracer: &mut Tracer) {
    }
}

impl Trace for i32 {
    open spec fn handles(&self) -> Seq<Handle> {
        Seq::empty()
    }

    fn trace(&self, tracer: &mut Tracer) {
    }
}

impl Trace for i64 {
    open spec fn handles(&self) -> Seq<Handle> {
        Seq::empty()
    }

    fn trace(&self, tracer: &mut Tracer) {
    }
}

impl Trace for i128 {
    open spec fn handles(&self) -> Seq<Handle> {
        Seq::empty()
    }

    fn trace(&self, tracer: &mut Tracer) {
    }
}

impl Trace for u128 {
    open spec fn handles(&self) -> Seq<Handle> {
        Seq::empty()
    }

    fn trace(&self, tracer: &mut Tracer) {
    }
}

impl Trace for String {
    open spec fn handles(&self) -> Seq<Handle> {
        Seq::empty()
    }

    fn trace(&self, tracer: &mut Tracer) {
    }
}

/// Every object along a path is reachable.
proof fn lemma_path_prefix_reachable<T: Trace>(h: HeapV<T>, p: Seq<int>, i: int)
    requires
        h.is_path(p),
        0 <= i < p.len(),
    ensures
        h.reachable(p[i]),
{
    let q = p.take(i + 1);
    assert forall|k: int| 0 <= k < q.len() implies h.live(#[trigger] q[k]) by {
        assert(q[k] == p[k]);
    }
    assert forall|k: int| 0 <= k < q.len() - 1 implies #[trigger] h.edge(q[k], q[k + 1]) by {
        assert(q[k] == p[k]);
        assert(q[k + 1] == p[k + 1]);
    }
    assert(h.is_path(q));
    assert(q.last() == p[i]);
}

/// After a collection, every object left is reachable in the heap left:
/// the heap holds exactly its reachable objects.
pub proof fn lemma_collected_all_reachable<T: Trace>(h: HeapV<T>, g: HeapV<T>, s: int)
    requires
        collected(h, g),
    ensures
        g.live(s) <==> g.reachable(s),
{
    if g.reachable(s) {
        lemma_reachable_live(g, s);
    }
    if g.live(s) {
        assert(h.reachable(s));
        let p = choose|p: Seq<int>| #[trigger] h.is_path(p) && p.last() == s;
        assert forall|k: int| 0 <= k < p.len() implies g.live(#[trigger] p[k]) && g.objs[p[k]]
            == h.objs[p[k]] by {
            lemma_path_prefix_reachable(h, p, k);
            lemma_reachable_live(h, p[k]);
        }
        assert(g.live(p[0]));
        assert forall|k: int| 0 <= k < p.len() - 1 implies #[trigger] g.edge(p[k], p[k + 1]) by {
            assert(h.edge(p[k], p[k + 1]));
            assert(g.live(p[k]));
            assert(g.value(p[k]) == h.value(p[k]));
        }
        assert(g.is_path(p));
    }
}

/// A collection right after a collection frees nothing.
pub proof fn lemma_collect_twice<T: Trace>(h: HeapV<T>, g: HeapV<T>, g2: HeapV<T>)
    requires
        collected(h, g),
        collected(g, g2),
    ensures
        forall|s: int| #[trigger] g2.live(s) <==> g.live(s),
        forall|s: int| #[trigger] g2.live(s) ==> g2.objs[s] == g.objs[s],
{
    assert forall|s: int| #[trigger] g2.live(s) <==> g.live(s) by {
        lemma_collected_all_reachable(h, g, s);
        if g.live(s) || g2.live(s) {
            assert(0 <= s < g.objs.len());
        }
    }
}

/// A collection keeps every rooted object, and every object one reaches
/// through handles, as it was.
pub proof fn lemma_collect_keeps_reachable<T: Trace>(h: HeapV<T>, g: HeapV<T>, s: int)
    requires
        collected(h, g),
        h.reachable(s),
    ensures
        g.live(s),
        g.objs[s] == h.objs[s],
{
    lemma_reachable_live(h, s);
    assert(g.live(s));
}

/// A collection frees every object that no rooted object reaches, however
/// the unreachable objects refer to each other.
pub proof fn lemma_collect_frees_unreachable<T: Trace>(h: HeapV<T>, g: HeapV<T>, s: int)
    requires
        collected(h, g),
        !h.reachable(s),
    ensures
        !g.live(s),
{
}

/// One step the heap takes through `allocate` (a new object placed, then
/// perhaps a collection) or `force_full_collect`.
pub open spec fn heap_step<T: Trace>(h: HeapV<T>, g: HeapV<T>) -> bool {
    ||| exists|t: T| #[trigger] placed(h, t) == g
    ||| exists|t: T| collected(#[trigger] placed(h, t), g)
    ||| collected(h, g)
}

/// A handle to a rooted object stays valid: through any sequence of
/// allocations and collections, the slot it names keeps the same object,
/// with the same root count.
pub proof fn lemma_rooted_stays<T: Trace>(hs: Seq<HeapV<T>>, s: int)
    requires
        hs.len() > 0,
        hs[0].rooted(s),
        forall|i: int| 0 <= i < hs.len() - 1 ==> heap_step(#[trigger] hs[i], hs[i + 1]),
    ensures
        forall|i: int| 0 <= i < hs.len() ==> (#[trigger] hs[i]).live(s) && hs[i].objs[s] == hs[0].objs[s],
    decreases hs.len(),
{
    if hs.len() > 1 {
        let dl = hs.drop_last();
        assert forall|i: int| 0 <= i < dl.len() - 1 implies heap_step(#[trigger] dl[i], dl[i + 1]) by {
            assert(dl[i] == hs[i] && dl[i + 1] == hs[i + 1]);
            assert(heap_step(hs[i], hs[i + 1]));
        }
        lemma_rooted_stays(dl, s);
        let k = hs.len() - 2;
        let h = hs[k];
        let g = hs[k + 1];
        assert(h == dl[k]);
        assert(h.live(s) && h.objs[s] == hs[0].objs[s]);
        assert(heap_step(hs[k], hs[k + 1]));
        assert(h.rooted(s));
        if exists|t: T| #[trigger] placed(h, t) == g {
            let t = choose|t: T| #[trigger] placed(h, t) == g;
            assert(g.objs[s] == h.objs[s]);
        } else if exists|t: T| collected(#[trigger] placed(h, t), g) {
            let t = choose|t: T| collected(#[trigger] placed(h, t), g);
            let p = placed(h, t);
            assert(p.objs[s] == h.objs[s]);
            assert(p.rooted(s));
            lemma_rooted_reachable(p, s);
            lemma_collect_keeps_reachable(p, g, s);
        } else {
            lemma_rooted_reachable(h, s);
            lemma_collect_keeps_reachable(h, g, s);
        }
        assert forall|i: int| 0 <= i < hs.len() implies (#[trigger] hs[i]).live(s) && hs[i].objs[s]
            == hs[0].objs[s] by {
            if i < hs.len() - 1 {
                assert(hs[i] == dl[i]);
            }
        }
    }
}

impl<T: Trace> Gc<T> {
    /// For every slot, whether some object holds a handle to it.
    fn referenced(&self) -> (r: Vec<bool>)
        requires
            self.wf(),
        ensures
            r@.len() == self@.objs.len(),
            forall|t: int|
                0 <= t < r@.len() ==> (#[trigger] r@[t] <==> exists|x: int| self@.edge(x, t)),
    {
        let ghost h = self@;
        let n = self.objs.len();
        let mut r: Vec<bool> = Vec::new();
        let mut unmarked: Vec<bool> = Vec::new();
        let mut k: usize = 0;
        while k < n
            invariant
                n == self.objs@.len(),
                k <= n,
                r@.len() == k,
                unmarked@.len() == k,
                forall|t: int| 0 <= t < k ==> !#[trigger] r@[t],
                forall|t: int| 0 <= t < k ==> !#[trigger] unmarked@[t],
            decreases n - k,
        {
            r.push(false);
            unmarked.push(false);
            k = k + 1;
        }
        let mut x: usize = 0;
        while x < n
            invariant
                h == self@,
                self.wf(),
                n == self.objs@.len(),
                x <= n,
                r@.len() == n,
                unmarked@.len() == n,
                forall|t: int| 0 <= t < n ==> !#[trigger] unmarked@[t],
                forall|t: int|
                    0 <= t < n ==> (#[trigger] r@[t] <==> exists|y: int| 0 <= y < x && h.edge(y, t)),
            decreases n - x,
        {
            proof {
                assert(h.objs[x as int] == heap_obj(self.objs@[x as int]));
            }
            if let Some(d) = &self.objs[x] {
                let ghost hs = h.value(x as int).handles();
                proof {
                    assert(d.object == h.value(x as int));
                    assert(h.live(x as int));
                    assert(h.handles_live(hs));
                    assert forall|i: int| 0 <= i < hs.len() implies (#[trigger] hs[i]).slot
                        < unmarked@.len() && hs[i].slot < live_slots(h).len()
                        && live_slots(h)[hs[i].slot as int] by {
                        assert(h.live(hs[i].slot as int));
                    }
                }
                let ghost u0 = unmarked@;
                let mut tracer = Tracer {
                    traced: true,
                    worklist: Vec::new(),
                    colors: unmarked,
                    live: Ghost(live_slots(h)),
                };
                let ghost t0 = tracer@;
                d.object.trace(&mut tracer);
                proof {
                    lemma_trace_all_unmarked(t0, hs);
                    lemma_trace_all(t0, hs);
                    assert(tracer.worklist@ =~= hs);
                }
                let mut j: usize = 0;
                while j < tracer.worklist.len()
                    invariant
                        h == self@,
                        n == self.objs@.len(),
                        0 <= x < n,
                        h.live(x as int),
                        hs == h.value(x as int).handles(),
                        tracer.worklist@ == hs,
                        tracer.colors@ == u0,
                        u0.len() == n,
                        forall|t: int| 0 <= t < n ==> !#[trigger] u0[t],
                        h.handles_live(hs),
                        j <= hs.len(),
                        r@.len() == n,
                        forall|t: int|
                            0 <= t < n ==> (#[trigger] r@[t] <==> (exists|y: int|
                                0 <= y < x && h.edge(y, t)) || exists|i: int|
                                0 <= i < j && hs[i].slot == t),
                    decreases hs.len() - j,
                {
                    let slot = tracer.worklist[j].slot;
                    proof {
                        assert(h.live(hs[j as int].slot as int));
                    }
                    r.set(slot, true);
                    proof {
                        assert forall|t: int|
                            0 <= t < n implies (#[trigger] r@[t] <==> (exists|y: int|
                                0 <= y < x && h.edge(y, t)) || exists|i: int|
                                0 <= i < j + 1 && hs[i].slot == t) by {
                            if t == slot as int {
                                assert(hs[j as int].slot == t);
                            } else if exists|i: int| 0 <= i < j + 1 && hs[i].slot == t {
                                let i = choose|i: int| 0 <= i < j + 1 && hs[i].slot == t;
                                assert(i != j);
                            }
                        }
                    }
                    j = j + 1;
                }
                unmarked = tracer.colors;
                proof {
                    assert forall|t: int|
                        0 <= t < n implies (#[trigger] r@[t] <==> exists|y: int|
                            0 <= y < x + 1 && h.edge(y, t)) by {
                        if exists|i: int| 0 <= i < hs.len() && hs[i].slot == t {
                            let i = choose|i: int| 0 <= i < hs.len() && hs[i].slot == t;
                            assert(h.value(x as int).handles()[i].slot == t);
                            assert(h.edge(x as int, t));
                        }
                        if h.edge(x as int, t) {
                            let i = choose|i: int|
                                0 <= i < h.value(x as int).handles().len() && (#[trigger] h.value(
                                    x as int,
                                ).handles()[i]).slot == t;
                            assert(hs[i].slot == t);
                        }
                        if exists|y: int| 0 <= y < x + 1 && h.edge(y, t) {
                            let y = choose|y: int| 0 <= y < x + 1 && h.edge(y, t);
                            if y < x {
                                assert(0 <= y < x && h.edge(y, t));
                            }
                        }
                    }
                }
            } else {
                proof {
                    assert(!h.live(x as int));
                    assert forall|t: int|
                        0 <= t < n implies (#[trigger] r@[t] <==> exists|y: int|
                            0 <= y < x + 1 && h.edge(y, t)) by {
                        if exists|y: int| 0 <= y < x + 1 && h.edge(y, t) {
                            let y = choose|y: int| 0 <= y < x + 1 && h.edge(y, t);
                            assert(y != x);
                            assert(0 <= y < x && h.edge(y, t));
                        }
                    }
                }
            }
            x = x + 1;
        }
        proof {
            assert forall|t: int| 0 <= t < r@.len() implies (#[trigger] r@[t] <==> exists|y: int|
                h.edge(y, t)) by {
                if exists|y: int| h.edge(y, t) {
                    let y = choose|y: int| h.edge(y, t);
                    assert(0 <= y < n);
                }
            }
        }
        r
    }

    /// Frees, again and again until there are none, the objects that are
    /// not rooted and that no object holds a handle to. None of them can be
    /// reached, so what can be reached stays as it is.
    fn free_unreferenced(&mut self)
        requires
            old(self).wf(),
        ensures
            final(self).wf(),
            final(self)@.objs.len() == old(self)@.objs.len(),
            forall|s: int|
                #[trigger] final(self)@.live(s) ==> old(self)@.live(s) && final(self)@.objs[s]
                    == old(self)@.objs[s],
            forall|s: int|
                #[trigger] final(self)@.live(s) <==> exists|set: Set<int>|
                    self_supported(old(self)@, set) && #[trigger] set.contains(s),
            forall|s: int|
                #[trigger] final(self)@.live(s) && !final(self)@.rooted(s) ==> exists|x: int|
                    final(self)@.edge(x, s),
            forall|s: int| #[trigger] final(self)@.reachable(s) <==> old(self)@.reachable(s),
            final(self)@.traced_color == old(self)@.traced_color,
            final(self)@.next_gc == old(self)@.next_gc,
    {
        let ghost h0 = self@;
        loop
            invariant
                self.wf(),
                self@.objs.len() == h0.objs.len(),
                forall|s: int|
                    #[trigger] self@.live(s) ==> h0.live(s) && self@.objs[s] == h0.objs[s],
                forall|s: int| #[trigger] self@.reachable(s) <==> h0.reachable(s),
                forall|set: Set<int>, t: int|
                    #![trigger self_supported(h0, set), set.contains(t)]
                    self_supported(h0, set) && set.contains(t) ==> self@.live(t),
                self@.traced_color == h0.traced_color,
                self@.next_gc == h0.next_gc,
            ensures
                forall|t: int|
                    #[trigger] self@.live(t) && !self@.rooted(t) ==> exists|x: int|
                        self@.edge(x, t),
            decreases self.live,
        {
            let before = self.live;
            let referenced = self.referenced();
            let ghost hs = self@;
            let ghost objs0 = self.objs@;
            let n = self.objs.len();
            let mut s: usize = 0;
            while s < n
                invariant
                    self.wf(),
                    n == self.objs@.len(),
                    self@.objs.len() == hs.objs.len(),
                    s <= n,
                    self.live <= before,
                    self.live < before || self.objs@ == objs0,
                    referenced@.len() == n,
                    forall|t: int|
                        0 <= t < n ==> (#[trigger] referenced@[t] <==> exists|x: int|
                            hs.edge(x, t)),
                    forall|t: int|
                        #[trigger] self@.live(t) ==> hs.live(t) && self@.objs[t] == hs.objs[t],
                    forall|t: int| #[trigger] hs.live(t) ==> h0.live(t) && hs.objs[t] == h0.objs[t],
                    forall|set: Set<int>, t: int|
                        #![trigger self_supported(h0, set), set.contains(t)]
                        self_supported(h0, set) && set.contains(t) ==> hs.live(t),
                    forall|set: Set<int>, t: int|
                        #![trigger self_supported(h0, set), set.contains(t)]
                        self_supported(h0, set) && set.contains(t) ==> self@.live(t),
                    forall|t: int|
                        0 <= t < s ==> #[trigger] self@.live(t) && !self@.rooted(t) ==> exists|
                            x: int,
                        | hs.edge(x, t),
                    forall|t: int| #[trigger] self@.reachable(t) <==> hs.reachable(t),
                    self@.traced_color == hs.traced_color,
                    self@.next_gc == hs.next_gc,
                decreases n - s,
            {
                proof {
                    assert(self@.objs[s as int] == heap_obj(self.objs@[s as int]));
                }
                let free = match &self.objs[s] {
                    Some(d) => d.roots == 0 && !referenced[s],
                    None => false,
                };
                if free {
                    let ghost cur = self@;
                    proof {
                        assert forall|set: Set<int>|
                            #[trigger] self_supported(h0, set) implies !set.contains(s as int) by {
                            if set.contains(s as int) {
                                assert(hs.live(s as int));
                                assert(!h0.rooted(s as int));
                                let x = choose|x: int| set.contains(x) && h0.edge(x, s as int);
                                assert(hs.live(x));
                                assert(hs.value(x) == h0.value(x));
                                assert(hs.edge(x, s as int));
                            }
                        }
                        assert(cur.live(s as int));
                        assert(!cur.rooted(s as int));
                        assert forall|x: int| !cur.edge(x, s as int) by {
                            if cur.edge(x, s as int) {
                                let j = choose|j: int|
                                    0 <= j < cur.value(x).handles().len() && (#[trigger] cur.value(
                                        x,
                                    ).handles()[j]).slot == s as int;
                                assert(hs.live(x));
                                assert(cur.value(x) == hs.value(x));
                                assert(hs.edge(x, s as int));
                            }
                        }
                        lemma_count_live_free(cur.objs, s as int);
                        lemma_count_live_bound(cur.objs);
                    }
                    self.objs.set(s, None);
                    self.live = self.live - 1;
                    proof {
                        let next = self@;
                        assert(next.objs =~= cur.objs.update(s as int, None));
                        lemma_free_unreferenced(cur, next, s as int);
                        assert forall|x: int| #[trigger] next.live(x) implies self.colors@[x]
                            != self.traced_color by {
                            assert(cur.live(x));
                        }
                        assert forall|x: int| #[trigger] next.live(x) implies hs.live(x)
                            && next.objs[x] == hs.objs[x] by {
                            assert(cur.live(x));
                        }
                        assert forall|set: Set<int>, t: int|
                            #![trigger self_supported(h0, set), set.contains(t)]
                            self_supported(h0, set) && set.contains(t) implies next.live(t) by {
                            assert(t != s as int);
                            assert(cur.live(t));
                        }
                        assert forall|t: int|
                            0 <= t < s + 1 && #[trigger] next.live(t) && !next.rooted(t) implies exists|
                                x: int,
                            | hs.edge(x, t) by {
                            if t < s {
                                assert(next.objs[t] == cur.objs[t]);
                                assert(cur.live(t) == next.live(t));
                                assert(cur.rooted(t) == next.rooted(t));
                            } else {
                                assert(next.objs[t] is None);
                            }
                        }
                    }
                } else {
                    proof {
                        let cur = self@;
                        assert forall|t: int|
                            0 <= t < s + 1 && #[trigger] cur.live(t) && !cur.rooted(t) implies exists|
                                x: int,
                            | hs.edge(x, t) by {
                            if t == s as int {
                                assert(referenced@[t]);
                            }
                        }
                    }
                }
                s = s + 1;
            }
            if self.live == before {
                proof {
                    assert(self.objs@ == objs0);
                    assert(self@ == hs);
                }
                break;
            }
        }
        proof {
            let f = self@;
            assert forall|s: int| #[trigger] f.live(s) implies exists|set: Set<int>|
                self_supported(h0, set) && #[trigger] set.contains(s) by {
                let set = Set::new(|t: int| f.live(t));
                assert forall|t: int| #[trigger] set.contains(t) implies h0.live(t) && (h0.rooted(t)
                    || exists|x: int| set.contains(x) && h0.edge(x, t)) by {
                    assert(f.objs[t] == h0.objs[t]);
                    if !f.rooted(t) {
                        let x = choose|x: int| f.edge(x, t);
                        assert(f.value(x) == h0.value(x));
                        assert(set.contains(x) && h0.edge(x, t));
                    }
                }
                assert(self_supported(h0, set));
                assert(set.contains(s));
            }
        }
    }
}

/// Trace handles into a tracer whose colors none of them has queues them
/// all.
proof fn lemma_trace_all_unmarked(t: TracerV, hs: Seq<Handle>)
    requires
        traceable(t, hs),
        forall|i: int| 0 <= i < hs.len() ==> t.colors[(#[trigger] hs[i]).slot as int] != t.traced,
    ensures
        trace_all(t, hs).worklist == t.worklist + hs,
    decreases hs.len(),
{
    if hs.len() > 0 {
        let hd = hs.drop_last();
        assert forall|i: int| 0 <= i < hd.len() implies (#[trigger] hd[i]).slot < t.colors.len()
            && t.colors[hd[i].slot as int] != t.traced by {
            assert(hd[i] == hs[i]);
        }
        lemma_trace_all_unmarked(t, hd);
        lemma_trace_all(t, hd);
        assert(hs[hs.len() - 1] == hs.last());
        assert(t.worklist + hd + seq![hs.last()] =~= t.worklist + hs);
    }
}

/// Freeing an object that is not rooted and that no object holds a handle
/// to keeps the handles closed and what can be reached as it is; the object
/// itself could not be reached.
proof fn lemma_free_unreferenced<T: Trace>(h: HeapV<T>, g: HeapV<T>, s: int)
    requires
        h.closed(),
        h.live(s),
        !h.rooted(s),
        forall|x: int| !h.edge(x, s),
        g.objs == h.objs.update(s, None),
    ensures
        g.closed(),
        !h.reachable(s),
        forall|y: int| #[trigger] g.reachable(y) <==> h.reachable(y),
{
    assert(!h.reachable(s)) by {
        if h.reachable(s) {
            let p = choose|p: Seq<int>| #[trigger] h.is_path(p) && p.last() == s;
            if p.len() == 1 {
                assert(h.rooted(p[0]));
            } else {
                let k = p.len() - 2;
                assert(h.edge(p[k], p[k + 1]));
            }
        }
    }
    assert forall|x: int| #[trigger] g.live(x) implies g.handles_live(g.value(x).handles()) by {
        assert(h.live(x));
        assert(g.value(x) == h.value(x));
        assert forall|i: int| 0 <= i < g.value(x).handles().len() implies g.live(
            (#[trigger] g.value(x).handles()[i]).slot as int,
        ) by {
            let t = h.value(x).handles()[i].slot as int;
            assert(h.live(t));
            if t == s {
                assert(h.edge(x, s));
            }
        }
    }
    assert forall|y: int| #[trigger] g.reachable(y) <==> h.reachable(y) by {
        if g.reachable(y) {
            let p = choose|p: Seq<int>| #[trigger] g.is_path(p) && p.last() == y;
            assert forall|i: int| 0 <= i < p.len() implies h.live(#[trigger] p[i]) by {
                assert(g.live(p[i]));
            }
            assert forall|i: int| 0 <= i < p.len() - 1 implies #[trigger] h.edge(p[i], p[i + 1]) by {
                assert(g.edge(p[i], p[i + 1]));
                assert(g.live(p[i]));
                assert(g.value(p[i]) == h.value(p[i]));
            }
            assert(g.rooted(p[0]));
            assert(h.is_path(p));
        }
        if h.reachable(y) {
            let p = choose|p: Seq<int>| #[trigger] h.is_path(p) && p.last() == y;
            assert forall|i: int| 0 <= i < p.len() implies p[i] != s by {
                if p[i] == s {
                    if i == 0 {
                        assert(h.rooted(p[0]));
                    } else {
                        let k = i - 1;
                        assert(h.edge(p[k], p[k + 1]));
                    }
                }
            }
            assert forall|i: int| 0 <= i < p.len() implies g.live(#[trigger] p[i]) by {
                assert(h.live(p[i]));
                assert(p[i] != s);
            }
            assert forall|i: int| 0 <= i < p.len() - 1 implies #[trigger] g.edge(p[i], p[i + 1]) by {
                assert(h.edge(p[i], p[i + 1]));
                assert(p[i] != s);
                assert(g.value(p[i]) == h.value(p[i]));
            }
            assert(p[0] != s);
            assert(g.rooted(p[0]));
            assert(g.is_path(p));
        }
    }
}

/// Two heaps with the same objects in the same slots, only their root
/// counts differing, have the same shape.
proof fn lemma_same_shape<T: Trace>(a: HeapV<T>, b: HeapV<T>)
    requires
        a.objs.len() == b.objs.len(),
        forall|s: int| 0 <= s < a.objs.len() ==> (a.objs[s] is Some <==> b.objs[s] is Some),
        forall|s: int| #[trigger] a.live(s) ==> a.value(s) == b.value(s),
        a.closed(),
    ensures
        b.closed(),
        forall|s: int| #[trigger] b.live(s) <==> a.live(s),
        count_live(a.objs) == count_live(b.objs),
{
    assert forall|s: int| #[trigger] b.live(s) implies b.handles_live(b.value(s).handles()) by {
        assert(a.live(s));
        assert forall|i: int| 0 <= i < b.value(s).handles().len() implies b.live(
            (#[trigger] b.value(s).handles()[i]).slot as int,
        ) by {
            assert(a.live(a.value(s).handles()[i].slot as int));
        }
    }
    lemma_count_same_shape(a.objs, b.objs);
}

/// Slot tables with objects in the same slots count the same.
proof fn lemma_count_same_shape<T>(a: Seq<Option<HeapObj<T>>>, b: Seq<Option<HeapObj<T>>>)
    requires
        a.len() == b.len(),
        forall|s: int| 0 <= s < a.len() ==> (a[s] is Some <==> b[s] is Some),
    ensures
        count_live(a) == count_live(b),
    decreases a.len(),
{
    if a.len() > 0 {
        assert forall|s: int| 0 <= s < a.len() - 1 implies (a.drop_last()[s] is Some
            <==> b.drop_last()[s] is Some) by {
            assert(a.drop_last()[s] == a[s]);
            assert(b.drop_last()[s] == b[s]);
        }
        lemma_count_same_shape(a.drop_last(), b.drop_last());
    }
}

} // verus!
