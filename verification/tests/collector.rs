use jazzlight::vm::gc::{gc_alloc, gc_collect, Gc, Handle};

#[test]
fn rooted_objects_survive_collection() {
    let mut gc: Gc<Vec<Handle>> = Gc::new();
    let a = gc.allocate(vec![]);
    let b = gc.allocate(vec![a.new_handle()]);
    gc.force_full_collect();
    assert!(gc.is_alive(a.new_handle()));
    assert!(gc.is_alive(b.new_handle()));
    assert_eq!(gc.get(&b), &vec![a.new_handle()]);
    assert_eq!(gc.estimate_heap_size(), 2);
}

#[test]
fn objects_reached_through_handles_survive() {
    let mut gc: Gc<Vec<Handle>> = Gc::new();
    let a = gc.allocate(vec![]);
    let ha = a.new_handle();
    let b = gc.allocate(vec![ha]);
    gc.unroot(a);
    gc.force_full_collect();
    assert!(gc.is_alive(ha));
    assert!(gc.is_alive(b.new_handle()));
}

#[test]
fn unreachable_objects_are_freed() {
    let mut gc: Gc<Vec<Handle>> = Gc::new();
    let a = gc.allocate(vec![]);
    let ha = a.new_handle();
    let b = gc.allocate(vec![]);
    gc.unroot(a);
    gc.force_full_collect();
    assert!(!gc.is_alive(ha));
    assert!(gc.is_alive(b.new_handle()));
    assert_eq!(gc.estimate_heap_size(), 1);
}

#[test]
fn unreachable_cycles_are_freed() {
    let mut gc: Gc<Vec<Handle>> = Gc::new();
    let x = gc.allocate(vec![]);
    let hx = x.new_handle();
    let y = gc.allocate(vec![hx]);
    let hy = y.new_handle();
    let old = gc.replace(&x, vec![hy]);
    assert!(old.is_empty());
    gc.force_full_collect();
    assert!(gc.is_alive(hx) && gc.is_alive(hy));
    gc.unroot(x);
    gc.unroot(y);
    gc.force_full_collect();
    assert!(!gc.is_alive(hx));
    assert!(!gc.is_alive(hy));
    assert_eq!(gc.estimate_heap_size(), 0);
}

#[test]
fn collecting_twice_frees_nothing_more() {
    let mut gc: Gc<Vec<Handle>> = Gc::new();
    let a = gc.allocate(vec![]);
    let b = gc.allocate(vec![a.new_handle()]);
    let c = gc.allocate(vec![]);
    let hc = c.new_handle();
    gc.unroot(a);
    gc.unroot(c);
    gc_collect(&mut gc);
    let after_first = gc.estimate_heap_size();
    gc_collect(&mut gc);
    assert_eq!(gc.estimate_heap_size(), after_first);
    assert_eq!(after_first, 2);
    assert!(!gc.is_alive(hc));
    assert!(gc.is_alive(b.new_handle()));
}

#[test]
fn allocation_collects_at_the_threshold() {
    let mut gc: Gc<Vec<Handle>> = Gc::new();
    let mut handles = vec![];
    for _ in 0..31 {
        let r = gc.allocate(vec![]);
        handles.push(r.new_handle());
        gc.unroot(r);
    }
    assert_eq!(gc.estimate_heap_size(), 31);
    let last = gc_alloc(&mut gc, vec![]);
    assert_eq!(gc.estimate_heap_size(), 1);
    assert!(gc.is_alive(last.new_handle()));
    assert!(handles.iter().all(|h| !gc.is_alive(*h)));
    // The next threshold is twice the heap left, so the next allocation
    // collects again.
    let next = gc.allocate(vec![]);
    assert_eq!(gc.estimate_heap_size(), 2);
    assert!(gc.is_alive(next.new_handle()));
}

#[test]
fn allocate_nocollect_never_collects() {
    let mut gc: Gc<u64> = Gc::new();
    let mut kept = vec![];
    for i in 0..40u64 {
        let r = gc.allocate_nocollect(i);
        kept.push(r.new_handle());
        gc.unroot(r);
    }
    assert_eq!(gc.estimate_heap_size(), 40);
    gc.force_full_collect();
    assert_eq!(gc.estimate_heap_size(), 0);
}

#[test]
fn nested_vectors_trace_every_handle() {
    let mut gc: Gc<Vec<Vec<Handle>>> = Gc::new();
    let a = gc.allocate(vec![]);
    let b = gc.allocate(vec![]);
    let ha = a.new_handle();
    let hb = b.new_handle();
    let c = gc.allocate(vec![vec![ha], vec![], vec![hb, ha]]);
    gc.unroot(a);
    gc.unroot(b);
    gc.force_full_collect();
    assert!(gc.is_alive(ha) && gc.is_alive(hb) && gc.is_alive(c.new_handle()));
    gc.unroot(c);
    gc.force_full_collect();
    assert_eq!(gc.estimate_heap_size(), 0);
}

#[test]
fn a_rooted_objects_handle_stays_valid_across_allocations_and_collections() {
    let mut gc: Gc<Vec<Handle>> = Gc::new();
    let keep = gc.allocate(vec![]);
    let h = keep.new_handle();
    for i in 0..100 {
        let tmp = gc.allocate(vec![h]);
        if i % 3 == 0 {
            gc.unroot(tmp);
        }
        if i % 7 == 0 {
            gc.force_full_collect();
        }
        assert!(gc.is_alive(h));
        assert_eq!(gc.get(&keep), &Vec::<Handle>::new());
    }
}

#[test]
fn roots_lists_rooted_objects_in_slot_order() {
    let mut gc: Gc<Vec<Handle>> = Gc::new();
    let a = gc.allocate(vec![]);
    let b = gc.allocate(vec![]);
    let c = gc.allocate(vec![b.new_handle()]);
    assert_eq!(
        gc.roots(),
        vec![a.new_handle(), b.new_handle(), c.new_handle()]
    );
    gc.unroot(b);
    assert_eq!(gc.roots(), vec![a.new_handle(), c.new_handle()]);
}
