use mpclipboard_generic_client::clip::Clip;
use mpclipboard_generic_client::store::Store;

#[test]
fn newer_than_needs_greater_timestamp_and_different_text() {
    let a = Clip::with_timestamp("a", 100);
    let b = Clip::with_timestamp("b", 200);
    assert!(b.newer_than(&a));
    assert!(!a.newer_than(&b));
    // equal timestamp: never newer, even with different text
    let c = Clip::with_timestamp("c", 100);
    assert!(!c.newer_than(&a));
    // same text: never newer, even with a later timestamp
    let a2 = Clip::with_timestamp("a", 300);
    assert!(!a2.newer_than(&a));
}

#[test]
fn empty_store_accepts_anything() {
    let mut store = Store::new();
    let clip = Clip::with_timestamp("hello", 1);
    assert!(store.add(&clip));
}

#[test]
fn accepted_add_remembers_the_clip_by_value() {
    let mut store = Store::new();
    let clip = Clip::with_timestamp("hello", 10);
    assert!(store.add(&clip));
    // the remembered clip now blocks an equal one but not a newer one
    assert!(!store.add(&Clip::with_timestamp("hello", 10)));
    assert!(store.add(&Clip::with_timestamp("world", 11)));
}

#[test]
fn add_same_clip_twice_second_returns_false() {
    let mut store = Store::new();
    let clip = Clip::with_timestamp("x", 42);
    assert!(store.add(&clip));
    assert!(!store.add(&clip));
}

#[test]
fn duplicate_text_with_nondecreasing_timestamp_rejected() {
    let mut store = Store::new();
    assert!(store.add(&Clip::with_timestamp("same", 100)));
    assert!(!store.add(&Clip::with_timestamp("same", 100)));
    assert!(!store.add(&Clip::with_timestamp("same", 500)));
}

#[test]
fn equal_timestamp_different_text_rejected() {
    let mut store = Store::new();
    assert!(store.add(&Clip::with_timestamp("a", 100)));
    assert!(!store.add(&Clip::with_timestamp("b", 100)));
}

#[test]
fn out_of_order_clips() {
    // Store has {"a", 100}; older, duplicate-text and in-between clips
    let mut store = Store::new();
    assert!(store.add(&Clip::with_timestamp("a", 100)));
    assert!(!store.add(&Clip::with_timestamp("b", 50)));
    assert!(!store.add(&Clip::with_timestamp("a", 200)));
    assert!(store.add(&Clip::with_timestamp("c", 150)));
}

#[test]
fn clip_equality_is_by_value() {
    let a = Clip::with_timestamp("t", 7);
    let b = Clip::with_timestamp("t", 7);
    let c = Clip::with_timestamp("t", 8);
    assert_eq!(a, b);
    assert_ne!(a, c);
    let d = a.clone();
    assert_eq!(a, d);
}

#[test]
fn clip_new_stamps_the_text_with_the_wall_clock() {
    let clip = Clip::new("fresh");
    assert_eq!(clip.text, "fresh");
    // the wall clock reads well past the epoch
    assert!(clip.timestamp > 0);
    // a clip stamped now supersedes one stamped in 2001, text differing
    let old = Clip::with_timestamp("stale", 1_000_000_000_000);
    assert!(clip.newer_than(&old));
}
