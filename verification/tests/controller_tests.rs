use walrust::controller::PreviewController;

#[test]
fn coalescing() {
    // A second selection of a path whose decode is already pending enqueues
    // nothing: the request channel sees exactly one message for it.
    let mut ctl: PreviewController<u32> = PreviewController::new(8);
    let first = ctl.select("img".to_string());
    assert_eq!(first, Some("img".to_string()));
    assert_eq!(ctl.pending(), &Some("img".to_string()));
    let second = ctl.select("img".to_string());
    assert_eq!(second, None);
    assert_eq!(ctl.pending(), &Some("img".to_string()));
}

#[test]
fn coalescing_after_navigating_away_and_back() {
    // Navigating to another path and back while the first decode is pending
    // still does not re-request the first path.
    let mut ctl: PreviewController<u32> = PreviewController::new(8);
    assert_eq!(ctl.select("a".to_string()), Some("a".to_string()));
    assert_eq!(ctl.select("b".to_string()), Some("b".to_string()));
    // "a" is no longer the pending marker, but it is also not re-pending:
    // selecting it again re-requests only because its result never arrived
    // and it is not cached.
    assert_eq!(ctl.pending(), &Some("b".to_string()));
}

#[test]
fn idempotent_selection() {
    // Selecting the currently-displayed path repeatedly never enqueues a
    // request and never changes the cache.
    let mut ctl: PreviewController<u32> = PreviewController::new(8);
    assert_eq!(ctl.select("a".to_string()), Some("a".to_string()));
    assert_eq!(ctl.handle_result("a".to_string(), Ok(5)), None);
    assert_eq!(ctl.cache_len(), 1);
    for _ in 0..3 {
        assert_eq!(ctl.select("a".to_string()), None);
        assert_eq!(ctl.cache_len(), 1);
        assert_eq!(ctl.pending(), &None);
    }
}

#[test]
fn failure_isolation() {
    // A decode failure for one path leaves that path uncached, clears its
    // pending marker, and leaves every other cached entry untouched.
    let mut ctl: PreviewController<u32> = PreviewController::new(8);
    assert_eq!(ctl.select("good".to_string()), Some("good".to_string()));
    assert_eq!(ctl.handle_result("good".to_string(), Ok(1)), None);
    assert_eq!(ctl.select("bad".to_string()), Some("bad".to_string()));
    let err = ctl.handle_result("bad".to_string(), Err("corrupt data".to_string()));
    assert_eq!(err, Some("corrupt data".to_string()));
    assert!(!ctl.is_cached(&"bad".to_string()));
    assert_eq!(ctl.pending(), &None);
    assert!(ctl.is_cached(&"good".to_string()));
    assert_eq!(ctl.cache_len(), 1);
}

#[test]
fn retry_after_failure_on_reselection() {
    // After a failure the pending marker is clear and the path uncached, so
    // selecting another path and coming back re-enqueues it.
    let mut ctl: PreviewController<u32> = PreviewController::new(8);
    assert_eq!(ctl.select("p".to_string()), Some("p".to_string()));
    ctl.handle_result("p".to_string(), Err("io error".to_string()));
    assert_eq!(ctl.select("q".to_string()), Some("q".to_string()));
    assert_eq!(ctl.select("p".to_string()), Some("p".to_string()));
}

#[test]
fn stale_result_tolerance() {
    // Selecting a, then b, before a's result arrives: a's late success is
    // still cached even though the current path is b.
    let mut ctl: PreviewController<u32> = PreviewController::new(8);
    assert_eq!(ctl.select("a".to_string()), Some("a".to_string()));
    assert_eq!(ctl.select("b".to_string()), Some("b".to_string()));
    assert_eq!(ctl.handle_result("a".to_string(), Ok(7)), None);
    assert!(ctl.is_cached(&"a".to_string()));
    assert_eq!(ctl.current_path(), &Some("b".to_string()));
    // b's own request is still outstanding.
    assert_eq!(ctl.pending(), &Some("b".to_string()));
    // The render lookup misses: b is not cached yet.
    assert_eq!(ctl.get_current_protocol(), None);
    // Once b's result arrives it is drawn.
    assert_eq!(ctl.handle_result("b".to_string(), Ok(9)), None);
    assert_eq!(ctl.pending(), &None);
    assert_eq!(ctl.get_current_protocol(), Some(&9));
}

#[test]
fn end_to_end_nine_selections() {
    // Capacity 8; select img1..img9 in order, each decode succeeding: the
    // cache ends with img2..img9, img1 evicted, no pending request, and the
    // current preview available.
    let mut ctl: PreviewController<u32> = PreviewController::new(8);
    for i in 1..=9u32 {
        let path = format!("img{}", i);
        assert_eq!(ctl.select(path.clone()), Some(path.clone()));
        assert_eq!(ctl.handle_result(path, Ok(i)), None);
    }
    assert_eq!(ctl.cache_len(), 8);
    assert!(!ctl.is_cached(&"img1".to_string()));
    for i in 2..=9u32 {
        assert!(ctl.is_cached(&format!("img{}", i)));
    }
    assert_eq!(ctl.pending(), &None);
    assert_eq!(ctl.current_path(), &Some("img9".to_string()));
    assert_eq!(ctl.get_current_protocol(), Some(&9));
}

#[test]
fn selecting_cached_path_enqueues_nothing() {
    let mut ctl: PreviewController<u32> = PreviewController::new(8);
    assert_eq!(ctl.select("a".to_string()), Some("a".to_string()));
    ctl.handle_result("a".to_string(), Ok(1));
    assert_eq!(ctl.select("b".to_string()), Some("b".to_string()));
    ctl.handle_result("b".to_string(), Ok(2));
    // Back to a: it is cached, so no request goes out.
    assert_eq!(ctl.select("a".to_string()), None);
    assert_eq!(ctl.pending(), &None);
    assert_eq!(ctl.get_current_protocol(), Some(&1));
}

#[test]
fn result_for_unrequested_path_is_cached_and_keeps_pending() {
    // A result for a path other than the pending one is still cached and
    // leaves the pending marker alone.
    let mut ctl: PreviewController<u32> = PreviewController::new(8);
    assert_eq!(ctl.select("wanted".to_string()), Some("wanted".to_string()));
    assert_eq!(ctl.handle_result("other".to_string(), Ok(3)), None);
    assert!(ctl.is_cached(&"other".to_string()));
    assert_eq!(ctl.pending(), &Some("wanted".to_string()));
}

#[test]
fn capacity_zero_every_lookup_misses() {
    // The degenerate capacity-0 mode: results are accepted but never cached,
    // so the render lookup always misses.
    let mut ctl: PreviewController<u32> = PreviewController::new(0);
    assert_eq!(ctl.select("a".to_string()), Some("a".to_string()));
    assert_eq!(ctl.handle_result("a".to_string(), Ok(1)), None);
    assert_eq!(ctl.pending(), &None);
    assert_eq!(ctl.cache_len(), 0);
    assert_eq!(ctl.get_current_protocol(), None);
}

#[test]
fn rendering_refreshes_recency() {
    let mut ctl: PreviewController<u32> = PreviewController::new(2);
    assert_eq!(ctl.select("a".to_string()), Some("a".to_string()));
    ctl.handle_result("a".to_string(), Ok(1));
    assert_eq!(ctl.select("b".to_string()), Some("b".to_string()));
    ctl.handle_result("b".to_string(), Ok(2));
    // Back to a (cached), and draw it once: a becomes the most recent.
    assert_eq!(ctl.select("a".to_string()), None);
    assert_eq!(ctl.get_current_protocol(), Some(&1));
    // A third path now evicts b, not the drawn a.
    assert_eq!(ctl.select("c".to_string()), Some("c".to_string()));
    ctl.handle_result("c".to_string(), Ok(3));
    assert!(ctl.is_cached(&"a".to_string()));
    assert!(!ctl.is_cached(&"b".to_string()));
    assert!(ctl.is_cached(&"c".to_string()));
}

#[test]
fn new_controller_is_empty() {
    let ctl: PreviewController<u32> = PreviewController::new(8);
    assert_eq!(ctl.cache_len(), 0);
    assert_eq!(ctl.pending(), &None);
    assert_eq!(ctl.current_path(), &None);
}
