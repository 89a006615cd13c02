use satty::profiling::{enabled, init, mark, mark_detail, scope, scope_detail, set_enabled, Profiler};

#[test]
fn nothing_is_reported_while_switched_off() {
    let mut profiler = Profiler::new();
    assert!(!enabled(&profiler));
    assert_eq!(mark(&mut profiler, 5, "a"), None);
    assert_eq!(mark_detail(&mut profiler, 5, "a", "b"), None);
    assert_eq!(profiler.start, None);
    let part = scope(&profiler, 5, "a");
    set_enabled(&mut profiler, true);
    assert_eq!(part.finish(&mut profiler, 6), None);
}

const MS: u128 = 1_000_000;

#[test]
fn events_are_reported_with_their_time() {
    let mut profiler = Profiler::new();
    init(&mut profiler, 100 * MS);
    init(&mut profiler, 200 * MS);
    set_enabled(&mut profiler, true);
    assert!(enabled(&profiler));
    assert_eq!(mark(&mut profiler, 100 * MS, "a").unwrap(), "    0 ms time elapsed: a");
    assert_eq!(mark(&mut profiler, 142 * MS, "b").unwrap(), "   42 ms time elapsed: b");
    assert_eq!(
        mark_detail(&mut profiler, 1_234_667 * MS, "c", "d").unwrap(),
        "1234567 ms time elapsed: c (d)"
    );
    assert_eq!(mark(&mut profiler, 90 * MS, "e").unwrap(), "    0 ms time elapsed: e");
}

#[test]
fn first_report_starts_the_clock() {
    let mut profiler = Profiler::new();
    set_enabled(&mut profiler, true);
    assert_eq!(mark(&mut profiler, 70 * MS, "a").unwrap(), "    0 ms time elapsed: a");
    assert_eq!(mark(&mut profiler, 75 * MS, "b").unwrap(), "    5 ms time elapsed: b");
}

#[test]
fn only_the_difference_is_cut_to_milliseconds() {
    let mut profiler = Profiler::new();
    init(&mut profiler, 0);
    set_enabled(&mut profiler, true);
    let short = scope(&profiler, 900_000, "short");
    assert_eq!(
        short.finish(&mut profiler, 1_100_000).unwrap(),
        "    1 ms time elapsed: short completed in 0 ms"
    );
    let long = scope(&profiler, 1_900_000, "long");
    assert_eq!(
        long.finish(&mut profiler, 2_900_000).unwrap(),
        "    2 ms time elapsed: long completed in 1 ms"
    );
}

#[test]
fn parts_are_reported_when_they_end() {
    let mut profiler = Profiler::new();
    init(&mut profiler, 0);
    set_enabled(&mut profiler, true);
    let first = scope(&profiler, 10 * MS, "load");
    let second = scope_detail(&profiler, 20 * MS, "draw", "3 objects".to_string());
    assert_eq!(
        second.finish(&mut profiler, 110 * MS).unwrap(),
        "  110 ms time elapsed: draw completed in 90 ms (3 objects)"
    );
    set_enabled(&mut profiler, false);
    assert_eq!(
        first.finish(&mut profiler, 12345 * MS).unwrap(),
        "12345 ms time elapsed: load completed in 12335 ms"
    );
}
