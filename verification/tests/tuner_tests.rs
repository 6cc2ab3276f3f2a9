use uffs::tuner::Tuner;
use uffs::tuner::find_best_configuration;
use uffs::tuner::optimize_parameter;

/// A synthetic duration curve with its optimum hidden at 64.
fn duration_of(v: usize) -> u64 {
    (v as i64 - 64).unsigned_abs() + 1
}

#[test]
fn probes_grow_and_bisect_toward_hidden_optimum() {
    // Initial guess 16, step 2: the growth phase probes 32, 64, 128,
    // accepting 32 and 64 and rejecting 128; the bisection phase brackets
    // [32, 64] and converges onto 64.
    let mut t = Tuner::start(16, duration_of(16));
    let expected_probes: Vec<usize> = vec![32, 64, 128, 48, 56, 60, 62, 63];
    let mut seen: Vec<usize> = Vec::new();
    while t.has_probe() {
        let v = t.next_probe_value();
        seen.push(v);
        t.observe(duration_of(v));
    }
    assert_eq!(seen, expected_probes);
    assert_eq!(t.best_value, 64);
}

#[test]
fn best_duration_never_grows() {
    let mut t = Tuner::start(16, duration_of(16));
    let mut last = t.best_duration;
    while t.has_probe() {
        let v = t.next_probe_value();
        t.observe(duration_of(v));
        assert!(t.best_duration <= last);
        last = t.best_duration;
    }
}

#[test]
fn driver_finds_the_optimum() {
    let best = optimize_parameter(16, |v: usize| duration_of(v));
    assert_eq!(best, 64);
}

#[test]
fn driver_bisects_downward_when_smaller_is_better() {
    // Durations grow with the parameter: the first doubled probe already
    // fails, and bisection inside [8, 16] walks down through 12, 10, 9.
    let best = optimize_parameter(16, |v: usize| v as u64);
    assert_eq!(best, 9);
}

#[test]
fn fastest_configuration_wins() {
    let measured = vec![
        ((8, 16), 900u64),
        ((22, 44), 350),
        ((16, 32), 500),
        ((24, 48), 350),
    ];
    // 350 ns first appears with (22, 44); the later tie does not displace it.
    assert_eq!(find_best_configuration(&measured), (22, 44));
    assert_eq!(find_best_configuration(&Vec::new()), (0, 0));
}

#[test]
fn bisection_can_lower_past_the_growth_result() {
    // The optimum sits at 12, below the initial guess: growth contributes
    // nothing, and bisection inside [8, 16] finds 12.
    let best = optimize_parameter(16, |v: usize| (v as i64 - 12).unsigned_abs() + 1);
    assert_eq!(best, 12);
}
