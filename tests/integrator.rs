use nbody::integrator::{Ratio, RungeKuttaFehlberg};

fn value(r: Ratio) -> f64 {
    r.num as f64 / r.den as f64
}

/// Exact sum of fractions, as (numerator, denominator) in i128.
fn exact_sum(terms: &[Ratio]) -> (i128, i128) {
    let mut acc: (i128, i128) = (0, 1);
    for t in terms {
        acc = (acc.0 * t.den as i128 + t.num as i128 * acc.1, acc.1 * t.den as i128);
    }
    acc
}

#[test]
fn test_rkf45_creation() {
    let _integrator = RungeKuttaFehlberg::new();
}

#[test]
fn test_rkf45_coefficients() {
    let integrator = RungeKuttaFehlberg::new();
    assert!((value(integrator.node(1)) - 0.25).abs() < 1e-10);
    assert!((value(integrator.weight5(0)) - (16.0 / 135.0)).abs() < 1e-10);
}

#[test]
fn default_tableau_is_fehlberg() {
    let a = RungeKuttaFehlberg::default();
    let b = RungeKuttaFehlberg::new();
    for s in 0..6 {
        assert_eq!(a.node(s), b.node(s));
        assert_eq!(a.weight5(s), b.weight5(s));
        assert_eq!(a.weight4(s), b.weight4(s));
    }
}

#[test]
fn coupling_rows_sum_to_nodes() {
    let t = RungeKuttaFehlberg::new();
    for s in 0..6 {
        let row: Vec<Ratio> = (0..s).map(|p| t.coupling(s, p)).collect();
        let (n, d) = exact_sum(&row);
        let c = t.node(s);
        assert_eq!(n * c.den as i128, c.num as i128 * d, "stage {}", s);
        for p in s..5 {
            assert_eq!(t.coupling(s, p).num, 0);
        }
    }
}

#[test]
fn stage_rows_match_fehlberg_table() {
    let t = RungeKuttaFehlberg::new();
    assert_eq!(t.coupling(1, 0), Ratio::new(1, 4));
    assert_eq!(t.coupling(2, 0), Ratio::new(3, 32));
    assert_eq!(t.coupling(2, 1), Ratio::new(9, 32));
    assert_eq!(t.coupling(3, 1), Ratio::new(-7200, 2197));
    assert_eq!(t.coupling(4, 1), Ratio::new(-8, 1));
    assert_eq!(t.coupling(5, 4), Ratio::new(-11, 40));
    assert_eq!(t.node(3), Ratio::new(12, 13));
}

#[test]
fn weights_sum_to_one() {
    let t = RungeKuttaFehlberg::new();
    let b5: Vec<Ratio> = (0..6).map(|s| t.weight5(s)).collect();
    let b4: Vec<Ratio> = (0..6).map(|s| t.weight4(s)).collect();
    let (n5, d5) = exact_sum(&b5);
    let (n4, d4) = exact_sum(&b4);
    assert_eq!(n5, d5);
    assert_eq!(n4, d4);
    assert_eq!(t.weight4(5), Ratio::new(0, 1));
    assert_eq!(t.weight5(5), Ratio::new(2, 55));
}

#[test]
fn weights_integrate_the_identity_to_one_half() {
    let t = RungeKuttaFehlberg::new();
    let s5: f64 = (0..6).map(|s| value(t.weight5(s)) * value(t.node(s))).sum();
    let s4: f64 = (0..6).map(|s| value(t.weight4(s)) * value(t.node(s))).sum();
    assert!((s5 - 0.5).abs() < 1e-12);
    assert!((s4 - 0.5).abs() < 1e-12);
}
