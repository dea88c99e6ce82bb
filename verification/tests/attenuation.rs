use thinfilm::attenuation::attenuation;

const ONE: i64 = 1_000_000_000;

#[test]
fn attenuation_of_no_phase_is_one() {
    assert_eq!(attenuation(0), ONE);
}

#[test]
fn attenuation_at_given_phases() {
    assert_eq!(attenuation(1), 999_999_999);
    assert_eq!(attenuation(500_000_000), 367_879_441);
    assert_eq!(attenuation(1_000_000_000), 135_335_283);
    assert_eq!(attenuation(5_000_000_000), 45_399);
}

#[test]
fn attenuation_halves_at_each_logarithm_of_two() {
    assert_eq!(attenuation(346_573_590), 500_000_001);
    assert_eq!(attenuation(346_573_591), 499_999_999);
}

#[test]
fn attenuation_vanishes_for_thick_films() {
    assert_eq!(attenuation(10_397_207_714), 0);
    assert_eq!(attenuation(10_397_207_715), 0);
    assert_eq!(attenuation(1_000_000_000_000), 0);
    assert_eq!(attenuation(u128::MAX), 0);
}

#[test]
fn attenuation_follows_the_exponential() {
    let mut phase: u128 = 0;
    while phase < 12_000_000_000 {
        let expected = (-2.0 * phase as f64 / ONE as f64).exp();
        let got = attenuation(phase) as f64 / ONE as f64;
        assert!((got - expected).abs() < 2.5e-9, "at {phase}: {got} against {expected}");
        phase += 1_234_567;
    }
}

#[test]
fn attenuation_is_a_fraction_and_never_grows() {
    let mut before = ONE;
    let mut phase: u128 = 0;
    while phase < 11_000_000_000 {
        let a = attenuation(phase);
        assert!(0 <= a && a <= ONE);
        assert!(a <= before, "at {phase}");
        before = a;
        phase += 7_654_321;
    }
}
