use sonos_mux::gain::{db_to_lin, lin_to_db, LIN_ONE};

const Q24: f64 = 16777216.0;

#[test]
fn test_db_conversion() {
    // 0 dB is exactly a linear gain of 1.
    assert_eq!(db_to_lin(0), LIN_ONE);

    // -6 dB is about 0.5012 linear gain.
    let lin = db_to_lin(-600) as f64 / Q24;
    assert!((lin - 0.5012).abs() < 0.0001);

    // -20 dB is a linear gain of 0.1.
    let lin = db_to_lin(-2000) as f64 / Q24;
    assert!((lin - 0.1).abs() < 0.0001);

    // Round trip over whole decibels, in millibels.
    let mb_values = [-2000i32, -1000, -600, -300, 0, 300, 600];
    for mb in mb_values {
        let lin = db_to_lin(mb);
        let mb_again = lin_to_db(lin);
        let diff_db = ((mb - mb_again) as f64 / 100.0).abs();
        assert!(
            diff_db < 0.01,
            "Round trip conversion failed: {} -> {} -> {}",
            mb,
            lin,
            mb_again
        );
    }
}

#[test]
fn ducking() {
    // -6 dB should be approximately 0.5 linear gain.
    let gain = db_to_lin(-600) as f64 / Q24;
    assert!((gain - 0.5).abs() < 0.01);

    // -12 dB should be approximately 0.25 linear gain.
    let gain = db_to_lin(-1200) as f64 / Q24;
    assert!((gain - 0.25).abs() < 0.01);
}

#[test]
fn gain_round_trip_over_supported_range() {
    // Every whole decibel of the supported range maps back exactly.
    let mut mb = -6000i32;
    while mb <= 2000 {
        assert_eq!(lin_to_db(db_to_lin(mb)), mb, "at {} mB", mb);
        mb += 100;
    }
}

#[test]
fn gain_table_accuracy_against_reference() {
    // Spot checks of the conversion against 10^(mb/2000).
    for mb in [-4000i32, -2000, -1000, -600, -300, 0, 300, 600, 1000] {
        let lin = db_to_lin(mb) as f64 / Q24;
        let expected = 10f64.powf(mb as f64 / 2000.0);
        let err_db = (20.0 * (lin / expected).log10()).abs();
        assert!(err_db < 0.01, "at {} mB: {} vs {}", mb, lin, expected);
    }
}

#[test]
fn gain_is_clipped_outside_range() {
    assert_eq!(db_to_lin(-7000), db_to_lin(-6000));
    assert_eq!(db_to_lin(3000), db_to_lin(2000));
}
