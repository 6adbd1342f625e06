use sonos_mux::mixer::{Mixer, Source};

fn sine_buffer(freq: f64, amplitude: f64, len: usize) -> Vec<i16> {
    let mut buf = Vec::with_capacity(len);
    for i in 0..len {
        let t = i as f64 / 44100.0;
        let s = (2.0 * std::f64::consts::PI * freq * t).sin() * amplitude;
        buf.push((s * 32767.0) as i16);
    }
    buf
}

fn rms_dbfs(buf: &[i16]) -> f64 {
    let sum: f64 = buf.iter().map(|&s| (s as f64) * (s as f64)).sum();
    let rms = (sum / buf.len() as f64).sqrt();
    20.0 * (rms / 32767.0).log10()
}

#[test]
fn test_gain_accuracy() {
    // A full-scale 1 kHz tone through one source at several gains: the
    // output RMS must sit at (gain - 3) dBFS within 0.1 dB, the 3 dB
    // being the crest factor of a sine.
    let gain_values = [-2000i32, -1000, -600, -300, 0];

    for &gain_mb in &gain_values {
        let mut src = Source::new("tone".to_string(), gain_mb, false, 0);
        src.set_test_buffer(sine_buffer(1000.0, 1.0, 1024));

        let mut mixer = Mixer::new(vec![src]);
        let buffer = mixer.mix_next().expect("No buffer received");

        let measured_db = rms_dbfs(&buffer);
        let expected_db = gain_mb as f64 / 100.0 - 3.0;
        assert!(
            (measured_db - expected_db).abs() < 0.1,
            "Gain accuracy test failed: expected {} dB, measured {} dB",
            expected_db,
            measured_db
        );
    }
}

#[test]
fn test_ducking_speed() {
    // Music (no priority) and an alert (priority, 12 dB duck): the
    // mixed round must not be silent.
    let mut music_src = Source::new("music".to_string(), 0, false, 0);
    music_src.set_test_buffer(sine_buffer(440.0, 0.5, 1024));

    let mut alert_src = Source::new("alert".to_string(), 0, true, 1200);
    alert_src.set_test_buffer(sine_buffer(880.0, 0.8, 1024));

    let mut mixer = Mixer::new(vec![music_src, alert_src]);
    let buffer = mixer.mix_next().expect("No buffer received");

    assert!(!buffer.iter().all(|&s| s == 0), "Output buffer is silent");
}

#[test]
fn ducking_attenuates_by_exact_duck_amount() {
    // Music carrying a 12 dB duck amount; a priority alert whose buffer
    // is shorter. While the alert is audible, music is attenuated by its
    // own duck amount. Beyond the alert's samples the mix holds music
    // alone, still ducked this round:
    // floor(10000 * lin(-1200)) with lin(-1200) = 4214246 / 2^24.
    let mut music = Source::new("music".to_string(), 0, false, 1200);
    music.set_test_buffer(vec![10000i16; 8]);
    let mut alert = Source::new("alert".to_string(), 0, true, 1200);
    alert.set_test_buffer(vec![15i16; 4]);

    let mut mixer = Mixer::new(vec![music, alert]);
    let out = mixer.mix_next().expect("No buffer received");
    assert_eq!(out.len(), 8);
    let expected = (10000u64 * 4214246u64 / 16777216u64) as i16;
    assert_eq!(out[5], expected);
    assert_eq!(expected, 2511);

    // Without the alert active, the same music passes at unity gain.
    let mut music = Source::new("music".to_string(), 0, false, 1200);
    music.set_test_buffer(vec![10000i16; 8]);
    let mut mixer = Mixer::new(vec![music]);
    let out = mixer.mix_next().expect("No buffer received");
    assert_eq!(out[5], 10000);
}

#[test]
fn ducking_disengages_when_priority_goes_silent() {
    // First round: alert audible, music ducked. Second round: alert
    // below the silence threshold, music back at unity within one round.
    let mut music = Source::new("music".to_string(), 0, false, 1200);
    music.set_test_buffer(vec![10000i16; 4]);
    let mut alert = Source::new("alert".to_string(), 0, true, 1200);
    alert.set_test_buffer(vec![15i16; 2]);
    let mut mixer = Mixer::new(vec![music, alert]);
    let out = mixer.mix_next().expect("No buffer received");
    assert_eq!(out[3], 2511);

    mixer.sources[0].set_test_buffer(vec![10000i16; 4]);
    mixer.sources[1].set_test_buffer(vec![5i16; 2]);
    let out = mixer.mix_next().expect("No buffer received");
    assert_eq!(out[3], 10000);
}

#[test]
fn clipping_saturates_at_i16_range() {
    // Two full-scale sources at 0 dB: the sum clamps at the 16-bit
    // limits instead of wrapping.
    let mut a = Source::new("a".to_string(), 0, false, 0);
    a.set_test_buffer(vec![32767i16, -32768, 32767, -32768]);
    let mut b = Source::new("b".to_string(), 0, false, 0);
    b.set_test_buffer(vec![32767i16, -32768, 32767, -32768]);

    let mut mixer = Mixer::new(vec![a, b]);
    let out = mixer.mix_next().expect("No buffer received");
    assert_eq!(out, vec![32767i16, -32768, 32767, -32768]);
}

#[test]
fn mix_length_is_longest_fresh_buffer() {
    let mut a = Source::new("a".to_string(), 0, false, 0);
    a.set_test_buffer(vec![100i16; 3]);
    let mut b = Source::new("b".to_string(), 0, false, 0);
    b.set_test_buffer(vec![200i16; 7]);

    let mut mixer = Mixer::new(vec![a, b]);
    let out = mixer.mix_next().expect("No buffer received");
    assert_eq!(out.len(), 7);
    assert_eq!(out[0], 300);
    assert_eq!(out[5], 200);
}

#[test]
fn mixer_returns_nothing_without_data() {
    let a = Source::new("a".to_string(), 0, false, 0);
    let mut mixer = Mixer::new(vec![a]);
    assert!(mixer.mix_next().is_none());
    assert_eq!(mixer.source_count(), 1);
}

#[test]
fn mixer_pulls_from_started_source_queue() {
    // The real channel path: a started source hands out a sender; what
    // is sent through it comes back out of the mixer.
    let mut src = Source::new("feed".to_string(), 0, false, 0);
    let tx = src.start();
    let mut mixer = Mixer::new(vec![src]);

    tx.send(vec![1234i16, -77, 0, 500]).unwrap();
    let out = mixer.mix_next().expect("No buffer received");
    assert_eq!(out, vec![1234i16, -77, 0, 500]);

    // Queue drained: the next round has nothing.
    assert!(mixer.mix_next().is_none());

    mixer.stop();
    // With the receiver gone, sends fail: that is the shutdown signal
    // the producer threads observe.
    assert!(tx.send(vec![0i16; 4]).is_err());
}
