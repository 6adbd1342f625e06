use sonos_mux::config::{Config, Input, Output, Route};
use sonos_mux::encoder::Lame;
use sonos_mux::routing::Router;
use sonos_mux::stream::HttpStreamer;

#[test]
fn test_version() {
    assert!(!sonos_mux::version().is_empty());
}

#[test]
fn test_encode_sine_wave() {
    // Create a 1-second sine wave at 440Hz.
    let sample_rate = 44100;
    let duration = 1.0f32;
    let frequency = 440.0f32;
    let num_samples = (sample_rate as f32 * duration) as usize;

    let mut pcm = Vec::with_capacity(num_samples * 2);
    for i in 0..num_samples {
        let t = i as f32 / sample_rate as f32;
        let sample = (2.0 * std::f32::consts::PI * frequency * t).sin() * 0.5;
        let sample_i16 = (sample * 32767.0) as i16;
        pcm.push(sample_i16);
        pcm.push(sample_i16);
    }

    let mut encoder = Lame::new(128).unwrap();
    let mp3_data = encoder.encode(&pcm).unwrap();
    let flush_data = encoder.flush().unwrap();

    let mut full_mp3 = mp3_data;
    full_mp3.extend_from_slice(&flush_data);

    assert!(!full_mp3.is_empty());

    let has_mp3_header = full_mp3
        .windows(2)
        .any(|window| (window[0] == 0xFF) && ((window[1] & 0xE0) == 0xE0));
    assert!(has_mp3_header, "MP3 frame sync word not found");

    let expected_size = 16000;
    let size_margin = 5000;
    assert!(
        full_mp3.len() > expected_size - size_margin
            && full_mp3.len() < expected_size + size_margin,
        "MP3 size is not within expected range: {} bytes (expected ~{})",
        full_mp3.len(),
        expected_size
    );
}

#[test]
fn encoder_emits_exact_mock_frame() {
    // 2048 interleaved samples at 128 kbit/s: (128*125) * 1024 / 44100
    // bytes, starting with the sync bytes.
    let mut encoder = Lame::new(128).unwrap();
    let pcm = vec![0i16; 2048];
    let frame = encoder.encode(&pcm).unwrap();
    assert_eq!(frame.len(), 16000 * 1024 / 44100);
    assert_eq!(frame[0], 0xFF);
    assert_eq!(frame[1], 0xE0);
    assert!(frame[2..].iter().all(|&b| b == 0));
    assert_eq!(encoder.bytes_encoded(), frame.len());
}

#[test]
fn encoder_rejects_unsupported_bitrate() {
    assert!(Lame::new(0).is_err());
    assert!(Lame::new(-5).is_err());
    assert!(Lame::new(1000).is_err());
    assert!(Lame::new(320).is_ok());
}

#[test]
fn test_http_streamer() {
    let mut streamer = HttpStreamer::new(8000);

    let test_data = vec![
        0xFF, 0xE0, 0x00, 0x01, 0x00, 0x00, 0x00, 0x00, // MP3 frame header
        0x00, 0x00, 0x00, 0x00, 0x00, 0x00, 0x00, 0x00, // Frame data
    ];

    streamer.send(&test_data).unwrap();
    assert_eq!(streamer.bytes_sent(), test_data.len());
}

#[test]
fn streamer_accumulates_bytes_sent() {
    let mut streamer = HttpStreamer::new(9000);
    assert_eq!(streamer.port(), 9000);
    streamer.send(&vec![0u8; 10]).unwrap();
    streamer.send(&vec![0u8; 22]).unwrap();
    assert_eq!(streamer.bytes_sent(), 32);
}

fn silence_input(id: &str) -> Input {
    Input {
        id: id.to_string(),
        kind: "silence".to_string(),
        device: None,
        path: None,
        loop_playback: None,
        url: None,
    }
}

fn sonos_output(id: &str, room: &str) -> Output {
    Output {
        id: id.to_string(),
        kind: "sonos".to_string(),
        room: Some(room.to_string()),
        buffer_sec: None,
        host: None,
        port: None,
    }
}

#[test]
fn test_router_creation() {
    let config = Config {
        inputs: vec![silence_input("silence1"), silence_input("silence2")],
        outputs: vec![
            sonos_output("output1", "Living Room"),
            sonos_output("output2", "Bedroom"),
        ],
        routes: vec![
            Route {
                input: "silence1".to_string(),
                outputs: vec!["output1".to_string()],
                gain_mb: 0,
                duck_mb: 0,
            },
            Route {
                input: "silence2".to_string(),
                outputs: vec!["output1".to_string(), "output2".to_string()],
                gain_mb: -600,
                duck_mb: 1200,
            },
        ],
        logging: None,
    };

    let router = Router::new(&config).unwrap();

    assert_eq!(router.output_mixers.len(), 2);
    assert_eq!(router.mixer_for("output1").unwrap().source_count(), 2);
    assert_eq!(router.mixer_for("output2").unwrap().source_count(), 1);
}

#[test]
fn router_fans_one_route_out_to_every_target() {
    // One input routed to two outputs: each mixer receives the same
    // gain, priority and duck amount, independently.
    let config = Config {
        inputs: vec![silence_input("alert")],
        outputs: vec![
            sonos_output("kitchen", "Kitchen"),
            sonos_output("office", "Office"),
        ],
        routes: vec![Route {
            input: "alert".to_string(),
            outputs: vec!["kitchen".to_string(), "office".to_string()],
            gain_mb: -300,
            duck_mb: 1200,
        }],
        logging: None,
    };
    let router = Router::new(&config).unwrap();
    for oid in ["kitchen", "office"] {
        let mixer = router.mixer_for(oid).unwrap();
        assert_eq!(mixer.sources.len(), 1);
        let s = &mixer.sources[0];
        assert_eq!(s.input_id, "alert");
        assert_eq!(s.gain_mb, -300);
        assert!(s.duck_priority);
        assert_eq!(s.duck_mb, 1200);
    }
}

#[test]
fn router_deduplicates_routes_by_input_first_wins() {
    let config = Config {
        inputs: vec![silence_input("a")],
        outputs: vec![sonos_output("out", "Room")],
        routes: vec![
            Route {
                input: "a".to_string(),
                outputs: vec!["out".to_string()],
                gain_mb: -100,
                duck_mb: 0,
            },
            Route {
                input: "a".to_string(),
                outputs: vec!["out".to_string()],
                gain_mb: -900,
                duck_mb: 0,
            },
        ],
        logging: None,
    };
    let router = Router::new(&config).unwrap();
    let mixer = router.mixer_for("out").unwrap();
    assert_eq!(mixer.sources.len(), 1);
    assert_eq!(mixer.sources[0].gain_mb, -100);
}

#[test]
fn router_skips_outputs_without_routes() {
    let config = Config {
        inputs: vec![silence_input("a")],
        outputs: vec![sonos_output("used", "Room"), sonos_output("unused", "Attic")],
        routes: vec![Route {
            input: "a".to_string(),
            outputs: vec!["used".to_string()],
            gain_mb: 0,
            duck_mb: 0,
        }],
        logging: None,
    };
    let router = Router::new(&config).unwrap();
    assert_eq!(router.output_mixers.len(), 1);
    assert!(router.mixer_for("used").is_some());
    assert!(router.mixer_for("unused").is_none());
}

#[test]
fn router_start_hands_out_one_sender_per_source() {
    let config = Config {
        inputs: vec![silence_input("a"), silence_input("b")],
        outputs: vec![sonos_output("out", "Room")],
        routes: vec![
            Route {
                input: "a".to_string(),
                outputs: vec!["out".to_string()],
                gain_mb: 0,
                duck_mb: 0,
            },
            Route {
                input: "b".to_string(),
                outputs: vec!["out".to_string()],
                gain_mb: 0,
                duck_mb: 0,
            },
        ],
        logging: None,
    };
    let mut router = Router::new(&config).unwrap();
    let txs = router.start();
    assert_eq!(txs.len(), 2);
    let ids: Vec<&str> = txs.iter().map(|(id, _)| id.as_str()).collect();
    assert!(ids.contains(&"a") && ids.contains(&"b"));
    router.stop();
    assert!(txs[0].1.send(vec![0i16; 4]).is_err());
}

#[test]
fn minimal_silence_graph_stays_silent() {
    // The smallest useful graph: one silence input routed to one room at
    // unity gain. It builds, and a round of zeroed buffers mixes to all
    // zeros (silence in, silence out).
    let config = Config {
        inputs: vec![silence_input("sil")],
        outputs: vec![Output {
            id: "out1".to_string(),
            kind: "sonos".to_string(),
            room: Some("Room A".to_string()),
            buffer_sec: Some(3),
            host: None,
            port: None,
        }],
        routes: vec![Route {
            input: "sil".to_string(),
            outputs: vec!["out1".to_string()],
            gain_mb: 0,
            duck_mb: 0,
        }],
        logging: None,
    };
    let mut router = Router::new(&config).unwrap();
    assert_eq!(router.output_mixers.len(), 1);

    let mixer = &mut router.output_mixers[0].mixer;
    mixer.sources[0].set_test_buffer(vec![0i16; 1024]);
    let out = mixer.mix_next().expect("No buffer received");
    assert_eq!(out.len(), 1024);
    assert!(out.iter().all(|&s| s == 0));
}
