use sonos_mux::config::{Config, ConfigError, Input, Output, Route};
use sonos_mux::routing::Router;

fn input(id: &str, kind: &str) -> Input {
    Input {
        id: id.to_string(),
        kind: kind.to_string(),
        device: None,
        path: None,
        loop_playback: None,
        url: None,
    }
}

fn output(id: &str, kind: &str, room: Option<&str>) -> Output {
    Output {
        id: id.to_string(),
        kind: kind.to_string(),
        room: room.map(|r| r.to_string()),
        buffer_sec: None,
        host: None,
        port: None,
    }
}

#[test]
fn test_happy_path_parse() {
    let config = Config {
        inputs: vec![Input {
            id: "roon_main".to_string(),
            kind: "alsa".to_string(),
            device: Some("hw:Loopback,1".to_string()),
            path: None,
            loop_playback: None,
            url: None,
        }],
        outputs: vec![Output {
            id: "living_room".to_string(),
            kind: "sonos".to_string(),
            room: Some("Living Room".to_string()),
            buffer_sec: Some(5),
            host: None,
            port: None,
        }],
        routes: vec![Route {
            input: "roon_main".to_string(),
            outputs: vec!["living_room".to_string()],
            gain_mb: 0,
            duck_mb: 0,
        }],
        logging: None,
    };

    assert!(config.validate().is_ok());

    assert_eq!(config.inputs.len(), 1);
    assert_eq!(config.inputs[0].id, "roon_main");
    assert_eq!(config.inputs[0].kind, "alsa");
    assert_eq!(config.inputs[0].device, Some("hw:Loopback,1".to_string()));

    assert_eq!(config.outputs.len(), 1);
    assert_eq!(config.outputs[0].id, "living_room");
    assert_eq!(config.outputs[0].kind, "sonos");
    assert_eq!(config.outputs[0].room, Some("Living Room".to_string()));
    assert_eq!(config.outputs[0].buffer_sec, Some(5));

    assert_eq!(config.routes.len(), 1);
    assert_eq!(config.routes[0].input, "roon_main");
    assert_eq!(config.routes[0].outputs, vec!["living_room"]);
}

#[test]
fn test_unknown_kind() {
    let config = Config {
        inputs: vec![input("invalid", "invalid_kind")],
        outputs: vec![],
        routes: vec![],
        logging: None,
    };

    let result = config.validate();
    assert!(result.is_err());
    match result {
        Err(ConfigError::UnknownInputKind(kind)) => assert_eq!(kind, "invalid_kind"),
        _ => panic!("Expected UnknownInputKind error"),
    }
}

#[test]
fn test_duplicate_id() {
    let config = Config {
        inputs: vec![input("duplicate", "alsa"), input("duplicate", "alsa")],
        outputs: vec![],
        routes: vec![],
        logging: None,
    };

    let result = config.validate();
    assert!(result.is_err());
    match result {
        Err(ConfigError::DuplicateId(id)) => assert_eq!(id, "duplicate"),
        _ => panic!("Expected DuplicateId error"),
    }
}

#[test]
fn test_referenced_id_not_found() {
    let config = Config {
        inputs: vec![input("input1", "alsa")],
        outputs: vec![output("output1", "sonos", None)],
        routes: vec![Route {
            input: "non_existent".to_string(),
            outputs: vec!["output1".to_string()],
            gain_mb: 0,
            duck_mb: 0,
        }],
        logging: None,
    };

    let result = config.validate();
    assert!(result.is_err());
    match result {
        Err(ConfigError::IdNotFound(id)) => assert_eq!(id, "non_existent"),
        _ => panic!("Expected IdNotFound error"),
    }
}

#[test]
fn unknown_output_kind_is_rejected() {
    let config = Config {
        inputs: vec![],
        outputs: vec![output("out1", "chromecast", None)],
        routes: vec![],
        logging: None,
    };
    match config.validate() {
        Err(ConfigError::UnknownOutputKind(kind)) => assert_eq!(kind, "chromecast"),
        _ => panic!("Expected UnknownOutputKind error"),
    }
}

#[test]
fn duplicate_output_id_is_rejected() {
    let config = Config {
        inputs: vec![],
        outputs: vec![output("x", "sonos", None), output("x", "http", None)],
        routes: vec![],
        logging: None,
    };
    match config.validate() {
        Err(ConfigError::DuplicateId(id)) => assert_eq!(id, "x"),
        _ => panic!("Expected DuplicateId error"),
    }
}

#[test]
fn file_input_requires_path() {
    let config = Config {
        inputs: vec![input("f", "file")],
        outputs: vec![],
        routes: vec![],
        logging: None,
    };
    match config.validate() {
        Err(ConfigError::Validation(m)) => assert_eq!(m, "File path not specified"),
        _ => panic!("Expected Validation error"),
    }
}

#[test]
fn http_input_requires_url() {
    let config = Config {
        inputs: vec![input("h", "http")],
        outputs: vec![],
        routes: vec![],
        logging: None,
    };
    match config.validate() {
        Err(ConfigError::Validation(m)) => assert_eq!(m, "HTTP URL not specified"),
        _ => panic!("Expected Validation error"),
    }
}

#[test]
fn route_output_reference_is_checked() {
    let config = Config {
        inputs: vec![input("in1", "silence")],
        outputs: vec![output("out1", "sonos", None)],
        routes: vec![Route {
            input: "in1".to_string(),
            outputs: vec!["out1".to_string(), "nope".to_string()],
            gain_mb: 0,
            duck_mb: 0,
        }],
        logging: None,
    };
    match config.validate() {
        Err(ConfigError::IdNotFound(id)) => assert_eq!(id, "nope"),
        _ => panic!("Expected IdNotFound error"),
    }
}

#[test]
fn router_rejects_invalid_config() {
    let config = Config {
        inputs: vec![input("dup", "silence"), input("dup", "silence")],
        outputs: vec![],
        routes: vec![],
        logging: None,
    };
    match Router::new(&config) {
        Err(ConfigError::DuplicateId(id)) => assert_eq!(id, "dup"),
        _ => panic!("Expected the router to reject the duplicate id"),
    }
}

#[test]
fn error_messages_match_their_variants() {
    let e = ConfigError::DuplicateId("x".to_string());
    assert_eq!(e.message(), "Duplicate ID: x");
    let e = ConfigError::IdNotFound("y".to_string());
    assert_eq!(e.message(), "Referenced ID not found: y");
    let e = ConfigError::UnknownInputKind("z".to_string());
    assert_eq!(e.message(), "Unknown input kind: z");
}

#[test]
fn default_log_level_is_info() {
    assert_eq!(sonos_mux::config::default_log_level(), "info");
}
