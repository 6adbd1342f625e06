use sonos_mux::sonos::{OutputError, SonosManager, SonosOutput};

#[test]
fn sonos_test_sonos_output_creation() {
    let output = SonosOutput::new("Living Room".to_string(), Some(5));
    assert_eq!(output.buffer_sec(), 5);
    assert_eq!(output.room(), "Living Room");
    assert!(output.ip_address().is_none());
}

#[test]
fn sonos_tests_test_sonos_output_creation() {
    let output = SonosOutput::new("Test Room".to_string(), Some(5));
    assert_eq!(output.room(), "Test Room");
    assert_eq!(output.buffer_sec(), 5);
    assert!(output.ip_address().is_none());
}

#[test]
fn sonos_test_sonos_manager() {
    let mut manager = SonosManager::new();
    manager.add_room("Living Room".to_string(), Some(5));
    manager.add_room("Kitchen".to_string(), None);

    assert_eq!(manager.room_count(), 2);
    let status = manager.health_status(0);
    assert_eq!(status.len(), 2);
    assert!(status.iter().any(|s| s.room == "Living Room"));
    assert!(status.iter().any(|s| s.room == "Kitchen"));
}

#[test]
fn sonos_tests_test_sonos_manager() {
    let mut manager = SonosManager::new();
    manager.add_room("Living Room".to_string(), Some(5));
    manager.add_room("Kitchen".to_string(), None);

    let status = manager.health_status(0);
    assert_eq!(status.len(), 2);
    assert!(status.iter().any(|s| s.room == "Living Room"));
    assert!(status.iter().any(|s| s.room == "Kitchen"));

    // All rooms should start as unhealthy.
    for s in &status {
        assert!(!s.healthy);
    }
}

#[test]
fn test_sonos_keep_alive() {
    let mut output = SonosOutput::new("Test Room".to_string(), Some(5));

    // Discovery succeeds and marks the output healthy.
    output.record_discovery("192.168.1.108".to_string(), 100);
    assert!(output.health_check());
    assert!(!output.needs_rediscovery());

    // A keep-alive pass right after has nothing to re-assert.
    assert!(!output.needs_reassert(110));
}

#[test]
fn test_with_mock_service() {
    // A stand-in for the device's transport service.
    struct MockSonosService {
        room_name: String,
        transport_uri: Option<String>,
    }

    impl MockSonosService {
        fn new(room_name: &str) -> Self {
            Self {
                room_name: room_name.to_string(),
                transport_uri: None,
            }
        }

        fn get_room_name(&self) -> &str {
            &self.room_name
        }

        fn set_transport_uri(&mut self, uri: &str) -> Result<(), &'static str> {
            self.transport_uri = Some(uri.to_string());
            Ok(())
        }

        fn get_transport_uri(&self) -> Option<&str> {
            self.transport_uri.as_deref()
        }
    }

    let mut mock_service = MockSonosService::new("Mock Room");

    mock_service
        .set_transport_uri("http://example.com/stream.mp3")
        .unwrap();
    assert_eq!(
        mock_service.get_transport_uri(),
        Some("http://example.com/stream.mp3")
    );

    assert_eq!(mock_service.get_room_name(), "Mock Room");
}

#[test]
fn set_stream_requires_discovery() {
    let mut output = SonosOutput::new("Den".to_string(), None);
    match output.set_stream("http://host:8000/stream.mp3".to_string(), 5) {
        Err(OutputError::DeviceNotFound(room)) => assert_eq!(room, "Den"),
        _ => panic!("Expected DeviceNotFound before discovery"),
    }
    output.record_discovery("10.0.0.7".to_string(), 6);
    assert!(output
        .set_stream("http://host:8000/stream.mp3".to_string(), 7)
        .is_ok());
    assert_eq!(output.stream_url(), Some("http://host:8000/stream.mp3"));
}

#[test]
fn keep_alive_reasserts_after_a_stale_minute() {
    // A device that "forgot" its URI goes stale: after more than 60
    // seconds without contact the keep-alive pass re-asserts the stream,
    // and the handle reports healthy again.
    let mut output = SonosOutput::new("Patio".to_string(), None);
    output.record_discovery("10.0.0.9".to_string(), 0);
    output
        .set_stream("http://host:8000/stream.mp3".to_string(), 0)
        .unwrap();

    assert!(!output.needs_reassert(60));
    assert!(output.needs_reassert(65));

    // The pass re-issues set_stream; the handle is fresh again.
    output
        .set_stream("http://host:8000/stream.mp3".to_string(), 65)
        .unwrap();
    assert!(output.health_check());
    assert!(!output.needs_reassert(100));
}

#[test]
fn discovery_failure_resets_to_unknown() {
    let mut output = SonosOutput::new("Hall".to_string(), None);
    output.record_discovery("10.0.0.3".to_string(), 0);
    output.record_discovery_failure();
    assert!(!output.health_check());
    assert!(output.needs_rediscovery());
}

#[test]
fn manager_set_stream_finds_the_room() {
    let mut manager = SonosManager::new();
    manager.add_room("Studio".to_string(), None);

    match manager.set_stream("Nowhere", "http://h/s.mp3".to_string(), 0) {
        Err(OutputError::DeviceNotFound(_)) => {}
        _ => panic!("Expected DeviceNotFound for an unmanaged room"),
    }

    // Not yet discovered: the room itself refuses.
    assert!(manager
        .set_stream("Studio", "http://h/s.mp3".to_string(), 0)
        .is_err());
}

#[test]
fn health_snapshot_reports_elapsed_contact() {
    let mut output = SonosOutput::new("Loft".to_string(), None);
    output.record_discovery("10.1.1.1".to_string(), 40);
    let h = output.health_snapshot(100);
    assert_eq!(h.room, "Loft");
    assert_eq!(h.ip_address.as_deref(), Some("10.1.1.1"));
    assert!(h.healthy);
    assert_eq!(h.last_connection, Some(60));
}

#[test]
fn add_room_replaces_an_existing_handle() {
    let mut manager = SonosManager::new();
    manager.add_room("Bar".to_string(), Some(2));
    manager.add_room("Bar".to_string(), Some(9));
    assert_eq!(manager.room_count(), 1);
    let status = manager.health_status(0);
    assert_eq!(status.len(), 1);
    assert!(!status[0].healthy);
}
