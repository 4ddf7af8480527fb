use backend::audio::grpc_simulation::{
    HealthCheckRequest, HealthCheckResponse, MetadataRequest, ValidationError,
};

#[test]
fn health_check_request_keeps_name() {
    assert_eq!(
        HealthCheckRequest::new("AudioStreamer"),
        Ok(HealthCheckRequest { service_name: "AudioStreamer".to_string() })
    );
}

#[test]
fn health_check_request_trims_name() {
    assert_eq!(
        HealthCheckRequest::new("  Audio Streamer\t\n"),
        Ok(HealthCheckRequest { service_name: "Audio Streamer".to_string() })
    );
}

#[test]
fn health_check_request_refuses_blank_name() {
    assert_eq!(
        HealthCheckRequest::new(""),
        Err(ValidationError("Service name cannot be empty"))
    );
    assert_eq!(
        HealthCheckRequest::new(" \t "),
        Err(ValidationError("Service name cannot be empty"))
    );
}

#[test]
fn metadata_request_keeps_path() {
    assert_eq!(
        MetadataRequest::new("/mock/path/audio.wav"),
        Ok(MetadataRequest { file_path: "/mock/path/audio.wav".to_string() })
    );
}

#[test]
fn metadata_request_trims_path() {
    assert_eq!(
        MetadataRequest::new(" /a b.wav "),
        Ok(MetadataRequest { file_path: "/a b.wav".to_string() })
    );
}

#[test]
fn metadata_request_refuses_blank_path() {
    assert_eq!(MetadataRequest::new(""), Err(ValidationError("File path is required")));
    assert_eq!(MetadataRequest::new("\n"), Err(ValidationError("File path is required")));
}

#[test]
fn validation_error_message() {
    assert_eq!(
        ValidationError("File path is required").message(),
        "Validation error: File path is required"
    );
}

#[test]
fn health_check_response_holds_its_fields() {
    let response =
        HealthCheckResponse { healthy: true, message: "Service is running smoothly".to_string() };
    assert!(response.healthy);
    assert_eq!(response.message, "Service is running smoothly");
}
