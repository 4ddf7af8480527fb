//! The request and response messages of the audio management service,
//! with the checks that a request has to pass.

use crate::text::{trim, trimmed};
use vstd::prelude::*;
use vstd::string::StringExecFns;

verus! {

/// A request that was refused, with the reason.
#[derive(Debug, PartialEq, Eq)]
pub struct ValidationError(pub &'static str);

impl ValidationError {
    /// The message shown to a user: the reason behind a fixed opening.
    pub fn message(&self) -> (m: String)
        ensures
            m@ == "Validation error: "@ + self.0@,
    {
        let mut m = "Validation error: ".to_string();
        m.append(self.0);
        m
    }
}

/// Asks the audio management service whether it is up.
#[derive(Debug, PartialEq, Eq)]
pub struct HealthCheckRequest {
    pub service_name: String,
}

impl HealthCheckRequest {
    /// A request for the service of that name, without the white space
    /// around the name. A name that holds nothing but white space is
    /// refused.
    pub fn new(service_name: &str) -> (r: Result<Self, ValidationError>)
        ensures
            match r {
                Ok(request) => trimmed(service_name@).len() > 0 && request.service_name@ == trimmed(
                    service_name@,
                ),
                Err(e) => trimmed(service_name@).len() == 0 && e.0@
                    == "Service name cannot be empty"@,
            },
    {
        let name = trim(service_name);
        if name.as_str().is_empty() {
            return Err(ValidationError("Service name cannot be empty"));
        }
        Ok(HealthCheckRequest { service_name: name })
    }
}

/// The answer to a health check.
#[derive(Debug, PartialEq, Eq)]
pub struct HealthCheckResponse {
    pub healthy: bool,
    pub message: String,
}

/// Asks for the metadata of an audio file.
#[derive(Debug, PartialEq, Eq)]
pub struct MetadataRequest {
    pub file_path: String,
}

impl MetadataRequest {
    /// A request for the file at that path, without the white space
    /// around the path. A path that holds nothing but white space is
    /// refused.
    pub fn new(file_path: &str) -> (r: Result<Self, ValidationError>)
        ensures
            match r {
                Ok(request) => trimmed(file_path@).len() > 0 && request.file_path@ == trimmed(
                    file_path@,
                ),
                Err(e) => trimmed(file_path@).len() == 0 && e.0@ == "File path is required"@,
            },
    {
        let path = trim(file_path);
        if path.as_str().is_empty() {
            return Err(ValidationError("File path is required"));
        }
        Ok(MetadataRequest { file_path: path })
    }
}

} // verus!
