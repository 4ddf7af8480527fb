//! The audio service: request messages, file metadata and sample streams.

pub mod audio_metadata;
pub mod grpc_simulation;
pub mod mock_audio_stream;
