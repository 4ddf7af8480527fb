use backend::audio::audio_metadata::{AudioMetadata, AudioMetadataError};
use backend::audio::mock_audio_stream::MockAudioStream;

#[test]
fn first_samples_of_a_stream() {
    let data: Vec<f32> = vec![0.1, 0.3, 0.5, 0.7, 0.9];
    let stream = MockAudioStream::new(data, 44100);
    assert_eq!(stream.sample_rate, 44100);
    assert_eq!(stream.get_first_n_samples(3), vec![0.1, 0.3, 0.5]);
}

#[test]
fn more_samples_than_available() {
    let stream = MockAudioStream { data: vec![0.1f32, 0.3, 0.5, 0.7, 0.9], sample_rate: 44100 };
    assert_eq!(stream.get_first_n_samples(10), vec![0.1, 0.3, 0.5, 0.7, 0.9]);
    assert_eq!(stream.get_first_n_samples(5), vec![0.1, 0.3, 0.5, 0.7, 0.9]);
}

#[test]
fn no_samples_asked_or_held() {
    let stream = MockAudioStream::new(vec![1.5f64, 2.5], 8000);
    assert_eq!(stream.get_first_n_samples(0), Vec::<f64>::new());
    let empty: MockAudioStream<f32> = MockAudioStream::new(Vec::new(), 8000);
    assert_eq!(empty.get_first_n_samples(4), Vec::<f32>::new());
}

#[test]
fn twenty_sample_waveform() {
    let data: Vec<f32> = (0..20).map(|x| (x as f32) / 10.0).collect();
    let stream = MockAudioStream::new(data.clone(), 44100);
    assert_eq!(stream.get_first_n_samples(5), data[..5].to_vec());
    assert_eq!(stream.get_first_n_samples(50).len(), 20);
}

#[test]
fn metadata_holds_its_fields() {
    let meta = AudioMetadata::new("mock_audio.wav", 44100, 2);
    assert_eq!(
        meta,
        AudioMetadata { path: "mock_audio.wav".to_string(), sample_rate: 44100, channels: 2 }
    );
}

#[test]
fn size_of_a_file_that_was_read() {
    let meta = AudioMetadata::new("a.wav", 44100, 2);
    assert_eq!(meta.file_size_bytes(true, Ok(1024)), Ok(1024));
}

#[test]
fn size_of_a_missing_file() {
    let meta = AudioMetadata::new("a.wav", 44100, 2);
    assert_eq!(
        meta.file_size_bytes(false, Ok(1024)),
        Err(AudioMetadataError::FileNotFound("a.wav".to_string()))
    );
    assert_eq!(
        meta.file_size_bytes(false, Err("denied".to_string())),
        Err(AudioMetadataError::FileNotFound("a.wav".to_string()))
    );
}

#[test]
fn size_of_an_unreadable_file() {
    let meta = AudioMetadata::new("a.wav", 44100, 2);
    assert_eq!(
        meta.file_size_bytes(true, Err("denied".to_string())),
        Err(AudioMetadataError::IoError("a.wav".to_string(), "denied".to_string()))
    );
}

#[test]
fn metadata_error_messages() {
    assert_eq!(
        AudioMetadataError::FileNotFound("a.wav".to_string()).message(),
        "File not found: a.wav"
    );
    assert_eq!(
        AudioMetadataError::IoError("a.wav".to_string(), "denied".to_string()).message(),
        "IO error while reading a.wav: denied"
    );
}
