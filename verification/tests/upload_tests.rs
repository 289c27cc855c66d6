use korgi_beats::upload::{
    analysis_status, client_file_name, is_file_field, stored_extension, stored_file_name,
    stored_file_path, UploadError, UploadReceiver, MAX_FILE_SIZE, MIN_FILE_SIZE,
};

#[test]
fn only_the_file_field_is_taken() {
    assert!(is_file_field(Some("file")));
    assert!(!is_file_field(Some("files")));
    assert!(!is_file_field(Some("File")));
    assert!(!is_file_field(None));
}

#[test]
fn client_name_defaults_to_audio_mp3() {
    assert_eq!(client_file_name(Some("beat.wav")), "beat.wav");
    assert_eq!(client_file_name(None), "audio.mp3");
}

#[test]
fn stored_extension_follows_the_client_name() {
    assert_eq!(stored_extension("song.wav"), "wav");
    assert_eq!(stored_extension("archive.tar.gz"), "gz");
    assert_eq!(stored_extension("noext"), "mp3");
    assert_eq!(stored_extension(".bashrc"), "mp3");
    assert_eq!(stored_extension("dir.v2/track"), "mp3");
}

#[test]
fn stored_names_and_paths() {
    let name = stored_file_name("0b6e-4f", "flac");
    assert_eq!(name, "0b6e-4f.flac");
    assert_eq!(stored_file_path(&name), "uploads/0b6e-4f.flac");
}

#[test]
fn upload_within_limits_is_accepted() {
    let mut r = UploadReceiver::new();
    assert!(r.accept_chunk(1000).is_ok());
    assert!(r.accept_chunk(24).is_ok());
    assert_eq!(r.total(), 1024);
    assert_eq!(r.finish().ok(), Some(1024));
}

#[test]
fn upload_limit_edges() {
    let mut r = UploadReceiver::new();
    assert!(r.accept_chunk(MAX_FILE_SIZE).is_ok());
    assert_eq!(r.finish().ok(), Some(MAX_FILE_SIZE));
    assert!(matches!(r.accept_chunk(1), Err(UploadError::TooLarge)));
    assert_eq!(r.total(), MAX_FILE_SIZE);

    let mut small = UploadReceiver::new();
    assert!(small.accept_chunk(MIN_FILE_SIZE - 1).is_ok());
    assert!(matches!(small.finish(), Err(UploadError::TooSmall)));
}

#[test]
fn upload_error_codes_texts_and_cleanup() {
    let e = UploadError::TooLarge;
    assert_eq!((e.status_code(), e.error_text().as_str()), (413, "File size exceeds 10MB limit"));
    assert!(e.removes_stored_file());
    let e = UploadError::TooSmall;
    assert_eq!((e.status_code(), e.error_text().as_str()), (400, "File size is less than 1KB"));
    assert!(e.removes_stored_file());
    let e = UploadError::Database("locked".to_string());
    assert_eq!((e.status_code(), e.error_text().as_str()), (500, "Database error"));
    assert_eq!(e.details(), Some("locked".to_string()));
    assert!(e.removes_stored_file());
    let e = UploadError::NoFileField;
    assert_eq!((e.status_code(), e.error_text().as_str()), (400, "No 'file' field found in multipart data"));
    assert!(!e.removes_stored_file());
    let e = UploadError::Multipart("bad boundary".to_string());
    assert_eq!((e.status_code(), e.error_text().as_str()), (400, "Multipart error: bad boundary"));
    let e = UploadError::CreateFile("denied".to_string());
    assert_eq!((e.status_code(), e.error_text().as_str()), (500, "Failed to create file: denied"));
    let e = UploadError::ChunkRead("reset".to_string());
    assert_eq!((e.status_code(), e.error_text().as_str()), (400, "Chunk read error: reset"));
    let e = UploadError::WriteFile("full".to_string());
    assert_eq!((e.status_code(), e.error_text().as_str()), (500, "Failed to write file: full"));
    assert!(!e.removes_stored_file());
    let e = UploadError::AnalysisThread("cancelled".to_string());
    assert_eq!((e.status_code(), e.error_text().as_str()), (500, "Analysis thread failed: cancelled"));
    let e = UploadError::AnalysisFailed("No onsets detected".to_string());
    assert_eq!((e.status_code(), e.error_text().as_str()), (422, "Analysis failed: No onsets detected"));
    assert_eq!(e.details(), None);
}

#[test]
fn analysis_outcome_statuses() {
    assert_eq!(analysis_status(true), "analyzed");
    assert_eq!(analysis_status(false), "failed");
}
