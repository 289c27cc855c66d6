use argon2::password_hash::{PasswordHash, PasswordVerifier};
use korgi_beats::auth::{Claims, MAX_UTC_TIMESTAMP, MIN_UTC_TIMESTAMP};
use korgi_beats::config::Config;
use korgi_beats::register::{
    decide_register_step, hash_password, FieldError, RegisterAction, RegisterError, RegisterEvent,
    RegisterPhase,
};
use korgi_beats::tokens::hex_encode;
use korgi_beats::upload::{
    decide_upload_step, UploadAction, UploadError, UploadEvent, UploadPhase, MAX_FILE_SIZE,
    MIN_FILE_SIZE,
};
use korgi_beats::worker::{WorkerEvent, WorkerPhase};

fn config(hours: i64) -> Config {
    Config {
        http_server_host: "0.0.0.0".to_string(),
        http_server_port: 3000,
        db_url: "sqlite::memory:".to_string(),
        jwt_secret: "s".to_string(),
        jwt_expires_hours: hours,
    }
}

fn file_field(name: &str, file_name: Option<&str>, id: &str) -> UploadEvent {
    UploadEvent::Field {
        name: Some(name.to_string()),
        file_name: file_name.map(|f| f.to_string()),
        fresh_id: id.to_string(),
    }
}

#[test]
fn upload_flow_stores_and_analyzes_a_file() {
    let p = UploadPhase::AwaitingField;
    assert!(p.accepts_event(&UploadEvent::NoMoreFields));
    assert!(!p.accepts_event(&UploadEvent::Created));
    let (p, a) = decide_upload_step(p, file_field("title", None, "x"));
    assert!(matches!(p, UploadPhase::AwaitingField) && matches!(a, UploadAction::ReadNextField));
    let (p, a) = decide_upload_step(p, file_field("file", Some("loop.wav"), "abc"));
    assert!(matches!(&a, UploadAction::CreateFile { path } if path == "uploads/abc.wav"));
    let (p, a) = decide_upload_step(p, UploadEvent::Created);
    assert!(matches!(a, UploadAction::ReadChunk));
    let (p, a) = decide_upload_step(p, UploadEvent::Chunk(1000));
    assert!(matches!(a, UploadAction::ReadChunk));
    let (p, a) = decide_upload_step(p, UploadEvent::Chunk(500));
    assert!(matches!(a, UploadAction::ReadChunk));
    let (p, a) = decide_upload_step(p, UploadEvent::ChunksEnded);
    assert!(matches!(a, UploadAction::WriteFile));
    let (p, a) = decide_upload_step(p, UploadEvent::Written);
    assert!(matches!(&a, UploadAction::RecordFile { stored_name, original_name, path, size }
        if stored_name == "abc.wav" && original_name == "loop.wav" && path == "uploads/abc.wav" && *size == 1500));
    let (p, a) = decide_upload_step(p, UploadEvent::Recorded);
    assert!(matches!(a, UploadAction::Analyze));
    let (p, a) = decide_upload_step(p, UploadEvent::Analyzed);
    assert!(matches!(a, UploadAction::MarkAnalyzedAndRespond));
    assert!(matches!(p, UploadPhase::Done));
    assert!(!p.accepts_event(&UploadEvent::Analyzed));
}

#[test]
fn upload_flow_default_name_and_extension() {
    let (_, a) = decide_upload_step(UploadPhase::AwaitingField, file_field("file", None, "id1"));
    assert!(matches!(&a, UploadAction::CreateFile { path } if path == "uploads/id1.mp3"));
    let (_, a) = decide_upload_step(UploadPhase::AwaitingField, file_field("file", Some("../../etc"), "id2"));
    assert!(matches!(&a, UploadAction::CreateFile { path } if path == "uploads/id2.mp3"));
}

fn receiving(id: &str) -> UploadPhase {
    let (p, _) = decide_upload_step(UploadPhase::AwaitingField, file_field("file", Some("a.mp3"), id));
    let (p, _) = decide_upload_step(p, UploadEvent::Created);
    p
}

#[test]
fn upload_flow_too_large_removes_the_file() {
    let p = receiving("big");
    let (p, a) = decide_upload_step(p, UploadEvent::Chunk(MAX_FILE_SIZE));
    assert!(matches!(a, UploadAction::ReadChunk));
    assert!(p.accepts_event(&UploadEvent::Chunk(1)));
    let (p, a) = decide_upload_step(p, UploadEvent::Chunk(1));
    assert!(matches!(p, UploadPhase::Done));
    assert!(matches!(&a, UploadAction::Refuse { error: UploadError::TooLarge, remove: Some(path) }
        if path == "uploads/big.mp3"));
}

#[test]
fn upload_flow_too_small_removes_the_file() {
    let p = receiving("small");
    let (p, _) = decide_upload_step(p, UploadEvent::Chunk(MIN_FILE_SIZE - 1));
    let (_, a) = decide_upload_step(p, UploadEvent::ChunksEnded);
    assert!(matches!(&a, UploadAction::Refuse { error: UploadError::TooSmall, remove: Some(path) }
        if path == "uploads/small.mp3"));
}

#[test]
fn upload_flow_refusals_before_and_after_storage() {
    let (_, a) = decide_upload_step(UploadPhase::AwaitingField, UploadEvent::NoMoreFields);
    assert!(matches!(a, UploadAction::Refuse { error: UploadError::NoFileField, remove: None }));
    let (_, a) = decide_upload_step(UploadPhase::AwaitingField, UploadEvent::FieldFailed("eof".to_string()));
    assert!(matches!(&a, UploadAction::Refuse { error: UploadError::Multipart(d), remove: None } if d == "eof"));
    let p = receiving("c");
    let (_, a) = decide_upload_step(p, UploadEvent::ChunkFailed("reset".to_string()));
    assert!(matches!(&a, UploadAction::Refuse { error: UploadError::ChunkRead(d), remove: None } if d == "reset"));
    let p = UploadPhase::Recording { path: "uploads/r.mp3".to_string() };
    let (_, a) = decide_upload_step(p, UploadEvent::RecordFailed("locked".to_string()));
    assert!(matches!(&a, UploadAction::Refuse { error: UploadError::Database(d), remove: Some(path) }
        if d == "locked" && path == "uploads/r.mp3"));
    let (_, a) = decide_upload_step(UploadPhase::Analyzing, UploadEvent::AnalysisFailed("No onsets detected".to_string()));
    assert!(matches!(&a, UploadAction::MarkFailedAndRefuse(UploadError::AnalysisFailed(d)) if d == "No onsets detected"));
    let (_, a) = decide_upload_step(UploadPhase::Analyzing, UploadEvent::AnalysisJoinFailed("panic".to_string()));
    assert!(matches!(&a, UploadAction::Refuse { error: UploadError::AnalysisThread(d), remove: None } if d == "panic"));
}

#[test]
fn register_flow_creates_an_account() {
    let p = RegisterPhase::AwaitingBody;
    assert!(!p.accepts_event(&RegisterEvent::Inserted));
    let (p, a) = decide_register_step(p, RegisterEvent::BodyParsed { password: "correct horse".to_string() });
    assert!(matches!(a, RegisterAction::Validate));
    assert!(p.accepts_event(&RegisterEvent::Validated));
    let (p, a) = decide_register_step(p, RegisterEvent::Validated);
    match &a {
        RegisterAction::InsertUser { password_hash } => {
            let parsed = PasswordHash::new(password_hash).unwrap();
            assert!(argon2::Argon2::default().verify_password(b"correct horse", &parsed).is_ok());
        }
        _ => panic!("expected an insert"),
    }
    let (p, a) = decide_register_step(p, RegisterEvent::Inserted);
    assert!(matches!(a, RegisterAction::RespondCreated));
    assert!(matches!(p, RegisterPhase::Done));
}

#[test]
fn register_flow_refusals() {
    let (_, a) = decide_register_step(RegisterPhase::AwaitingBody, RegisterEvent::BodyRejected("missing field".to_string()));
    assert!(matches!(&a, RegisterAction::Refuse(RegisterError::InvalidBody(d)) if d == "missing field"));

    let p = RegisterPhase::AwaitingValidation { password: "x".to_string() };
    let fields = vec![(
        "email".to_string(),
        vec![FieldError { message: Some("Invalid email".to_string()), code: "email".to_string() }],
    )];
    let (_, a) = decide_register_step(p, RegisterEvent::ValidationFailed(fields));
    assert!(matches!(&a, RegisterAction::Refuse(RegisterError::Invalid(t))
        if t.len() == 1 && t[0].0 == "email" && t[0].1 == "Invalid email"));

    let event = RegisterEvent::InsertFailed {
        db_message: Some("UNIQUE constraint failed: users.email".to_string()),
        details: "d".to_string(),
    };
    let (_, a) = decide_register_step(RegisterPhase::AwaitingInsert, event);
    assert!(matches!(a, RegisterAction::Refuse(RegisterError::EmailTaken)));
}

#[test]
fn any_password_gets_a_hash() {
    for pw in ["", "pässwörd", "a very long passphrase with spaces"] {
        let h = hash_password(pw).ok().unwrap();
        let salt = h.split('$').nth(4).unwrap();
        assert_eq!(salt.len(), 22);
        let parsed = PasswordHash::new(&h).unwrap();
        assert!(argon2::Argon2::default().verify_password(pw.as_bytes(), &parsed).is_ok());
    }
}

#[test]
fn hex_encoding_is_lowercase_high_nibble_first() {
    assert_eq!(hex_encode(&[0x00, 0x0f, 0xa5, 0xff]), "000fa5ff");
    assert_eq!(hex_encode(&[]), "");
    assert_eq!(hex_encode(&[0x10]), hex::encode([0x10u8]));
}

#[test]
fn token_issue_follows_the_supported_range() {
    assert!(Claims::issue("u", MIN_UTC_TIMESTAMP, &config(0)).is_some());
    assert!(Claims::issue("u", MAX_UTC_TIMESTAMP, &config(0)).is_some());
    assert!(Claims::issue("u", MIN_UTC_TIMESTAMP - 1, &config(0)).is_none());
    assert!(Claims::issue("u", MAX_UTC_TIMESTAMP - 3599, &config(1)).is_none());
    assert!(Claims::issue("u", MAX_UTC_TIMESTAMP - 3600, &config(1)).is_some());
    assert!(chrono::DateTime::from_timestamp(MAX_UTC_TIMESTAMP + 1, 0).is_none());
}

#[test]
fn worker_accepts_only_expected_events() {
    assert!(WorkerPhase::Idle.accepts_event(&WorkerEvent::Cancelled));
    assert!(WorkerPhase::Idle.accepts_event(&WorkerEvent::Woken));
    assert!(!WorkerPhase::Idle.accepts_event(&WorkerEvent::Saved));
    assert!(!WorkerPhase::Stopped.accepts_event(&WorkerEvent::Woken));
}
