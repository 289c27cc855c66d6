use vstd::prelude::*;
use vstd::string::StringExecFns;
use crate::text::text_eq;

verus! {

/// Largest accepted upload, in bytes (10 MB).
pub const MAX_FILE_SIZE: usize = 10485760;

/// Smallest accepted upload, in bytes (1 KB).
pub const MIN_FILE_SIZE: usize = 1024;

/// The name of the multipart field that carries the audio file.
pub open spec fn file_field_name() -> Seq<char> {
    "file"@
}

/// What `std::path::Path::extension` gives for a path, as text.
pub uninterp spec fn std_path_extension(path: Seq<char>) -> Option<Seq<char>>;

/// Calls `std::path::Path::extension` on `path` and converts the extension to
/// text. Claimed, from its documentation: the result is the part of the file
/// name (the last path component) after its final `.`, so it holds no `.`
/// and no `/`, and there is none when the path holds no `.` at all. Which
/// paths have an extension is left to the name `std_path_extension`.
#[verifier::external_body]
fn path_extension(path: &str) -> (r: Option<String>)
    ensures
        r matches Some(e) ==> std_path_extension(path@) == Some(e@),
        r matches Some(e) ==> !e@.contains('.') && !e@.contains('/'),
        r is None ==> std_path_extension(path@) is None,
        !path@.contains('.') ==> r is None,
{
    match std::path::Path::new(path).extension() {
        Some(ext) => match ext.to_str() {
            Some(text) => Some(text.to_string()),
            None => None,
        },
        None => None,
    }
}

/// Why an upload is refused.
pub enum UploadError {
    /// Reading the multipart body failed.
    Multipart(String),
    /// The body held no field named `file`.
    NoFileField,
    /// The destination file could not be created.
    CreateFile(String),
    /// Reading a chunk of the file field failed.
    ChunkRead(String),
    /// The file is larger than 10 MB.
    TooLarge,
    /// The file is smaller than 1 KB.
    TooSmall,
    /// The received bytes could not be written.
    WriteFile(String),
    /// The file record could not be stored.
    Database(String),
    /// The analysis task could not be joined.
    AnalysisThread(String),
    /// The analysis reported an error.
    AnalysisFailed(String),
}

/// The HTTP status code of each refusal.
pub open spec fn upload_status_code(e: UploadError) -> u16 {
    match e {
        UploadError::Multipart(_) => 400,
        UploadError::NoFileField => 400,
        UploadError::CreateFile(_) => 500,
        UploadError::ChunkRead(_) => 400,
        UploadError::TooLarge => 413,
        UploadError::TooSmall => 400,
        UploadError::WriteFile(_) => 500,
        UploadError::Database(_) => 500,
        UploadError::AnalysisThread(_) => 500,
        UploadError::AnalysisFailed(_) => 422,
    }
}

/// The `error` text of each refusal.
pub open spec fn upload_error_text(e: UploadError) -> Seq<char> {
    match e {
        UploadError::Multipart(d) => "Multipart error: "@ + d@,
        UploadError::NoFileField => "No 'file' field found in multipart data"@,
        UploadError::CreateFile(d) => "Failed to create file: "@ + d@,
        UploadError::ChunkRead(d) => "Chunk read error: "@ + d@,
        UploadError::TooLarge => "File size exceeds 10MB limit"@,
        UploadError::TooSmall => "File size is less than 1KB"@,
        UploadError::WriteFile(d) => "Failed to write file: "@ + d@,
        UploadError::Database(_) => "Database error"@,
        UploadError::AnalysisThread(d) => "Analysis thread failed: "@ + d@,
        UploadError::AnalysisFailed(d) => "Analysis failed: "@ + d@,
    }
}

fn prefixed(prefix: &str, detail: &String) -> (r: String)
    ensures
        r@ == prefix@ + detail@,
{
    let mut r = String::from_str(prefix);
    r.append(detail.as_str());
    r
}

impl UploadError {
    /// The HTTP status code of the refusal.
    pub fn status_code(&self) -> (r: u16)
        ensures
            r == upload_status_code(*self),
    {
        match self {
            UploadError::Multipart(_) => 400,
            UploadError::NoFileField => 400,
            UploadError::CreateFile(_) => 500,
            UploadError::ChunkRead(_) => 400,
            UploadError::TooLarge => 413,
            UploadError::TooSmall => 400,
            UploadError::WriteFile(_) => 500,
            UploadError::Database(_) => 500,
            UploadError::AnalysisThread(_) => 500,
            UploadError::AnalysisFailed(_) => 422,
        }
    }

    /// The `error` text of the refusal.
    pub fn error_text(&self) -> (r: String)
        ensures
            r@ == upload_error_text(*self),
    {
        match self {
            UploadError::Multipart(d) => prefixed("Multipart error: ", d),
            UploadError::NoFileField => String::from_str("No 'file' field found in multipart data"),
            UploadError::CreateFile(d) => prefixed("Failed to create file: ", d),
            UploadError::ChunkRead(d) => prefixed("Chunk read error: ", d),
            UploadError::TooLarge => String::from_str("File size exceeds 10MB limit"),
            UploadError::TooSmall => String::from_str("File size is less than 1KB"),
            UploadError::WriteFile(d) => prefixed("Failed to write file: ", d),
            UploadError::Database(_) => String::from_str("Database error"),
            UploadError::AnalysisThread(d) => prefixed("Analysis thread failed: ", d),
            UploadError::AnalysisFailed(d) => prefixed("Analysis failed: ", d),
        }
    }

    /// The `details` text that accompanies the refusal, if any.
    pub fn details(&self) -> (r: Option<String>)
        ensures
            match *self {
                UploadError::Database(d) => r matches Some(x) && x@ == d@,
                _ => r is None,
            },
    {
        match self {
            UploadError::Database(d) => Some(d.clone()),
            _ => None,
        }
    }

    /// Whether the partly or fully stored file is deleted on this refusal.
    pub fn removes_stored_file(&self) -> (r: bool)
        ensures
            r == (*self is TooLarge || *self is TooSmall || *self is Database),
    {
        match self {
            UploadError::TooLarge => true,
            UploadError::TooSmall => true,
            UploadError::Database(_) => true,
            _ => false,
        }
    }
}

/// Whether a multipart field with this name carries the audio file.
pub fn is_file_field(name: Option<&str>) -> (r: bool)
    ensures
        r == (name matches Some(n) && n@ == file_field_name()),
{
    match name {
        Some(n) => text_eq(n, "file"),
        None => false,
    }
}

/// The client's name for the uploaded file, `audio.mp3` when none is given.
pub fn client_file_name(file_name: Option<&str>) -> (r: String)
    ensures
        match file_name {
            Some(n) => r@ == n@,
            None => r@ == "audio.mp3"@,
        },
{
    match file_name {
        Some(n) => String::from_str(n),
        None => String::from_str("audio.mp3"),
    }
}

/// The extension the stored copy gets: the client file name's extension,
/// `mp3` when it has none.
pub fn stored_extension(file_name: &str) -> (r: String)
    ensures
        match std_path_extension(file_name@) {
            Some(e) => r@ == e,
            None => r@ == "mp3"@,
        },
        !r@.contains('.'),
        !r@.contains('/'),
{
    match path_extension(file_name) {
        Some(e) => e,
        None => {
            let r = String::from_str("mp3");
            proof {
                reveal_strlit("mp3");
                assert(r@ =~= seq!['m', 'p', '3']);
            }
            r
        },
    }
}

/// The name of the stored copy: `<id>.<extension>`. It names a file
/// directly inside the upload directory (holds no `/`) whenever the id does.
pub fn stored_file_name(id: &str, extension: &str) -> (r: String)
    ensures
        r@ == id@ + "."@ + extension@,
        !id@.contains('/') && !extension@.contains('/') ==> !r@.contains('/'),
{
    let mut r = String::from_str(id);
    r.append(".");
    r.append(extension);
    proof {
        reveal_strlit(".");
        if !id@.contains('/') && !extension@.contains('/') {
            assert forall|i: int| 0 <= i < r@.len() implies r@[i] != '/' by {
                if i < id@.len() {
                    assert(r@[i] == id@[i]);
                } else if i == id@.len() {
                } else {
                    assert(r@[i] == extension@[i - id@.len() - 1]);
                }
            }
        }
    }
    r
}

/// Where the stored copy is written: `uploads/<name>`. When the name holds
/// no `/`, the only `/` is the one after `uploads`, so the file lies directly
/// inside the upload directory.
pub fn stored_file_path(stored_name: &str) -> (r: String)
    ensures
        r@ == "uploads/"@ + stored_name@,
        !stored_name@.contains('/') ==> forall|i: int| 0 <= i < r@.len() && r@[i] == '/' ==> i == 7,
{
    let mut r = String::from_str("uploads/");
    r.append(stored_name);
    proof {
        reveal_strlit("uploads/");
        if !stored_name@.contains('/') {
            assert forall|i: int| 0 <= i < r@.len() && r@[i] == '/' implies i == 7 by {
                if i >= 8 {
                    assert(r@[i] == stored_name@[i - 8]);
                }
            }
        }
    }
    r
}

/// The status an audio file gets once its analysis has finished.
pub fn analysis_status(succeeded: bool) -> (r: &'static str)
    ensures
        r@ == if succeeded {
            "analyzed"@
        } else {
            "failed"@
        },
{
    if succeeded {
        "analyzed"
    } else {
        "failed"
    }
}

/// Counts the bytes of an upload as its chunks arrive.
pub struct UploadReceiver {
    total: usize,
}

impl View for UploadReceiver {
    type V = nat;

    closed spec fn view(&self) -> nat {
        self.total as nat
    }
}

impl UploadReceiver {
    #[verifier::type_invariant]
    spec fn within_limit(self) -> bool {
        self.total <= MAX_FILE_SIZE
    }

    /// A receiver that has seen no bytes yet.
    pub fn new() -> (r: UploadReceiver)
        ensures
            r@ == 0,
    {
        UploadReceiver { total: 0 }
    }

    /// The number of bytes received so far.
    pub fn total(&self) -> (r: usize)
        ensures
            r == self@,
            r <= MAX_FILE_SIZE,
    {
        proof {
            use_type_invariant(self);
        }
        self.total
    }

    /// Takes in a chunk of `len` bytes; refuses the upload once it grows
    /// beyond 10 MB.
    pub fn accept_chunk(&mut self, len: usize) -> (r: Result<(), UploadError>)
        requires
            old(self)@ + len <= usize::MAX,
        ensures
            old(self)@ + len <= MAX_FILE_SIZE ==> r is Ok && final(self)@ == old(self)@ + len,
            old(self)@ + len > MAX_FILE_SIZE ==> r matches Err(UploadError::TooLarge),
            old(self)@ + len > MAX_FILE_SIZE ==> final(self)@ == old(self)@,
            final(self)@ <= MAX_FILE_SIZE,
    {
        proof {
            use_type_invariant(&*self);
        }
        if len > MAX_FILE_SIZE - self.total {
            return Err(UploadError::TooLarge);
        }
        self.total = self.total + len;
        Ok(())
    }

    /// Ends the upload: refuses it when it holds less than 1 KB, and otherwise
    /// gives its size, which then lies between 1 KB and 10 MB.
    pub fn finish(&self) -> (r: Result<usize, UploadError>)
        ensures
            self@ < MIN_FILE_SIZE ==> r matches Err(UploadError::TooSmall),
            self@ >= MIN_FILE_SIZE ==> r == Ok::<usize, UploadError>(self@ as usize),
            r matches Ok(n) ==> MIN_FILE_SIZE <= n <= MAX_FILE_SIZE,
    {
        proof {
            use_type_invariant(self);
        }
        if self.total < MIN_FILE_SIZE {
            Err(UploadError::TooSmall)
        } else {
            Ok(self.total)
        }
    }
}


/// Where an upload request stands.
pub enum UploadPhase {
    /// Waiting for the next multipart field.
    AwaitingField,
    /// Waiting for the stored file to be created.
    Creating { original_name: String, stored_name: String, path: String },
    /// Receiving the file field's chunks.
    Receiving { original_name: String, stored_name: String, path: String, received: UploadReceiver },
    /// Waiting for the received bytes to be written.
    Writing { original_name: String, stored_name: String, path: String, size: usize },
    /// Waiting for the file record to be stored.
    Recording { path: String },
    /// Waiting for the analysis.
    Analyzing,
    /// Answered.
    Done,
}

/// What the request handler reports back.
pub enum UploadEvent {
    /// Reading the next field failed.
    FieldFailed(String),
    /// The body holds no more fields.
    NoMoreFields,
    /// A field with this name and client file name arrived; `fresh_id` is a
    /// new unique id for a stored copy.
    Field { name: Option<String>, file_name: Option<String>, fresh_id: String },
    /// The stored file was created.
    Created,
    /// Creating the stored file failed.
    CreateFailed(String),
    /// A chunk of this many bytes arrived.
    Chunk(usize),
    /// Reading a chunk failed.
    ChunkFailed(String),
    /// The field has no more chunks.
    ChunksEnded,
    /// The bytes were written.
    Written,
    /// Writing the bytes failed.
    WriteFailed(String),
    /// The file record was stored.
    Recorded,
    /// Storing the file record failed.
    RecordFailed(String),
    /// The analysis finished successfully.
    Analyzed,
    /// The analysis reported an error.
    AnalysisFailed(String),
    /// The analysis task could not be joined.
    AnalysisJoinFailed(String),
}

/// What the request handler does next.
pub enum UploadAction {
    /// Read the next multipart field.
    ReadNextField,
    /// Create the stored file at this path.
    CreateFile { path: String },
    /// Keep the chunk just received and read the next one.
    ReadChunk,
    /// Write the received bytes to the stored file.
    WriteFile,
    /// Store the file record.
    RecordFile { stored_name: String, original_name: String, path: String, size: usize },
    /// Analyse the stored file.
    Analyze,
    /// Mark the file analysed and answer `201 Created`.
    MarkAnalyzedAndRespond,
    /// Mark the file failed and answer with this refusal.
    MarkFailedAndRefuse(UploadError),
    /// Delete the stored file at `remove`, if any, and answer with the refusal.
    Refuse { error: UploadError, remove: Option<String> },
}

/// Whether the handler expects `event` in `phase`.
pub open spec fn upload_accepts(phase: UploadPhase, event: UploadEvent) -> bool {
    match phase {
        UploadPhase::AwaitingField => event is FieldFailed || event is NoMoreFields || event is Field,
        UploadPhase::Creating { .. } => event is Created || event is CreateFailed,
        UploadPhase::Receiving { received, .. } => match event {
            UploadEvent::Chunk(len) => received@ + len <= usize::MAX,
            UploadEvent::ChunkFailed(_) => true,
            UploadEvent::ChunksEnded => true,
            _ => false,
        },
        UploadPhase::Writing { .. } => event is Written || event is WriteFailed,
        UploadPhase::Recording { .. } => event is Recorded || event is RecordFailed,
        UploadPhase::Analyzing => event is Analyzed || event is AnalysisFailed || event is AnalysisJoinFailed,
        UploadPhase::Done => false,
    }
}

/// Whether `a` answers with a refusal whose error satisfies `error_is` and
/// deletes the file at `path` exactly when `removes` holds.
pub open spec fn refuses(a: UploadAction, error_is: spec_fn(UploadError) -> bool, removes: bool, path: Seq<char>) -> bool {
    match a {
        UploadAction::Refuse { error, remove } => error_is(error) && if removes {
            remove matches Some(p) && p@ == path
        } else {
            remove is None
        },
        _ => false,
    }
}

/// The upload decision: from `phase` and `event` to the next phase `next`
/// and the action `a`.
pub open spec fn upload_step(phase: UploadPhase, event: UploadEvent, next: UploadPhase, a: UploadAction) -> bool {
    match phase {
        UploadPhase::AwaitingField => match event {
            UploadEvent::FieldFailed(d) => next is Done && refuses(
                a,
                |e: UploadError| e matches UploadError::Multipart(x) && x@ == d@,
                false,
                Seq::empty(),
            ),
            UploadEvent::NoMoreFields => next is Done && refuses(a, |e: UploadError| e is NoFileField, false, Seq::empty()),
            UploadEvent::Field { name, file_name, fresh_id } => if name matches Some(n) && n@ == file_field_name() {
                let original = match file_name {
                    Some(f) => f@,
                    None => "audio.mp3"@,
                };
                let ext = match std_path_extension(original) {
                    Some(e) => e,
                    None => "mp3"@,
                };
                let stored = fresh_id@ + "."@ + ext;
                let path = "uploads/"@ + stored;
                &&& next matches UploadPhase::Creating { original_name, stored_name, path: p }
                &&& original_name@ == original && stored_name@ == stored && p@ == path
                &&& a matches UploadAction::CreateFile { path: q }
                &&& q@ == path
            } else {
                next is AwaitingField && a is ReadNextField
            },
            _ => false,
        },
        UploadPhase::Creating { original_name, stored_name, path } => match event {
            UploadEvent::Created => {
                &&& next matches UploadPhase::Receiving { original_name: o, stored_name: s, path: p, received }
                &&& o@ == original_name@ && s@ == stored_name@ && p@ == path@ && received@ == 0
                &&& a is ReadChunk
            },
            UploadEvent::CreateFailed(d) => next is Done && refuses(
                a,
                |e: UploadError| e matches UploadError::CreateFile(x) && x@ == d@,
                false,
                Seq::empty(),
            ),
            _ => false,
        },
        UploadPhase::Receiving { original_name, stored_name, path, received } => match event {
            UploadEvent::Chunk(len) => if received@ + len <= MAX_FILE_SIZE {
                &&& next matches UploadPhase::Receiving { original_name: o, stored_name: s, path: p, received: r2 }
                &&& o@ == original_name@ && s@ == stored_name@ && p@ == path@ && r2@ == received@ + len
                &&& a is ReadChunk
            } else {
                next is Done && refuses(a, |e: UploadError| e is TooLarge, true, path@)
            },
            UploadEvent::ChunkFailed(d) => next is Done && refuses(
                a,
                |e: UploadError| e matches UploadError::ChunkRead(x) && x@ == d@,
                false,
                Seq::empty(),
            ),
            UploadEvent::ChunksEnded => if received@ >= MIN_FILE_SIZE {
                &&& next matches UploadPhase::Writing { original_name: o, stored_name: s, path: p, size }
                &&& o@ == original_name@ && s@ == stored_name@ && p@ == path@ && size == received@
                &&& a is WriteFile
            } else {
                next is Done && refuses(a, |e: UploadError| e is TooSmall, true, path@)
            },
            _ => false,
        },
        UploadPhase::Writing { original_name, stored_name, path, size } => match event {
            UploadEvent::Written => {
                &&& next matches UploadPhase::Recording { path: p }
                &&& p@ == path@
                &&& a matches UploadAction::RecordFile { stored_name: s, original_name: o, path: q, size: z }
                &&& s@ == stored_name@ && o@ == original_name@ && q@ == path@ && z == size
            },
            UploadEvent::WriteFailed(d) => next is Done && refuses(
                a,
                |e: UploadError| e matches UploadError::WriteFile(x) && x@ == d@,
                false,
                Seq::empty(),
            ),
            _ => false,
        },
        UploadPhase::Recording { path } => match event {
            UploadEvent::Recorded => next is Analyzing && a is Analyze,
            UploadEvent::RecordFailed(d) => next is Done && refuses(
                a,
                |e: UploadError| e matches UploadError::Database(x) && x@ == d@,
                true,
                path@,
            ),
            _ => false,
        },
        UploadPhase::Analyzing => match event {
            UploadEvent::Analyzed => next is Done && a is MarkAnalyzedAndRespond,
            UploadEvent::AnalysisFailed(d) => {
                &&& next is Done
                &&& a matches UploadAction::MarkFailedAndRefuse(UploadError::AnalysisFailed(x))
                &&& x@ == d@
            },
            UploadEvent::AnalysisJoinFailed(d) => next is Done && refuses(
                a,
                |e: UploadError| e matches UploadError::AnalysisThread(x) && x@ == d@,
                false,
                Seq::empty(),
            ),
            _ => false,
        },
        UploadPhase::Done => false,
    }
}

fn refuse(error: UploadError) -> (r: (UploadPhase, UploadAction))
    ensures
        r.0 is Done,
        r.1 matches UploadAction::Refuse { error: e, remove } && e == error && remove is None,
{
    (UploadPhase::Done, UploadAction::Refuse { error, remove: None })
}

fn refuse_and_remove(error: UploadError, path: String) -> (r: (UploadPhase, UploadAction))
    ensures
        r.0 is Done,
        r.1 matches UploadAction::Refuse { error: e, remove: Some(p) } && e == error && p == path,
{
    (UploadPhase::Done, UploadAction::Refuse { error, remove: Some(path) })
}

/// Decides the next step of an upload request.
pub fn decide_upload_step(phase: UploadPhase, event: UploadEvent) -> (r: (UploadPhase, UploadAction))
    requires
        upload_accepts(phase, event),
    ensures
        upload_step(phase, event, r.0, r.1),
{
    match phase {
        UploadPhase::AwaitingField => match event {
            UploadEvent::FieldFailed(d) => refuse(UploadError::Multipart(d)),
            UploadEvent::Field { name, file_name, fresh_id } => {
                let n: Option<&str> = match &name {
                    Some(x) => Some(x.as_str()),
                    None => None,
                };
                if is_file_field(n) {
                    let f: Option<&str> = match &file_name {
                        Some(x) => Some(x.as_str()),
                        None => None,
                    };
                    let original_name = client_file_name(f);
                    let ext = stored_extension(original_name.as_str());
                    let stored_name = stored_file_name(fresh_id.as_str(), ext.as_str());
                    let path = stored_file_path(stored_name.as_str());
                    let target = path.clone();
                    (UploadPhase::Creating { original_name, stored_name, path }, UploadAction::CreateFile { path: target })
                } else {
                    (UploadPhase::AwaitingField, UploadAction::ReadNextField)
                }
            },
            _ => refuse(UploadError::NoFileField),
        },
        UploadPhase::Creating { original_name, stored_name, path } => match event {
            UploadEvent::CreateFailed(d) => refuse(UploadError::CreateFile(d)),
            _ => (
                UploadPhase::Receiving { original_name, stored_name, path, received: UploadReceiver::new() },
                UploadAction::ReadChunk,
            ),
        },
        UploadPhase::Receiving { original_name, stored_name, path, received } => match event {
            UploadEvent::Chunk(len) => {
                let mut received = received;
                match received.accept_chunk(len) {
                    Ok(()) => (
                        UploadPhase::Receiving { original_name, stored_name, path, received },
                        UploadAction::ReadChunk,
                    ),
                    Err(e) => refuse_and_remove(e, path),
                }
            },
            UploadEvent::ChunkFailed(d) => refuse(UploadError::ChunkRead(d)),
            _ => match received.finish() {
                Ok(size) => (UploadPhase::Writing { original_name, stored_name, path, size }, UploadAction::WriteFile),
                Err(e) => refuse_and_remove(e, path),
            },
        },
        UploadPhase::Writing { original_name, stored_name, path, size } => match event {
            UploadEvent::WriteFailed(d) => refuse(UploadError::WriteFile(d)),
            _ => {
                let p = path.clone();
                (UploadPhase::Recording { path: p }, UploadAction::RecordFile { stored_name, original_name, path, size })
            },
        },
        UploadPhase::Recording { path } => match event {
            UploadEvent::RecordFailed(d) => refuse_and_remove(UploadError::Database(d), path),
            _ => (UploadPhase::Analyzing, UploadAction::Analyze),
        },
        UploadPhase::Analyzing => match event {
            UploadEvent::Analyzed => (UploadPhase::Done, UploadAction::MarkAnalyzedAndRespond),
            UploadEvent::AnalysisFailed(d) => (UploadPhase::Done, UploadAction::MarkFailedAndRefuse(UploadError::AnalysisFailed(d))),
            UploadEvent::AnalysisJoinFailed(d) => refuse(UploadError::AnalysisThread(d)),
            _ => (UploadPhase::Done, UploadAction::MarkAnalyzedAndRespond),
        },
        UploadPhase::Done => (UploadPhase::Done, UploadAction::ReadNextField),
    }
}

impl UploadPhase {
    /// Whether the handler expects `event` in this phase.
    pub fn accepts_event(&self, event: &UploadEvent) -> (r: bool)
        ensures
            r == upload_accepts(*self, *event),
    {
        match self {
            UploadPhase::AwaitingField => matches!(
                event,
                UploadEvent::FieldFailed(_) | UploadEvent::NoMoreFields | UploadEvent::Field { .. }
            ),
            UploadPhase::Creating { .. } => matches!(event, UploadEvent::Created | UploadEvent::CreateFailed(_)),
            UploadPhase::Receiving { received, .. } => match event {
                UploadEvent::Chunk(len) => *len <= usize::MAX - received.total(),
                UploadEvent::ChunkFailed(_) => true,
                UploadEvent::ChunksEnded => true,
                _ => false,
            },
            UploadPhase::Writing { .. } => matches!(event, UploadEvent::Written | UploadEvent::WriteFailed(_)),
            UploadPhase::Recording { .. } => matches!(event, UploadEvent::Recorded | UploadEvent::RecordFailed(_)),
            UploadPhase::Analyzing => matches!(
                event,
                UploadEvent::Analyzed | UploadEvent::AnalysisFailed(_) | UploadEvent::AnalysisJoinFailed(_)
            ),
            UploadPhase::Done => false,
        }
    }
}

/// An upload run: `phases[i]` is where the request stood before `events[i]`,
/// and `actions[i]` is what was decided on that event.
pub open spec fn valid_upload_run(phases: Seq<UploadPhase>, events: Seq<UploadEvent>, actions: Seq<UploadAction>) -> bool {
    &&& phases.len() == events.len() + 1
    &&& actions.len() == events.len()
    &&& phases[0] is AwaitingField
    &&& forall|i: int|
        0 <= i < events.len() ==> upload_accepts(phases[i], #[trigger] events[i]) && upload_step(
            phases[i],
            events[i],
            phases[i + 1],
            actions[i],
        )
}

/// What holds of every phase an upload run reaches: the bytes received stay
/// within 10 MB, and a file goes on to be written only at 1 KB to 10 MB.
pub open spec fn upload_phase_ok(p: UploadPhase) -> bool {
    match p {
        UploadPhase::Receiving { received, .. } => received@ <= MAX_FILE_SIZE,
        UploadPhase::Writing { size, .. } => MIN_FILE_SIZE <= size <= MAX_FILE_SIZE,
        _ => true,
    }
}

proof fn lemma_upload_phases_ok(
    phases: Seq<UploadPhase>,
    events: Seq<UploadEvent>,
    actions: Seq<UploadAction>,
    k: int,
)
    requires
        valid_upload_run(phases, events, actions),
        0 <= k <= events.len(),
    ensures
        upload_phase_ok(phases[k]),
        k < events.len() ==> !(phases[k] is Done),
    decreases k,
{
    if k > 0 {
        lemma_upload_phases_ok(phases, events, actions, k - 1);
        assert(upload_accepts(phases[k - 1], events[k - 1]));
        assert(upload_step(phases[k - 1], events[k - 1], phases[k], actions[k - 1]));
    }
    if k < events.len() {
        assert(upload_accepts(phases[k], events[k]));
    }
}

/// In every upload run: a file record is stored only for a file of 1 KB to
/// 10 MB; a refusal deletes the stored file exactly when the file was too
/// large, too small, or its record could not be stored; and the request
/// takes no event after it has been answered.
pub proof fn lemma_upload_run(phases: Seq<UploadPhase>, events: Seq<UploadEvent>, actions: Seq<UploadAction>)
    requires
        valid_upload_run(phases, events, actions),
    ensures
        forall|i: int|
            0 <= i < actions.len() ==> (#[trigger] actions[i] matches UploadAction::RecordFile { size, .. } ==> MIN_FILE_SIZE
                <= size <= MAX_FILE_SIZE),
        forall|i: int|
            0 <= i < actions.len() ==> (#[trigger] actions[i] matches UploadAction::Refuse { error, remove } ==> (remove is Some
                <==> (error is TooLarge || error is TooSmall || error is Database))),
        forall|i: int| 0 <= i < events.len() ==> !(#[trigger] phases[i] is Done),
{
    assert forall|i: int|
        0 <= i < actions.len() implies (#[trigger] actions[i] matches UploadAction::RecordFile { size, .. } ==> MIN_FILE_SIZE
            <= size <= MAX_FILE_SIZE) by {
        lemma_upload_phases_ok(phases, events, actions, i);
        assert(upload_step(phases[i], events[i], phases[i + 1], actions[i]));
    }
    assert forall|i: int|
        0 <= i < actions.len() implies (#[trigger] actions[i] matches UploadAction::Refuse { error, remove } ==> (remove is Some
            <==> (error is TooLarge || error is TooSmall || error is Database))) by {
        assert(upload_accepts(phases[i], events[i]));
        assert(upload_step(phases[i], events[i], phases[i + 1], actions[i]));
    }
    assert forall|i: int| 0 <= i < events.len() implies !(#[trigger] phases[i] is Done) by {
        lemma_upload_phases_ok(phases, events, actions, i);
    }
}

} // verus!
