use vstd::prelude::*;
use vstd::string::StringExecFns;
use crate::text::{contains_text, has_infix};
use argon2::password_hash::PasswordHasher;

verus! {

/// The database message that marks a second account for the same email.
pub open spec fn duplicate_email_marker() -> Seq<char> {
    "UNIQUE constraint failed: users.email"@
}

/// One failed validation rule of a request field: its message, when the
/// rule has one, and its code.
pub struct FieldError {
    pub message: Option<String>,
    pub code: String,
}

/// The text shown for a failed rule: its message, or else its code.
pub open spec fn field_error_label(e: FieldError) -> Seq<char> {
    match e.message {
        Some(m) => m@,
        None => e.code@,
    }
}

/// The texts of `parts`, separated by `sep`.
pub open spec fn joined(parts: Seq<Seq<char>>, sep: Seq<char>) -> Seq<char>
    decreases parts.len(),
{
    if parts.len() == 0 {
        Seq::empty()
    } else if parts.len() == 1 {
        parts[0]
    } else {
        joined(parts.drop_last(), sep) + sep + parts.last()
    }
}

/// The labels of a field's failed rules, separated by `", "`.
pub fn field_error_text(errors: &Vec<FieldError>) -> (r: String)
    ensures
        r@ == joined(errors@.map_values(|e: FieldError| field_error_label(e)), ", "@),
{
    let ghost labels = errors@.map_values(|e: FieldError| field_error_label(e));
    let mut r = String::new();
    let n = errors.len();
    let mut i: usize = 0;
    while i < n
        invariant
            i <= n,
            n == errors@.len(),
            labels == errors@.map_values(|e: FieldError| field_error_label(e)),
            r@ == joined(labels.take(i as int), ", "@),
        decreases n - i,
    {
        let e = &errors[i];
        if i > 0 {
            r.append(", ");
        }
        match &e.message {
            Some(m) => r.append(m.as_str()),
            None => r.append(e.code.as_str()),
        }
        proof {
            assert(labels.take(i + 1).drop_last() =~= labels.take(i as int));
            assert(labels.take(i + 1).last() == field_error_label(errors@[i as int]));
            if i == 0 {
                assert(labels.take(0) =~= Seq::<Seq<char>>::empty());
                assert(r@ =~= labels.take(1)[0]);
            }
        }
        i = i + 1;
    }
    assert(labels.take(n as int) =~= labels);
    r
}

/// Why a registration is refused.
pub enum RegisterError {
    /// The body is not a well-formed registration request.
    InvalidBody(String),
    /// Some fields break their rules: each field with its error text.
    Invalid(Vec<(String, String)>),
    /// Hashing the password failed.
    HashFailed,
    /// An account with this email already exists.
    EmailTaken,
    /// Storing the account failed otherwise.
    Database(String),
}

impl RegisterError {
    /// The HTTP status code of the refusal.
    pub fn status_code(&self) -> (r: u16)
        ensures
            r == match *self {
                RegisterError::InvalidBody(_) => 422u16,
                RegisterError::Invalid(_) => 422u16,
                RegisterError::HashFailed => 500u16,
                RegisterError::EmailTaken => 409u16,
                RegisterError::Database(_) => 500u16,
            },
    {
        match self {
            RegisterError::InvalidBody(_) => 422,
            RegisterError::Invalid(_) => 422,
            RegisterError::HashFailed => 500,
            RegisterError::EmailTaken => 409,
            RegisterError::Database(_) => 500,
        }
    }
}

/// What Argon2 (default parameters) gives as the PHC hash string of a
/// password under a Base64 salt, or `None` when hashing fails.
pub uninterp spec fn argon2_phc_hash(password: Seq<char>, salt: Seq<char>) -> Option<Seq<char>>;

/// Whether `c` is a character of the standard Base64 alphabet.
pub open spec fn is_b64_char(c: char) -> bool {
    ('A' <= c && c <= 'Z') || ('a' <= c && c <= 'z') || ('0' <= c && c <= '9') || c == '+' || c == '/'
}

/// Whether `s` is the unpadded standard Base64 text of 16 bytes: 22
/// characters of the alphabet, the last of which carries only the final two
/// bits (so it is `A`, `Q`, `g` or `w`).
pub open spec fn is_b64_of_16_bytes(s: Seq<char>) -> bool {
    &&& s.len() == 22
    &&& forall|i: int| 0 <= i < 22 ==> is_b64_char(#[trigger] s[i])
    &&& (s[21] == 'A' || s[21] == 'Q' || s[21] == 'g' || s[21] == 'w')
}

/// Draws a fresh salt with `SaltString::generate` from the operating
/// system's random source and returns its Base64 text. Claimed, from the
/// source: the salt is 16 random bytes in unpadded standard Base64, 22
/// characters long. Which bytes are drawn is not claimed: they are random.
#[verifier::external_body]
fn generate_salt() -> (r: String)
    ensures
        is_b64_of_16_bytes(r@),
{
    argon2::password_hash::SaltString::generate(&mut rand_core::OsRng).as_str().to_string()
}

/// Calls `PasswordHasher::hash_password` of `Argon2::default()` on the
/// password's bytes and the salt (read with `Salt::from_b64`), and renders
/// the hash as its PHC string. Claimed: the result is what the name
/// `argon2_phc_hash` gives for the password and the salt, and, from the
/// source, hashing succeeds for a salt of 16 bytes in Base64 and a password
/// of at most `u32::MAX` bytes (the only failures are salt text, salt or
/// password length, none of which applies then).
#[verifier::external_body]
fn argon2_hash(password: &str, salt: &str) -> (r: Option<String>)
    ensures
        match r {
            Some(h) => argon2_phc_hash(password@, salt@) == Some(h@),
            None => argon2_phc_hash(password@, salt@) is None,
        },
        is_b64_of_16_bytes(salt@) && vstd::utf8::encode_utf8(password@).len() <= u32::MAX ==> r is Some,
{
    let salt = match argon2::password_hash::Salt::from_b64(salt) {
        Ok(s) => s,
        Err(_) => return None,
    };
    match argon2::Argon2::default().hash_password(password.as_bytes(), salt) {
        Ok(h) => Some(h.to_string()),
        Err(_) => None,
    }
}

/// The stored hash of a password under a given salt; hashing failures
/// refuse the registration.
pub fn hash_password_with_salt(password: &str, salt: &str) -> (r: Result<String, RegisterError>)
    ensures
        is_b64_of_16_bytes(salt@) && vstd::utf8::encode_utf8(password@).len() <= u32::MAX ==> r is Ok,
        match argon2_phc_hash(password@, salt@) {
            Some(h) => r matches Ok(x) && x@ == h,
            None => r matches Err(RegisterError::HashFailed),
        },
{
    match argon2_hash(password, salt) {
        Some(h) => Ok(h),
        None => Err(RegisterError::HashFailed),
    }
}

/// The stored hash of a password under a freshly drawn random salt of 16
/// bytes. Hashing succeeds for every password of at most `u32::MAX` bytes;
/// a failure is reported as `HashFailed`.
pub fn hash_password(password: &str) -> (r: Result<String, RegisterError>)
    ensures
        r matches Err(e) ==> e is HashFailed,
        r matches Ok(h) ==> exists|salt: Seq<char>|
            is_b64_of_16_bytes(salt) && argon2_phc_hash(password@, salt) == Some(h@),
        vstd::utf8::encode_utf8(password@).len() <= u32::MAX ==> r is Ok,
{
    let salt = generate_salt();
    hash_password_with_salt(password, salt.as_str())
}

/// Whether a database error message reports a duplicate email.
pub open spec fn reports_duplicate_email(db_message: Option<&str>) -> bool {
    match db_message {
        Some(m) => has_infix(m@, duplicate_email_marker()),
        None => false,
    }
}

/// Classifies a failed account insert: a database error whose message
/// reports a duplicate email means the email is taken; anything else is a
/// database error carrying `details`.
pub fn classify_insert_failure(db_message: Option<&str>, details: String) -> (r: RegisterError)
    ensures
        r is EmailTaken <==> reports_duplicate_email(db_message),
        !reports_duplicate_email(db_message) ==> (r matches RegisterError::Database(d) && d@ == details@),
{
    match db_message {
        Some(m) => {
            if contains_text(m, "UNIQUE constraint failed: users.email") {
                RegisterError::EmailTaken
            } else {
                RegisterError::Database(details)
            }
        },
        None => RegisterError::Database(details),
    }
}


/// The error text of each invalid field: the labels of its failed rules,
/// separated by `", "`.
pub fn invalid_field_texts(fields: &Vec<(String, Vec<FieldError>)>) -> (r: Vec<(String, String)>)
    ensures
        r@.len() == fields@.len(),
        forall|i: int|
            0 <= i < r@.len() ==> (#[trigger] r@[i]).0@ == fields@[i].0@ && r@[i].1@ == joined(
                fields@[i].1@.map_values(|e: FieldError| field_error_label(e)),
                ", "@,
            ),
{
    let mut r: Vec<(String, String)> = Vec::new();
    let n = fields.len();
    let mut i: usize = 0;
    while i < n
        invariant
            i <= n,
            n == fields@.len(),
            r@.len() == i,
            forall|k: int|
                0 <= k < i ==> (#[trigger] r@[k]).0@ == fields@[k].0@ && r@[k].1@ == joined(
                    fields@[k].1@.map_values(|e: FieldError| field_error_label(e)),
                    ", "@,
                ),
        decreases n - i,
    {
        let name = fields[i].0.clone();
        let text = field_error_text(&fields[i].1);
        r.push((name, text));
        i = i + 1;
    }
    r
}

/// Where a registration request stands.
pub enum RegisterPhase {
    /// Waiting for the request body to be read.
    AwaitingBody,
    /// Waiting for the request's fields to be validated.
    AwaitingValidation { password: String },
    /// Waiting for the account to be stored.
    AwaitingInsert,
    /// Answered.
    Done,
}

/// What the request handler reports back.
pub enum RegisterEvent {
    /// The body was read as a registration request.
    BodyParsed { password: String },
    /// The body could not be read; the text says why.
    BodyRejected(String),
    /// Every field follows its rules.
    Validated,
    /// Some fields break their rules.
    ValidationFailed(Vec<(String, Vec<FieldError>)>),
    /// The account was stored.
    Inserted,
    /// Storing the account failed: the database's own message, if the error
    /// came from the database, and the error's text.
    InsertFailed { db_message: Option<String>, details: String },
}

/// What the request handler does next.
pub enum RegisterAction {
    /// Validate the request's fields.
    Validate,
    /// Store the account with this password hash.
    InsertUser { password_hash: String },
    /// Answer `201 Created` with the stored account.
    RespondCreated,
    /// Answer with this refusal.
    Refuse(RegisterError),
}

/// Whether the handler expects `event` in `phase`.
pub open spec fn register_accepts(phase: RegisterPhase, event: RegisterEvent) -> bool {
    match phase {
        RegisterPhase::AwaitingBody => event is BodyParsed || event is BodyRejected,
        RegisterPhase::AwaitingValidation { .. } => event is Validated || event is ValidationFailed,
        RegisterPhase::AwaitingInsert => event is Inserted || event is InsertFailed,
        RegisterPhase::Done => false,
    }
}

/// Whether `a` refuses with the error `classify_insert_failure` gives.
pub open spec fn refuses_insert_failure(a: RegisterAction, db_message: Option<String>, details: String) -> bool {
    match a {
        RegisterAction::Refuse(e) => {
            let dup = match db_message {
                Some(m) => has_infix(m@, duplicate_email_marker()),
                None => false,
            };
            if dup {
                e is EmailTaken
            } else {
                e matches RegisterError::Database(d) && d@ == details@
            }
        },
        _ => false,
    }
}

/// Whether `a` refuses with the field texts of `fields`.
pub open spec fn refuses_invalid_fields(a: RegisterAction, fields: Seq<(String, Vec<FieldError>)>) -> bool {
    match a {
        RegisterAction::Refuse(RegisterError::Invalid(texts)) => texts@.len() == fields.len() && forall|i: int|
            0 <= i < fields.len() ==> (#[trigger] texts@[i]).0@ == fields[i].0@ && texts@[i].1@ == joined(
                fields[i].1@.map_values(|e: FieldError| field_error_label(e)),
                ", "@,
            ),
        _ => false,
    }
}

/// The registration decision: from `phase` and `event` to the next phase
/// `next` and the action `a`. A bad body is refused first, then invalid
/// fields, then a failed hash, then a failed insert.
pub open spec fn register_step(phase: RegisterPhase, event: RegisterEvent, next: RegisterPhase, a: RegisterAction) -> bool {
    match phase {
        RegisterPhase::AwaitingBody => match event {
            RegisterEvent::BodyParsed { password } => {
                &&& next matches RegisterPhase::AwaitingValidation { password: p }
                &&& p@ == password@
                &&& a is Validate
            },
            RegisterEvent::BodyRejected(d) => {
                &&& next is Done
                &&& a matches RegisterAction::Refuse(RegisterError::InvalidBody(x))
                &&& x@ == d@
            },
            _ => false,
        },
        RegisterPhase::AwaitingValidation { password } => match event {
            RegisterEvent::Validated => {
                ||| {
                    &&& next is AwaitingInsert
                    &&& a matches RegisterAction::InsertUser { password_hash }
                    &&& exists|salt: Seq<char>|
                        is_b64_of_16_bytes(salt) && argon2_phc_hash(password@, salt) == Some(password_hash@)
                }
                ||| {
                    &&& vstd::utf8::encode_utf8(password@).len() > u32::MAX
                    &&& next is Done
                    &&& a matches RegisterAction::Refuse(RegisterError::HashFailed)
                }
            },
            RegisterEvent::ValidationFailed(fields) => next is Done && refuses_invalid_fields(a, fields@),
            _ => false,
        },
        RegisterPhase::AwaitingInsert => match event {
            RegisterEvent::Inserted => next is Done && a is RespondCreated,
            RegisterEvent::InsertFailed { db_message, details } => next is Done && refuses_insert_failure(
                a,
                db_message,
                details,
            ),
            _ => false,
        },
        RegisterPhase::Done => false,
    }
}

/// Decides the next step of a registration request. The password is hashed
/// here, under a fresh random salt, once the fields are valid.
pub fn decide_register_step(phase: RegisterPhase, event: RegisterEvent) -> (r: (RegisterPhase, RegisterAction))
    requires
        register_accepts(phase, event),
    ensures
        register_step(phase, event, r.0, r.1),
{
    match phase {
        RegisterPhase::AwaitingBody => match event {
            RegisterEvent::BodyParsed { password } => (
                RegisterPhase::AwaitingValidation { password },
                RegisterAction::Validate,
            ),
            RegisterEvent::BodyRejected(d) => (RegisterPhase::Done, RegisterAction::Refuse(RegisterError::InvalidBody(d))),
            _ => (RegisterPhase::Done, RegisterAction::Refuse(RegisterError::HashFailed)),
        },
        RegisterPhase::AwaitingValidation { password } => match event {
            RegisterEvent::ValidationFailed(fields) => {
                let texts = invalid_field_texts(&fields);
                (RegisterPhase::Done, RegisterAction::Refuse(RegisterError::Invalid(texts)))
            },
            _ => match hash_password(password.as_str()) {
                Ok(h) => (RegisterPhase::AwaitingInsert, RegisterAction::InsertUser { password_hash: h }),
                Err(e) => (RegisterPhase::Done, RegisterAction::Refuse(e)),
            },
        },
        RegisterPhase::AwaitingInsert => match event {
            RegisterEvent::InsertFailed { db_message, details } => {
                let m: Option<&str> = match &db_message {
                    Some(x) => Some(x.as_str()),
                    None => None,
                };
                (RegisterPhase::Done, RegisterAction::Refuse(classify_insert_failure(m, details)))
            },
            _ => (RegisterPhase::Done, RegisterAction::RespondCreated),
        },
        RegisterPhase::Done => (RegisterPhase::Done, RegisterAction::Refuse(RegisterError::HashFailed)),
    }
}

impl RegisterPhase {
    /// Whether the handler expects `event` in this phase.
    pub fn accepts_event(&self, event: &RegisterEvent) -> (r: bool)
        ensures
            r == register_accepts(*self, *event),
    {
        match self {
            RegisterPhase::AwaitingBody => matches!(
                event,
                RegisterEvent::BodyParsed { .. } | RegisterEvent::BodyRejected(_)
            ),
            RegisterPhase::AwaitingValidation { .. } => matches!(
                event,
                RegisterEvent::Validated | RegisterEvent::ValidationFailed(_)
            ),
            RegisterPhase::AwaitingInsert => matches!(
                event,
                RegisterEvent::Inserted | RegisterEvent::InsertFailed { .. }
            ),
            RegisterPhase::Done => false,
        }
    }
}

/// A registration run: `phases[i]` is where it stood before `events[i]`,
/// and `actions[i]` is what was decided on that event.
pub open spec fn valid_register_run(
    phases: Seq<RegisterPhase>,
    events: Seq<RegisterEvent>,
    actions: Seq<RegisterAction>,
) -> bool {
    &&& phases.len() == events.len() + 1
    &&& actions.len() == events.len()
    &&& phases[0] is AwaitingBody
    &&& forall|i: int|
        0 <= i < events.len() ==> register_accepts(phases[i], #[trigger] events[i]) && register_step(
            phases[i],
            events[i],
            phases[i + 1],
            actions[i],
        )
}

/// How far a registration has come.
pub open spec fn register_stage(p: RegisterPhase) -> int {
    match p {
        RegisterPhase::AwaitingBody => 0,
        RegisterPhase::AwaitingValidation { .. } => 1,
        RegisterPhase::AwaitingInsert => 2,
        RegisterPhase::Done => 3,
    }
}

/// In a registration run, an account is created only as the third decision,
/// after the body was read, then the fields were validated (and the
/// password hashed), then the account was stored; every run answers at most
/// once and takes no event after answering.
pub proof fn lemma_register_order(
    phases: Seq<RegisterPhase>,
    events: Seq<RegisterEvent>,
    actions: Seq<RegisterAction>,
)
    requires
        valid_register_run(phases, events, actions),
    ensures
        forall|i: int|
            0 <= i < actions.len() && (#[trigger] actions[i] is RespondCreated) ==> i == 2
                && events[0] is BodyParsed && events[1] is Validated && events[2] is Inserted,
        forall|i: int|
            0 <= i < actions.len() && (#[trigger] actions[i] is InsertUser) ==> i == 1
                && events[0] is BodyParsed && events[1] is Validated,
        forall|i: int| 0 <= i < events.len() ==> !(#[trigger] phases[i] is Done),
{
    assert forall|k: int| 0 <= k <= events.len() implies (#[trigger] phases[k] is Done || register_stage(phases[k]) == k)
        && (k < events.len() ==> !(phases[k] is Done)) by {
        lemma_register_stage(phases, events, actions, k);
    }
    assert forall|i: int|
        0 <= i < actions.len() && (#[trigger] actions[i] is RespondCreated) implies i == 2
            && events[0] is BodyParsed && events[1] is Validated && events[2] is Inserted by {
        assert(register_step(phases[i], events[i], phases[i + 1], actions[i]));
        assert(phases[i] is AwaitingInsert);
        lemma_register_stage(phases, events, actions, 1);
        lemma_register_stage(phases, events, actions, 2);
        assert(register_step(phases[0], events[0], phases[1], actions[0]));
        assert(register_step(phases[1], events[1], phases[2], actions[1]));
    }
    assert forall|i: int|
        0 <= i < actions.len() && (#[trigger] actions[i] is InsertUser) implies i == 1
            && events[0] is BodyParsed && events[1] is Validated by {
        assert(register_step(phases[i], events[i], phases[i + 1], actions[i]));
        lemma_register_stage(phases, events, actions, i);
        lemma_register_stage(phases, events, actions, 1);
        assert(register_step(phases[0], events[0], phases[1], actions[0]));
    }
    assert forall|i: int| 0 <= i < events.len() implies !(#[trigger] phases[i] is Done) by {
        lemma_register_stage(phases, events, actions, i);
    }
}

proof fn lemma_register_stage(
    phases: Seq<RegisterPhase>,
    events: Seq<RegisterEvent>,
    actions: Seq<RegisterAction>,
    k: int,
)
    requires
        valid_register_run(phases, events, actions),
        0 <= k <= events.len(),
    ensures
        phases[k] is Done || register_stage(phases[k]) == k,
        k < events.len() ==> !(phases[k] is Done),
    decreases k,
{
    if k > 0 {
        lemma_register_stage(phases, events, actions, k - 1);
        assert(register_accepts(phases[k - 1], events[k - 1]));
        assert(register_step(phases[k - 1], events[k - 1], phases[k], actions[k - 1]));
    }
    if k < events.len() {
        assert(register_accepts(phases[k], events[k]));
    }
}
} // verus!
