//! Uploads to the Brain server: the errors an upload can end with and what
//! the user is told about them, how a reply is judged, what is sent along
//! with the audio, and which uploads may run at the same time.
use crate::paths;
use crate::redaction::{body_preview, preview, sanitize_error, without_token};
use crate::session::SessionMeta;
use crate::settings::{spec_url_scheme, url_scheme};
use crate::text::{
    self, ascii_lowercase, chars_of, chars_start_with, decimal_string, is_blank, str_eq,
    to_owned_string, trim_str, trim_string,
};
use vstd::prelude::*;

verus! {

broadcast use vstd::string::group_string_axioms;

/// The kind of a failed Brain operation, as the interface shows it.
#[derive(Clone, Copy, Debug, PartialEq, Eq, Structural)]
pub enum BrainUploadErrorCode {
    Unauthorized,
    Forbidden,
    PayloadTooLarge,
    UnsupportedMediaType,
    ServerError,
    HttpError,
    NetworkError,
    IoError,
    InvalidUrl,
    TokenMissing,
    AlreadyRunning,
    ApiError,
    ConfigurationError,
    Unknown,
}

/// An error as the user sees it: a code and a message that never repeats what
/// the server or the network layer said.
pub struct BrainUploadPublicError {
    pub code: BrainUploadErrorCode,
    pub message: String,
}

/// How an upload failed. The previews are already sanitized.
#[derive(Debug)]
pub enum BrainUploadError {
    Unauthorized { body_preview: String },
    Forbidden { body_preview: String },
    PayloadTooLarge { body_preview: String },
    UnsupportedMediaType { body_preview: String },
    Server { status: u16, body_preview: String },
    Http { status: u16, body_preview: String },
    Network(String),
    Io(String),
    Json(String),
    Api(String),
}

/// The diagnostic text of an upload error.
pub open spec fn error_text(e: BrainUploadError) -> Seq<char> {
    match e {
        BrainUploadError::Unauthorized { body_preview } => "unauthorized (401): "@ + body_preview@,
        BrainUploadError::Forbidden { body_preview } => "forbidden (403): "@ + body_preview@,
        BrainUploadError::PayloadTooLarge { body_preview } => "payload too large (413): "@
            + body_preview@,
        BrainUploadError::UnsupportedMediaType { body_preview } => "unsupported media type (415): "@
            + body_preview@,
        BrainUploadError::Server { status, body_preview } => "server error ("@ + text::decimal(
            status as nat,
        ) + "): "@ + body_preview@,
        BrainUploadError::Http { status, body_preview } => "http error ("@ + text::decimal(
            status as nat,
        ) + "): "@ + body_preview@,
        BrainUploadError::Network(m) => "network error: "@ + m@,
        BrainUploadError::Io(m) => "io error: "@ + m@,
        BrainUploadError::Json(m) => "json error: "@ + m@,
        BrainUploadError::Api(m) => "api error: "@ + m@,
    }
}

fn concat2(a: &str, b: &str) -> (r: String)
    ensures
        r@ == a@ + b@,
{
    let mut s = a.to_string();
    s.append(b);
    s
}

fn with_status(prefix: &str, status: u16, body: &str) -> (r: String)
    ensures
        r@ == prefix@ + text::decimal(status as nat) + "): "@ + body@,
{
    let mut s = prefix.to_string();
    s.append(decimal_string(status as u64).as_str());
    s.append("): ");
    s.append(body);
    s
}

impl BrainUploadError {
    /// The diagnostic text (what the error displays as).
    pub fn message(&self) -> (r: String)
        ensures
            r@ == error_text(*self),
    {
        match self {
            BrainUploadError::Unauthorized { body_preview } => concat2(
                "unauthorized (401): ",
                body_preview.as_str(),
            ),
            BrainUploadError::Forbidden { body_preview } => concat2(
                "forbidden (403): ",
                body_preview.as_str(),
            ),
            BrainUploadError::PayloadTooLarge { body_preview } => concat2(
                "payload too large (413): ",
                body_preview.as_str(),
            ),
            BrainUploadError::UnsupportedMediaType { body_preview } => concat2(
                "unsupported media type (415): ",
                body_preview.as_str(),
            ),
            BrainUploadError::Server { status, body_preview } => with_status(
                "server error (",
                *status,
                body_preview.as_str(),
            ),
            BrainUploadError::Http { status, body_preview } => with_status(
                "http error (",
                *status,
                body_preview.as_str(),
            ),
            BrainUploadError::Network(m) => concat2("network error: ", m.as_str()),
            BrainUploadError::Io(m) => concat2("io error: ", m.as_str()),
            BrainUploadError::Json(m) => concat2("json error: ", m.as_str()),
            BrainUploadError::Api(m) => concat2("api error: ", m.as_str()),
        }
    }
}

/// The code the interface shows for an upload error.
pub open spec fn public_code(e: BrainUploadError) -> BrainUploadErrorCode {
    match e {
        BrainUploadError::Unauthorized { .. } => BrainUploadErrorCode::Unauthorized,
        BrainUploadError::Forbidden { .. } => BrainUploadErrorCode::Forbidden,
        BrainUploadError::PayloadTooLarge { .. } => BrainUploadErrorCode::PayloadTooLarge,
        BrainUploadError::UnsupportedMediaType { .. } => BrainUploadErrorCode::UnsupportedMediaType,
        BrainUploadError::Server { .. } => BrainUploadErrorCode::ServerError,
        BrainUploadError::Http { .. } => BrainUploadErrorCode::HttpError,
        BrainUploadError::Network(_) => BrainUploadErrorCode::NetworkError,
        BrainUploadError::Io(_) => BrainUploadErrorCode::IoError,
        BrainUploadError::Json(_) => BrainUploadErrorCode::Unknown,
        BrainUploadError::Api(_) => BrainUploadErrorCode::ApiError,
    }
}

/// The message the interface shows for an upload error.
pub open spec fn public_message(e: BrainUploadError) -> Seq<char> {
    match e {
        BrainUploadError::Unauthorized { .. } =>
            "Brain отклонил токен авторизации. Проверьте API-токен в настройках."@,
        BrainUploadError::Forbidden { .. } => "Brain отклонил загрузку: недостаточно прав."@,
        BrainUploadError::PayloadTooLarge { .. } => "Файл слишком большой для загрузки в Brain."@,
        BrainUploadError::UnsupportedMediaType { .. } => "Brain не принимает этот формат аудио."@,
        BrainUploadError::Server { status, .. } => "Brain вернул ошибку сервера ("@ + text::decimal(
            status as nat,
        ) + ")."@,
        BrainUploadError::Http { status, .. } => "Brain вернул HTTP-ошибку ("@ + text::decimal(
            status as nat,
        ) + ")."@,
        BrainUploadError::Network(_) => "Не удалось связаться с Brain. Проверьте сеть и URL."@,
        BrainUploadError::Io(_) => "Не удалось прочитать аудиофайл для загрузки."@,
        BrainUploadError::Json(_) => "Brain вернул некорректный ответ."@,
        BrainUploadError::Api(_) => "Brain отклонил загрузку."@,
    }
}

/// Two errors of the same kind (and, for HTTP failures, the same status).
pub open spec fn same_kind(a: BrainUploadError, b: BrainUploadError) -> bool {
    match (a, b) {
        (BrainUploadError::Unauthorized { .. }, BrainUploadError::Unauthorized { .. }) => true,
        (BrainUploadError::Forbidden { .. }, BrainUploadError::Forbidden { .. }) => true,
        (BrainUploadError::PayloadTooLarge { .. }, BrainUploadError::PayloadTooLarge { .. }) => true,
        (
            BrainUploadError::UnsupportedMediaType { .. },
            BrainUploadError::UnsupportedMediaType { .. },
        ) => true,
        (BrainUploadError::Server { status: s, .. }, BrainUploadError::Server { status: t, .. }) =>
            s == t,
        (BrainUploadError::Http { status: s, .. }, BrainUploadError::Http { status: t, .. }) => s
            == t,
        (BrainUploadError::Network(_), BrainUploadError::Network(_)) => true,
        (BrainUploadError::Io(_), BrainUploadError::Io(_)) => true,
        (BrainUploadError::Json(_), BrainUploadError::Json(_)) => true,
        (BrainUploadError::Api(_), BrainUploadError::Api(_)) => true,
        _ => false,
    }
}

/// What the user is told about a failed upload depends on the kind of failure
/// alone, never on the text the server or the network layer produced.
pub proof fn lemma_public_error_ignores_server_text(a: BrainUploadError, b: BrainUploadError)
    requires
        same_kind(a, b),
    ensures
        public_code(a) == public_code(b),
        public_message(a) == public_message(b),
{
}

fn status_message(prefix: &str, status: u16) -> (r: String)
    ensures
        r@ == prefix@ + text::decimal(status as nat) + ")."@,
{
    let mut s = prefix.to_string();
    s.append(decimal_string(status as u64).as_str());
    s.append(").");
    s
}

impl BrainUploadPublicError {
    pub fn invalid_url() -> (e: Self)
        ensures
            e.code == BrainUploadErrorCode::InvalidUrl,
            e.message@ == "Некорректный URL Brain. Проверьте адрес в настройках."@,
    {
        BrainUploadPublicError {
            code: BrainUploadErrorCode::InvalidUrl,
            message: "Некорректный URL Brain. Проверьте адрес в настройках.".to_string(),
        }
    }

    pub fn token_missing() -> (e: Self)
        ensures
            e.code == BrainUploadErrorCode::TokenMissing,
            e.message@ == "API-токен Brain не настроен."@,
    {
        BrainUploadPublicError {
            code: BrainUploadErrorCode::TokenMissing,
            message: "API-токен Brain не настроен.".to_string(),
        }
    }

    pub fn already_running() -> (e: Self)
        ensures
            e.code == BrainUploadErrorCode::AlreadyRunning,
            e.message@ == "Загрузка Brain уже выполняется."@,
    {
        BrainUploadPublicError {
            code: BrainUploadErrorCode::AlreadyRunning,
            message: "Загрузка Brain уже выполняется.".to_string(),
        }
    }

    /// A configuration problem, with its message as given.
    pub fn configuration(message: String) -> (e: Self)
        ensures
            e.code == BrainUploadErrorCode::ConfigurationError,
            e.message@ == message@,
    {
        BrainUploadPublicError { code: BrainUploadErrorCode::ConfigurationError, message }
    }

    /// The public face of an upload error.
    pub fn from_brain_upload_error(err: &BrainUploadError) -> (e: Self)
        ensures
            e.code == public_code(*err),
            e.message@ == public_message(*err),
    {
        match err {
            BrainUploadError::Unauthorized { .. } => BrainUploadPublicError {
                code: BrainUploadErrorCode::Unauthorized,
                message: "Brain отклонил токен авторизации. Проверьте API-токен в настройках.".to_string(),
            },
            BrainUploadError::Forbidden { .. } => BrainUploadPublicError {
                code: BrainUploadErrorCode::Forbidden,
                message: "Brain отклонил загрузку: недостаточно прав.".to_string(),
            },
            BrainUploadError::PayloadTooLarge { .. } => BrainUploadPublicError {
                code: BrainUploadErrorCode::PayloadTooLarge,
                message: "Файл слишком большой для загрузки в Brain.".to_string(),
            },
            BrainUploadError::UnsupportedMediaType { .. } => BrainUploadPublicError {
                code: BrainUploadErrorCode::UnsupportedMediaType,
                message: "Brain не принимает этот формат аудио.".to_string(),
            },
            BrainUploadError::Server { status, .. } => BrainUploadPublicError {
                code: BrainUploadErrorCode::ServerError,
                message: status_message("Brain вернул ошибку сервера (", *status),
            },
            BrainUploadError::Http { status, .. } => BrainUploadPublicError {
                code: BrainUploadErrorCode::HttpError,
                message: status_message("Brain вернул HTTP-ошибку (", *status),
            },
            BrainUploadError::Network(_) => BrainUploadPublicError {
                code: BrainUploadErrorCode::NetworkError,
                message: "Не удалось связаться с Brain. Проверьте сеть и URL.".to_string(),
            },
            BrainUploadError::Io(_) => BrainUploadPublicError {
                code: BrainUploadErrorCode::IoError,
                message: "Не удалось прочитать аудиофайл для загрузки.".to_string(),
            },
            BrainUploadError::Json(_) => BrainUploadPublicError {
                code: BrainUploadErrorCode::Unknown,
                message: "Brain вернул некорректный ответ.".to_string(),
            },
            BrainUploadError::Api(_) => BrainUploadPublicError {
                code: BrainUploadErrorCode::ApiError,
                message: "Brain отклонил загрузку.".to_string(),
            },
        }
    }

    /// A plain message becomes a configuration error (the `From<String>` of
    /// the error type).
    pub fn from_message(message: String) -> (e: Self)
        ensures
            e.code == BrainUploadErrorCode::ConfigurationError,
            e.message@ == message@,
    {
        Self::configuration(message)
    }
}

/// What is sent along with the audio file.
pub struct BrainUploadMetadata {
    pub session_id: String,
    pub title: String,
    pub topic: String,
    pub tags: Vec<String>,
    pub notes: String,
    pub source: String,
    pub started_at_iso: String,
    pub audio_format: String,
    pub app: String,
    pub app_version: String,
    pub client_device_label: Option<String>,
}

/// The server's reply to an accepted upload.
pub struct BrainUploadResponse {
    pub ok: bool,
    pub job_id: Option<i64>,
    pub status: Option<String>,
    pub principal_id: Option<String>,
    pub workspace_id: Option<String>,
    pub workspace_slug: Option<String>,
    pub inbox_path: Option<String>,
    pub meta_path: Option<String>,
    pub duplicate: Option<bool>,
    pub error: Option<String>,
}

/// The reply recorded when an upload is skipped because Brain sync is off.
pub fn skipped_response() -> (r: BrainUploadResponse)
    ensures
        r.ok,
        r.status matches Some(s) && s@ == "skipped"@,
        r.job_id is None && r.principal_id is None && r.workspace_id is None
            && r.workspace_slug is None && r.inbox_path is None && r.meta_path is None
            && r.duplicate is None && r.error is None,
{
    BrainUploadResponse {
        ok: true,
        job_id: None,
        status: Some("skipped".to_string()),
        principal_id: None,
        workspace_id: None,
        workspace_slug: None,
        inbox_path: None,
        meta_path: None,
        duplicate: None,
        error: None,
    }
}

/// The kind of error a non-success HTTP status maps to.
pub open spec fn status_kind(status: u16, e: BrainUploadError) -> bool {
    if status == 401 {
        e is Unauthorized
    } else if status == 403 {
        e is Forbidden
    } else if status == 413 {
        e is PayloadTooLarge
    } else if status == 415 {
        e is UnsupportedMediaType
    } else if 500 <= status <= 599 {
        e matches BrainUploadError::Server { status: s, .. } && s == status
    } else {
        e matches BrainUploadError::Http { status: s, .. } && s == status
    }
}

/// The body preview an HTTP-status error carries.
pub open spec fn carried_preview(e: BrainUploadError) -> Seq<char> {
    match e {
        BrainUploadError::Unauthorized { body_preview } => body_preview@,
        BrainUploadError::Forbidden { body_preview } => body_preview@,
        BrainUploadError::PayloadTooLarge { body_preview } => body_preview@,
        BrainUploadError::UnsupportedMediaType { body_preview } => body_preview@,
        BrainUploadError::Server { body_preview, .. } => body_preview@,
        BrainUploadError::Http { body_preview, .. } => body_preview@,
        _ => Seq::empty(),
    }
}

/// The error a reply's HTTP status ends an upload with, carrying the
/// sanitized preview of the body; `None` for 200 and 201, whose body is then
/// read as a reply.
pub fn error_for_status(status: u16, body: &str, token: &str) -> (r: Option<BrainUploadError>)
    ensures
        r is None <==> (status == 200 || status == 201),
        r matches Some(e) ==> status_kind(status, e) && carried_preview(e) == preview(
            body@,
            token@,
        ),
{
    if status == 200 || status == 201 {
        return None;
    }
    let body_preview = body_preview(body, token);
    if status == 401 {
        Some(BrainUploadError::Unauthorized { body_preview })
    } else if status == 403 {
        Some(BrainUploadError::Forbidden { body_preview })
    } else if status == 413 {
        Some(BrainUploadError::PayloadTooLarge { body_preview })
    } else if status == 415 {
        Some(BrainUploadError::UnsupportedMediaType { body_preview })
    } else if 500 <= status && status <= 599 {
        Some(BrainUploadError::Server { status, body_preview })
    } else {
        Some(BrainUploadError::Http { status, body_preview })
    }
}

/// A reply counts as accepted when it says `ok` or reports a duplicate.
pub open spec fn reply_accepted(p: BrainUploadResponse) -> bool {
    p.ok || p.duplicate == Some(true)
}

/// Judges the reply to a 200 or 201: the JSON reading of the body (done by the
/// caller) failed, the server accepted the upload, or it declined with its
/// own message (or a default one).
pub fn accept_reply(parsed: Result<BrainUploadResponse, String>) -> (r: Result<
    BrainUploadResponse,
    BrainUploadError,
>)
    ensures
        match parsed {
            Err(m) => r matches Err(BrainUploadError::Json(j)) && j@ == m@,
            Ok(p) => if reply_accepted(p) {
                r == Ok::<BrainUploadResponse, BrainUploadError>(p)
            } else {
                r matches Err(BrainUploadError::Api(a)) && a@ == match p.error {
                    Some(e) => e@,
                    None => "upload was not accepted"@,
                }
            },
        },
{
    match parsed {
        Err(m) => Err(BrainUploadError::Json(m)),
        Ok(p) => {
            let duplicate = match p.duplicate {
                Some(d) => d,
                None => false,
            };
            if p.ok || duplicate {
                Ok(p)
            } else {
                let message = match p.error {
                    Some(e) => e,
                    None => "upload was not accepted".to_string(),
                };
                Err(BrainUploadError::Api(message))
            }
        },
    }
}

/// The trimmed URL when it is an absolute `http` or `https` URL.
pub open spec fn upload_url_check(raw: Seq<char>) -> Result<Seq<char>, Seq<char>> {
    let t = text::trim(raw);
    if t.len() > 0 && (spec_url_scheme(t) == Some("http"@) || spec_url_scheme(t) == Some(
        "https"@,
    )) {
        Ok(t)
    } else {
        Err("Invalid Brain sync URL"@)
    }
}

/// Checks the configured Brain URL and returns it trimmed.
pub fn validate_upload_url(raw: &str) -> (r: Result<String, String>)
    ensures
        match r {
            Ok(u) => upload_url_check(raw@) == Ok::<Seq<char>, Seq<char>>(u@),
            Err(e) => upload_url_check(raw@) == Err::<Seq<char>, Seq<char>>(e@),
        },
{
    let trimmed = trim_str(raw);
    if trimmed.unicode_len() == 0 {
        return Err("Invalid Brain sync URL".to_string());
    }
    match url_scheme(trimmed) {
        Some(scheme) => {
            if str_eq(scheme.as_str(), "http") || str_eq(scheme.as_str(), "https") {
                Ok(to_owned_string(trimmed))
            } else {
                proof {
                    reveal_strlit("http");
                    reveal_strlit("https");
                }
                Err("Invalid Brain sync URL".to_string())
            }
        },
        None => Err("Invalid Brain sync URL".to_string()),
    }
}

/// What an upload request turns into before any network traffic.
pub enum UploadPlan {
    /// Brain sync is switched off: nothing is sent.
    Skip,
    /// The upload cannot start; the message is recorded as a failure.
    Reject(String),
    /// Send to this URL with this token.
    Upload { url: String, token: String },
}

/// The message recorded when no token is stored.
pub open spec fn token_missing_message() -> Seq<char> {
    "Brain sync token is not configured"@
}

/// Decides what an upload request does: skip when sync is off (and the
/// switch is respected), refuse a bad URL or a missing token, or upload with
/// the trimmed URL and token. `stored_token` is what the secret store gave.
pub fn plan_upload(
    respect_enabled: bool,
    enabled: bool,
    raw_url: &str,
    stored_token: Option<&str>,
) -> (r: UploadPlan)
    ensures
        respect_enabled && !enabled ==> r is Skip,
        !(respect_enabled && !enabled) ==> match upload_url_check(raw_url@) {
            Err(e) => r matches UploadPlan::Reject(m) && m@ == e,
            Ok(u) => match stored_token {
                None => r matches UploadPlan::Reject(m) && m@ == token_missing_message(),
                Some(t) => if text::trim(t@).len() == 0 {
                    r matches UploadPlan::Reject(m) && m@ == token_missing_message()
                } else {
                    r matches UploadPlan::Upload { url, token } && url@ == u && token@ == text::trim(
                        t@,
                    )
                },
            },
        },
{
    if respect_enabled && !enabled {
        return UploadPlan::Skip;
    }
    let url = match validate_upload_url(raw_url) {
        Ok(u) => u,
        Err(e) => return UploadPlan::Reject(e),
    };
    match stored_token {
        None => UploadPlan::Reject("Brain sync token is not configured".to_string()),
        Some(t) => {
            let token = trim_string(t);
            if token.as_str().unicode_len() == 0 {
                UploadPlan::Reject("Brain sync token is not configured".to_string())
            } else {
                UploadPlan::Upload { url, token }
            }
        },
    }
}

/// The failure recorded for an upload that the server or network refused:
/// the error's text with the token removed.
pub fn upload_failure_message(err: &BrainUploadError, token: &str) -> (r: String)
    ensures
        r@ == without_token(error_text(*err), token@),
{
    sanitize_error(err.message(), token)
}

/// The audio format named by a file's extension (trimmed and lowercased), or
/// the fallback.
pub open spec fn format_of_path(path: Seq<char>, fallback: Seq<char>) -> Seq<char> {
    match paths::extension(path) {
        Some(e) => if text::ascii_lower_seq(text::trim(e)).len() > 0 {
            text::ascii_lower_seq(text::trim(e))
        } else {
            fallback
        },
        None => fallback,
    }
}

pub fn audio_format_from_path(path: &str, fallback: &str) -> (r: String)
    ensures
        r@ == format_of_path(path@, fallback@),
{
    match paths::extension_of(path) {
        Some(e) => {
            let lowered = ascii_lowercase(trim_str(e.as_str()));
            if lowered.as_str().unicode_len() > 0 {
                lowered
            } else {
                fallback.to_string()
            }
        },
        None => fallback.to_string(),
    }
}

/// The title of a session: its topic, or its id when the topic is blank.
pub open spec fn session_title(topic: Seq<char>, session_id: Seq<char>) -> Seq<char> {
    if text::trim(topic).len() == 0 {
        session_id
    } else {
        topic
    }
}

pub fn title_of(meta: &SessionMeta) -> (r: String)
    ensures
        r@ == session_title(meta.topic@, meta.session_id@),
{
    if is_blank(meta.topic.as_str()) {
        meta.session_id.clone()
    } else {
        meta.topic.clone()
    }
}

fn clone_tags(v: &Vec<String>) -> (r: Vec<String>)
    ensures
        paths::string_views(r@) == paths::string_views(v@),
{
    let mut out: Vec<String> = Vec::new();
    let mut i: usize = 0;
    while i < v.len()
        invariant
            i <= v@.len(),
            out@.len() == i,
            forall|j: int| 0 <= j < i ==> #[trigger] out@[j]@ == v@[j]@,
        decreases v@.len() - i,
    {
        out.push(v[i].clone());
        i = i + 1;
    }
    assert(paths::string_views(out@) =~= paths::string_views(v@));
    out
}

/// The metadata sent with a session's audio. `app_version` is the version of
/// the running application.
pub fn upload_metadata(
    meta: &SessionMeta,
    audio_path: &str,
    default_audio_format: &str,
    app_version: &str,
) -> (m: BrainUploadMetadata)
    ensures
        m.session_id@ == meta.session_id@,
        m.title@ == session_title(meta.topic@, meta.session_id@),
        m.topic@ == meta.topic@,
        paths::string_views(m.tags@) == paths::string_views(meta.tags@),
        m.notes@ == meta.notes@,
        m.source@ == meta.source@,
        m.started_at_iso@ == meta.started_at_iso@,
        m.audio_format@ == format_of_path(audio_path@, default_audio_format@),
        m.app@ == "BigEcho"@,
        m.app_version@ == app_version@,
        m.client_device_label is None,
{
    BrainUploadMetadata {
        session_id: meta.session_id.clone(),
        title: title_of(meta),
        topic: meta.topic.clone(),
        tags: clone_tags(&meta.tags),
        notes: meta.notes.clone(),
        source: meta.source.clone(),
        started_at_iso: meta.started_at_iso.clone(),
        audio_format: audio_format_from_path(audio_path, default_audio_format),
        app: "BigEcho".to_string(),
        app_version: app_version.to_string(),
        client_device_label: None,
    }
}

} // verus!
