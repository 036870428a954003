//! User-visible settings and the checks applied before they are saved, plus
//! the validation of API tokens kept in the secret store.
use crate::paths;
use crate::text::{self, chars_of, is_control_char, str_eq, to_owned_string, trim_bounds, trim_str};
use vstd::prelude::*;

verus! {

broadcast use vstd::string::group_string_axioms;

/// Characters that may not appear in a stored token besides control characters:
/// the line and paragraph separators and the byte-order mark.
pub open spec fn is_disallowed_token_char(c: char) -> bool {
    text::is_control(c) || c == '\u{2028}' || c == '\u{2029}' || c == '\u{feff}'
}

pub open spec fn has_disallowed_token_char(s: Seq<char>) -> bool {
    exists|i: int| 0 <= i < s.len() && is_disallowed_token_char(s[i])
}

/// True when `value` holds a control character or one of the separators
/// that must not end up in an HTTP header.
pub fn contains_disallowed_token_chars(value: &str) -> (r: bool)
    ensures
        r == has_disallowed_token_char(value@),
{
    let v = chars_of(value);
    let mut i: usize = 0;
    while i < v.len()
        invariant
            i <= v@.len(),
            v@ == value@,
            forall|k: int| 0 <= k < i ==> !is_disallowed_token_char(v@[k]),
        decreases v@.len() - i,
    {
        let c = v[i];
        if is_control_char(c) || c == '\u{2028}' || c == '\u{2029}' || c == '\u{feff}' {
            return true;
        }
        i = i + 1;
    }
    false
}

/// Outcome of validating a token: the trimmed token, or the reason it is refused.
pub open spec fn token_check(value: Seq<char>) -> Result<Seq<char>, Seq<char>> {
    let t = text::trim(value);
    if t.len() == 0 {
        Err("Token must not be empty"@)
    } else if has_disallowed_token_char(t) {
        Err("Token must not contain control characters"@)
    } else {
        Ok(t)
    }
}

/// The trimmed token, when it is non-empty and free of disallowed characters.
pub fn validate_secret_token(value: &str) -> (r: Result<&str, String>)
    ensures
        match r {
            Ok(t) => token_check(value@) == Ok::<Seq<char>, Seq<char>>(t@),
            Err(e) => token_check(value@) == Err::<Seq<char>, Seq<char>>(e@),
        },
{
    let trimmed = trim_str(value);
    if trimmed.unicode_len() == 0 {
        return Err("Token must not be empty".to_string());
    }
    if contains_disallowed_token_chars(trimmed) {
        return Err("Token must not contain control characters".to_string());
    }
    Ok(trimmed)
}

pub proof fn lemma_trim_idempotent(s: Seq<char>)
    ensures
        text::trim(text::trim(s)) == text::trim(s),
{
    let t = text::trim(s);
    text::lemma_trim_ends(s);
    if t.len() > 0 {
        assert(text::lead_ws(t) == 0);
        assert(text::trim_start(t) =~= t);
        assert(text::trail_ws(t) == 0);
        assert(text::trim_end(t) =~= t);
    } else {
        assert(text::trim_start(t) =~= t);
        assert(text::trim_end(t) =~= t);
    }
}

/// A token that passes validation passes it again unchanged: what is stored
/// is exactly what a later read validates.
pub proof fn lemma_token_check_idempotent(value: Seq<char>)
    requires
        token_check(value) is Ok,
    ensures
        token_check(token_check(value)->Ok_0) == token_check(value),
{
    lemma_trim_idempotent(value);
}

/// The settings the user edits in the settings window, stored as JSON.
pub struct PublicSettings {
    pub recording_root: String,
    pub artifact_open_app: String,
    pub transcription_provider: String,
    pub transcription_url: String,
    pub transcription_task: String,
    pub transcription_diarization_setting: String,
    pub salute_speech_scope: String,
    pub salute_speech_model: String,
    pub salute_speech_language: String,
    pub salute_speech_sample_rate: u32,
    pub salute_speech_channels_count: u32,
    pub summary_url: String,
    pub summary_prompt: String,
    pub openai_model: String,
    pub audio_format: String,
    pub opus_bitrate_kbps: u32,
    pub mic_device_name: String,
    pub system_device_name: String,
    pub artifact_opener_app: String,
    pub auto_run_pipeline_on_stop: bool,
    pub api_call_logging_enabled: bool,
    pub show_minitray_overlay: bool,
    pub brain_sync_enabled: bool,
    pub brain_sync_url: String,
    pub yandex_sync_enabled: bool,
    pub yandex_sync_interval: String,
    pub yandex_sync_remote_folder: String,
}

/// The summary prompt used when none is configured.
pub open spec fn default_summary_prompt() -> Seq<char> {
    "Есть стенограмма встречи. Подготовь краткое саммари."@
}

impl PublicSettings {
    /// The settings of a fresh installation.
    pub fn default() -> (s: Self)
        ensures
            s.recording_root@ == "./recordings"@,
            s.artifact_open_app@ == Seq::<char>::empty(),
            s.transcription_provider@ == "nexara"@,
            s.transcription_url@ == Seq::<char>::empty(),
            s.transcription_task@ == "transcribe"@,
            s.transcription_diarization_setting@ == "general"@,
            s.salute_speech_scope@ == "SALUTE_SPEECH_CORP"@,
            s.salute_speech_model@ == "general"@,
            s.salute_speech_language@ == "ru-RU"@,
            s.salute_speech_sample_rate == 48_000,
            s.salute_speech_channels_count == 1,
            s.summary_url@ == Seq::<char>::empty(),
            s.summary_prompt@ == default_summary_prompt(),
            s.openai_model@ == "gpt-4.1-mini"@,
            s.audio_format@ == "opus"@,
            s.opus_bitrate_kbps == 24,
            s.mic_device_name@ == Seq::<char>::empty(),
            s.system_device_name@ == Seq::<char>::empty(),
            s.artifact_opener_app@ == Seq::<char>::empty(),
            !s.auto_run_pipeline_on_stop,
            !s.api_call_logging_enabled,
            s.show_minitray_overlay,
            !s.brain_sync_enabled,
            s.brain_sync_url@ == Seq::<char>::empty(),
            !s.yandex_sync_enabled,
            s.yandex_sync_interval@ == "24h"@,
            s.yandex_sync_remote_folder@ == "BigEcho"@,
    {
        PublicSettings {
            recording_root: "./recordings".to_string(),
            artifact_open_app: String::new(),
            transcription_provider: "nexara".to_string(),
            transcription_url: String::new(),
            transcription_task: "transcribe".to_string(),
            transcription_diarization_setting: "general".to_string(),
            salute_speech_scope: "SALUTE_SPEECH_CORP".to_string(),
            salute_speech_model: "general".to_string(),
            salute_speech_language: "ru-RU".to_string(),
            salute_speech_sample_rate: 48_000,
            salute_speech_channels_count: 1,
            summary_url: String::new(),
            summary_prompt: "Есть стенограмма встречи. Подготовь краткое саммари.".to_string(),
            openai_model: "gpt-4.1-mini".to_string(),
            audio_format: "opus".to_string(),
            opus_bitrate_kbps: 24,
            mic_device_name: String::new(),
            system_device_name: String::new(),
            artifact_opener_app: String::new(),
            auto_run_pipeline_on_stop: false,
            api_call_logging_enabled: false,
            show_minitray_overlay: true,
            brain_sync_enabled: false,
            brain_sync_url: String::new(),
            yandex_sync_enabled: false,
            yandex_sync_interval: "24h".to_string(),
            yandex_sync_remote_folder: "BigEcho".to_string(),
        }
    }
}

/// What `url::Url::parse` makes of `input`: the URL's scheme, or nothing when
/// the input is not an absolute URL.
pub uninterp spec fn spec_url_scheme(input: Seq<char>) -> Option<Seq<char>>;

/// The scheme of `value` as parsed by `url::Url::parse` (`Url::scheme`), or
/// `None` when the parser rejects it. Only the naming of the result is claimed.
#[verifier::external_body]
pub(crate) fn url_scheme(value: &str) -> (r: Option<String>)
    ensures
        match r {
            Some(s) => spec_url_scheme(value@) == Some(s@),
            None => spec_url_scheme(value@) is None,
        },
{
    match url::Url::parse(value) {
        Ok(parsed) => Some(parsed.scheme().to_string()),
        Err(_) => None,
    }
}

pub open spec fn is_http_scheme(scheme: Option<Seq<char>>) -> bool {
    scheme == Some("http"@) || scheme == Some("https"@)
}

pub open spec fn is_one_of(s: Seq<char>, options: Seq<Seq<char>>) -> bool {
    options.contains(s)
}

pub open spec fn audio_formats() -> Seq<Seq<char>> {
    seq!["opus"@, "mp3"@, "m4a"@, "ogg"@, "wav"@]
}

pub open spec fn salute_scopes() -> Seq<Seq<char>> {
    seq!["SALUTE_SPEECH_PERS"@, "SALUTE_SPEECH_CORP"@, "SALUTE_SPEECH_B2B"@, "SBER_SPEECH"@]
}

pub open spec fn salute_models() -> Seq<Seq<char>> {
    seq!["general"@, "callcenter"@]
}

pub open spec fn salute_audio_formats() -> Seq<Seq<char>> {
    seq!["opus"@, "mp3"@, "wav"@]
}

/// The first check the settings fail, in the order the settings window
/// reports them, given the schemes the URL parser finds in the two URLs.
pub open spec fn settings_error(
    s: PublicSettings,
    transcription_scheme: Option<Seq<char>>,
    summary_scheme: Option<Seq<char>>,
) -> Option<Seq<char>> {
    if !is_one_of(s.audio_format@, audio_formats()) {
        Some("Invalid audio format"@)
    } else if s.transcription_provider@ != "nexara"@ && s.transcription_provider@
        != "salute_speech"@ {
        Some("Invalid transcription provider"@)
    } else if s.transcription_provider@ == "nexara"@ && s.transcription_url@.len() > 0
        && !is_http_scheme(transcription_scheme) {
        Some("Invalid transcription URL"@)
    } else if s.summary_url@.len() > 0 && !is_http_scheme(summary_scheme) {
        Some("Invalid summary URL"@)
    } else if s.transcription_task@ != "transcribe"@ && s.transcription_task@ != "diarize"@ {
        Some("Invalid transcription task"@)
    } else if s.transcription_diarization_setting@ != "general"@
        && s.transcription_diarization_setting@ != "meeting"@
        && s.transcription_diarization_setting@ != "telephonic"@ {
        Some("Invalid diarization setting"@)
    } else if s.opus_bitrate_kbps < 12 || s.opus_bitrate_kbps > 128 {
        Some("Opus bitrate must be between 12 and 128 kbps"@)
    } else if s.transcription_provider@ == "salute_speech"@ {
        if !is_one_of(s.salute_speech_scope@, salute_scopes()) {
            Some("Invalid SalutSpeech scope"@)
        } else if !is_one_of(s.salute_speech_model@, salute_models()) {
            Some("Invalid SalutSpeech recognition model"@)
        } else if !is_one_of(s.audio_format@, salute_audio_formats()) {
            Some("SalutSpeech supports only opus, mp3, or wav audio"@)
        } else if s.salute_speech_sample_rate == 0 {
            Some("SalutSpeech sample rate must be > 0"@)
        } else if s.salute_speech_channels_count == 0 {
            Some("SalutSpeech channels count must be > 0"@)
        } else {
            None
        }
    } else {
        None
    }
}

fn eq_any(value: &str, a: &str, b: &str, c: &str, d: &str, e: &str) -> (r: bool)
    ensures
        r == (value@ == a@ || value@ == b@ || value@ == c@ || value@ == d@ || value@ == e@),
{
    str_eq(value, a) || str_eq(value, b) || str_eq(value, c) || str_eq(value, d) || str_eq(
        value,
        e,
    )
}

fn http_scheme_ok(scheme: &Option<String>) -> (r: bool)
    ensures
        r == is_http_scheme(
            match scheme {
                Some(s) => Some(s@),
                None => None,
            },
        ),
{
    match scheme {
        Some(s) => str_eq(s.as_str(), "http") || str_eq(s.as_str(), "https"),
        None => false,
    }
}

pub open spec fn opt_view(o: Option<String>) -> Option<Seq<char>> {
    match o {
        Some(s) => Some(s@),
        None => None,
    }
}

impl PublicSettings {
    /// Checks the settings, given the schemes the URL parser found in the
    /// transcription and summary URLs.
    pub fn validate_with_url_schemes(
        &self,
        transcription_scheme: Option<String>,
        summary_scheme: Option<String>,
    ) -> (r: Result<(), String>)
        ensures
            match r {
                Ok(()) => settings_error(*self, opt_view(transcription_scheme), opt_view(summary_scheme)) is None,
                Err(e) => settings_error(*self, opt_view(transcription_scheme), opt_view(summary_scheme)) == Some(e@),
            },
    {
        let audio = self.audio_format.as_str();
        proof {
            assert(audio_formats() =~= seq!["opus"@, "mp3"@, "m4a"@, "ogg"@, "wav"@]);
        }
        if !eq_any(audio, "opus", "mp3", "m4a", "ogg", "wav") {
            return Err("Invalid audio format".to_string());
        }
        let provider = self.transcription_provider.as_str();
        let is_nexara = str_eq(provider, "nexara");
        let is_salute = str_eq(provider, "salute_speech");
        if !is_nexara && !is_salute {
            return Err("Invalid transcription provider".to_string());
        }
        if is_nexara && self.transcription_url.as_str().unicode_len() > 0 && !http_scheme_ok(
            &transcription_scheme,
        ) {
            return Err("Invalid transcription URL".to_string());
        }
        if self.summary_url.as_str().unicode_len() > 0 && !http_scheme_ok(&summary_scheme) {
            return Err("Invalid summary URL".to_string());
        }
        let task = self.transcription_task.as_str();
        if !str_eq(task, "transcribe") && !str_eq(task, "diarize") {
            return Err("Invalid transcription task".to_string());
        }
        let diar = self.transcription_diarization_setting.as_str();
        if !str_eq(diar, "general") && !str_eq(diar, "meeting") && !str_eq(diar, "telephonic") {
            return Err("Invalid diarization setting".to_string());
        }
        if self.opus_bitrate_kbps < 12 || self.opus_bitrate_kbps > 128 {
            return Err("Opus bitrate must be between 12 and 128 kbps".to_string());
        }
        if is_salute {
            let scope = self.salute_speech_scope.as_str();
            if !(str_eq(scope, "SALUTE_SPEECH_PERS") || str_eq(scope, "SALUTE_SPEECH_CORP")
                || str_eq(scope, "SALUTE_SPEECH_B2B") || str_eq(scope, "SBER_SPEECH")) {
                proof {
                    assert(!salute_scopes().contains(scope@));
                }
                return Err("Invalid SalutSpeech scope".to_string());
            }
            proof {
                assert(salute_scopes().contains(scope@)) by {
                    if scope@ == "SALUTE_SPEECH_PERS"@ {
                        assert(salute_scopes()[0] == scope@);
                    } else if scope@ == "SALUTE_SPEECH_CORP"@ {
                        assert(salute_scopes()[1] == scope@);
                    } else if scope@ == "SALUTE_SPEECH_B2B"@ {
                        assert(salute_scopes()[2] == scope@);
                    } else {
                        assert(salute_scopes()[3] == scope@);
                    }
                }
            }
            let model = self.salute_speech_model.as_str();
            if !(str_eq(model, "general") || str_eq(model, "callcenter")) {
                proof {
                    assert(!salute_models().contains(model@));
                }
                return Err("Invalid SalutSpeech recognition model".to_string());
            }
            proof {
                assert(salute_models().contains(model@)) by {
                    if model@ == "general"@ {
                        assert(salute_models()[0] == model@);
                    } else {
                        assert(salute_models()[1] == model@);
                    }
                }
            }
            if !(str_eq(audio, "opus") || str_eq(audio, "mp3") || str_eq(audio, "wav")) {
                proof {
                    assert(!salute_audio_formats().contains(audio@));
                }
                return Err("SalutSpeech supports only opus, mp3, or wav audio".to_string());
            }
            proof {
                assert(salute_audio_formats().contains(audio@)) by {
                    if audio@ == "opus"@ {
                        assert(salute_audio_formats()[0] == audio@);
                    } else if audio@ == "mp3"@ {
                        assert(salute_audio_formats()[1] == audio@);
                    } else {
                        assert(salute_audio_formats()[2] == audio@);
                    }
                }
            }
            if self.salute_speech_sample_rate == 0 {
                return Err("SalutSpeech sample rate must be > 0".to_string());
            }
            if self.salute_speech_channels_count == 0 {
                return Err("SalutSpeech channels count must be > 0".to_string());
            }
        }
        proof {
            assert(audio_formats().contains(audio@)) by {
                if audio@ == "opus"@ {
                    assert(audio_formats()[0] == audio@);
                } else if audio@ == "mp3"@ {
                    assert(audio_formats()[1] == audio@);
                } else if audio@ == "m4a"@ {
                    assert(audio_formats()[2] == audio@);
                } else if audio@ == "ogg"@ {
                    assert(audio_formats()[3] == audio@);
                } else {
                    assert(audio_formats()[4] == audio@);
                }
            }
        }
        Ok(())
    }

    /// Checks the settings before they are saved; the URLs are parsed with
    /// the `url` crate.
    pub fn validate(&self) -> (r: Result<(), String>)
        ensures
            match r {
                Ok(()) => settings_error(
                    *self,
                    spec_url_scheme(self.transcription_url@),
                    spec_url_scheme(self.summary_url@),
                ) is None,
                Err(e) => settings_error(
                    *self,
                    spec_url_scheme(self.transcription_url@),
                    spec_url_scheme(self.summary_url@),
                ) == Some(e@),
            },
    {
        let transcription_scheme = if str_eq(self.transcription_provider.as_str(), "nexara")
            && self.transcription_url.as_str().unicode_len() > 0 {
            url_scheme(self.transcription_url.as_str())
        } else {
            None
        };
        let summary_scheme = if self.summary_url.as_str().unicode_len() > 0 {
            url_scheme(self.summary_url.as_str())
        } else {
            None
        };
        self.validate_with_url_schemes(transcription_scheme, summary_scheme)
    }
}

/// Location of the settings file inside the application data directory.
pub fn settings_file_path(app_data_dir: &str) -> (r: String)
    ensures
        r@ == paths::join(app_data_dir@, "settings.json"@),
{
    paths::join_path(app_data_dir, "settings.json")
}

/// Both transcription tasks are accepted alike: settings that differ only in
/// asking for `diarize` instead of `transcribe` get the same verdict, and no
/// settings with either task are refused for their task.
pub proof fn lemma_both_transcription_tasks_accepted(
    s: PublicSettings,
    transcribe: String,
    diarize: String,
    transcription_scheme: Option<Seq<char>>,
    summary_scheme: Option<Seq<char>>,
)
    requires
        transcribe@ == "transcribe"@,
        diarize@ == "diarize"@,
    ensures
        settings_error((PublicSettings { transcription_task: diarize, ..s }), transcription_scheme, summary_scheme)
            == settings_error((PublicSettings { transcription_task: transcribe, ..s }), transcription_scheme, summary_scheme),
        settings_error((PublicSettings { transcription_task: diarize, ..s }), transcription_scheme, summary_scheme)
            != Some("Invalid transcription task"@),
        settings_error((PublicSettings { transcription_task: transcribe, ..s }), transcription_scheme, summary_scheme)
            != Some("Invalid transcription task"@),
{
    reveal_strlit("transcribe");
    reveal_strlit("diarize");
    reveal_strlit("Invalid transcription task");
    reveal_strlit("Invalid SalutSpeech recognition model");
    assert("Invalid SalutSpeech recognition model"@.len() != "Invalid transcription task"@.len());
    reveal_strlit("Invalid SalutSpeech scope");
    assert("Invalid SalutSpeech scope"@.len() != "Invalid transcription task"@.len());
    reveal_strlit("Invalid audio format");
    assert("Invalid audio format"@.len() != "Invalid transcription task"@.len());
    reveal_strlit("Invalid diarization setting");
    assert("Invalid diarization setting"@.len() != "Invalid transcription task"@.len());
    reveal_strlit("Invalid summary URL");
    assert("Invalid summary URL"@.len() != "Invalid transcription task"@.len());
    reveal_strlit("Invalid transcription URL");
    assert("Invalid transcription URL"@.len() != "Invalid transcription task"@.len());
    reveal_strlit("Invalid transcription provider");
    assert("Invalid transcription provider"@.len() != "Invalid transcription task"@.len());
    reveal_strlit("Opus bitrate must be between 12 and 128 kbps");
    assert("Opus bitrate must be between 12 and 128 kbps"@.len() != "Invalid transcription task"@.len());
    reveal_strlit("SalutSpeech channels count must be > 0");
    assert("SalutSpeech channels count must be > 0"@.len() != "Invalid transcription task"@.len());
    reveal_strlit("SalutSpeech sample rate must be > 0");
    assert("SalutSpeech sample rate must be > 0"@.len() != "Invalid transcription task"@.len());
    reveal_strlit("SalutSpeech supports only opus, mp3, or wav audio");
    assert("SalutSpeech supports only opus, mp3, or wav audio"@.len() != "Invalid transcription task"@.len());
}

} // verus!
