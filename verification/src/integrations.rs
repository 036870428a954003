//! Small decisions of the third-party integrations: stored API tokens, the
//! global shortcuts, the Nexara balance call, and the on-device speech
//! helper's availability and failures.
use crate::text::{self, chars_of, decimal_string, is_blank, str_eq, trim_str, trim_string};
use vstd::prelude::*;

verus! {

broadcast use vstd::string::group_string_axioms;

/// The secret-store name of the Todoist token.
pub const TODOIST_TOKEN_KEY: &'static str = "TODOIST_API_TOKEN";

/// The secret-store name of the Nexara API key.
pub const NEXARA_API_KEY: &'static str = "NEXARA_API_KEY";

/// The shortcut that starts a recording.
pub const REC_HOTKEY: &'static str = "CmdOrCtrl+Shift+R";

/// The shortcut that stops the recording.
pub const STOP_HOTKEY: &'static str = "CmdOrCtrl+Shift+S";

/// A token entered by the user, trimmed; it must not be blank.
pub fn checked_new_token(token: &str) -> (r: Result<&str, String>)
    ensures
        match r {
            Ok(t) => t@ == text::trim(token@) && t@.len() > 0,
            Err(e) => e@ == "Token must not be empty"@ && text::trim(token@).len() == 0,
        },
{
    let t = trim_str(token);
    if t.unicode_len() == 0 {
        Err("Token must not be empty".to_string())
    } else {
        Ok(t)
    }
}

/// Whether a token is stored, given what the secret store returned; a
/// blank token counts as none when `trimmed` (the Todoist rule), an empty
/// one always.
pub fn has_stored_token(lookup: Result<&str, &str>, trimmed: bool) -> (b: bool)
    ensures
        b == match lookup {
            Ok(t) => if trimmed {
                text::trim(t@).len() > 0
            } else {
                t@.len() > 0
            },
            Err(_) => false,
        },
{
    match lookup {
        Ok(t) => if trimmed {
            !is_blank(t)
        } else {
            t.unicode_len() > 0
        },
        Err(_) => false,
    }
}

/// The Todoist token from what the secret store returned: trimmed, and a
/// missing or empty one reported as such.
pub fn todoist_token_from(lookup: Result<String, String>) -> (r: Result<String, String>)
    ensures
        match lookup {
            Err(e) => r matches Err(m) && m@ == "missing_token: "@ + e@,
            Ok(t) => if text::trim(t@).len() == 0 {
                r matches Err(m) && m@ == "missing_token: Todoist token is empty"@
            } else {
                r matches Ok(v) && v@ == text::trim(t@)
            },
        },
{
    match lookup {
        Err(e) => {
            let mut m = "missing_token: ".to_string();
            m.append(e.as_str());
            Err(m)
        },
        Ok(t) => {
            let v = trim_string(t.as_str());
            if v.as_str().unicode_len() == 0 {
                Err("missing_token: Todoist token is empty".to_string())
            } else {
                Ok(v)
            }
        },
    }
}

/// The Nexara API key from what the secret store returned, trimmed.
pub fn nexara_key_from(lookup: Result<String, String>) -> (r: Result<String, String>)
    ensures
        match lookup {
            Ok(k) if text::trim(k@).len() > 0 => r matches Ok(v) && v@ == text::trim(k@),
            _ => r matches Err(m) && m@ == "Nexara API key is not configured"@,
        },
{
    match lookup {
        Ok(k) => {
            let v = trim_string(k.as_str());
            if v.as_str().unicode_len() == 0 {
                Err("Nexara API key is not configured".to_string())
            } else {
                Ok(v)
            }
        },
        Err(_) => Err("Nexara API key is not configured".to_string()),
    }
}

/// The failure reported when the balance request is refused.
pub fn nexara_balance_failure(status: &str, body: &str) -> (r: String)
    ensures
        r@ == "Nexara balance request failed: "@ + status@ + " "@ + body@,
{
    let mut r = "Nexara balance request failed: ".to_string();
    r.append(status);
    r.append(" ");
    r.append(body);
    r
}

/// What a global shortcut does.
#[derive(Clone, Copy, Debug, PartialEq, Eq, Structural)]
pub enum HotkeyAction {
    StartRecording,
    StopRecording,
    Nothing,
}

/// Only presses count; the record shortcut starts, the stop shortcut stops.
pub fn hotkey_action(shortcut: &str, pressed: bool) -> (a: HotkeyAction)
    ensures
        a == (if !pressed {
            HotkeyAction::Nothing
        } else if shortcut@ == "CmdOrCtrl+Shift+R"@ {
            HotkeyAction::StartRecording
        } else if shortcut@ == "CmdOrCtrl+Shift+S"@ {
            HotkeyAction::StopRecording
        } else {
            HotkeyAction::Nothing
        }),
{
    if !pressed {
        return HotkeyAction::Nothing;
    }
    if str_eq(shortcut, REC_HOTKEY) {
        HotkeyAction::StartRecording
    } else if str_eq(shortcut, STOP_HOTKEY) {
        HotkeyAction::StopRecording
    } else {
        HotkeyAction::Nothing
    }
}

/// Whether on-device speech recognition can be used here, and if not, why.
pub struct Availability {
    pub supported: bool,
    pub reason: Option<String>,
}

/// What the helper says about a locale.
pub struct CheckResult {
    pub locale: String,
    pub resolved: String,
    pub supported: bool,
    pub installed: bool,
    pub asset_status: String,
}

/// The reason recognition is unavailable, checked in order: not macOS, not
/// Apple silicon, macOS older than 26, helper missing.
pub open spec fn unavailability(
    is_macos: bool,
    is_apple_silicon: bool,
    macos_major: Option<u32>,
    helper_present: bool,
) -> Option<Seq<char>> {
    if !is_macos {
        Some("requires_macos"@)
    } else if !is_apple_silicon {
        Some("requires_apple_silicon"@)
    } else if !(macos_major matches Some(v) && v >= 26) {
        Some("requires_macos_26"@)
    } else if !helper_present {
        Some("sidecar_missing"@)
    } else {
        None
    }
}

pub fn availability_from(
    is_macos: bool,
    is_apple_silicon: bool,
    macos_major: Option<u32>,
    helper_present: bool,
) -> (a: Availability)
    ensures
        match unavailability(is_macos, is_apple_silicon, macos_major, helper_present) {
            Some(r) => !a.supported && (a.reason matches Some(x) && x@ == r),
            None => a.supported && a.reason is None,
        },
{
    let reason: Option<&str> = if !is_macos {
        Some("requires_macos")
    } else if !is_apple_silicon {
        Some("requires_apple_silicon")
    } else if !(match macos_major {
        Some(v) => v >= 26,
        None => false,
    }) {
        Some("requires_macos_26")
    } else if !helper_present {
        Some("sidecar_missing")
    } else {
        None
    };
    match reason {
        Some(r) => Availability { supported: false, reason: Some(r.to_string()) },
        None => Availability { supported: true, reason: None },
    }
}

/// The text without one leading `+`.
pub open spec fn sign_stripped(s: Seq<char>) -> Seq<char> {
    if s.len() > 0 && s[0] == '+' {
        s.drop_first()
    } else {
        s
    }
}

pub open spec fn all_digits(d: Seq<char>) -> bool {
    forall|i: int| 0 <= i < d.len() ==> is_digit(#[trigger] d[i])
}

/// `str::parse::<u32>`: an optional `+` and one or more decimal digits whose
/// value fits in 32 bits.
pub open spec fn parse_u32(s: Seq<char>) -> Option<u32> {
    let digits = sign_stripped(s);
    if digits.len() > 0 && all_digits(digits) && digits_value(digits) <= u32::MAX {
        Some(digits_value(digits) as u32)
    } else {
        None
    }
}

pub open spec fn is_digit(c: char) -> bool {
    '0' <= c && c <= '9'
}

/// The number written by decimal digits.
pub open spec fn digits_value(s: Seq<char>) -> nat
    decreases s.len(),
{
    if s.len() == 0 {
        0
    } else {
        digits_value(s.drop_last()) * 10 + ((s.last() as nat) - ('0' as nat)) as nat
    }
}

proof fn lemma_digits_value_monotone(s: Seq<char>, i: int)
    requires
        0 <= i <= s.len(),
        forall|k: int| 0 <= k < s.len() ==> is_digit(#[trigger] s[k]),
    ensures
        digits_value(s.subrange(0, i)) <= digits_value(s),
    decreases s.len() - i,
{
    if i < s.len() {
        lemma_digits_value_monotone(s, i + 1);
        assert(s.subrange(0, i + 1).drop_last() =~= s.subrange(0, i));
    } else {
        assert(s.subrange(0, i) =~= s);
    }
}

pub fn parse_u32_text(s: &str) -> (r: Option<u32>)
    ensures
        r == parse_u32(s@),
{
    let v = chars_of(s);
    let start: usize = if v.len() > 0 && v[0] == '+' {
        1
    } else {
        0
    };
    let ghost digits = sign_stripped(v@);
    proof {
        assert(digits =~= v@.subrange(start as int, v@.len() as int));
    }
    if start >= v.len() {
        return None;
    }
    let mut value: u64 = 0;
    let mut i: usize = start;
    while i < v.len()
        invariant
            start <= i <= v@.len(),
            start < v@.len(),
            v@ == s@,
            digits == sign_stripped(s@),
            digits =~= v@.subrange(start as int, v@.len() as int),
            forall|k: int| start <= k < i ==> is_digit(#[trigger] v@[k]),
            value == digits_value(v@.subrange(start as int, i as int)),
            value <= u32::MAX,
        decreases v@.len() - i,
    {
        let c = v[i];
        if !('0' <= c && c <= '9') {
            proof {
                assert(digits[i - start] == c);
                assert(!all_digits(digits));
            }
            return None;
        }
        let d: u64 = (c as u32 - '0' as u32) as u64;
        let next: u64 = value * 10 + d;
        proof {
            let pre = v@.subrange(start as int, i + 1);
            assert(pre.drop_last() =~= v@.subrange(start as int, i as int));
            assert(pre.last() == c);
            assert(digits_value(pre) == value * 10 + d);
        }
        if next > 4294967295 {
            proof {
                // the whole number is at least this prefix
                let all = digits;
                assert(v@.subrange(start as int, i + 1) =~= all.subrange(0, i + 1 - start));
                if all_digits(all) {
                    lemma_digits_value_monotone(all, i + 1 - start);
                    assert(digits_value(all) > u32::MAX);
                }
            }
            return None;
        }
        value = next;
        i = i + 1;
    }
    proof {
        assert(v@.subrange(start as int, v@.len() as int) =~= digits);
        assert forall|k: int| 0 <= k < digits.len() implies is_digit(#[trigger] digits[k]) by {
            assert(digits[k] == v@[k + start]);
        }
    }
    Some(value as u32)
}

/// The major macOS version from `sw_vers -productVersion` output: the
/// trimmed text up to the first `.`, read as a number.
pub open spec fn major_version(output: Seq<char>) -> Option<u32> {
    let t = text::trim(output);
    let i = text::first_index(t, '.');
    parse_u32(if i < 0 {
        t
    } else {
        t.subrange(0, i)
    })
}

pub fn parse_major_version(output: &str) -> (r: Option<u32>)
    ensures
        r == major_version(output@),
{
    let t = trim_str(output);
    let v = chars_of(t);
    proof {
        text::lemma_first_index(v@, '.');
    }
    match text::find_char_from(v.as_slice(), '.', 0) {
        Some(i) => {
            proof {
                assert(v@.subrange(0, v@.len() as int) =~= v@);
            }
            let head = t.substring_char(0, i);
            parse_u32_text(head)
        },
        None => {
            proof {
                assert(v@.subrange(0, v@.len() as int) =~= v@);
            }
            parse_u32_text(t)
        },
    }
}

/// The helper's file name for a target.
pub fn sidecar_binary_name(target_triple: &str) -> (r: String)
    ensures
        r@ == "apple-speech-"@ + target_triple@,
{
    let mut r = "apple-speech-".to_string();
    r.append(target_triple);
    r
}

/// The error of a failed helper run: its own error message (with the trimmed
/// stderr when there is any), or, when stdout held no error record, the exit
/// status and both outputs trimmed.
pub fn sidecar_failure(
    status: &str,
    stdout: &str,
    stderr: &str,
    reported_error: Option<String>,
) -> (r: String)
    ensures
        r@ == match reported_error {
            Some(e) => if text::trim(stderr@).len() == 0 {
                e@
            } else {
                e@ + " | stderr: "@ + text::trim(stderr@)
            },
            None => "sidecar exited with "@ + status@ + ": stdout="@ + text::trim(stdout@)
                + " stderr="@ + text::trim(stderr@),
        },
{
    match reported_error {
        Some(e) => {
            if is_blank(stderr) {
                e
            } else {
                let mut r = e;
                r.append(" | stderr: ");
                r.append(trim_str(stderr));
                r
            }
        },
        None => {
            let mut r = "sidecar exited with ".to_string();
            r.append(status);
            r.append(": stdout=");
            r.append(trim_str(stdout));
            r.append(" stderr=");
            r.append(trim_str(stderr));
            r
        },
    }
}

} // verus!
