//! Audio-side decisions: file names and MIME types per format, the choice of
//! the loopback device that carries system audio, per-channel mute state, the
//! macOS capture permission, encoder invocations and Ogg/Opus header packets.
use crate::paths::{self, string_views};
use crate::text::{
    self, ascii_lowercase, chars_of, decimal_string, eq_ignore_ascii_case, str_contains, str_eq,
    string_from_chars, to_owned_string, trim_str, trim_string,
};
use vstd::prelude::*;
use vstd::string::StringSliceAdditionalSpecFns;

verus! {

broadcast use vstd::string::group_string_axioms;

// ---------------------------------------------------------------- formats

pub open spec fn format_extension(audio_format: Seq<char>) -> Seq<char> {
    if audio_format == "mp3"@ {
        "mp3"@
    } else if audio_format == "m4a"@ {
        "m4a"@
    } else if audio_format == "ogg"@ {
        "ogg"@
    } else if audio_format == "wav"@ {
        "wav"@
    } else {
        "opus"@
    }
}

/// File extension for a configured audio format; unknown formats are Opus.
pub fn extension_for_format(audio_format: &str) -> (r: &'static str)
    ensures
        r@ == format_extension(audio_format@),
{
    if str_eq(audio_format, "mp3") {
        "mp3"
    } else if str_eq(audio_format, "m4a") {
        "m4a"
    } else if str_eq(audio_format, "ogg") {
        "ogg"
    } else if str_eq(audio_format, "wav") {
        "wav"
    } else {
        "opus"
    }
}

/// Name of the audio file of a session recorded in `audio_format`.
pub fn audio_file_name(audio_format: &str) -> (r: String)
    ensures
        r@ == "audio."@ + format_extension(audio_format@),
{
    let mut s = "audio.".to_string();
    s.append(extension_for_format(audio_format));
    s
}

pub open spec fn ext_or_empty(path: Seq<char>) -> Seq<char> {
    match paths::extension(path) {
        Some(e) => e,
        None => seq![],
    }
}

pub open spec fn audio_mime(path: Seq<char>) -> Seq<char> {
    let e = ext_or_empty(path);
    if e == "mp3"@ {
        "audio/mpeg"@
    } else if e == "m4a"@ {
        "audio/mp4"@
    } else if e == "ogg"@ {
        "audio/ogg"@
    } else if e == "wav"@ {
        "audio/wav"@
    } else {
        "audio/opus"@
    }
}

fn ext_string(path: &str) -> (r: String)
    ensures
        r@ == ext_or_empty(path@),
{
    match paths::extension_of(path) {
        Some(e) => e,
        None => String::new(),
    }
}

/// MIME type of an audio file, judged by its extension (case-sensitive).
pub fn mime_type_for_audio_path(path: &str) -> (r: &'static str)
    ensures
        r@ == audio_mime(path@),
{
    let e = ext_string(path);
    let e = e.as_str();
    if str_eq(e, "mp3") {
        "audio/mpeg"
    } else if str_eq(e, "m4a") {
        "audio/mp4"
    } else if str_eq(e, "ogg") {
        "audio/ogg"
    } else if str_eq(e, "wav") {
        "audio/wav"
    } else {
        "audio/opus"
    }
}

/// The lowercased extension of `path`, when it has one.
pub open spec fn lower_ext(path: Seq<char>) -> Option<Seq<char>> {
    match paths::extension(path) {
        Some(e) => Some(text::ascii_lower_seq(e)),
        None => None,
    }
}

fn lower_ext_string(path: &str) -> (r: Option<String>)
    ensures
        match r {
            Some(e) => lower_ext(path@) == Some(e@),
            None => lower_ext(path@) is None,
        },
{
    match paths::extension_of(path) {
        Some(e) => Some(ascii_lowercase(e.as_str())),
        None => None,
    }
}

pub open spec fn brain_mime(path: Seq<char>, opus_mime: Seq<char>) -> Seq<char> {
    match lower_ext(path) {
        Some(e) => if e == "opus"@ {
            opus_mime
        } else if e == "mp3"@ {
            "audio/mpeg"@
        } else if e == "m4a"@ {
            "audio/mp4"@
        } else if e == "ogg"@ {
            "audio/ogg"@
        } else if e == "wav"@ {
            "audio/wav"@
        } else {
            "application/octet-stream"@
        },
        None => "application/octet-stream"@,
    }
}

fn brain_mime_impl(path: &str, opus_mime: &'static str) -> (r: &'static str)
    ensures
        r@ == brain_mime(path@, opus_mime@),
{
    match lower_ext_string(path) {
        Some(e) => {
            let e = e.as_str();
            if str_eq(e, "opus") {
                opus_mime
            } else if str_eq(e, "mp3") {
                "audio/mpeg"
            } else if str_eq(e, "m4a") {
                "audio/mp4"
            } else if str_eq(e, "ogg") {
                "audio/ogg"
            } else if str_eq(e, "wav") {
                "audio/wav"
            } else {
                "application/octet-stream"
            }
        },
        None => "application/octet-stream",
    }
}

/// Content type of the audio part of a Brain upload. Opus recordings live in
/// an Ogg container, hence `audio/ogg;codecs=opus`.
pub fn brain_upload_content_type(path: &str) -> (r: &'static str)
    ensures
        r@ == brain_mime(path@, "audio/ogg;codecs=opus"@),
{
    brain_mime_impl(path, "audio/ogg;codecs=opus")
}

/// Content type the Brain HTTP client gives the file part of a multipart upload.
pub fn content_type_for_audio_path(path: &str) -> (r: &'static str)
    ensures
        r@ == brain_mime(path@, "audio/ogg"@),
{
    brain_mime_impl(path, "audio/ogg")
}

// ------------------------------------------------------- encoder commands

/// Raw capture files produced by a recording.
pub struct CaptureArtifacts {
    pub mic_path: String,
    pub mic_rate: u32,
    pub system_path: Option<String>,
    pub system_rate: u32,
}

pub open spec fn strs(v: Seq<String>) -> Seq<Seq<char>> {
    string_views(v)
}

/// The encoder arguments that select codec and quality for `audio_format`;
/// the Opus bitrate is clamped to 12..=128 kbps.
pub open spec fn output_args(audio_format: Seq<char>, opus_bitrate_kbps: u32) -> Seq<Seq<char>> {
    if audio_format == "mp3"@ {
        seq!["-c:a"@, "libmp3lame"@, "-b:a"@, "192k"@]
    } else if audio_format == "m4a"@ {
        seq!["-c:a"@, "aac"@, "-b:a"@, "192k"@]
    } else if audio_format == "ogg"@ {
        seq!["-c:a"@, "libvorbis"@, "-q:a"@, "4"@]
    } else if audio_format == "wav"@ {
        seq!["-c:a"@, "pcm_s16le"@]
    } else {
        seq![
            "-c:a"@,
            "libopus"@,
            "-b:a"@,
            text::decimal(clamp_bitrate(opus_bitrate_kbps) as nat) + "k"@,
        ]
    }
}

pub open spec fn clamp_bitrate(kbps: u32) -> u32 {
    if kbps < 12 {
        12
    } else if kbps > 128 {
        128
    } else {
        kbps
    }
}

fn push_str(v: &mut Vec<String>, s: &str)
    ensures
        strs(final(v)@) == strs(old(v)@).push(s@),
{
    let ghost before = v@;
    v.push(to_owned_string(s));
    proof {
        assert(strs(v@) =~= strs(before).push(s@));
    }
}

fn push_string(v: &mut Vec<String>, s: String)
    ensures
        strs(final(v)@) == strs(old(v)@).push(s@),
{
    let ghost before = v@;
    let ghost sv = s@;
    v.push(s);
    proof {
        assert(strs(v@) =~= strs(before).push(sv));
    }
}

/// Appends the codec arguments for `audio_format` to `args`.
pub fn append_output_args(args: &mut Vec<String>, audio_format: &str, opus_bitrate_kbps: u32)
    ensures
        strs(final(args)@) == strs(old(args)@) + output_args(audio_format@, opus_bitrate_kbps),
{
    let ghost before = strs(args@);
    if str_eq(audio_format, "mp3") {
        push_str(args, "-c:a");
        push_str(args, "libmp3lame");
        push_str(args, "-b:a");
        push_str(args, "192k");
    } else if str_eq(audio_format, "m4a") {
        push_str(args, "-c:a");
        push_str(args, "aac");
        push_str(args, "-b:a");
        push_str(args, "192k");
    } else if str_eq(audio_format, "ogg") {
        push_str(args, "-c:a");
        push_str(args, "libvorbis");
        push_str(args, "-q:a");
        push_str(args, "4");
    } else if str_eq(audio_format, "wav") {
        push_str(args, "-c:a");
        push_str(args, "pcm_s16le");
    } else {
        let clamped: u32 = if opus_bitrate_kbps < 12 {
            12
        } else if opus_bitrate_kbps > 128 {
            128
        } else {
            opus_bitrate_kbps
        };
        let mut b = decimal_string(clamped as u64);
        b.append("k");
        push_str(args, "-c:a");
        push_str(args, "libopus");
        push_str(args, "-b:a");
        push_string(args, b);
    }
    proof {
        assert(strs(args@) =~= before + output_args(audio_format@, opus_bitrate_kbps));
    }
}

/// How a finished capture is turned into the session's audio file.
pub enum EncodePlan {
    /// Mix the raw 16-bit captures into Ogg/Opus in-process.
    Opus,
    /// Run the external encoder with these arguments.
    Encoder(Vec<String>),
}

pub open spec fn capture_args(
    output_path: Seq<char>,
    audio_format: Seq<char>,
    a: CaptureArtifacts,
    opus_bitrate_kbps: u32,
) -> Seq<Seq<char>> {
    let input = seq![
        "-y"@,
        "-loglevel"@,
        "error"@,
        "-f"@,
        "s16le"@,
        "-ar"@,
        text::decimal(a.mic_rate as nat),
        "-ac"@,
        "1"@,
        "-i"@,
        a.mic_path@,
    ];
    let system = match a.system_path {
        Some(p) => seq![
            "-f"@,
            "s16le"@,
            "-ar"@,
            text::decimal(a.system_rate as nat),
            "-ac"@,
            "1"@,
            "-i"@,
            p@,
            "-filter_complex"@,
            "[0:a][1:a]amix=inputs=2:normalize=0[aout]"@,
            "-map"@,
            "[aout]"@,
        ],
        None => seq![],
    };
    input + system + output_args(audio_format, opus_bitrate_kbps) + seq![output_path]
}

/// The plan for encoding a capture into `output_path`. A zero microphone
/// rate, then a zero rate of a present system track, is refused whatever the
/// format; otherwise Opus is written in-process and other formats go through
/// the encoder.
pub fn plan_capture_encoding(
    output_path: &str,
    audio_format: &str,
    artifacts: &CaptureArtifacts,
    opus_bitrate_kbps: u32,
) -> (r: Result<EncodePlan, String>)
    ensures
        artifacts.mic_rate == 0 ==> (r matches Err(e) && e@ == "Mic sample rate must be > 0"@),
        artifacts.mic_rate != 0 && artifacts.system_path is Some && artifacts.system_rate == 0 ==> (r matches Err(
            e,
        ) && e@ == "System sample rate must be > 0"@),
        artifacts.mic_rate != 0 && !(artifacts.system_path is Some && artifacts.system_rate == 0) ==> if audio_format@
            == "opus"@ {
            r matches Ok(EncodePlan::Opus)
        } else {
            (r matches Ok(EncodePlan::Encoder(args)) && strs(args@) == capture_args(
                output_path@,
                audio_format@,
                *artifacts,
                opus_bitrate_kbps,
            ))
        },
{
    if artifacts.mic_rate == 0 {
        return Err("Mic sample rate must be > 0".to_string());
    }
    if artifacts.system_path.is_some() && artifacts.system_rate == 0 {
        return Err("System sample rate must be > 0".to_string());
    }
    if str_eq(audio_format, "opus") {
        return Ok(EncodePlan::Opus);
    }
    let mut args: Vec<String> = Vec::new();
    push_str(&mut args, "-y");
    push_str(&mut args, "-loglevel");
    push_str(&mut args, "error");
    push_str(&mut args, "-f");
    push_str(&mut args, "s16le");
    push_str(&mut args, "-ar");
    push_string(&mut args, decimal_string(artifacts.mic_rate as u64));
    push_str(&mut args, "-ac");
    push_str(&mut args, "1");
    push_str(&mut args, "-i");
    push_str(&mut args, artifacts.mic_path.as_str());
    let ghost after_input = strs(args@);
    match &artifacts.system_path {
        Some(p) => {
            push_str(&mut args, "-f");
            push_str(&mut args, "s16le");
            push_str(&mut args, "-ar");
            push_string(&mut args, decimal_string(artifacts.system_rate as u64));
            push_str(&mut args, "-ac");
            push_str(&mut args, "1");
            push_str(&mut args, "-i");
            push_str(&mut args, p.as_str());
            push_str(&mut args, "-filter_complex");
            push_str(&mut args, "[0:a][1:a]amix=inputs=2:normalize=0[aout]");
            push_str(&mut args, "-map");
            push_str(&mut args, "[aout]");
        },
        None => {},
    }
    let ghost after_system = strs(args@);
    append_output_args(&mut args, audio_format, opus_bitrate_kbps);
    push_str(&mut args, output_path);
    proof {
        assert(strs(args@) =~= capture_args(
            output_path@,
            audio_format@,
            *artifacts,
            opus_bitrate_kbps,
        ));
    }
    Ok(EncodePlan::Encoder(args))
}

pub open spec fn silence_args(output_path: Seq<char>, audio_format: Seq<char>, kbps: u32) -> Seq<Seq<char>> {
    seq![
        "-y"@,
        "-loglevel"@,
        "error"@,
        "-f"@,
        "lavfi"@,
        "-i"@,
        "anullsrc=r=48000:cl=mono"@,
        "-t"@,
        "0.02"@,
    ] + output_args(audio_format, kbps) + seq![output_path]
}

/// The plan for writing a short silent file (a session stopped without any
/// capture): Opus in-process, otherwise 0.02 s of generated silence.
pub fn plan_silence_encoding(output_path: &str, audio_format: &str, opus_bitrate_kbps: u32) -> (r: EncodePlan)
    ensures
        audio_format@ == "opus"@ ==> r matches EncodePlan::Opus,
        audio_format@ != "opus"@ ==> (r matches EncodePlan::Encoder(args) && strs(args@)
            == silence_args(output_path@, audio_format@, opus_bitrate_kbps)),
{
    if str_eq(audio_format, "opus") {
        return EncodePlan::Opus;
    }
    let mut args: Vec<String> = Vec::new();
    push_str(&mut args, "-y");
    push_str(&mut args, "-loglevel");
    push_str(&mut args, "error");
    push_str(&mut args, "-f");
    push_str(&mut args, "lavfi");
    push_str(&mut args, "-i");
    push_str(&mut args, "anullsrc=r=48000:cl=mono");
    push_str(&mut args, "-t");
    push_str(&mut args, "0.02");
    append_output_args(&mut args, audio_format, opus_bitrate_kbps);
    push_str(&mut args, output_path);
    proof {
        assert(strs(args@) =~= silence_args(output_path@, audio_format@, opus_bitrate_kbps));
    }
    EncodePlan::Encoder(args)
}

/// Name of the bundled encoder binary for a target triple.
pub fn ffmpeg_source_name(target_triple: &str, binary_name: &str) -> (r: String)
    ensures
        r@ == if text::has_suffix(binary_name@, ".exe"@) {
            "ffmpeg-"@ + target_triple@ + ".exe"@
        } else {
            "ffmpeg-"@ + target_triple@
        },
{
    let vb = chars_of(binary_name);
    let suffix = chars_of(".exe");
    let ends = vb.len() >= suffix.len() && text::chars_occur_at(
        vb.as_slice(),
        suffix.as_slice(),
        vb.len() - suffix.len(),
    );
    let mut r = "ffmpeg-".to_string();
    r.append(target_triple);
    if ends {
        r.append(".exe");
    }
    r
}

/// Adds `path` to the candidate list unless it is empty or already listed.
pub fn push_unique_candidate(candidates: &mut Vec<String>, path: String)
    ensures
        strs(final(candidates)@) == if path@.len() == 0 || strs(old(candidates)@).contains(path@) {
            strs(old(candidates)@)
        } else {
            strs(old(candidates)@).push(path@)
        },
{
    if path.as_str().unicode_len() == 0 {
        return;
    }
    let mut i: usize = 0;
    while i < candidates.len()
        invariant
            i <= candidates@.len(),
            forall|k: int| 0 <= k < i ==> candidates@[k]@ != path@,
        decreases candidates@.len() - i,
    {
        if str_eq(candidates[i].as_str(), path.as_str()) {
            proof {
                assert(strs(candidates@)[i as int] == path@);
            }
            return;
        }
        i = i + 1;
    }
    proof {
        assert(!strs(candidates@).contains(path@));
    }
    push_string(candidates, path);
}

/// The candidate list after offering `path` (see [`push_unique_candidate`]).
pub open spec fn with_candidate(c: Seq<Seq<char>>, path: Seq<char>) -> Seq<Seq<char>> {
    if path.len() == 0 || c.contains(path) {
        c
    } else {
        c.push(path)
    }
}

/// The candidate list after offering `ffmpeg` in each search directory, in order.
pub open spec fn with_search_dirs(c: Seq<Seq<char>>, dirs: Seq<Seq<char>>) -> Seq<Seq<char>>
    decreases dirs.len(),
{
    if dirs.len() == 0 {
        c
    } else {
        with_candidate(with_search_dirs(c, dirs.drop_last()), paths::join(dirs.last(), "ffmpeg"@))
    }
}

/// The bundled binary's file name (see [`ffmpeg_source_name`]).
pub open spec fn sidecar_name(target_triple: Seq<char>, binary_name: Seq<char>) -> Seq<char> {
    if text::has_suffix(binary_name, ".exe"@) {
        "ffmpeg-"@ + target_triple + ".exe"@
    } else {
        "ffmpeg-"@ + target_triple
    }
}

/// Where the encoder binary is looked for, in order of preference, without
/// repeats: next to the executable (its own name, then `ffmpeg`), the app
/// bundle's `Resources`, the sidecar under the manifest's `binaries`, the
/// configured path (trimmed, when not blank), `ffmpeg` in each search
/// directory, then the two usual Homebrew locations.
pub open spec fn ffmpeg_candidates(
    ffmpeg_path: Option<Seq<char>>,
    path_dirs: Seq<Seq<char>>,
    exe_dir: Option<Seq<char>>,
    contents_dir: Option<Seq<char>>,
    manifest_dir: Seq<char>,
    target_triple: Seq<char>,
    binary_name: Seq<char>,
) -> Seq<Seq<char>> {
    let beside_exe = match exe_dir {
        Some(d) => {
            let two = with_candidate(
                with_candidate(seq![], paths::join(d, binary_name)),
                paths::join(d, "ffmpeg"@),
            );
            match contents_dir {
                Some(cd) => with_candidate(two, paths::join(paths::join(cd, "Resources"@), binary_name)),
                None => two,
            }
        },
        None => seq![],
    };
    let sidecar = with_candidate(
        beside_exe,
        paths::join(paths::join(manifest_dir, "binaries"@), sidecar_name(target_triple, binary_name)),
    );
    let configured = match ffmpeg_path {
        Some(p) => with_candidate(sidecar, text::trim(p)),
        None => sidecar,
    };
    with_candidate(
        with_candidate(with_search_dirs(configured, path_dirs), "/opt/homebrew/bin/ffmpeg"@),
        "/usr/local/bin/ffmpeg"@,
    )
}

/// The places to look for the encoder binary (see [`ffmpeg_candidates`]).
/// `exe_dir` is the directory of the running executable and `contents_dir`
/// the directory above it; `path_dirs` are the directories of the search path.
pub fn ffmpeg_binary_candidates_for(
    ffmpeg_path: Option<&str>,
    path_dirs: &Vec<String>,
    exe_dir: Option<&str>,
    contents_dir: Option<&str>,
    manifest_dir: &str,
    target_triple: &str,
    binary_name: &str,
) -> (r: Vec<String>)
    ensures
        strs(r@) == ffmpeg_candidates(
            match ffmpeg_path {
                Some(p) => Some(p@),
                None => None,
            },
            strs(path_dirs@),
            match exe_dir {
                Some(d) => Some(d@),
                None => None,
            },
            match contents_dir {
                Some(d) => Some(d@),
                None => None,
            },
            manifest_dir@,
            target_triple@,
            binary_name@,
        ),
{
    let mut candidates: Vec<String> = Vec::new();
    proof {
        assert(strs(candidates@) =~= Seq::<Seq<char>>::empty());
    }
    if let Some(d) = exe_dir {
        push_unique_candidate(&mut candidates, paths::join_path(d, binary_name));
        push_unique_candidate(&mut candidates, paths::join_path(d, "ffmpeg"));
        if let Some(cd) = contents_dir {
            let resources = paths::join_path(cd, "Resources");
            push_unique_candidate(&mut candidates, paths::join_path(resources.as_str(), binary_name));
        }
    }
    let binaries = paths::join_path(manifest_dir, "binaries");
    let sidecar = ffmpeg_source_name(target_triple, binary_name);
    push_unique_candidate(&mut candidates, paths::join_path(binaries.as_str(), sidecar.as_str()));
    if let Some(p) = ffmpeg_path {
        push_unique_candidate(&mut candidates, trim_string(p));
    }
    let ghost configured = strs(candidates@);
    let mut i: usize = 0;
    while i < path_dirs.len()
        invariant
            i <= path_dirs@.len(),
            strs(candidates@) == with_search_dirs(configured, strs(path_dirs@).take(i as int)),
        decreases path_dirs@.len() - i,
    {
        proof {
            let next = strs(path_dirs@).take(i + 1);
            assert(next.drop_last() =~= strs(path_dirs@).take(i as int));
            assert(next.last() == path_dirs@[i as int]@);
        }
        push_unique_candidate(&mut candidates, paths::join_path(path_dirs[i].as_str(), "ffmpeg"));
        i = i + 1;
    }
    proof {
        assert(strs(path_dirs@).take(path_dirs@.len() as int) =~= strs(path_dirs@));
    }
    push_unique_candidate(&mut candidates, "/opt/homebrew/bin/ffmpeg".to_string());
    push_unique_candidate(&mut candidates, "/usr/local/bin/ffmpeg".to_string());
    candidates
}

// ------------------------------------------------- system source selection

/// What `str::to_lowercase` makes of `s` (full Unicode case mapping).
pub uninterp spec fn spec_to_lowercase(s: Seq<char>) -> Seq<char>;

/// `str::to_lowercase`; only the naming of the result is claimed.
#[verifier::external_body]
pub(crate) fn to_lowercase(s: &str) -> (r: String)
    ensures
        r@ == spec_to_lowercase(s@),
{
    s.to_lowercase()
}

pub open spec fn hit(n: Seq<char>, key: Seq<char>, weight: int) -> int {
    if text::contains_seq(n, key) {
        weight
    } else {
        0
    }
}

pub open spec fn platform_hits(n: Seq<char>, os: Seq<char>) -> int {
    if os == "macos"@ {
        hit(n, "blackhole"@, 16) + hit(n, "soundflower"@, 16) + hit(n, "loopback audio"@, 16)
            + hit(n, "aggregate device"@, 16)
    } else if os == "windows"@ {
        hit(n, "vb-cable"@, 16) + hit(n, "cable output"@, 16) + hit(n, "stereo mix"@, 16) + hit(
            n,
            "what u hear"@,
            16,
        ) + hit(n, "loopback"@, 16)
    } else {
        hit(n, "loopback"@, 16) + hit(n, "monitor of"@, 16) + hit(n, "stereo mix"@, 16) + hit(
            n,
            "vb-cable"@,
            16,
        ) + hit(n, "blackhole"@, 16)
    }
}

/// How strongly a device name suggests a loopback source of system audio on `os`.
pub open spec fn source_score(name: Seq<char>, os: Seq<char>) -> int {
    let n = spec_to_lowercase(name);
    hit(n, "loopback"@, 10) + hit(n, "stereo mix"@, 10) + hit(n, "what u hear"@, 10) + hit(
        n,
        "monitor of"@,
        10,
    ) + platform_hits(n, os) + hit(n, "mix"@, 3) + hit(n, "virtual"@, 3) + hit(
        n,
        "aggregate"@,
        3,
    ) + hit(n, "capture"@, 3) + hit(n, "output"@, 3) - (if text::contains_seq(
        n,
        "microphone"@,
    ) || text::contains_seq(n, "mic"@) {
        4int
    } else {
        0int
    }) - hit(n, "default"@, 1)
}

fn hit_exec(n: &str, key: &str, weight: i32) -> (r: i32)
    requires
        0 <= weight <= 16,
    ensures
        r == hit(n@, key@, weight as int),
{
    if str_contains(n, key) {
        weight
    } else {
        0
    }
}

/// Score of a device name as a system-audio source on `os` (`macos`,
/// `windows`, anything else); names scoring 0 or less are not considered.
pub fn score_system_source_name(name: &str, os: &str) -> (score: i32)
    ensures
        score == source_score(name@, os@),
{
    let lowered = to_lowercase(name);
    let n = lowered.as_str();
    let mut score: i32 = 0;
    score = score + hit_exec(n, "loopback", 10);
    score = score + hit_exec(n, "stereo mix", 10);
    score = score + hit_exec(n, "what u hear", 10);
    score = score + hit_exec(n, "monitor of", 10);
    if str_eq(os, "macos") {
        score = score + hit_exec(n, "blackhole", 16);
        score = score + hit_exec(n, "soundflower", 16);
        score = score + hit_exec(n, "loopback audio", 16);
        score = score + hit_exec(n, "aggregate device", 16);
    } else if str_eq(os, "windows") {
        score = score + hit_exec(n, "vb-cable", 16);
        score = score + hit_exec(n, "cable output", 16);
        score = score + hit_exec(n, "stereo mix", 16);
        score = score + hit_exec(n, "what u hear", 16);
        score = score + hit_exec(n, "loopback", 16);
    } else {
        score = score + hit_exec(n, "loopback", 16);
        score = score + hit_exec(n, "monitor of", 16);
        score = score + hit_exec(n, "stereo mix", 16);
        score = score + hit_exec(n, "vb-cable", 16);
        score = score + hit_exec(n, "blackhole", 16);
    }
    score = score + hit_exec(n, "mix", 3);
    score = score + hit_exec(n, "virtual", 3);
    score = score + hit_exec(n, "aggregate", 3);
    score = score + hit_exec(n, "capture", 3);
    score = score + hit_exec(n, "output", 3);
    if str_contains(n, "microphone") || str_contains(n, "mic") {
        score = score - 4;
    }
    score = score - hit_exec(n, "default", 1);
    score
}

/// `x` is the first device with the highest positive score.
pub open spec fn is_best_source(devices: Seq<Seq<char>>, x: Seq<char>, os: Seq<char>) -> bool {
    exists|k: int|
        0 <= k < devices.len() && devices[k] == x && source_score(x, os) > 0 && (forall|j: int|
            0 <= j < devices.len() ==> source_score(#[trigger] devices[j], os) <= source_score(
                x,
                os,
            )) && (forall|j: int|
            0 <= j < k ==> source_score(#[trigger] devices[j], os) < source_score(x, os))
}

pub open spec fn no_source(devices: Seq<Seq<char>>, os: Seq<char>) -> bool {
    forall|j: int| 0 <= j < devices.len() ==> source_score(#[trigger] devices[j], os) <= 0
}

/// The device most likely to carry system audio: the first of those with the
/// highest positive score.
pub fn select_best_system_source(devices: &[String], os: &str) -> (r: Option<String>)
    ensures
        match r {
            Some(x) => is_best_source(strs(devices@), x@, os@),
            None => no_source(strs(devices@), os@),
        },
{
    let ghost d = strs(devices@);
    let mut best: Option<usize> = None;
    let mut best_score: i32 = 0;
    let mut i: usize = 0;
    while i < devices.len()
        invariant
            i <= devices@.len(),
            d == strs(devices@),
            match best {
                Some(k) => k < i && best_score == source_score(d[k as int], os@) && best_score > 0
                    && (forall|j: int|
                    0 <= j < i ==> source_score(#[trigger] d[j], os@) <= best_score) && (forall|
                    j: int,
                | 0 <= j < k ==> source_score(#[trigger] d[j], os@) < best_score),
                None => forall|j: int| 0 <= j < i ==> source_score(#[trigger] d[j], os@) <= 0,
            },
        decreases devices@.len() - i,
    {
        let score = score_system_source_name(devices[i].as_str(), os);
        proof {
            assert(d[i as int] == devices@[i as int]@);
        }
        if score > 0 {
            match best {
                Some(_) => {
                    if best_score < score {
                        best = Some(i);
                        best_score = score;
                    }
                },
                None => {
                    best = Some(i);
                    best_score = score;
                },
            }
        }
        i = i + 1;
    }
    match best {
        Some(k) => {
            let r = devices[k].clone();
            proof {
                assert(d[k as int] == r@);
            }
            Some(r)
        },
        None => None,
    }
}

/// The key a microphone name is compared under: trimmed and lowercased, or
/// empty when there is no microphone name.
pub open spec fn mic_key(mic_name: Option<Seq<char>>) -> Seq<char> {
    match mic_name {
        Some(m) => spec_to_lowercase(text::trim(m)),
        None => seq![],
    }
}

pub open spec fn is_mic(key: Seq<char>, name: Seq<char>) -> bool {
    key.len() > 0 && spec_to_lowercase(text::trim(name)) == key
}

pub open spec fn non_mic(devices: Seq<Seq<char>>, key: Seq<char>) -> Seq<Seq<char>> {
    devices.filter(|d: Seq<char>| !is_mic(key, d))
}

/// The first device matching the preferred name (ignoring ASCII case) that is
/// not the microphone, when a non-blank preferred name is given.
pub open spec fn preferred_match(
    devices: Seq<Seq<char>>,
    preferred: Option<Seq<char>>,
    key: Seq<char>,
) -> Option<int> {
    match preferred {
        Some(p) => if text::trim(p).len() > 0 && exists|k: int|
            0 <= k < devices.len() && text::ascii_lower_seq(devices[k]) == text::ascii_lower_seq(
                text::trim(p),
            ) && !is_mic(key, devices[k]) {
            Some(
                choose|k: int|
                    0 <= k < devices.len() && text::ascii_lower_seq(devices[k])
                        == text::ascii_lower_seq(text::trim(p)) && !is_mic(key, devices[k]) && (
                    forall|j: int|
                        0 <= j < k ==> !(text::ascii_lower_seq(devices[j]) == text::ascii_lower_seq(
                            text::trim(p),
                        ) && !is_mic(key, devices[j]))),
            )
        } else {
            None
        },
        None => None,
    }
}

/// The system-audio device to record: the preferred device when it exists
/// and is not the microphone, otherwise the best-scoring non-microphone device.
pub fn resolve_system_source_name(
    preferred_name: Option<&str>,
    mic_name: Option<&str>,
    devices: &[String],
    os: &str,
) -> (r: Option<String>)
    ensures
        ({
            let pref = match preferred_name {
                Some(s) => Some(s@),
                None => None::<Seq<char>>,
            };
            let key = mic_key(
                match mic_name {
                    Some(s) => Some(s@),
                    None => None::<Seq<char>>,
                },
            );
            let d = strs(devices@);
            match preferred_match(d, pref, key) {
                Some(k) => r matches Some(x) && x@ == d[k],
                None => match r {
                    Some(x) => is_best_source(non_mic(d, key), x@, os@),
                    None => no_source(non_mic(d, key), os@),
                },
            }
        }),
{
    let ghost pref = match preferred_name {
        Some(s) => Some(s@),
        None => None::<Seq<char>>,
    };
    let ghost key_spec = mic_key(
        match mic_name {
            Some(s) => Some(s@),
            None => None::<Seq<char>>,
        },
    );
    let ghost d = strs(devices@);
    let mic: String = match mic_name {
        Some(m) => to_lowercase(trim_str(m)),
        None => String::new(),
    };
    let mic_len = mic.as_str().unicode_len();
    match preferred_name {
        Some(p) => {
            let preferred = trim_str(p);
            if preferred.unicode_len() > 0 {
                let mut i: usize = 0;
                while i < devices.len()
                    invariant
                        i <= devices@.len(),
                        d == strs(devices@),
                        mic@ == key_spec,
                        mic_len == mic@.len(),
                        preferred@ == text::trim(p@),
                        preferred@.len() > 0,
                        pref == Some(p@),
                        pref == match preferred_name {
                            Some(s) => Some(s@),
                            None => None::<Seq<char>>,
                        },
                        key_spec == mic_key(
                            match mic_name {
                                Some(s) => Some(s@),
                                None => None::<Seq<char>>,
                            },
                        ),
                        forall|j: int|
                            0 <= j < i ==> !(text::ascii_lower_seq(d[j]) == text::ascii_lower_seq(
                                text::trim(p@),
                            ) && !is_mic(key_spec, d[j])),
                    decreases devices@.len() - i,
                {
                    let dev = devices[i].as_str();
                    proof {
                        assert(d[i as int] == dev@);
                    }
                    if eq_ignore_ascii_case(dev, preferred) {
                        let is_mic_dev = mic_len > 0 && str_eq(
                            to_lowercase(trim_str(dev)).as_str(),
                            mic.as_str(),
                        );
                        if !is_mic_dev {
                            proof {
                                let target = text::ascii_lower_seq(text::trim(p@));
                                assert(text::ascii_lower_seq(d[i as int]) == target);
                                assert(!is_mic(key_spec, d[i as int]));
                                assert(0 <= i < d.len() && text::ascii_lower_seq(d[i as int])
                                    == target && !is_mic(key_spec, d[i as int]) && (forall|j: int|
                                    0 <= j < i ==> !(text::ascii_lower_seq(d[j]) == target
                                        && !is_mic(key_spec, d[j]))));
                                let pm = preferred_match(d, pref, key_spec);
                                assert(pm is Some);
                                let k = pm->0;
                                assert(k == i as int);
                            }
                            let found = devices[i].clone();
                            proof {
                                assert(found@ == d[i as int]);
                            }
                            return Some(found);
                        }
                    }
                    i = i + 1;
                }
                proof {
                    assert(preferred_match(d, pref, key_spec) is None);
                }
            }
        },
        None => {},
    }
    let mut filtered: Vec<String> = Vec::new();
    let mut i: usize = 0;
    while i < devices.len()
        invariant
            i <= devices@.len(),
            d == strs(devices@),
            mic@ == key_spec,
            mic_len == mic@.len(),
            strs(filtered@) == d.subrange(0, i as int).filter(
                |x: Seq<char>| !is_mic(key_spec, x),
            ),
        decreases devices@.len() - i,
    {
        let dev = devices[i].as_str();
        let is_mic_dev = mic_len > 0 && str_eq(to_lowercase(trim_str(dev)).as_str(), mic.as_str());
        proof {
            reveal(Seq::filter);
            assert(d.subrange(0, i + 1).drop_last() =~= d.subrange(0, i as int));
            assert(d.subrange(0, i + 1).last() == dev@);
        }
        if !is_mic_dev {
            push_string(&mut filtered, devices[i].clone());
        }
        i = i + 1;
    }
    proof {
        assert(d.subrange(0, devices@.len() as int) =~= d);
    }
    select_best_system_source(filtered.as_slice(), os)
}

// ------------------------------------------------------------ mute control

/// Which inputs are muted during a recording.
#[derive(Clone, Copy, Debug, PartialEq, Eq, Structural)]
pub struct RecordingMuteState {
    pub mic_muted: bool,
    pub system_muted: bool,
}

impl RecordingMuteState {
    pub fn default() -> (s: Self)
        ensures
            !s.mic_muted && !s.system_muted,
    {
        RecordingMuteState { mic_muted: false, system_muted: false }
    }
}

/// Mute flags shared between the UI commands and the capture threads.
pub struct SharedRecordingControl {
    mic_muted: bool,
    system_muted: bool,
}

impl SharedRecordingControl {
    pub closed spec fn state(self) -> RecordingMuteState {
        RecordingMuteState { mic_muted: self.mic_muted, system_muted: self.system_muted }
    }

    /// Both inputs live.
    pub fn new() -> (c: Self)
        ensures
            c.state() == (RecordingMuteState { mic_muted: false, system_muted: false }),
    {
        SharedRecordingControl { mic_muted: false, system_muted: false }
    }

    /// Unmutes both inputs.
    pub fn reset(&mut self)
        ensures
            final(self).state() == (RecordingMuteState { mic_muted: false, system_muted: false }),
    {
        self.mic_muted = false;
        self.system_muted = false;
    }

    /// Mutes or unmutes the `mic` or `system` input; other channel names are refused.
    pub fn set_channel(&mut self, channel: &str, muted: bool) -> (r: Result<(), String>)
        ensures
            channel@ == "mic"@ ==> r is Ok && final(self).state() == (RecordingMuteState {
                mic_muted: muted,
                ..old(self).state()
            }),
            channel@ == "system"@ ==> r is Ok && final(self).state() == (RecordingMuteState {
                system_muted: muted,
                ..old(self).state()
            }),
            channel@ != "mic"@ && channel@ != "system"@ ==> (r matches Err(e) && e@
                == "Unsupported recording input channel"@ && final(self).state() == old(
                self,
            ).state()),
    {
        proof {
            reveal_strlit("mic");
            reveal_strlit("system");
            assert("system"@.len() != "mic"@.len());
        }
        if str_eq(channel, "mic") {
            self.mic_muted = muted;
            Ok(())
        } else if str_eq(channel, "system") {
            self.system_muted = muted;
            Ok(())
        } else {
            Err("Unsupported recording input channel".to_string())
        }
    }

    /// The current mute flags.
    pub fn snapshot(&self) -> (s: RecordingMuteState)
        ensures
            s == self.state(),
    {
        RecordingMuteState { mic_muted: self.mic_muted, system_muted: self.system_muted }
    }

    /// Whether the microphone is muted (what its capture thread reads).
    pub fn mic_flag(&self) -> (b: bool)
        ensures
            b == self.state().mic_muted,
    {
        self.mic_muted
    }

    /// Whether the system audio is muted (what its capture thread reads).
    pub fn system_flag(&self) -> (b: bool)
        ensures
            b == self.state().system_muted,
    {
        self.system_muted
    }
}

/// Applies a mute toggle and reports the resulting state.
pub fn apply_recording_input_mute(
    control: &mut SharedRecordingControl,
    channel: &str,
    muted: bool,
) -> (r: Result<RecordingMuteState, String>)
    ensures
        channel@ == "mic"@ ==> r == Ok::<RecordingMuteState, String>(
            (RecordingMuteState { mic_muted: muted, ..old(control).state() }),
        ) && final(control).state() == r->Ok_0,
        channel@ == "system"@ ==> r == Ok::<RecordingMuteState, String>(
            (RecordingMuteState { system_muted: muted, ..old(control).state() }),
        ) && final(control).state() == r->Ok_0,
        channel@ != "mic"@ && channel@ != "system"@ ==> (r matches Err(e) && e@
            == "Unsupported recording input channel"@ && final(control).state() == old(
            control,
        ).state()),
{
    control.set_channel(channel, muted)?;
    Ok(control.snapshot())
}

// ------------------------------------------------------ macOS permissions

#[derive(Clone, Copy, Debug, PartialEq, Eq, Structural)]
pub enum MacosSystemAudioPermissionKind {
    Granted,
    NotDetermined,
    Denied,
    Unsupported,
}

#[derive(Clone, Copy, Debug, PartialEq, Eq, Structural)]
pub struct MacosSystemAudioPermissionStatus {
    pub kind: MacosSystemAudioPermissionKind,
    pub can_request: bool,
}

/// Translates the status code of the native bridge: 0 not yet asked (and
/// askable), 1 granted, 2 denied, anything else unsupported.
pub fn map_permission_code(code: i32) -> (s: MacosSystemAudioPermissionStatus)
    ensures
        code == 0 ==> s == (MacosSystemAudioPermissionStatus {
            kind: MacosSystemAudioPermissionKind::NotDetermined,
            can_request: true,
        }),
        code == 1 ==> s == (MacosSystemAudioPermissionStatus {
            kind: MacosSystemAudioPermissionKind::Granted,
            can_request: false,
        }),
        code == 2 ==> s == (MacosSystemAudioPermissionStatus {
            kind: MacosSystemAudioPermissionKind::Denied,
            can_request: false,
        }),
        code != 0 && code != 1 && code != 2 ==> s == (MacosSystemAudioPermissionStatus {
            kind: MacosSystemAudioPermissionKind::Unsupported,
            can_request: false,
        }),
{
    if code == 0 {
        MacosSystemAudioPermissionStatus {
            kind: MacosSystemAudioPermissionKind::NotDetermined,
            can_request: true,
        }
    } else if code == 1 {
        MacosSystemAudioPermissionStatus {
            kind: MacosSystemAudioPermissionKind::Granted,
            can_request: false,
        }
    } else if code == 2 {
        MacosSystemAudioPermissionStatus {
            kind: MacosSystemAudioPermissionKind::Denied,
            can_request: false,
        }
    } else {
        MacosSystemAudioPermissionStatus {
            kind: MacosSystemAudioPermissionKind::Unsupported,
            can_request: false,
        }
    }
}

/// The permission state never blocks an attempt to start native capture: a
/// denied or undetermined permission surfaces as a capture error instead.
pub fn ensure_macos_system_audio_permission(status: &MacosSystemAudioPermissionStatus) -> (r: Result<(), String>)
    ensures
        r is Ok,
{
    Ok(())
}

// --------------------------------------------------------- Ogg/Opus headers

pub open spec fn le16(x: nat) -> Seq<u8> {
    seq![(x % 256) as u8, ((x / 256) % 256) as u8]
}

pub open spec fn le32(x: nat) -> Seq<u8> {
    seq![
        (x % 256) as u8,
        ((x / 256) % 256) as u8,
        ((x / 65536) % 256) as u8,
        ((x / 16777216) % 256) as u8,
    ]
}

pub open spec fn opus_head_magic() -> Seq<u8> {
    seq![0x4fu8, 0x70, 0x75, 0x73, 0x48, 0x65, 0x61, 0x64]
}

pub open spec fn opus_tags_magic() -> Seq<u8> {
    seq![0x4fu8, 0x70, 0x75, 0x73, 0x54, 0x61, 0x67, 0x73]
}

/// The `OpusHead` identification packet of a mono stream.
pub open spec fn opus_head(sample_rate: u32, pre_skip: u16) -> Seq<u8> {
    opus_head_magic() + seq![1u8, 1u8] + le16(pre_skip as nat) + le32(sample_rate as nat) + seq![
        0u8,
        0u8,
    ] + seq![0u8]
}

fn push_le16(out: &mut Vec<u8>, x: u16)
    ensures
        final(out)@ == old(out)@ + le16(x as nat),
{
    let lo: u8 = (x % 256) as u8;
    let hi: u8 = (x / 256) as u8;
    out.push(lo);
    out.push(hi);
    assert(final_eq(out@, old(out)@, le16(x as nat)));
}

spec fn final_eq(a: Seq<u8>, b: Seq<u8>, c: Seq<u8>) -> bool {
    a =~= b + c
}

fn push_le32(out: &mut Vec<u8>, x: u32)
    ensures
        final(out)@ == old(out)@ + le32(x as nat),
{
    out.push((x % 256) as u8);
    out.push(((x / 256) % 256) as u8);
    out.push(((x / 65536) % 256) as u8);
    out.push((x / 16777216) as u8);
    assert(final_eq(out@, old(out)@, le32(x as nat)));
}

fn push_magic(out: &mut Vec<u8>, tags: bool)
    ensures
        final(out)@ == old(out)@ + if tags {
            opus_tags_magic()
        } else {
            opus_head_magic()
        },
{
    out.push(0x4f);
    out.push(0x70);
    out.push(0x75);
    out.push(0x73);
    if tags {
        out.push(0x54);
        out.push(0x61);
        out.push(0x67);
        out.push(0x73);
    } else {
        out.push(0x48);
        out.push(0x65);
        out.push(0x61);
        out.push(0x64);
    }
    assert(final_eq(
        out@,
        old(out)@,
        if tags {
            opus_tags_magic()
        } else {
            opus_head_magic()
        },
    ));
}

/// The 19-byte `OpusHead` packet: version 1, one channel, pre-skip, input
/// sample rate, zero gain, mapping family 0.
pub fn opus_head_packet(sample_rate: u32, pre_skip: u16) -> (r: Vec<u8>)
    ensures
        r@ == opus_head(sample_rate, pre_skip),
        r@.len() == 19,
{
    let mut out: Vec<u8> = Vec::new();
    push_magic(&mut out, false);
    out.push(1);
    out.push(1);
    push_le16(&mut out, pre_skip);
    push_le32(&mut out, sample_rate);
    push_le16(&mut out, 0);
    out.push(0);
    assert(out@ =~= opus_head(sample_rate, pre_skip));
    out
}

/// The `OpusTags` packet naming `vendor` and carrying no user comments.
pub open spec fn opus_tags(vendor: Seq<u8>) -> Seq<u8> {
    opus_tags_magic() + le32((vendor.len() as u32) as nat) + vendor + le32(0)
}

pub fn opus_tags_packet(vendor: &str) -> (r: Vec<u8>)
    ensures
        r@ == opus_tags(vendor.spec_bytes()),
{
    let bytes = vendor.as_bytes();
    let mut out: Vec<u8> = Vec::new();
    push_magic(&mut out, true);
    let n: u32 = bytes.len() as u32;
    push_le32(&mut out, n);
    let ghost mid = out@;
    let mut i: usize = 0;
    while i < bytes.len()
        invariant
            i <= bytes@.len(),
            out@ == mid + bytes@.subrange(0, i as int),
        decreases bytes@.len() - i,
    {
        out.push(bytes[i]);
        i = i + 1;
        assert(out@ =~= mid + bytes@.subrange(0, i as int));
    }
    push_le32(&mut out, 0);
    assert(bytes@.subrange(0, bytes@.len() as int) =~= bytes@);
    assert(out@ =~= opus_tags(vendor.spec_bytes()));
    out
}

/// Each raw input is declared with its own sample rate: the `-ar` given just
/// before the microphone's `-i` is the decimal of `mic_rate`, and the one
/// just before the system track's `-i` is the decimal of `system_rate`.
pub proof fn lemma_each_input_has_its_own_rate(
    output_path: Seq<char>,
    audio_format: Seq<char>,
    a: CaptureArtifacts,
    opus_bitrate_kbps: u32,
)
    ensures
        ({
            let args = capture_args(output_path, audio_format, a, opus_bitrate_kbps);
            &&& args[5] == "-ar"@ && args[6] == text::decimal(a.mic_rate as nat)
            &&& args[9] == "-i"@ && args[10] == a.mic_path@
            &&& a.system_path matches Some(p) ==> args[13] == "-ar"@ && args[14] == text::decimal(
                a.system_rate as nat,
            ) && args[17] == "-i"@ && args[18] == p@
        }),
{
}

} // verus!
