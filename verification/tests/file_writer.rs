use bigecho::audio::{
    audio_file_name, brain_upload_content_type, content_type_for_audio_path, ffmpeg_binary_candidates_for,
    mime_type_for_audio_path, opus_head_packet, opus_tags_packet,
};
use bigecho::audio::{plan_capture_encoding, CaptureArtifacts, EncodePlan};
use std::path::Path;

#[test]
fn picks_expected_audio_file_names() {
    assert_eq!(audio_file_name("opus"), "audio.opus");
    assert_eq!(audio_file_name("mp3"), "audio.mp3");
    assert_eq!(audio_file_name("m4a"), "audio.m4a");
    assert_eq!(audio_file_name("ogg"), "audio.ogg");
    assert_eq!(audio_file_name("wav"), "audio.wav");
}

#[test]
fn derives_expected_mime_types() {
    assert_eq!(mime_type_for_audio_path("/tmp/audio.opus"), "audio/opus");
    assert_eq!(mime_type_for_audio_path("/tmp/audio.mp3"), "audio/mpeg");
    assert_eq!(mime_type_for_audio_path("/tmp/audio.m4a"), "audio/mp4");
    assert_eq!(mime_type_for_audio_path("/tmp/audio.ogg"), "audio/ogg");
    assert_eq!(mime_type_for_audio_path("/tmp/audio.wav"), "audio/wav");
}

#[test]
fn opus_upload_uses_ogg_container_mime_with_opus_codec() {
    assert_eq!(brain_upload_content_type("/tmp/audio.opus"), "audio/ogg;codecs=opus");
}

#[test]
fn ogg_upload_uses_ogg_container_mime() {
    assert_eq!(brain_upload_content_type("/tmp/audio.ogg"), "audio/ogg");
}

#[test]
fn unknown_extensions_fall_back_to_octet_stream() {
    assert_eq!(brain_upload_content_type("/tmp/audio.flac"), "application/octet-stream");
    assert_eq!(content_type_for_audio_path("/tmp/noext"), "application/octet-stream");
    assert_eq!(content_type_for_audio_path("/tmp/AUDIO.OPUS"), "audio/ogg");
}

#[test]
fn unknown_format_records_as_opus() {
    assert_eq!(audio_file_name("flac"), "audio.opus");
}

#[test]
fn opus_head_packet_layout() {
    let p = opus_head_packet(48_000, 312);
    assert_eq!(&p[0..8], b"OpusHead");
    assert_eq!(p.len(), 19);
    assert_eq!(p[8], 1);
    assert_eq!(&p[10..12], &312u16.to_le_bytes());
    assert_eq!(&p[12..16], &48_000u32.to_le_bytes());
}

#[test]
fn opus_tags_packet_layout() {
    let p = opus_tags_packet("bigecho");
    assert_eq!(&p[0..8], b"OpusTags");
    assert_eq!(&p[8..12], &7u32.to_le_bytes());
    assert_eq!(&p[12..19], b"bigecho");
    assert_eq!(&p[19..23], &0u32.to_le_bytes());
    assert_eq!(p.len(), 23);
}

/// The arguments that the running program derives from its executable's path
/// and its search path before asking for the candidate list.
fn exe_dirs(exe: &Path) -> (Option<String>, Option<String>) {
    let dir = exe.parent();
    let contents = dir.and_then(Path::parent);
    (
        dir.map(|d| d.to_string_lossy().to_string()),
        contents.map(|d| d.to_string_lossy().to_string()),
    )
}

fn search_dirs(path_env: Option<&str>) -> Vec<String> {
    match path_env {
        Some(p) => p.split(':').map(str::to_string).collect(),
        None => Vec::new(),
    }
}

#[test]
fn ffmpeg_candidates_prefer_bundled_sidecar_before_env_and_path() {
    let exe = Path::new("/Applications/BigEcho.app/Contents/MacOS/bigecho");
    let manifest = Path::new("/repo/src-tauri");
    let (exe_dir, contents_dir) = exe_dirs(exe);
    let candidates = ffmpeg_binary_candidates_for(
        Some("/custom/ffmpeg"),
        &search_dirs(Some("/tmp/bin:/usr/bin")),
        exe_dir.as_deref(),
        contents_dir.as_deref(),
        manifest.to_str().unwrap(),
        "aarch64-apple-darwin",
        "ffmpeg",
    );

    assert_eq!(candidates.first().unwrap(), "/Applications/BigEcho.app/Contents/MacOS/ffmpeg");
    assert!(candidates.contains(&"/repo/src-tauri/binaries/ffmpeg-aarch64-apple-darwin".to_string()));
    assert!(candidates.contains(&"/custom/ffmpeg".to_string()));
    assert!(candidates.contains(&"/opt/homebrew/bin/ffmpeg".to_string()));
    assert!(candidates.contains(&"/usr/local/bin/ffmpeg".to_string()));
}

#[test]
fn ffmpeg_candidates_use_windows_sidecar_name() {
    let exe = Path::new("C:\\Program Files\\BigEcho\\bigecho.exe");
    let manifest = Path::new("C:\\repo\\src-tauri");
    let (exe_dir, contents_dir) = exe_dirs(exe);
    let candidates = ffmpeg_binary_candidates_for(
        None,
        &search_dirs(None),
        exe_dir.as_deref(),
        contents_dir.as_deref(),
        manifest.to_str().unwrap(),
        "x86_64-pc-windows-msvc",
        "ffmpeg.exe",
    );

    let expected = Path::new("C:\\repo\\src-tauri").join("binaries").join("ffmpeg-x86_64-pc-windows-msvc.exe");
    assert!(candidates.contains(&expected.to_string_lossy().to_string()));
}

#[test]
fn ffmpeg_candidates_skip_blank_configured_path_and_repeats() {
    let candidates = ffmpeg_binary_candidates_for(
        Some("   "),
        &vec!["/usr/local/bin".to_string(), "/usr/bin".to_string()],
        Some("/opt/app"),
        Some("/opt"),
        "/repo",
        "x86_64-unknown-linux-gnu",
        "ffmpeg",
    );
    assert_eq!(
        candidates,
        vec![
            "/opt/app/ffmpeg".to_string(),
            "/opt/Resources/ffmpeg".to_string(),
            "/repo/binaries/ffmpeg-x86_64-unknown-linux-gnu".to_string(),
            "/usr/local/bin/ffmpeg".to_string(),
            "/usr/bin/ffmpeg".to_string(),
            "/opt/homebrew/bin/ffmpeg".to_string(),
        ]
    );
}

fn artifacts(mic_rate: u32, system: Option<u32>) -> CaptureArtifacts {
    CaptureArtifacts {
        mic_path: "/tmp/mic.raw".to_string(),
        mic_rate,
        system_path: system.map(|_| "/tmp/system.raw".to_string()),
        system_rate: system.unwrap_or(0),
    }
}

#[test]
fn capture_plan_refuses_zero_rates_for_every_format() {
    for format in ["opus", "mp3", "m4a", "ogg", "wav"] {
        let r = plan_capture_encoding("/tmp/out", format, &artifacts(0, Some(48000)), 24);
        assert!(matches!(r, Err(e) if e == "Mic sample rate must be > 0"));
        let r = plan_capture_encoding("/tmp/out", format, &artifacts(48000, Some(0)), 24);
        assert!(matches!(r, Err(e) if e == "System sample rate must be > 0"));
    }
    assert!(matches!(plan_capture_encoding("/tmp/out", "opus", &artifacts(48000, None), 24), Ok(EncodePlan::Opus)));
    assert!(matches!(
        plan_capture_encoding("/tmp/out", "wav", &artifacts(44100, Some(48000)), 24),
        Ok(EncodePlan::Encoder(_))
    ));
}
