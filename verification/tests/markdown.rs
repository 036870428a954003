use bigecho::markdown::{
    refreshed_markdown, render_frontmatter, render_markdown_artifact, strip_frontmatter, yaml_quote,
};
use bigecho::session::SessionMeta;

fn sample_meta() -> SessionMeta {
    let mut meta = SessionMeta::new(
        "session-md".to_string(),
        "zoom".to_string(),
        vec!["project/acme".to_string(), "".to_string(), "call/sales".to_string()],
        "Renewal sync".to_string(),
        "Check contract renewal".to_string(),
    );
    meta.display_date_ru = "29.04.2026".to_string();
    meta
}

fn markdownish_unclosed() -> &'static str {
    "---\nsource: \"unterminated\"\nbody\n"
}

#[test]
fn render_frontmatter_quotes_fields_and_filters_empty_tags() {
    let meta = sample_meta();
    let frontmatter = render_frontmatter(&meta);
    assert_eq!(
        frontmatter,
        "---\nsource: \"zoom\"\ntags:\n  - \"project/acme\"\n  - \"call/sales\"\nnotes: \"Check contract renewal\"\ntopic: \"Renewal sync\"\ndate: 29.04.2026\n---\n\n"
    );
}

#[test]
fn render_frontmatter_uses_block_scalar_for_multiline_notes() {
    let mut meta = sample_meta();
    meta.notes = "Line one\nLine two\n\nLine four".to_string();
    let frontmatter = render_frontmatter(&meta);
    assert_eq!(
        frontmatter,
        "---\nsource: \"zoom\"\ntags:\n  - \"project/acme\"\n  - \"call/sales\"\nnotes: |\n  Line one\n  Line two\n  \n  Line four\ntopic: \"Renewal sync\"\ndate: 29.04.2026\n---\n\n"
    );
}

#[test]
fn strip_frontmatter_removes_only_leading_yaml_block() {
    let markdown = "---\nsource: \"old\"\n---\n\n# Transcript\n\n---\nnot frontmatter\n";
    assert_eq!(strip_frontmatter(markdown), "# Transcript\n\n---\nnot frontmatter\n");
    assert_eq!(strip_frontmatter("# Transcript\n---\nbody\n"), "# Transcript\n---\nbody\n");
    assert_eq!(
        strip_frontmatter("---\nsource: \"unterminated\"\nbody\n"),
        markdownish_unclosed()
    );
}

#[test]
fn render_markdown_artifact_preserves_markdown_horizontal_rules() {
    let meta = sample_meta();
    let body = "---\n\n# Summary\n\n---\n\nBody";
    let artifact = render_markdown_artifact(&meta, body);
    assert_eq!(
        artifact,
        "---\nsource: \"zoom\"\ntags:\n  - \"project/acme\"\n  - \"call/sales\"\nnotes: \"Check contract renewal\"\ntopic: \"Renewal sync\"\ndate: 29.04.2026\n---\n\n---\n\n# Summary\n\n---\n\nBody"
    );
}

#[test]
fn rendered_artifact_strips_back_to_its_body() {
    let meta = sample_meta();
    let artifact = render_markdown_artifact(&meta, "# Summary\n\nBody");
    assert_eq!(strip_frontmatter(&artifact), "# Summary\n\nBody");
}

#[test]
fn yaml_quote_escapes_quotes_and_backslashes() {
    assert_eq!(yaml_quote("a\"b\\c"), "\"a\\\"b\\\\c\"");
}

#[test]
fn refresh_markdown_frontmatter_preserves_existing_body() {
    let current = "---\nsource: \"old\"\n---\n\n# Transcript\n\nOriginal body\n";
    let refreshed = refreshed_markdown(current, &sample_meta()).expect("refresh writes");
    assert_eq!(
        refreshed,
        "---\nsource: \"zoom\"\ntags:\n  - \"project/acme\"\n  - \"call/sales\"\nnotes: \"Check contract renewal\"\ntopic: \"Renewal sync\"\ndate: 29.04.2026\n---\n\n# Transcript\n\nOriginal body\n"
    );
}

#[test]
fn write_markdown_artifact_writes_rendered_artifact() {
    let written = render_markdown_artifact(&sample_meta(), "# Summary\n");
    assert_eq!(
        written,
        "---\nsource: \"zoom\"\ntags:\n  - \"project/acme\"\n  - \"call/sales\"\nnotes: \"Check contract renewal\"\ntopic: \"Renewal sync\"\ndate: 29.04.2026\n---\n\n# Summary\n"
    );
}

#[test]
fn refresh_markdown_frontmatter_ignores_missing_or_empty_files() {
    assert_eq!(refreshed_markdown("\n", &sample_meta()), None);
    assert_eq!(refreshed_markdown("", &sample_meta()), None);
}

#[test]
fn refreshing_with_same_details_writes_nothing() {
    let rendered = render_markdown_artifact(&sample_meta(), "\n\nBody\n---\nmore");
    assert_eq!(refreshed_markdown(&rendered, &sample_meta()), None);
    assert_eq!(strip_frontmatter(&rendered), "Body\n---\nmore");
}
