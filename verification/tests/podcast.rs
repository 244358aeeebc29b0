use mofa_studio::podcast::errors::PodcastError;
use mofa_studio::podcast::parser::{
    detect_json_roles, detect_markdown_roles, extract_title, parse_content, parse_script,
    parse_segments, segments_from_pairs, title_from,
};
use mofa_studio::podcast::script::{PodcastScript, ScriptFormat};
use mofa_studio::podcast::tts::TTSEngine;
use mofa_studio::podcast::voice::{AudioFormat, AudioSettings, MacOSVoice};

#[test]
fn test_markdown_parsing() {
    let content = r#"
# Test Script

Host: Welcome to our podcast!
Guest: Thank you for having me.
Host: Let's talk about AI.
"#;
    let script = parse_content(content).unwrap();
    assert_eq!(script.roles.len(), 2);

    let segments = parse_segments(&script);
    assert_eq!(segments.len(), 3);
}

#[test]
fn test_chinese_parsing() {
    let content = r#"
主持人：欢迎收听我们的播客！
嘉宾：谢谢邀请。
主持人：今天我们来聊聊人工智能。
"#;
    let script = parse_content(content).unwrap();
    assert_eq!(script.roles.len(), 2);

    let segments = parse_segments(&script);
    assert_eq!(segments.len(), 3);
}

#[test]
fn roles_come_in_order_of_first_mention_with_counts() {
    let roles = detect_markdown_roles("Host: a\nGuest: b\nHost: c\n**Guest**: d\nHost: e\n");
    assert_eq!(roles.len(), 2);
    assert_eq!(roles[0].id, "role_0");
    assert_eq!(roles[0].name, "Host");
    assert_eq!(roles[0].segment_count, 3);
    assert_eq!(roles[1].id, "role_1");
    assert_eq!(roles[1].name, "Guest");
    assert_eq!(roles[1].segment_count, 2);
}

#[test]
fn lines_that_name_no_role() {
    assert!(detect_markdown_roles("# Title: not a role\n").is_empty());
    assert!(detect_markdown_roles("no colon here\n").is_empty());
    assert!(detect_markdown_roles(": nothing before the colon\n").is_empty());
    assert!(detect_markdown_roles("123: digits only\n").is_empty());
    assert!(detect_markdown_roles("***: stars only\n").is_empty());
    let long = format!("{}: too long\n", "a".repeat(50));
    assert!(detect_markdown_roles(&long).is_empty());
    let fits = format!("{}: fits\n", "a".repeat(49));
    assert_eq!(detect_markdown_roles(&fits).len(), 1);
}

#[test]
fn carriage_returns_end_lines_too() {
    let roles = detect_markdown_roles("Host: a\r\nGuest: b\r\n");
    assert_eq!(roles.len(), 2);
    assert_eq!(roles[1].name, "Guest");
}

#[test]
fn segments_carry_role_text_and_match_position() {
    let script = parse_content("**Host**: Hello there \nGuest:   Hi!\n").unwrap();
    assert_eq!(script.format, ScriptFormat::Markdown);
    let segments = parse_segments(&script);
    assert_eq!(segments.len(), 2);
    assert_eq!(segments[0].index, 0);
    assert_eq!(segments[0].role, "Host");
    assert_eq!(segments[0].text, "Hello there");
    assert_eq!(segments[1].index, 1);
    assert_eq!(segments[1].role, "Guest");
    assert_eq!(segments[1].text, "Hi!");
}

#[test]
fn pairs_without_role_or_text_give_no_segment() {
    let pairs = vec![
        (Some(" A ".to_string()), Some(" x ".to_string())),
        (Some("#B".to_string()), Some("y".to_string())),
        (Some("C".to_string()), Some("   ".to_string())),
        (None, Some("z".to_string())),
        (Some("**D**".to_string()), Some("w".to_string())),
    ];
    let segments = segments_from_pairs(&pairs);
    assert_eq!(segments.len(), 2);
    assert_eq!(segments[0].index, 0);
    assert_eq!(segments[0].role, "A");
    assert_eq!(segments[0].text, "x");
    assert_eq!(segments[1].index, 4);
    assert_eq!(segments[1].role, "D");
    assert_eq!(segments[1].text, "w");
}

#[test]
fn json_scripts_give_roles_and_segments() {
    let content = r#"{"segments":[
        {"speaker":"Ann","text":"Hello"},
        {"role":"Bob","content":"Hi"},
        {"speaker":"Ann","role":"Host","text":""},
        {"text":"Nobody"}
    ]}"#;
    let script = parse_content(content).unwrap();
    assert_eq!(script.format, ScriptFormat::Json);
    let names: Vec<(String, usize)> =
        script.roles.iter().map(|r| (r.name.clone(), r.segment_count)).collect();
    assert_eq!(
        names,
        vec![("Ann".to_string(), 2), ("Bob".to_string(), 1), ("Host".to_string(), 1)]
    );
    let segments = parse_segments(&script);
    assert_eq!(segments.len(), 3);
    assert_eq!((segments[0].index, segments[0].role.as_str(), segments[0].text.as_str()), (0, "Ann", "Hello"));
    assert_eq!((segments[1].index, segments[1].role.as_str(), segments[1].text.as_str()), (1, "Bob", "Hi"));
    assert_eq!((segments[2].index, segments[2].role.as_str(), segments[2].text.as_str()), (3, "Unknown", "Nobody"));
}

#[test]
fn json_dialogue_is_read_where_segments_is_missing() {
    let roles = detect_json_roles(r#"{"dialogue":[{"speaker":"Ann"}]}"#);
    assert_eq!(roles.len(), 1);
    assert_eq!(roles[0].name, "Ann");
    assert!(detect_json_roles("not json").is_empty());
    assert!(detect_json_roles(r#"{"segments":"none"}"#).is_empty());
}

#[test]
fn formats_are_told_by_name_and_content() {
    assert_eq!(parse_script("a.md", "x").unwrap().format, ScriptFormat::Markdown);
    assert_eq!(parse_script("a.json", "x").unwrap().format, ScriptFormat::Json);
    assert_eq!(parse_script("a.txt", "x").unwrap().format, ScriptFormat::PlainText);
    assert_eq!(parse_content("  {\"a\":1}").unwrap().format, ScriptFormat::Json);
    assert_eq!(parse_content("# Heading").unwrap().format, ScriptFormat::Markdown);
    assert_eq!(parse_content("some **bold** text").unwrap().format, ScriptFormat::Markdown);
    assert_eq!(parse_content("plain").unwrap().format, ScriptFormat::PlainText);
}

#[test]
fn titles_come_from_heading_or_file_name() {
    assert_eq!(extract_title("dir/my_script.md", "# My Title\nHost: hi"), "My Title");
    assert_eq!(extract_title("dir/my_script.md", "# # Twice\n"), "Twice");
    assert_eq!(extract_title("dir/my_script.md", "Host: hi"), "my_script");
    assert_eq!(extract_title("", "Host: hi"), "Untitled Script");
    assert_eq!(title_from("no heading", None), "Untitled Script");
    assert_eq!(title_from("no heading", Some("stem".to_string())), "stem");
}

#[test]
fn parsed_scripts_keep_content_and_path() {
    let script = parse_script("talk.md", "# Talk\nHost: hi\n").unwrap();
    assert_eq!(script.title, "Talk");
    assert_eq!(script.content, "# Talk\nHost: hi\n");
    assert_eq!(script.file_path.as_deref(), Some("talk.md"));
    assert_eq!(script.roles.len(), 1);
    let other = parse_content("Host: hi").unwrap();
    assert_eq!(other.title, "Untitled Script");
    assert!(other.file_path.is_none());
}

#[test]
fn new_scripts_get_fresh_identifiers() {
    let a = PodcastScript::new("t".to_string(), "c".to_string(), ScriptFormat::PlainText);
    let b = PodcastScript::new("t".to_string(), "c".to_string(), ScriptFormat::PlainText);
    assert_eq!(a.id.len(), 36);
    assert_ne!(a.id, b.id);
    assert!(a.roles.is_empty());
    assert!(a.file_path.is_none());
    assert_eq!(a.title, "t");
    assert_eq!(a.content, "c");
}

#[test]
fn voices_are_listed() {
    let chinese = MacOSVoice::chinese_voices();
    let english = MacOSVoice::english_voices();
    let all = MacOSVoice::all_voices();
    assert_eq!(chinese.len(), 5);
    assert_eq!(english.len(), 5);
    assert_eq!(all.len(), 10);
    assert_eq!(chinese[0].id, "Ting-Ting");
    assert_eq!(chinese[2].language, "zh-HK");
    assert_eq!(english[1].id, "Alex");
    assert_eq!(english[1].gender, "male");
    assert_eq!(all[4].id, "Lili");
    assert_eq!(all[5].id, "Samantha");
    assert_eq!(all[9].language, "en-IE");
    let engine = TTSEngine::new();
    assert_eq!(engine.get_voices().len(), 10);
    assert_eq!(engine.get_voices()[9].name, "Moira");
}

#[test]
fn audio_settings_default_to_wav() {
    let settings = AudioSettings::default();
    assert_eq!(settings.format, AudioFormat::Wav);
    assert_eq!(settings.sample_rate, 22050);
}

#[test]
fn podcast_errors_describe_themselves() {
    assert_eq!(PodcastError::ParseError("x".to_string()).to_string(), "Failed to parse script: x");
    assert_eq!(PodcastError::TTSError("x".to_string()).to_string(), "TTS synthesis failed for text: x");
    assert_eq!(PodcastError::AudioError("x".to_string()).to_string(), "Audio processing error: x");
    assert_eq!(PodcastError::FileError("x".to_string()).to_string(), "File error: x");
    assert_eq!(PodcastError::NoRolesDetected.to_string(), "No roles detected in script");
    assert_eq!(
        PodcastError::VoiceNotAssigned("Host".to_string()).to_string(),
        "Voice not assigned for role: Host"
    );
}
