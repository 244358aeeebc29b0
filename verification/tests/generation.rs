use mofa_studio::podcast::errors::PodcastError;
use mofa_studio::podcast::generator::{
    output_file_name, segment_file_name, voice_for, AudioGenerator,
};
use mofa_studio::podcast::parser::parse_content;
use mofa_studio::podcast::tts::TTSEngine;
use mofa_studio::podcast::voice::VoiceAssignment;

fn assignment(role: &str, voice: &str) -> VoiceAssignment {
    VoiceAssignment {
        role_id: format!("id-{}", role),
        role_name: role.to_string(),
        voice_id: voice.to_string(),
    }
}

#[test]
fn segment_files_are_numbered_with_four_digits() {
    assert_eq!(segment_file_name(0), "segment_0000.wav");
    assert_eq!(segment_file_name(7), "segment_0007.wav");
    assert_eq!(segment_file_name(123), "segment_0123.wav");
    assert_eq!(segment_file_name(9999), "segment_9999.wav");
    assert_eq!(segment_file_name(12345), "segment_12345.wav");
}

#[test]
fn output_files_are_named_after_the_title() {
    assert_eq!(output_file_name("My Talk Show"), "My_Talk_Show.wav");
    assert_eq!(output_file_name("Plain"), "Plain.wav");
    assert_eq!(output_file_name(""), ".wav");
    assert_eq!(output_file_name(" a  b "), "_a__b_.wav");
}

#[test]
fn the_first_assignment_of_a_role_gives_its_voice() {
    let assignments =
        vec![assignment("Host", "Alex"), assignment("Guest", "Karen"), assignment("Host", "Daniel")];
    assert_eq!(voice_for(&assignments, "Host").as_deref(), Some("Alex"));
    assert_eq!(voice_for(&assignments, "Guest").as_deref(), Some("Karen"));
    assert_eq!(voice_for(&assignments, "Nobody"), None);
    assert_eq!(voice_for(&Vec::new(), "Host"), None);
}

#[test]
fn a_script_without_segments_is_refused() {
    let generator = AudioGenerator::new("/tmp/out".to_string());
    assert_eq!(generator.output_dir(), "/tmp/out");
    assert_eq!(generator.tts_engine().get_voices().len(), 10);
    let script = parse_content("nothing to say").unwrap();
    match generator.segments(&script) {
        Err(PodcastError::ParseError(detail)) => assert_eq!(detail, "No dialogue segments found"),
        other => panic!("unexpected {:?}", other),
    }
}

#[test]
fn jobs_name_voice_file_and_progress() {
    let generator = AudioGenerator::new("/tmp/out".to_string());
    let script = parse_content("Host: one\nGuest: two\nHost: three\n").unwrap();
    let segments = generator.segments(&script).unwrap();
    assert_eq!(segments.len(), 3);
    assert_eq!(AudioGenerator::total_steps(segments.len()), 5);
    let assignments = vec![assignment("Host", "Alex")];
    let job = generator.job(&segments, &assignments, 0).unwrap();
    assert_eq!(job.step, 2);
    assert_eq!(job.message, "Generating segment 1/3...");
    assert_eq!(job.text, "one");
    assert_eq!(job.voice_id, "Alex");
    assert_eq!(job.file_name, "segment_0000.wav");
    match generator.job(&segments, &assignments, 1) {
        Err(PodcastError::VoiceNotAssigned(role)) => assert_eq!(role, "Guest"),
        other => panic!("unexpected {:?}", other),
    }
    let last = generator.job(&segments, &assignments, 2).unwrap();
    assert_eq!(last.step, 4);
    assert_eq!(last.message, "Generating segment 3/3...");
    assert_eq!(last.file_name, "segment_0002.wav");
}

#[test]
fn speech_commands_take_their_arguments_in_order() {
    assert_eq!(
        TTSEngine::say_command("Hello there", "Alex", "/tmp/a.aiff"),
        vec!["-v", "Alex", "-o", "/tmp/a.aiff", "Hello there"]
    );
    assert_eq!(
        TTSEngine::convert_command("/tmp/a.aiff", "/tmp/a.wav"),
        vec!["-f", "WAVE", "-d", "LEI16@22050", "/tmp/a.aiff", "/tmp/a.wav"]
    );
}

#[test]
fn voice_names_are_the_first_words_of_the_listing() {
    let listing = "Alex                en_US    # Most people recognize me by my voice.\n\
                   Ting-Ting           zh_CN    # Hello\n\
                   \n   \n  Karen  en_AU\nMoira";
    assert_eq!(TTSEngine::voice_names(listing), vec!["Alex", "Ting-Ting", "Karen", "Moira"]);
    assert!(TTSEngine::voice_names("").is_empty());
}
