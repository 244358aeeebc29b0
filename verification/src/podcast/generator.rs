//! Planning the generation of a podcast: which voice reads which segment,
//! into which file, and what the listener of the progress is told.

use crate::podcast::errors::PodcastError;
use crate::podcast::parser::{parse_segments, script_segments, segment_models};
use crate::podcast::script::{DialogueSegment, PodcastScript};
use crate::podcast::tts::TTSEngine;
use crate::podcast::voice::{chinese_voice_list, english_voice_list, VoiceAssignment};
use crate::text::{
    chars_of, decimal, decimal_text, padded_decimal, padded_decimal_text, replace_char, string_of,
    text_option, with_char_replaced,
};
use vstd::prelude::*;

verus! {

/// The name of the file that holds segment `idx`.
pub open spec fn segment_file(idx: nat) -> Seq<char> {
    "segment_"@ + padded_decimal(idx, 4) + ".wav"@
}

/// The name of the file that holds the podcast of a script with the given
/// title: the title with an underscore for each space, and `.wav`.
pub open spec fn output_file(title: Seq<char>) -> Seq<char> {
    replace_char(title, ' ', '_') + ".wav"@
}

/// What the listener is told while segment `idx` of `total` is generated.
pub open spec fn segment_message(idx: nat, total: nat) -> Seq<char> {
    "Generating segment "@ + decimal(idx + 1) + "/"@ + decimal(total) + "..."@
}

/// The voice assigned to a role: that of the first assignment for the
/// role's name.
pub open spec fn assigned_voice(assignments: Seq<VoiceAssignment>, role: Seq<char>) -> Option<
    Seq<char>,
>
    decreases assignments.len(),
{
    if assignments.len() == 0 {
        None
    } else if assignments[0].role_name@ == role {
        Some(assignments[0].voice_id@)
    } else {
        assigned_voice(assignments.drop_first(), role)
    }
}

/// The work for one segment.
#[derive(Debug)]
pub struct SynthesisJob {
    /// The step of the generation, counted from 1; the first step is parsing.
    pub step: usize,
    /// What the listener is told.
    pub message: String,
    /// The text to speak.
    pub text: String,
    /// The voice that speaks it.
    pub voice_id: String,
    /// The name of the file to write, in the directory for temporary files.
    pub file_name: String,
}

/// The orchestrator of a generation.
#[derive(Debug)]
pub struct AudioGenerator {
    tts_engine: TTSEngine,
    output_dir: String,
}

impl AudioGenerator {
    /// The directory that podcasts are written to.
    pub closed spec fn directory(&self) -> Seq<char> {
        self.output_dir@
    }

    /// A generator that writes to `output_dir`.
    pub fn new(output_dir: String) -> (g: Self)
        ensures
            g.directory() == output_dir@,
            g.engine().voices() == chinese_voice_list() + english_voice_list(),
    {
        AudioGenerator { tts_engine: TTSEngine::new(), output_dir }
    }

    /// The directory that podcasts are written to.
    pub fn output_dir(&self) -> (dir: &String)
        ensures
            dir@ == self.directory(),
    {
        &self.output_dir
    }

    /// The speech engine.
    pub closed spec fn engine(&self) -> TTSEngine {
        self.tts_engine
    }

    /// The speech engine.
    pub fn tts_engine(&self) -> (engine: &TTSEngine)
        ensures
            *engine == self.engine(),
    {
        &self.tts_engine
    }

    /// The segments to generate: those of the script. A script without
    /// segments is refused.
    pub fn segments(&self, script: &PodcastScript) -> (r: Result<Vec<DialogueSegment>, PodcastError>)
        ensures
            match r {
                Ok(segments) => segments@.len() > 0 && segment_models(segments@)
                    == script_segments(script.content@, script.format),
                Err(e) => script_segments(script.content@, script.format).len() == 0 && (e
                    matches PodcastError::ParseError(detail) && detail@
                    == "No dialogue segments found"@),
            },
    {
        let segments = parse_segments(script);
        if segments.len() == 0 {
            Err(PodcastError::ParseError("No dialogue segments found".to_owned()))
        } else {
            Ok(segments)
        }
    }

    /// The steps of a generation of `segments` segments: parsing, one step
    /// for each segment, and concatenation.
    pub fn total_steps(segments: usize) -> (total: usize)
        requires
            segments <= usize::MAX - 2,
        ensures
            total == segments + 2,
    {
        segments + 2
    }

    /// The work for segment `idx`: fails where no voice is assigned to the
    /// segment's role.
    pub fn job(
        &self,
        segments: &Vec<DialogueSegment>,
        assignments: &Vec<VoiceAssignment>,
        idx: usize,
    ) -> (r: Result<SynthesisJob, PodcastError>)
        requires
            idx < segments@.len(),
            segments@.len() <= usize::MAX - 2,
        ensures
            match r {
                Ok(job) => {
                    &&& assigned_voice(assignments@, segments@[idx as int].role@) == Some(
                        job.voice_id@,
                    )
                    &&& job.step == idx + 2
                    &&& job.message@ == segment_message(idx as nat, segments@.len())
                    &&& job.text@ == segments@[idx as int].text@
                    &&& job.file_name@ == segment_file(idx as nat)
                },
                Err(e) => assigned_voice(assignments@, segments@[idx as int].role@) is None && (e
                    matches PodcastError::VoiceNotAssigned(role) && role@
                    == segments@[idx as int].role@),
            },
    {
        let segment = &segments[idx];
        match voice_for(assignments, segment.role.as_str()) {
            None => Err(PodcastError::VoiceNotAssigned(segment.role.clone())),
            Some(voice_id) => {
                let mut message = "Generating segment ".to_owned();
                message.append(decimal_text((idx + 1) as u64).as_str());
                message.append("/");
                message.append(decimal_text(segments.len() as u64).as_str());
                message.append("...");
                Ok(
                    SynthesisJob {
                        step: idx + 2,
                        message,
                        text: segment.text.clone(),
                        voice_id,
                        file_name: segment_file_name(idx),
                    },
                )
            },
        }
    }
}

/// The voice assigned to a role.
pub fn voice_for(assignments: &Vec<VoiceAssignment>, role: &str) -> (r: Option<String>)
    ensures
        text_option(r) == assigned_voice(assignments@, role@),
{
    let wanted = role.to_owned();
    let mut i: usize = 0;
    assert(assignments@.skip(0) == assignments@);
    while i < assignments.len()
        invariant
            i <= assignments@.len(),
            wanted@ == role@,
            assigned_voice(assignments@, role@) == assigned_voice(
                assignments@.skip(i as int),
                role@,
            ),
        decreases assignments.len() - i,
    {
        assert(assignments@.skip(i as int)[0] == assignments@[i as int]);
        if assignments[i].role_name == wanted {
            return Some(assignments[i].voice_id.clone());
        }
        assert(assignments@.skip(i as int).drop_first() == assignments@.skip(i + 1));
        i += 1;
    }
    None
}

/// The name of the file that holds segment `idx`.
pub fn segment_file_name(idx: usize) -> (name: String)
    ensures
        name@ == segment_file(idx as nat),
{
    let mut name = "segment_".to_owned();
    name.append(padded_decimal_text(idx as u64, 4).as_str());
    name.append(".wav");
    name
}

/// The name of the file that holds the podcast of a script with the given
/// title.
pub fn output_file_name(title: &str) -> (name: String)
    ensures
        name@ == output_file(title@),
{
    let mut name = string_of(&with_char_replaced(&chars_of(title), ' ', '_'));
    name.append(".wav");
    name
}

} // verus!
