//! Voices and audio settings.

use vstd::prelude::*;

verus! {

/// The voice that reads a role.
#[derive(Debug, Clone)]
pub struct VoiceAssignment {
    pub role_id: String,
    pub role_name: String,
    pub voice_id: String,
}

/// Audio file formats.
#[derive(Debug, Clone, Copy, PartialEq, Eq, Structural)]
pub enum AudioFormat {
    Wav,
    Aiff,
}

/// How audio is generated.
#[derive(Debug, Clone, Copy, PartialEq, Eq, Structural)]
pub struct AudioSettings {
    pub format: AudioFormat,
    pub sample_rate: u32,
}

impl Default for AudioSettings {
    /// WAV at 22050 samples a second.
    fn default() -> (s: Self)
        ensures
            s == (AudioSettings { format: AudioFormat::Wav, sample_rate: 22050 }),
    {
        AudioSettings { format: AudioFormat::Wav, sample_rate: 22050 }
    }
}

/// A system voice.
#[derive(Debug, Clone, Copy)]
pub struct MacOSVoice {
    pub id: &'static str,
    pub name: &'static str,
    pub language: &'static str,
    pub gender: &'static str,
}

/// The Chinese voices.
pub open spec fn chinese_voice_list() -> Seq<MacOSVoice> {
    seq![
        MacOSVoice { id: "Ting-Ting", name: "Ting-Ting", language: "zh-CN", gender: "female" },
        MacOSVoice { id: "Mei-Jia", name: "Mei-Jia", language: "zh-TW", gender: "female" },
        MacOSVoice { id: "Sin-ji", name: "Sin-ji", language: "zh-HK", gender: "female" },
        MacOSVoice { id: "Yu-shu", name: "Yu-shu", language: "zh-CN", gender: "female" },
        MacOSVoice { id: "Lili", name: "Lili", language: "zh-CN", gender: "female" },
    ]
}

/// The English voices.
pub open spec fn english_voice_list() -> Seq<MacOSVoice> {
    seq![
        MacOSVoice { id: "Samantha", name: "Samantha", language: "en-US", gender: "female" },
        MacOSVoice { id: "Alex", name: "Alex", language: "en-US", gender: "male" },
        MacOSVoice { id: "Daniel", name: "Daniel", language: "en-GB", gender: "male" },
        MacOSVoice { id: "Karen", name: "Karen", language: "en-AU", gender: "female" },
        MacOSVoice { id: "Moira", name: "Moira", language: "en-IE", gender: "female" },
    ]
}

impl MacOSVoice {
    /// The Chinese voices.
    pub fn chinese_voices() -> (voices: Vec<MacOSVoice>)
        ensures
            voices@ == chinese_voice_list(),
    {
        let mut voices: Vec<MacOSVoice> = Vec::new();
        voices.push(
            MacOSVoice { id: "Ting-Ting", name: "Ting-Ting", language: "zh-CN", gender: "female" },
        );
        voices.push(
            MacOSVoice { id: "Mei-Jia", name: "Mei-Jia", language: "zh-TW", gender: "female" },
        );
        voices.push(
            MacOSVoice { id: "Sin-ji", name: "Sin-ji", language: "zh-HK", gender: "female" },
        );
        voices.push(
            MacOSVoice { id: "Yu-shu", name: "Yu-shu", language: "zh-CN", gender: "female" },
        );
        voices.push(MacOSVoice { id: "Lili", name: "Lili", language: "zh-CN", gender: "female" });
        assert(voices@ =~= chinese_voice_list());
        voices
    }

    /// The English voices.
    pub fn english_voices() -> (voices: Vec<MacOSVoice>)
        ensures
            voices@ == english_voice_list(),
    {
        let mut voices: Vec<MacOSVoice> = Vec::new();
        voices.push(
            MacOSVoice { id: "Samantha", name: "Samantha", language: "en-US", gender: "female" },
        );
        voices.push(MacOSVoice { id: "Alex", name: "Alex", language: "en-US", gender: "male" });
        voices.push(MacOSVoice { id: "Daniel", name: "Daniel", language: "en-GB", gender: "male" });
        voices.push(
            MacOSVoice { id: "Karen", name: "Karen", language: "en-AU", gender: "female" },
        );
        voices.push(
            MacOSVoice { id: "Moira", name: "Moira", language: "en-IE", gender: "female" },
        );
        assert(voices@ =~= english_voice_list());
        voices
    }

    /// All voices: the Chinese ones, then the English ones.
    pub fn all_voices() -> (voices: Vec<MacOSVoice>)
        ensures
            voices@ == chinese_voice_list() + english_voice_list(),
    {
        let mut voices = MacOSVoice::chinese_voices();
        let mut english = MacOSVoice::english_voices();
        voices.append(&mut english);
        voices
    }
}

} // verus!
