//! The speech engine's voices.

use crate::podcast::voice::{chinese_voice_list, english_voice_list, MacOSVoice};
use crate::text::{chars_of, first_word, first_word_of, lines, lines_of, string_of};
use vstd::prelude::*;

verus! {

/// The speech engine.
#[derive(Debug)]
pub struct TTSEngine {
    available_voices: Vec<MacOSVoice>,
}

impl TTSEngine {
    /// The voices that the engine offers.
    pub closed spec fn voices(&self) -> Seq<MacOSVoice> {
        self.available_voices@
    }

    /// An engine that offers all voices.
    pub fn new() -> (engine: Self)
        ensures
            engine.voices() == chinese_voice_list() + english_voice_list(),
    {
        TTSEngine { available_voices: MacOSVoice::all_voices() }
    }

    /// The voices that the engine offers.
    pub fn get_voices(&self) -> (voices: &[MacOSVoice])
        ensures
            voices@ == self.voices(),
    {
        self.available_voices.as_slice()
    }
}

impl Default for TTSEngine {
    /// An engine that offers all voices.
    fn default() -> (engine: Self)
        ensures
            engine.voices() == chinese_voice_list() + english_voice_list(),
    {
        TTSEngine::new()
    }
}

/// The arguments of the speech command: the voice, the file to write, and
/// the text to speak.
pub open spec fn say_arguments(text: Seq<char>, voice_id: Seq<char>, aiff_path: Seq<char>) -> Seq<
    Seq<char>,
> {
    seq!["-v"@, voice_id, "-o"@, aiff_path, text]
}

/// The arguments of the conversion command: to WAVE with 16-bit samples at
/// 22050 a second, from the AIFF file to the WAV file.
pub open spec fn convert_arguments(aiff_path: Seq<char>, wav_path: Seq<char>) -> Seq<Seq<char>> {
    seq!["-f"@, "WAVE"@, "-d"@, "LEI16@22050"@, aiff_path, wav_path]
}

/// The characters of each string.
pub open spec fn argument_models(args: Seq<String>) -> Seq<Seq<char>> {
    Seq::new(args.len(), |i: int| args[i]@)
}

/// The names in a listing of voices: the first word of each line that has
/// one.
pub open spec fn listed_voices(all: Seq<Seq<char>>) -> Seq<Seq<char>>
    decreases all.len(),
{
    if all.len() == 0 {
        Seq::empty()
    } else {
        match first_word(all.last()) {
            Some(name) => listed_voices(all.drop_last()).push(name),
            None => listed_voices(all.drop_last()),
        }
    }
}

impl TTSEngine {
    /// The arguments to run `say` with.
    pub fn say_command(text: &str, voice_id: &str, aiff_path: &str) -> (args: Vec<String>)
        ensures
            argument_models(args@) == say_arguments(text@, voice_id@, aiff_path@),
    {
        let mut args: Vec<String> = Vec::new();
        args.push("-v".to_owned());
        args.push(voice_id.to_owned());
        args.push("-o".to_owned());
        args.push(aiff_path.to_owned());
        args.push(text.to_owned());
        assert(argument_models(args@) =~= say_arguments(text@, voice_id@, aiff_path@));
        args
    }

    /// The arguments to run `afconvert` with.
    pub fn convert_command(aiff_path: &str, wav_path: &str) -> (args: Vec<String>)
        ensures
            argument_models(args@) == convert_arguments(aiff_path@, wav_path@),
    {
        let mut args: Vec<String> = Vec::new();
        args.push("-f".to_owned());
        args.push("WAVE".to_owned());
        args.push("-d".to_owned());
        args.push("LEI16@22050".to_owned());
        args.push(aiff_path.to_owned());
        args.push(wav_path.to_owned());
        assert(argument_models(args@) =~= convert_arguments(aiff_path@, wav_path@));
        args
    }

    /// Reads the names out of the listing that `say -v ?` prints.
    pub fn voice_names(listing: &str) -> (names: Vec<String>)
        ensures
            argument_models(names@) == listed_voices(lines(listing@)),
    {
        let chars = chars_of(listing);
        let all = lines_of(&chars);
        let ghost models = lines(listing@);
        let mut names: Vec<String> = Vec::new();
        let mut i: usize = 0;
        assert(models.take(0) =~= Seq::<Seq<char>>::empty());
        assert(argument_models(names@) =~= Seq::<Seq<char>>::empty());
        while i < all.len()
            invariant
                i <= all@.len(),
                all@.len() == models.len(),
                forall|k: int| 0 <= k < all@.len() ==> (#[trigger] all@[k])@ == models[k],
                argument_models(names@) == listed_voices(models.take(i as int)),
            decreases all.len() - i,
        {
            assert(models.take(i + 1).drop_last() == models.take(i as int));
            assert(models.take(i + 1).last() == all@[i as int]@);
            match first_word_of(&all[i]) {
                Some(word) => {
                    let ghost before = argument_models(names@);
                    let name = string_of(&word);
                    names.push(name);
                    assert(argument_models(names@) =~= before.push(word@));
                },
                None => {},
            }
            i += 1;
        }
        assert(models.take(i as int) == models);
        names
    }
}

} // verus!
