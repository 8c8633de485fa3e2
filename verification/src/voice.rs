//! From the description of a voice to its settings, and from those to what a run needs.

use crate::id_map::IdMap;
use crate::json;
use crate::number::{Real, ONE};
use crate::vits::{Quality, VitsConfig, NOISE_SCALE, NOISE_W};
use vstd::prelude::*;

verus! {

/// What stands for the identifier of a phoneme: the first of a list of numbers, if all is well.
#[derive(Clone, Copy, PartialEq, Eq, Debug, Structural)]
pub enum PhonemeEntry {
    NotAnArray,
    Empty,
    NotAnInteger,
    Id(i64),
}

/// What a description says of a voice, as far as it is read.
#[derive(Debug)]
pub struct VoiceFile {
    /// The identifiers of the phonemes, if there is a record of them.
    pub phonemes: Option<Vec<(String, PhonemeEntry)>>,
    pub num_speakers: Option<u64>,
    /// The identifiers of the speakers, as far as they are integers, if there is a record of them.
    pub speakers: Option<Vec<(String, Option<i64>)>>,
    pub espeak_voice: Option<String>,
    pub noise_scale: Option<Real>,
    pub length_scale: Option<Real>,
    pub noise_w: Option<Real>,
}

/// What may be wrong with the description of a voice.
#[derive(Debug)]
pub enum VoiceError {
    /// It is not JSON.
    NotJson(serde_json::Error),
    /// The identifier of a phoneme is not an array.
    PhonemeIdNotArray,
    /// The identifier of a phoneme is an empty array.
    PhonemeIdEmpty,
    /// The identifier of a phoneme is not an integer.
    PhonemeIdNotInteger,
    /// The identifier of a speaker is not an integer.
    SpeakerIdNotInteger,
}

impl PhonemeEntry {
    /// What a value says of a phoneme.
    pub open spec fn of(value: json::Content) -> PhonemeEntry {
        match value {
            json::Content::List(items) => if items.len() == 0 {
                PhonemeEntry::Empty
            } else {
                match json::content(items[0]).as_i64() {
                    Some(id) => PhonemeEntry::Id(id),
                    None => PhonemeEntry::NotAnInteger,
                }
            },
            _ => PhonemeEntry::NotAnArray,
        }
    }

    fn read(value: &serde_json::Value) -> (r: PhonemeEntry)
        ensures
            r == PhonemeEntry::of(json::content(*value)),
    {
        match json::items(value) {
            Some(items) => if items.len() == 0 {
                PhonemeEntry::Empty
            } else {
                match json::as_i64(&items[0]) {
                    Some(id) => PhonemeEntry::Id(id),
                    None => PhonemeEntry::NotAnInteger,
                }
            },
            None => PhonemeEntry::NotAnArray,
        }
    }
}

/// Whether `list` has the entries of a record, each as `PhonemeEntry::of` reads it.
pub open spec fn reads_phonemes(
    record: json::Content,
    list: Option<Vec<(String, PhonemeEntry)>>,
) -> bool {
    match record {
        json::Content::Record(entries) => {
            &&& list matches Some(list)
            &&& list.len() == entries.len()
            &&& forall|i: int|
                0 <= i < entries.len() ==> (#[trigger] list@[i]).0@ == entries[i].0 && list@[i].1
                    == PhonemeEntry::of(json::content(entries[i].1))
        },
        _ => list is None,
    }
}

/// Whether `list` has the entries of a record, each as the integer that it is.
pub open spec fn reads_speakers(
    record: json::Content,
    list: Option<Vec<(String, Option<i64>)>>,
) -> bool {
    match record {
        json::Content::Record(entries) => {
            &&& list matches Some(list)
            &&& list.len() == entries.len()
            &&& forall|i: int|
                0 <= i < entries.len() ==> (#[trigger] list@[i]).0@ == entries[i].0 && list@[i].1
                    == json::content(entries[i].1).as_i64()
        },
        _ => list is None,
    }
}

/// The number with a pattern, if there is one.
pub open spec fn number_of(bits: Option<u64>) -> Option<Real> {
    match bits {
        Some(bits) => Some(Real { bits }),
        None => None,
    }
}

/// Whether `number` is the number that a value is, if it is one. Whole numbers that a double holds
/// are read as they are.
pub open spec fn reads_number(value: json::Content, number: Option<Real>) -> bool {
    &&& number == number_of(value.as_double())
    &&& match value {
        json::Content::Whole(n) => {
            &&& json::exact(n) ==> crate::number::double(number->0.bits) == n as real
            &&& n == 0 ==> number->0.bits == 0
        },
        _ => true,
    }
}

impl VoiceFile {
    /// Whether this is what a value says of a voice.
    pub open spec fn reads(self, value: json::Content) -> bool {
        let inference = value.under("inference"@);
        &&& reads_phonemes(value.under("phoneme_id_map"@), self.phonemes)
        &&& self.num_speakers == value.under("num_speakers"@).as_u64()
        &&& reads_speakers(value.under("speaker_id_map"@), self.speakers)
        &&& match value.under("espeak"@).under("voice"@).as_text() {
            Some(voice) => self.espeak_voice matches Some(v) && v@ == voice,
            None => self.espeak_voice is None,
        }
        &&& reads_number(inference.under("noise_scale"@), self.noise_scale)
        &&& reads_number(inference.under("length_scale"@), self.length_scale)
        &&& reads_number(inference.under("noise_w"@), self.noise_w)
    }

    /// What a value says of a voice.
    pub fn read(model_config: &serde_json::Value) -> (r: VoiceFile)
        ensures
            r.reads(json::content(*model_config)),
    {
        let espeak = json::member(model_config, "espeak");
        let inference = json::member(model_config, "inference");
        VoiceFile {
            phonemes: read_phonemes(&json::member(model_config, "phoneme_id_map")),
            num_speakers: json::as_u64(&json::member(model_config, "num_speakers")),
            speakers: read_speakers(&json::member(model_config, "speaker_id_map")),
            espeak_voice: json::as_text(&json::member(&espeak, "voice")),
            noise_scale: read_number(&json::member(&inference, "noise_scale")),
            length_scale: read_number(&json::member(&inference, "length_scale")),
            noise_w: read_number(&json::member(&inference, "noise_w")),
        }
    }
}

fn read_number(value: &serde_json::Value) -> (r: Option<Real>)
    ensures
        reads_number(json::content(*value), r),
{
    match json::as_double(value) {
        Some(bits) => Some(Real::from_bits(bits)),
        None => None,
    }
}

fn read_phonemes(record: &serde_json::Value) -> (r: Option<Vec<(String, PhonemeEntry)>>)
    ensures
        reads_phonemes(json::content(*record), r),
{
    match json::entries(record) {
        Some(entries) => {
            let mut list: Vec<(String, PhonemeEntry)> = Vec::new();
            let mut i: usize = 0;
            while i < entries.len()
                invariant
                    i <= entries.len(),
                    list.len() == i,
                    forall|a: int|
                        0 <= a < i ==> (#[trigger] list@[a]).0@ == entries@[a].0@ && list@[a].1
                            == PhonemeEntry::of(json::content(entries@[a].1)),
                decreases entries.len() - i,
            {
                list.push((entries[i].0.clone(), PhonemeEntry::read(&entries[i].1)));
                i += 1;
            }
            Some(list)
        },
        None => None,
    }
}

fn read_speakers(record: &serde_json::Value) -> (r: Option<Vec<(String, Option<i64>)>>)
    ensures
        reads_speakers(json::content(*record), r),
{
    match json::entries(record) {
        Some(entries) => {
            let mut list: Vec<(String, Option<i64>)> = Vec::new();
            let mut i: usize = 0;
            while i < entries.len()
                invariant
                    i <= entries.len(),
                    list.len() == i,
                    forall|a: int|
                        0 <= a < i ==> (#[trigger] list@[a]).0@ == entries@[a].0@ && list@[a].1
                            == json::content(entries@[a].1).as_i64(),
                decreases entries.len() - i,
            {
                list.push((entries[i].0.clone(), json::as_i64(&entries[i].1)));
                i += 1;
            }
            Some(list)
        },
        None => None,
    }
}

/// The map that the first `n` phonemes make, or what is wrong with the first that is wrong.
pub open spec fn phoneme_ids(entries: Seq<(String, PhonemeEntry)>, n: nat) -> Result<
    Map<Seq<char>, i64>,
    VoiceError,
>
    decreases n,
{
    if n == 0 {
        Ok(Map::empty())
    } else {
        match phoneme_ids(entries, (n - 1) as nat) {
            Ok(map) => match entries[n - 1].1 {
                PhonemeEntry::Id(id) => Ok(map.insert(entries[n - 1].0@, id)),
                PhonemeEntry::NotAnArray => Err(VoiceError::PhonemeIdNotArray),
                PhonemeEntry::Empty => Err(VoiceError::PhonemeIdEmpty),
                PhonemeEntry::NotAnInteger => Err(VoiceError::PhonemeIdNotInteger),
            },
            Err(error) => Err(error),
        }
    }
}

/// The map that the first `n` speakers make, or what is wrong with the first that is wrong.
pub open spec fn speaker_ids(entries: Seq<(String, Option<i64>)>, n: nat) -> Result<
    Map<Seq<char>, i64>,
    VoiceError,
>
    decreases n,
{
    if n == 0 {
        Ok(Map::empty())
    } else {
        match speaker_ids(entries, (n - 1) as nat) {
            Ok(map) => match entries[n - 1].1 {
                Some(id) => Ok(map.insert(entries[n - 1].0@, id)),
                None => Err(VoiceError::SpeakerIdNotInteger),
            },
            Err(error) => Err(error),
        }
    }
}

/// The result for all phonemes, where there are any.
pub open spec fn phoneme_result(phonemes: Option<Vec<(String, PhonemeEntry)>>) -> Result<
    Option<Map<Seq<char>, i64>>,
    VoiceError,
> {
    match phonemes {
        Some(entries) => match phoneme_ids(entries@, entries.len() as nat) {
            Ok(map) => Ok(Some(map)),
            Err(error) => Err(error),
        },
        None => Ok(None),
    }
}

/// The result for all speakers, where there are any.
pub open spec fn speaker_result(speakers: Option<Vec<(String, Option<i64>)>>) -> Result<
    Option<Map<Seq<char>, i64>>,
    VoiceError,
> {
    match speakers {
        Some(entries) => match speaker_ids(entries@, entries.len() as nat) {
            Ok(map) => Ok(Some(map)),
            Err(error) => Err(error),
        },
        None => Ok(None),
    }
}

/// Whether a map is there just where it should be, and holds what it should.
pub open spec fn is_map(map: Option<IdMap>, wanted: Option<Map<Seq<char>, i64>>) -> bool {
    match wanted {
        Some(wanted) => map matches Some(map) && map@ == wanted,
        None => map is None,
    }
}

/// Whether `got` is `wanted`, a map by what it holds.
pub open spec fn is_result(
    got: Result<Option<IdMap>, VoiceError>,
    wanted: Result<Option<Map<Seq<char>, i64>>, VoiceError>,
) -> bool {
    match wanted {
        Ok(wanted) => got matches Ok(map) && is_map(map, wanted),
        Err(error) => got == Err::<Option<IdMap>, VoiceError>(error),
    }
}

/// A mistake in an earlier phoneme is a mistake in all.
proof fn lemma_phoneme_error(entries: Seq<(String, PhonemeEntry)>, n: nat, m: nat)
    requires
        n <= m,
        phoneme_ids(entries, n) is Err,
    ensures
        phoneme_ids(entries, m) == phoneme_ids(entries, n),
    decreases m - n,
{
    if n < m {
        lemma_phoneme_error(entries, n, (m - 1) as nat);
    }
}

/// A mistake in an earlier speaker is a mistake in all.
proof fn lemma_speaker_error(entries: Seq<(String, Option<i64>)>, n: nat, m: nat)
    requires
        n <= m,
        speaker_ids(entries, n) is Err,
    ensures
        speaker_ids(entries, m) == speaker_ids(entries, n),
    decreases m - n,
{
    if n < m {
        lemma_speaker_error(entries, n, (m - 1) as nat);
    }
}

/// The map from phonemes to identifiers.
pub fn phoneme_id_map(phonemes: &Option<Vec<(String, PhonemeEntry)>>) -> (r: Result<
    Option<IdMap>,
    VoiceError,
>)
    ensures
        is_result(r, phoneme_result(*phonemes)),
{
    match phonemes {
        Some(entries) => {
            let mut map = IdMap::new();
            let mut i: usize = 0;
            while i < entries.len()
                invariant
                    i <= entries.len(),
                    phonemes == Some(*entries),
                    phoneme_ids(entries@, i as nat) == Ok::<Map<Seq<char>, i64>, VoiceError>(map@),
                decreases entries.len() - i,
            {
                proof {
                    if phoneme_ids(entries@, (i + 1) as nat) is Err {
                        lemma_phoneme_error(entries@, (i + 1) as nat, entries.len() as nat);
                    }
                }
                match entries[i].1 {
                    PhonemeEntry::Id(id) => map.insert(entries[i].0.clone(), id),
                    PhonemeEntry::NotAnArray => return Err(VoiceError::PhonemeIdNotArray),
                    PhonemeEntry::Empty => return Err(VoiceError::PhonemeIdEmpty),
                    PhonemeEntry::NotAnInteger => return Err(VoiceError::PhonemeIdNotInteger),
                }
                i += 1;
            }
            Ok(Some(map))
        },
        None => Ok(None),
    }
}

/// The map from speakers to identifiers.
pub fn speaker_id_map(speakers: &Option<Vec<(String, Option<i64>)>>) -> (r: Result<
    Option<IdMap>,
    VoiceError,
>)
    ensures
        is_result(r, speaker_result(*speakers)),
{
    match speakers {
        Some(entries) => {
            let mut map = IdMap::new();
            let mut i: usize = 0;
            while i < entries.len()
                invariant
                    i <= entries.len(),
                    speakers == Some(*entries),
                    speaker_ids(entries@, i as nat) == Ok::<Map<Seq<char>, i64>, VoiceError>(map@),
                decreases entries.len() - i,
            {
                proof {
                    if speaker_ids(entries@, (i + 1) as nat) is Err {
                        lemma_speaker_error(entries@, (i + 1) as nat, entries.len() as nat);
                    }
                }
                match entries[i].1 {
                    Some(id) => map.insert(entries[i].0.clone(), id),
                    None => return Err(VoiceError::SpeakerIdNotInteger),
                }
                i += 1;
            }
            Ok(Some(map))
        },
        None => Ok(None),
    }
}

/// The number given, or else a default.
pub open spec fn or_default(given: Option<Real>, bits: u64) -> Real {
    match given {
        Some(number) => number,
        None => Real { bits },
    }
}

fn number_or(given: Option<Real>, bits: u64) -> (r: Real)
    ensures
        r == or_default(given, bits),
{
    match given {
        Some(number) => number,
        None => Real::from_bits(bits),
    }
}

/// Whether `config` are the settings of a voice of which a description says what `file` holds.
pub open spec fn describes_voice(
    config: VitsConfig,
    file: VoiceFile,
    model_name: Seq<char>,
    quality: Quality,
) -> bool {
    &&& config.shared()
    &&& quality.shapes(config)
    &&& config.quality@ == quality.label()
    &&& config.name@ == model_name
    &&& phoneme_result(file.phonemes) matches Ok(wanted)
    &&& is_map(config.phoneme_id_map, wanted)
    &&& speaker_result(file.speakers) matches Ok(wanted_speakers)
    &&& is_map(config.speaker_id_map, wanted_speakers)
    &&& config.num_speakers == match file.num_speakers {
        Some(n) => n as usize,
        None => 1,
    }
    &&& config.espeak_voice@ == match file.espeak_voice {
        Some(voice) => voice@,
        None => "en-us"@,
    }
    &&& config.inference_noise_scale == or_default(file.noise_scale, NOISE_SCALE)
    &&& config.inference_length_scale == or_default(file.length_scale, ONE)
    &&& config.inference_noise_w == or_default(file.noise_w, NOISE_W)
}

/// The settings of a voice, by what its description says, under a name and with a quality.
pub fn voice_config(file: VoiceFile, model_name: String, quality: Quality) -> (r: Result<
    VitsConfig,
    VoiceError,
>)
    ensures
        match r {
            Ok(config) => describes_voice(config, file, model_name@, quality),
            Err(error) => {
                ||| phoneme_result(file.phonemes) == Err::<
                    Option<Map<Seq<char>, i64>>,
                    VoiceError,
                >(error)
                ||| phoneme_result(file.phonemes) is Ok && speaker_result(file.speakers) == Err::<
                    Option<Map<Seq<char>, i64>>,
                    VoiceError,
                >(error)
            },
        },
        r is Ok <==> phoneme_result(file.phonemes) is Ok && speaker_result(file.speakers) is Ok,
{
    let phoneme_id_map = match phoneme_id_map(&file.phonemes) {
        Ok(map) => map,
        Err(error) => return Err(error),
    };
    let num_speakers: u64 = match file.num_speakers {
        Some(n) => n,
        None => 1,
    };
    let speaker_id_map = match speaker_id_map(&file.speakers) {
        Ok(map) => map,
        Err(error) => return Err(error),
    };
    let espeak_voice = match file.espeak_voice {
        Some(voice) => voice,
        None => "en-us".to_owned(),
    };
    let config = VitsConfig::new().with_phoneme_id_map(phoneme_id_map).with_num_speakers(
        num_speakers as usize,
    ).with_espeak_voice(espeak_voice).with_inference_noise_scale(
        number_or(file.noise_scale, NOISE_SCALE),
    ).with_inference_length_scale(number_or(file.length_scale, ONE)).with_inference_noise_w(
        number_or(file.noise_w, NOISE_W),
    ).with_speaker_id_map(speaker_id_map).with_name(model_name);
    let config = match quality {
        Quality::High => config.with_resblock(1).with_resblock_kernel_sizes(
            vec![3, 7, 11],
        ).with_resblock_dilation_sizes(
            vec![vec![1, 3, 5], vec![1, 3, 5], vec![1, 3, 5]],
        ).with_upsample_rates(vec![8, 8, 2, 2]).with_upsample_initial_channel(
            512,
        ).with_upsample_kernel_sizes(vec![16, 16, 4, 4]).with_quality("high".to_owned()),
        Quality::Low => config.with_resblock(2).with_resblock_kernel_sizes(
            vec![3, 5, 7],
        ).with_resblock_dilation_sizes(
            vec![vec![1, 2], vec![2, 6], vec![3, 12]],
        ).with_upsample_rates(vec![8, 8, 4]).with_upsample_initial_channel(
            256,
        ).with_upsample_kernel_sizes(vec![16, 16, 8]).with_quality("low".to_owned()),
        Quality::Medium => config,
    };
    Ok(config)
}

/// The settings of the voice that a text in JSON describes, under a name and with a quality.
pub fn converted_config(model_config: &[u8], model_name: String, quality: Quality) -> (r: Result<
    VitsConfig,
    VoiceError,
>)
    ensures
        match json::denoted(model_config@) {
            None => r matches Err(VoiceError::NotJson(_)),
            Some(value) => exists|file: VoiceFile| #[trigger]
                file.reads(json::content(value)) && match r {
                    Ok(config) => describes_voice(config, file, model_name@, quality),
                    Err(error) => {
                        ||| phoneme_result(file.phonemes) == Err::<
                            Option<Map<Seq<char>, i64>>,
                            VoiceError,
                        >(error)
                        ||| phoneme_result(file.phonemes) is Ok && speaker_result(file.speakers)
                            == Err::<Option<Map<Seq<char>, i64>>, VoiceError>(error)
                    },
                },
        },
{
    match json::parse(model_config) {
        Ok(value) => voice_config(VoiceFile::read(&value), model_name, quality),
        Err(error) => Err(VoiceError::NotJson(error)),
    }
}

/// The name under which the parts of a converted voice are kept: the names of the voice, of the
/// quality and of the file that it comes from, joined by underscores.
pub fn output_name(name: &String, quality: &String, file_name: &str) -> (r: String)
    ensures
        r@ == name@ + "_"@ + quality@ + "_"@ + file_name@,
{
    let mut joined = name.clone();
    joined.append("_");
    joined.append(quality.as_str());
    joined.append("_");
    joined.append(file_name);
    joined
}

/// What a run of a voice needs beside the text.
#[derive(Clone, Copy, PartialEq, Eq, Debug, Structural)]
pub struct Scales {
    pub noise_scale: Real,
    pub length_scale: Real,
    pub noise_scale_w: Real,
}

/// The scales asked for, or else those of the voice.
pub fn scales(
    config: &VitsConfig,
    noise_scale: Option<Real>,
    length_scale: Option<Real>,
    noise_scale_w: Option<Real>,
) -> (r: Scales)
    ensures
        r.noise_scale == or_default(noise_scale, config.inference_noise_scale.bits),
        r.length_scale == or_default(length_scale, config.inference_length_scale.bits),
        r.noise_scale_w == or_default(noise_scale_w, config.inference_noise_w.bits),
{
    Scales {
        noise_scale: number_or(noise_scale, config.inference_noise_scale.bits),
        length_scale: number_or(length_scale, config.inference_length_scale.bits),
        noise_scale_w: number_or(noise_scale_w, config.inference_noise_w.bits),
    }
}

/// The form of the samples in a file.
#[derive(Clone, Copy, PartialEq, Eq, Debug, Structural)]
pub struct WavFormat {
    pub channels: u16,
    pub sample_rate: u32,
    pub bits_per_sample: u16,
}

/// One channel of whole numbers of sixteen bits at the rate of the voice.
pub fn wav_format(sample_rate: usize) -> (r: WavFormat)
    ensures
        r == (WavFormat { channels: 1, sample_rate: sample_rate as u32, bits_per_sample: 16 }),
{
    WavFormat { channels: 1, sample_rate: sample_rate as u32, bits_per_sample: 16 }
}

} // verus!
