//! Descriptions of voices and what follows from them.

use piper_vits::id_map::{phonemes_to_ids, IdMap};
use piper_vits::number::{Real, Real32};
use piper_vits::vits::{Quality, VitsConfig};
use piper_vits::voice::{
    converted_config, output_name, phoneme_id_map, scales, speaker_id_map, voice_config,
    wav_format, PhonemeEntry, VoiceError, VoiceFile,
};

const FULL: &str = r#"{
    "audio": {"sample_rate": 22050},
    "espeak": {"voice": "de"},
    "inference": {"noise_scale": 0.333, "length_scale": 2, "noise_w": 0.25},
    "phoneme_id_map": {"_": [0], "^": [1, 7], " ": [3], "ə": [59]},
    "num_symbols": 256,
    "num_speakers": 4,
    "speaker_id_map": {"eva": 0, "karl": -2}
}"#;

fn convert(text: &str) -> Result<VitsConfig, VoiceError> {
    converted_config(text.as_bytes(), "thorsten".to_string(), Quality::Medium)
}

fn id(map: &Option<IdMap>, name: &str) -> Option<i64> {
    map.as_ref().unwrap().get(&name.to_string())
}

#[test]
fn a_description_is_read() {
    let config = convert(FULL).unwrap();
    assert_eq!(config.name, "thorsten");
    assert_eq!(config.quality, "medium");
    assert_eq!(config.num_speakers, 4);
    assert_eq!(config.espeak_voice, "de");
    assert_eq!(config.inference_noise_scale.bits, 0.333f64.to_bits());
    assert_eq!(config.inference_length_scale.bits, 2.0f64.to_bits());
    assert_eq!(config.inference_noise_w.bits, 0.25f64.to_bits());
    assert_eq!(id(&config.phoneme_id_map, "_"), Some(0));
    assert_eq!(id(&config.phoneme_id_map, "^"), Some(1));
    assert_eq!(id(&config.phoneme_id_map, "\u{259}"), Some(59));
    assert_eq!(id(&config.phoneme_id_map, "$"), None);
    assert_eq!(id(&config.speaker_id_map, "karl"), Some(-2));
    assert_eq!(config.speaker_id_map.as_ref().unwrap().entries().len(), 2);
}

#[test]
fn what_is_not_said_has_defaults() {
    let odd = r#"{"espeak": "en", "inference": [1], "num_speakers": -1}"#;
    for text in ["{}", "[]", "7", "null", odd] {
        let config = convert(text).unwrap();
        assert!(config.phoneme_id_map.is_none());
        assert!(config.speaker_id_map.is_none());
        assert_eq!(config.num_speakers, 1);
        assert_eq!(config.espeak_voice, "en-us");
        assert_eq!(config.inference_noise_scale.bits, 0.667f64.to_bits());
        assert_eq!(config.inference_length_scale.bits, 1.0f64.to_bits());
        assert_eq!(config.inference_noise_w.bits, 0.8f64.to_bits());
    }
}

#[test]
fn whole_scales_are_taken_exactly() {
    let text = r#"{"inference": {"noise_scale": 0, "length_scale": 3, "noise_w": -7}}"#;
    let config = convert(text).unwrap();
    assert_eq!(config.inference_noise_scale.bits, 0);
    assert_eq!(config.inference_length_scale.bits, 3.0f64.to_bits());
    assert_eq!(config.inference_noise_w.bits, (-7.0f64).to_bits());
    let text = r#"{"inference": {"length_scale": 9007199254740992, "noise_w": 9007199254740993}}"#;
    let config = convert(text).unwrap();
    assert_eq!(config.inference_length_scale.bits, 9007199254740992.0f64.to_bits());
    assert_eq!(config.inference_noise_w.bits, 9007199254740992.0f64.to_bits());
}

#[test]
fn a_record_that_is_none_is_passed_over() {
    let config = convert(r#"{"phoneme_id_map": [1], "speaker_id_map": 3}"#).unwrap();
    assert!(config.phoneme_id_map.is_none());
    assert!(config.speaker_id_map.is_none());
    let config = convert(r#"{"phoneme_id_map": {}, "speaker_id_map": {}}"#).unwrap();
    assert_eq!(config.phoneme_id_map.unwrap().entries().len(), 0);
    assert_eq!(config.speaker_id_map.unwrap().entries().len(), 0);
}

#[test]
fn mistakes_are_told_apart() {
    assert!(matches!(convert("{"), Err(VoiceError::NotJson(_))));
    assert!(matches!(convert(""), Err(VoiceError::NotJson(_))));
    assert!(matches!(
        convert(r#"{"phoneme_id_map": {"a": 1}}"#),
        Err(VoiceError::PhonemeIdNotArray)
    ));
    assert!(matches!(
        convert(r#"{"phoneme_id_map": {"a": []}}"#),
        Err(VoiceError::PhonemeIdEmpty)
    ));
    assert!(matches!(
        convert(r#"{"phoneme_id_map": {"a": [1.5]}}"#),
        Err(VoiceError::PhonemeIdNotInteger)
    ));
    assert!(matches!(
        convert(r#"{"speaker_id_map": {"eva": "0"}}"#),
        Err(VoiceError::SpeakerIdNotInteger)
    ));
    assert!(matches!(
        convert(r#"{"speaker_id_map": {"eva": 9223372036854775808}}"#),
        Err(VoiceError::SpeakerIdNotInteger)
    ));
    assert!(matches!(
        convert(r#"{"speaker_id_map": {"eva": "0"}, "phoneme_id_map": {"a": 1}}"#),
        Err(VoiceError::PhonemeIdNotArray)
    ));
}

#[test]
fn settings_change_one_at_a_time() {
    let config = VitsConfig::new()
        .with_batch_size(4)
        .with_mel_fmax(Some(Real32 { bits: 8000f32.to_bits() }))
        .with_betas((Real32 { bits: 0 }, Real32 { bits: 1 }))
        .with_vocoder_warmstart_ckpt(Some("start".to_string()))
        .with_use_sdp(false);
    assert_eq!(config.batch_size, 4);
    assert_eq!(config.mel_fmax.unwrap().bits, 8000f32.to_bits());
    assert_eq!((config.betas.0.bits, config.betas.1.bits), (0, 1));
    assert_eq!(config.vocoder_warmstart_ckpt.as_deref(), Some("start"));
    assert!(!config.use_sdp);
    assert_eq!(config.sample_rate, 22050);
    assert_eq!(config.betas_d.0.bits, 0.5f32.to_bits());
}

#[test]
fn qualities_shape_the_decoder() {
    let named = |quality: Quality| {
        converted_config(b"{}", "x".to_string(), quality).unwrap()
    };
    let high = named(Quality::High);
    assert_eq!(high.quality, "high");
    assert_eq!(high.resblock, 1);
    assert_eq!(high.resblock_kernel_sizes, vec![3, 7, 11]);
    assert_eq!(high.resblock_dilation_sizes, vec![vec![1, 3, 5], vec![1, 3, 5], vec![1, 3, 5]]);
    assert_eq!(high.upsample_rates, vec![8, 8, 2, 2]);
    assert_eq!(high.upsample_initial_channel, 512);
    assert_eq!(high.upsample_kernel_sizes, vec![16, 16, 4, 4]);
    let low = named(Quality::Low);
    assert_eq!(low.quality, "low");
    let medium = named(Quality::Medium);
    assert_eq!(medium.quality, "medium");
    for config in [low, medium] {
        assert_eq!(config.resblock, 2);
        assert_eq!(config.resblock_kernel_sizes, vec![3, 5, 7]);
        assert_eq!(config.resblock_dilation_sizes, vec![vec![1, 2], vec![2, 6], vec![3, 12]]);
        assert_eq!(config.upsample_rates, vec![8, 8, 4]);
        assert_eq!(config.upsample_initial_channel, 256);
        assert_eq!(config.upsample_kernel_sizes, vec![16, 16, 8]);
    }
}

#[test]
fn defaults_are_those_of_the_settings() {
    let config = VitsConfig::new();
    assert_eq!(config.batch_size, 32);
    assert_eq!(config.sample_rate, 22050);
    assert_eq!(config.num_symbols, 256);
    assert_eq!(config.filter_length, 1024);
    assert_eq!(config.hop_length, 256);
    assert_eq!(config.mel_channels, 80);
    assert_eq!(config.mel_fmin.bits, 0.0f32.to_bits());
    assert!(config.mel_fmax.is_none());
    assert_eq!(config.inter_channels, 192);
    assert_eq!(config.filter_channels, 768);
    assert_eq!(config.p_dropout.bits, 0.1f64.to_bits());
    assert_eq!(config.segment_size, 8192);
    assert_eq!(config.learning_rate.bits, 2e-4f32.to_bits());
    assert_eq!(config.learning_rate_d.bits, 1e-4f32.to_bits());
    assert_eq!(config.betas.0.bits, 0.8f32.to_bits());
    assert_eq!(config.betas.1.bits, 0.99f32.to_bits());
    assert_eq!(config.betas_d.0.bits, 0.5f32.to_bits());
    assert_eq!(config.betas_d.1.bits, 0.9f32.to_bits());
    assert_eq!(config.eps.bits, 1e-9f32.to_bits());
    assert_eq!(config.lr_decay.bits, 0.999875f32.to_bits());
    assert_eq!(config.lr_decay_d.bits, 0.9999f32.to_bits());
}

#[test]
fn entries_make_maps() {
    let entries = vec![
        ("a".to_string(), PhonemeEntry::Id(5)),
        ("b".to_string(), PhonemeEntry::Id(-1)),
        ("a".to_string(), PhonemeEntry::Id(6)),
    ];
    let map = phoneme_id_map(&Some(entries)).unwrap();
    assert_eq!(id(&map, "a"), Some(6));
    assert_eq!(id(&map, "b"), Some(-1));
    assert!(phoneme_id_map(&None).unwrap().is_none());
    let wrong = vec![
        ("a".to_string(), PhonemeEntry::NotAnInteger),
        ("b".to_string(), PhonemeEntry::NotAnArray),
    ];
    assert!(matches!(phoneme_id_map(&Some(wrong)), Err(VoiceError::PhonemeIdNotInteger)));
    let speakers = vec![("eva".to_string(), Some(3)), ("karl".to_string(), None)];
    assert!(matches!(speaker_id_map(&Some(speakers)), Err(VoiceError::SpeakerIdNotInteger)));
}

#[test]
fn settings_follow_a_file() {
    let file = VoiceFile {
        phonemes: Some(vec![("a".to_string(), PhonemeEntry::Id(5))]),
        num_speakers: None,
        speakers: None,
        espeak_voice: None,
        noise_scale: Some(Real::from_bits(0.5f64.to_bits())),
        length_scale: None,
        noise_w: None,
    };
    let config = voice_config(file, "eva".to_string(), Quality::Low).unwrap();
    assert_eq!(config.name, "eva");
    assert_eq!(config.quality, "low");
    assert_eq!(config.inference_noise_scale.bits, 0.5f64.to_bits());
    assert_eq!(id(&config.phoneme_id_map, "a"), Some(5));
}

#[test]
fn names_are_joined() {
    let name = output_name(&"amy".to_string(), &"high".to_string(), "model.ckpt");
    assert_eq!(name, "amy_high_model.ckpt");
}

#[test]
fn scales_asked_for_come_first() {
    let number = |v: f64| Real::from_bits(v.to_bits());
    let config = VitsConfig::new().with_inference_length_scale(number(1.25));
    let got = scales(&config, Some(number(0.1)), None, None);
    assert_eq!(got.noise_scale, number(0.1));
    assert_eq!(got.length_scale, number(1.25));
    assert_eq!(got.noise_scale_w, number(0.8));
}

#[test]
fn files_hold_one_channel_of_sixteen_bits() {
    let format = wav_format(22050);
    assert_eq!(format.channels, 1);
    assert_eq!(format.sample_rate, 22050);
    assert_eq!(format.bits_per_sample, 16);
}

#[test]
fn maps_keep_the_last_identifier() {
    let mut map = IdMap::new();
    assert_eq!(map.get(&"a".to_string()), None);
    map.insert("a".to_string(), 1);
    map.insert("b".to_string(), 2);
    map.insert("a".to_string(), 3);
    assert_eq!(map.get(&"a".to_string()), Some(3));
    assert_eq!(map.get(&"b".to_string()), Some(2));
    assert_eq!(map.entries(), &vec![("a".to_string(), 3), ("b".to_string(), 2)]);
}

#[test]
fn phonemes_become_identifiers() {
    let mut map = IdMap::new();
    for (name, id) in [("^", 1), ("$", 2), ("_", 0), ("a", 7), ("\u{259}", 59), ("ab", 8)] {
        map.insert(name.to_string(), id);
    }
    assert_eq!(phonemes_to_ids("a?\u{259}b", &map), vec![1, 7, 0, 59, 0, 2]);
    assert_eq!(phonemes_to_ids("", &map), vec![1, 2]);
    let mut bare = IdMap::new();
    bare.insert("a".to_string(), 3);
    assert_eq!(phonemes_to_ids("aba", &bare), vec![3, 3]);
}
