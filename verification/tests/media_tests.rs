use mlx_local_server::audio::error::AudioError;
use mlx_local_server::audio::models::{AudioSlots, LoadedStt, LoadedTts, ModelType, ModelObject};
use mlx_local_server::audio::speech::{
    audio_encoding, choose_voice, default_description, default_response_format,
    default_response_format_stt, default_voice, lang_code_from_voice, mime_for_format,
    parse_ms, parse_return_seconds, separation_response, tts_lang_code, wants_segments,
    AudioEncoding, WavStream,
};
use mlx_local_server::audio::wav::{wav_bytes, wav_chunk_bytes};
use mlx_local_server::codec::{data_url, encode_base64};
use mlx_local_server::image::error::ImageError;
use mlx_local_server::image::generation::{
    auto_load_quantize, flux_config, image_count, image_data, image_seed, is_klein_lowercase,
    is_klein_model, negative_prompt_for, parse_size, want_b64, ImageSlot, LoadedImageModel,
};

#[test]
fn wav_file_has_a_truthful_header() {
    let bytes = wav_bytes(&vec![0, 1, -1, i16::MIN], 24000);
    assert_eq!(bytes.len(), 44 + 8);
    assert_eq!(&bytes[0..4], b"RIFF");
    assert_eq!(u32::from_le_bytes([bytes[4], bytes[5], bytes[6], bytes[7]]), 44);
    assert_eq!(&bytes[8..16], b"WAVEfmt ");
    assert_eq!(u32::from_le_bytes([bytes[24], bytes[25], bytes[26], bytes[27]]), 24000);
    assert_eq!(u32::from_le_bytes([bytes[28], bytes[29], bytes[30], bytes[31]]), 48000);
    assert_eq!(&bytes[36..40], b"data");
    assert_eq!(u32::from_le_bytes([bytes[40], bytes[41], bytes[42], bytes[43]]), 8);
    assert_eq!(&bytes[44..], &[0, 0, 1, 0, 0xff, 0xff, 0x00, 0x80]);
}

#[test]
fn streamed_chunks_carry_one_header() {
    let mut s = WavStream::new(16000);
    let first = s.next_chunk(&vec![1, 2]);
    let second = s.next_chunk(&vec![3]);
    assert_eq!(first.len(), 44 + 4);
    assert_eq!(&first[4..8], &[0xff, 0xff, 0xff, 0xff]);
    assert_eq!(&first[40..44], &[0xff, 0xff, 0xff, 0xff]);
    assert_eq!(second, vec![3, 0]);
    assert_eq!(wav_chunk_bytes(&vec![], 8000, false), Vec::<u8>::new());
}

#[test]
fn speech_options() {
    assert_eq!(default_voice(), "af_heart");
    assert_eq!(default_response_format(), "wav");
    assert_eq!(default_response_format_stt(), "json");
    assert_eq!(mime_for_format("mp3"), "audio/mpeg");
    assert_eq!(mime_for_format("opus"), "audio/ogg; codecs=opus");
    assert_eq!(mime_for_format("aiff"), "audio/wav");
    assert_eq!(lang_code_from_voice("bf_emma"), "b");
    assert_eq!(lang_code_from_voice("jm_kumo"), "j");
    assert_eq!(lang_code_from_voice("zf_x"), "z");
    assert_eq!(lang_code_from_voice("x"), "a");
    assert_eq!(lang_code_from_voice("é"), "a");
    assert_eq!(tts_lang_code(Some("fr"), "bf_emma"), "fr");
    assert_eq!(tts_lang_code(None, "bf_emma"), "b");
    assert_eq!(choose_voice("", "af_heart"), "af_heart");
    assert_eq!(choose_voice("am_adam", "af_heart"), "am_adam");
    assert!(matches!(audio_encoding("wave"), AudioEncoding::Wav));
    assert!(matches!(audio_encoding("flac"), AudioEncoding::SoundFile("FLAC")));
    assert!(matches!(audio_encoding("aac"), AudioEncoding::Unsupported));
    assert!(parse_return_seconds("true") && !parse_return_seconds("false") && !parse_return_seconds("0"));
    assert_eq!(parse_ms("250"), Some(250));
    assert_eq!(parse_ms("2.5"), None);
    assert!(wants_segments(&Some(vec!["word".into(), "segment".into()])));
    assert!(!wants_segments(&Some(vec!["word".into()])));
    assert!(!wants_segments(&None));
    assert_eq!(default_description(), "speech");
}

#[test]
fn separation_answers_with_data_urls() {
    let r = separation_response(&b"AB".to_vec(), &Vec::new());
    assert_eq!(r.target_url.as_deref(), Some("data:audio/wav;base64,QUI="));
    assert_eq!(r.residual_url.as_deref(), Some("data:audio/wav;base64,"));
    assert_eq!(r.message, "Separation complete");
}

#[test]
fn base64_is_standard_and_padded() {
    assert_eq!(encode_base64(b"hello"), "aGVsbG8=");
    assert_eq!(encode_base64(b""), "");
    assert_eq!(encode_base64(b"abc"), "YWJj");
    assert_eq!(data_url("image/png", b"\x00\xff"), "data:image/png;base64,AP8=");
}

#[test]
fn audio_models_and_errors() {
    let mut slots: AudioSlots<u8> = AudioSlots::new();
    assert!(matches!(slots.tts_for("hi", 10), Err(AudioError::TtsNotLoaded)));
    // the limit counts characters: five two-byte characters fit a limit of five
    assert!(matches!(slots.tts_for("ééééé", 5), Err(AudioError::TtsNotLoaded)));
    match slots.tts_for("hello world", 5) {
        Err(AudioError::InputTooLong(n, m)) => assert_eq!((n, m), (11, 5)),
        _ => panic!("expected an input that is too long"),
    }
    slots.tts = Some(LoadedTts { model: 1, model_id: "kokoro".into(), sample_rate: 24000, loaded_at_unix: 0 });
    slots.stt = Some(LoadedStt { model: 2, model_id: "whisper".into(), loaded_at_unix: 0 });
    assert_eq!(slots.tts_for("hi", 10).ok(), Some((&1u8, 24000)));
    let list = slots.list_models();
    assert_eq!(list.data.len(), 2);
    assert!(list.data[0].model_type == ModelType::Tts && list.data[0].id == "kokoro");
    assert!(list.data[1].model_type == ModelType::Stt);
    assert_eq!(list.data[1].owned_by, "mlx-audio-server");
    let h = slots.health();
    assert_eq!(h.stt_model.as_deref(), Some("whisper"));
    assert!(h.sts_model.is_none());
    assert!(slots.unload_by_name("stt").is_ok());
    assert!(slots.stt_model_id().is_none());
    match slots.unload_by_name("vad") {
        Err(e) => {
            assert_eq!(e.message(), "Internal error: Unknown model type: vad");
            assert_eq!((e.status(), e.code()), (500, "internal_error"));
        },
        Ok(_) => panic!("vad cannot be unloaded by name"),
    }
    assert!(matches!(slots.vad_model(), Err(AudioError::Internal(_))));
    assert!(matches!(slots.sts_models(), Err(AudioError::StsNotLoaded)));
    assert!(matches!(slots.stt_model(), Err(AudioError::SttNotLoaded)));
    let e = AudioError::InputTooLong(12, 10);
    assert_eq!(e.message(), "Input too long: 12 chars (max 10)");
    assert_eq!((e.status(), e.code()), (400, "input_too_long"));
    assert_eq!(AudioError::TtsNotLoaded.status(), 503);
    assert_eq!(AudioError::Transcription("t".into()).code(), "audio_processing_error");
    assert_eq!(ModelType::from_name("sts").map(|t| t.as_str()), Some("sts"));
    assert!(ModelType::from_name("xyz").is_none());
    let o = ModelObject::new("m".into(), ModelType::Vad);
    assert_eq!((o.object, o.model_type.as_str()), ("model", "vad"));
}

#[test]
fn image_sizes_and_settings() {
    assert_eq!(parse_size("1024x768").ok(), Some((1024, 768)));
    assert_eq!(parse_size(" 512 x 256 ").ok(), Some((512, 256)));
    for bad in ["1024", "1x2x3", "ax1", "4294967296x1", "x1", ""] {
        match parse_size(bad) {
            Err(ImageError::InvalidSize(s)) => assert_eq!(s, bad),
            _ => panic!("size {bad} should be refused"),
        }
    }
    assert_eq!((image_count(None), image_count(Some(2)), image_count(Some(9))), (1, 2, 4));
    assert!(want_b64(None) && want_b64(Some("b64_json")) && !want_b64(Some("url")));
    assert_eq!(auto_load_quantize(None, None), Some(4));
    assert_eq!(auto_load_quantize(None, Some(8)), Some(8));
    assert_eq!(auto_load_quantize(Some(3), Some(8)), Some(3));
    assert_eq!(image_seed(Some(-5), 100, 1), -5);
    assert_eq!(image_seed(None, 100, 2), 102);
    assert!(is_klein_model("black-forest-labs/FLUX.2-klein-4B"));
    assert!(is_klein_model("Flux2-Dev"));
    assert!(!is_klein_model("flux-schnell"));
    assert!(is_klein_lowercase("klein") && !is_klein_lowercase("KLEIN"));
    assert_eq!(flux_config("flux-dev", false), "dev");
    assert_eq!(flux_config("flux-schnell", false), "schnell");
    assert_eq!(flux_config("any", true), "flux2_klein_4b");
    assert_eq!(negative_prompt_for(Some("blurry".into()), true), None);
    assert_eq!(negative_prompt_for(Some("blurry".into()), false), Some("blurry".to_string()));
    let d = image_data(&vec![1, 2, 3], true);
    assert_eq!(d.b64_json.as_deref(), Some("AQID"));
    let u = image_data(&vec![1, 2, 3], false);
    assert_eq!(u.url.as_deref(), Some("data:image/png;base64,AQID"));
}

#[test]
fn image_errors_and_slot() {
    let e = ImageError::InvalidSize("9".into());
    assert_eq!(e.message(), "Invalid size: 9. Use WIDTHxHEIGHT, e.g. 1024x1024");
    assert_eq!((e.status(), e.code()), (400, "invalid_request"));
    assert_eq!(ImageError::NotLoaded.status(), 503);
    assert_eq!(ImageError::GenerationFailed("g".into()).code(), "generation_error");
    let mut slot: ImageSlot<u8> = ImageSlot::new();
    assert!(matches!(slot.for_generation(), Err(ImageError::NotLoaded)));
    assert!(slot.list().is_empty());
    slot.set(LoadedImageModel { flux: 7, model_id: "flux-dev".into(), quantize: Some(4), model_path: None, is_klein: false });
    assert_eq!(slot.current_model(), Some(("flux-dev".to_string(), Some(4), None)));
    assert_eq!(slot.for_generation().ok(), Some((&7u8, false)));
    assert_eq!(slot.list()[0].id, "flux-dev");
    slot.unload();
    assert!(!slot.is_loaded());
}

#[test]
fn audio_model_entries_carry_their_creation_time() {
    let m = ModelObject::new_at("kokoro".into(), ModelType::Tts, 1234);
    assert_eq!((m.id.as_str(), m.object, m.owned_by.as_str(), m.created), ("kokoro", "model", "mlx-audio-server", 1234));
    assert!(m.model_type == ModelType::Tts);
}
