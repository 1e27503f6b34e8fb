use jotabot::commands::voice::{
    decode_speech, speech_from_response, generation_url, join_vc, missing_audio_message, missing_call_message, register, run,
    SpeechError, VoiceError, VoiceLanguage, VoiceType,
};
use jotabot::options::{CommandOption, OptionKind, OptionValue};

fn text(name: &str, value: &str) -> CommandOption {
    CommandOption { name: name.to_string(), value: OptionValue::Text(value.to_string()) }
}

#[test]
fn text_alone_reads_in_portuguese_male() {
    let r = run(&vec![text("text", "ola")]).unwrap();
    assert_eq!(r.0, "ola");
    assert_eq!(r.1, VoiceLanguage::Portuguese(VoiceType::Male));
}

#[test]
fn voice_and_language() {
    let r = run(&vec![text("voice_language", "Japanese"), text("text", "konnichiwa"), text("voice_type", "Female")]).unwrap();
    assert_eq!(r, ("konnichiwa".to_string(), VoiceLanguage::Japanese(VoiceType::Female)));
    let r = run(&vec![text("text", "hi"), text("voice_language", "English")]).unwrap();
    assert_eq!(r.1, VoiceLanguage::English(VoiceType::Male));
}

#[test]
fn voice_without_language_applies_to_default() {
    let r = run(&vec![text("text", "oi"), text("voice_type", "Female")]).unwrap();
    assert_eq!(r.1, VoiceLanguage::Portuguese(VoiceType::Female));
    assert_eq!(r.1.into_code(), "br_001");
    let opts = vec![
        text("text", "oi"),
        CommandOption { name: "voice_type".to_string(), value: OptionValue::User(3) },
        text("voice_language", "Japanese"),
    ];
    assert_eq!(run(&opts).unwrap().1, VoiceLanguage::Portuguese(VoiceType::Male));
    let opts = vec![text("text", "oi"), CommandOption { name: "voice_language".to_string(), value: OptionValue::Other }];
    assert_eq!(run(&opts).unwrap().1, VoiceLanguage::Portuguese(VoiceType::Male));
}

#[test]
fn voice_errors() {
    assert_eq!(run(&vec![]).unwrap_err(), VoiceError::NoText);
    let opts = vec![CommandOption { name: "text".to_string(), value: OptionValue::Other }, text("text", "later")];
    assert_eq!(run(&opts).unwrap_err(), VoiceError::NoText);
    assert_eq!(run(&vec![text("text", "a"), text("voice_type", "male")]).unwrap_err(), VoiceError::VariantNotFound);
    assert_eq!(run(&vec![text("text", "a"), text("voice_language", "French")]).unwrap_err(), VoiceError::VariantNotFound);
    assert_eq!(VoiceError::NoText.message(), "No text provided");
    assert_eq!(VoiceError::VariantNotFound.message(), "Matching variant not found");
    assert_eq!(VoiceError::NotInVoice.message(), "You are not in a voice chat");
}

#[test]
fn voice_codes() {
    assert_eq!(VoiceLanguage::Portuguese(VoiceType::Male).into_code(), "br_005");
    assert_eq!(VoiceLanguage::Portuguese(VoiceType::Female).into_code(), "br_001");
    assert_eq!(VoiceLanguage::English(VoiceType::Male).into_code(), "");
    assert_eq!(VoiceLanguage::English(VoiceType::Female).into_code(), "en_us_001");
    assert_eq!(VoiceLanguage::Japanese(VoiceType::Male).into_code(), "jp_006");
    assert_eq!(VoiceLanguage::Japanese(VoiceType::Female).into_code(), "jp_001");
}

#[test]
fn names_read_back() {
    for t in [VoiceType::Male, VoiceType::Female] {
        assert_eq!(VoiceType::from_name(&t.name()), Ok(t));
    }
    for l in [VoiceLanguage::Portuguese(VoiceType::Female), VoiceLanguage::English(VoiceType::Male), VoiceLanguage::Japanese(VoiceType::Female)] {
        let back = VoiceLanguage::from_name(&l.name()).unwrap();
        assert_eq!(back.name(), l.name());
    }
}

#[test]
fn registered_choices_are_accepted() {
    let c = register();
    assert_eq!(c.name, "voice");
    assert_eq!(c.description, "Text to jotavoice");
    assert_eq!(c.options.len(), 3);
    assert_eq!(c.options[0].name, "text");
    assert!(c.options[0].required);
    assert_eq!(c.options[0].kind, OptionKind::Text);
    assert!(!c.options[1].required && !c.options[2].required);
    let types: Vec<&str> = c.options[1].choices.iter().map(|c| c.1.as_str()).collect();
    assert_eq!(types, ["Male", "Female"]);
    let langs: Vec<&str> = c.options[2].choices.iter().map(|c| c.1.as_str()).collect();
    assert_eq!(langs, ["English", "Portuguese", "Japanese"]);
    for (_, v) in &c.options[1].choices {
        assert!(VoiceType::from_name(v).is_ok());
    }
    for (_, v) in &c.options[2].choices {
        assert!(VoiceLanguage::from_name(v).is_ok());
    }
}

#[test]
fn speech_decoding() {
    assert_eq!(decode_speech(Some("aGVsbG8=")).unwrap(), b"hello".to_vec());
    assert_eq!(decode_speech(Some("")).unwrap(), Vec::<u8>::new());
    assert_eq!(decode_speech(Some("not base64!")).unwrap_err(), SpeechError::BadBase64);
    assert_eq!(decode_speech(None).unwrap_err(), SpeechError::NoData);
    assert_eq!(SpeechError::NoData.message(), "No data field in response");
    assert_eq!(SpeechError::BadBase64.message(), "Failed to decode base64 data");
    assert_eq!(SpeechError::BadResponse.message(), "Failed to parse response");
}

#[test]
fn speech_texts() {
    assert_eq!(generation_url(), "https://tiktok-tts.weilnet.workers.dev/api/generation");
    assert_eq!(missing_audio_message(), "Error: Could not find file ./audio.mp3");
    assert_eq!(missing_call_message(11), "Failed to get manager (if this happened kill <@11>)");
    assert_eq!(join_vc(Some(Some(3))), Ok(3));
    assert_eq!(join_vc(None), Err(VoiceError::NotInVoice));
}

#[test]
fn speech_from_service_answer() {
    assert_eq!(speech_from_response(br#"{"data":"aGVsbG8=","success":true}"#).unwrap(), b"hello".to_vec());
    assert_eq!(speech_from_response(br#"{"data":""}"#).unwrap(), Vec::<u8>::new());
    assert_eq!(speech_from_response(br#"{"data":"not base64!"}"#).unwrap_err(), SpeechError::BadBase64);
    assert_eq!(speech_from_response(br#"{"data":null,"error":"busy"}"#).unwrap_err(), SpeechError::NoData);
    assert_eq!(speech_from_response(br#"{"data":5}"#).unwrap_err(), SpeechError::NoData);
    assert_eq!(speech_from_response(br#"{"other":"aGVsbG8="}"#).unwrap_err(), SpeechError::NoData);
    assert_eq!(speech_from_response(br#"["aGVsbG8="]"#).unwrap_err(), SpeechError::NoData);
    assert_eq!(speech_from_response(b"<html>502</html>").unwrap_err(), SpeechError::BadResponse);
    assert_eq!(speech_from_response(b"").unwrap_err(), SpeechError::BadResponse);
}
