use vstd::prelude::*;

use crate::options::{
    choices_view, find_option, is_first_named, none_named, same_choice, CommandOption, CommandSpec, CommandSpecView,
    OptionKind, OptionSpec, OptionSpecView, OptionValue,
};
use crate::text::{mention_text, push_mention, str_eq};
use vstd::string::StringSliceAdditionalSpecFns;

verus! {

/// The voice a speech is read in.
#[derive(Clone, Copy, Debug, PartialEq, Eq, Structural)]
pub enum VoiceType {
    Male,
    Female,
}

/// The language a speech is read in, with its voice.
#[derive(Clone, Copy, Debug, PartialEq, Eq, Structural)]
pub enum VoiceLanguage {
    Portuguese(VoiceType),
    English(VoiceType),
    Japanese(VoiceType),
}

/// Why a `/voice` request is refused.
#[derive(Clone, Copy, Debug, PartialEq, Eq, Structural)]
pub enum VoiceError {
    /// No `text` option holding text.
    NoText,
    /// A voice or language name that is not one of the offered ones.
    VariantNotFound,
    /// The user asking is in no voice channel.
    NotInVoice,
}

pub open spec fn voice_type_name(t: VoiceType) -> Seq<char> {
    match t {
        VoiceType::Male => "Male"@,
        VoiceType::Female => "Female"@,
    }
}

/// The voice called `name`, if any.
pub open spec fn voice_type_named(name: Seq<char>) -> Option<VoiceType> {
    if name == "Male"@ {
        Some(VoiceType::Male)
    } else if name == "Female"@ {
        Some(VoiceType::Female)
    } else {
        None
    }
}

pub open spec fn language_name(l: VoiceLanguage) -> Seq<char> {
    match l {
        VoiceLanguage::Portuguese(_) => "Portuguese"@,
        VoiceLanguage::English(_) => "English"@,
        VoiceLanguage::Japanese(_) => "Japanese"@,
    }
}

/// The language called `name`, with the default voice, if any.
pub open spec fn language_named(name: Seq<char>) -> Option<VoiceLanguage> {
    if name == "Portuguese"@ {
        Some(VoiceLanguage::Portuguese(VoiceType::Male))
    } else if name == "English"@ {
        Some(VoiceLanguage::English(VoiceType::Male))
    } else if name == "Japanese"@ {
        Some(VoiceLanguage::Japanese(VoiceType::Male))
    } else {
        None
    }
}

/// The speech service's code for a language and voice.
pub open spec fn voice_code(l: VoiceLanguage) -> Seq<char> {
    match l {
        VoiceLanguage::Portuguese(VoiceType::Male) => "br_005"@,
        VoiceLanguage::Portuguese(VoiceType::Female) => "br_001"@,
        VoiceLanguage::English(VoiceType::Male) => ""@,
        VoiceLanguage::English(VoiceType::Female) => "en_us_001"@,
        VoiceLanguage::Japanese(VoiceType::Male) => "jp_006"@,
        VoiceLanguage::Japanese(VoiceType::Female) => "jp_001"@,
    }
}

/// `lang` with its voice replaced by `voice`.
pub open spec fn with_voice(lang: VoiceLanguage, voice: VoiceType) -> VoiceLanguage {
    match lang {
        VoiceLanguage::Portuguese(_) => VoiceLanguage::Portuguese(voice),
        VoiceLanguage::English(_) => VoiceLanguage::English(voice),
        VoiceLanguage::Japanese(_) => VoiceLanguage::Japanese(voice),
    }
}

pub open spec fn voice_error_message(e: VoiceError) -> Seq<char> {
    match e {
        VoiceError::NoText => "No text provided"@,
        VoiceError::VariantNotFound => "Matching variant not found"@,
        VoiceError::NotInVoice => "You are not in a voice chat"@,
    }
}

impl VoiceType {
    /// The name the voice is shown and chosen by.
    pub fn name(&self) -> (r: String)
        ensures
            r@ == voice_type_name(*self),
    {
        match self {
            VoiceType::Male => String::from_str("Male"),
            VoiceType::Female => String::from_str("Female"),
        }
    }

    /// The voice called `name`.
    pub fn from_name(name: &str) -> (r: Result<VoiceType, VoiceError>)
        ensures
            match voice_type_named(name@) {
                Some(t) => r == Ok::<VoiceType, VoiceError>(t),
                None => r == Err::<VoiceType, VoiceError>(VoiceError::VariantNotFound),
            },
    {
        if str_eq(name, "Male") {
            Ok(VoiceType::Male)
        } else if str_eq(name, "Female") {
            Ok(VoiceType::Female)
        } else {
            Err(VoiceError::VariantNotFound)
        }
    }
}

impl VoiceLanguage {
    /// The name the language is shown and chosen by.
    pub fn name(&self) -> (r: String)
        ensures
            r@ == language_name(*self),
    {
        match self {
            VoiceLanguage::Portuguese(_) => String::from_str("Portuguese"),
            VoiceLanguage::English(_) => String::from_str("English"),
            VoiceLanguage::Japanese(_) => String::from_str("Japanese"),
        }
    }

    /// The language called `name`, read in the default voice.
    pub fn from_name(name: &str) -> (r: Result<VoiceLanguage, VoiceError>)
        ensures
            match language_named(name@) {
                Some(l) => r == Ok::<VoiceLanguage, VoiceError>(l),
                None => r == Err::<VoiceLanguage, VoiceError>(VoiceError::VariantNotFound),
            },
    {
        if str_eq(name, "Portuguese") {
            Ok(VoiceLanguage::Portuguese(VoiceType::Male))
        } else if str_eq(name, "English") {
            Ok(VoiceLanguage::English(VoiceType::Male))
        } else if str_eq(name, "Japanese") {
            Ok(VoiceLanguage::Japanese(VoiceType::Male))
        } else {
            Err(VoiceError::VariantNotFound)
        }
    }

    /// The speech service's code for this language and voice.
    pub fn into_code(self) -> (r: &'static str)
        ensures
            r@ == voice_code(self),
    {
        match self {
            VoiceLanguage::Portuguese(voice) => match voice {
                VoiceType::Male => "br_005",
                VoiceType::Female => "br_001",
            },
            VoiceLanguage::English(voice) => match voice {
                VoiceType::Male => "",
                VoiceType::Female => "en_us_001",
            },
            VoiceLanguage::Japanese(voice) => match voice {
                VoiceType::Male => "jp_006",
                VoiceType::Female => "jp_001",
            },
        }
    }
}

impl VoiceError {
    /// The text the error is shown as.
    pub fn message(&self) -> (r: String)
        ensures
            r@ == voice_error_message(*self),
    {
        match self {
            VoiceError::NoText => String::from_str("No text provided"),
            VoiceError::VariantNotFound => String::from_str("Matching variant not found"),
            VoiceError::NotInVoice => String::from_str("You are not in a voice chat"),
        }
    }
}

/// The text value of the option at `i`, if `i` names an option holding text.
pub open spec fn text_at(opts: Seq<CommandOption>, i: Option<int>) -> Option<Seq<char>> {
    match i {
        Some(k) => match opts[k].value {
            OptionValue::Text(t) => Some(t@),
            _ => None,
        },
        None => None,
    }
}

/// The first position of an option called `name`, if any.
pub open spec fn first_named(opts: Seq<CommandOption>, name: Seq<char>) -> Option<int> {
    if none_named(opts, name) {
        None
    } else {
        Some(choose|i: int| is_first_named(opts, name, i))
    }
}

/// The language after the `voice_language` option is read, starting from `lang`: the
/// language that option names, or Portuguese if it holds no text, read in the chosen voice
/// (male if none was chosen); without the option, `lang`, in the chosen voice if one was.
pub open spec fn language_after(
    opts: Seq<CommandOption>,
    lang: VoiceLanguage,
    voice: Option<VoiceType>,
) -> Result<VoiceLanguage, VoiceError> {
    let v = match voice {
        Some(t) => t,
        None => VoiceType::Male,
    };
    match first_named(opts, "voice_language"@) {
        None => match voice {
            Some(t) => Ok(with_voice(lang, t)),
            None => Ok(lang),
        },
        Some(k) => match opts[k].value {
            OptionValue::Text(s) => match language_named(s@) {
                Some(l) => Ok(with_voice(l, v)),
                None => Err(VoiceError::VariantNotFound),
            },
            _ => Ok(VoiceLanguage::Portuguese(v)),
        },
    }
}

/// What a `/voice` request asks for: the text and the language and voice to read it in.
pub open spec fn voice_request(opts: Seq<CommandOption>) -> Result<(Seq<char>, VoiceLanguage), VoiceError> {
    let start = VoiceLanguage::Portuguese(VoiceType::Male);
    match text_at(opts, first_named(opts, "text"@)) {
        None => Err(VoiceError::NoText),
        Some(text) => {
            let lang = match first_named(opts, "voice_type"@) {
                Some(k) => match opts[k].value {
                    OptionValue::Text(s) => match voice_type_named(s@) {
                        Some(t) => language_after(opts, start, Some(t)),
                        None => Err(VoiceError::VariantNotFound),
                    },
                    _ => Ok(start),
                },
                None => language_after(opts, start, None),
            };
            match lang {
                Ok(l) => Ok((text, l)),
                Err(e) => Err(e),
            }
        },
    }
}

proof fn lemma_first_named(opts: Seq<CommandOption>, name: Seq<char>, r: Option<usize>)
    requires
        match r {
            Some(i) => is_first_named(opts, name, i as int),
            None => none_named(opts, name),
        },
    ensures
        first_named(opts, name) == match r {
            Some(i) => Some(i as int),
            None => None::<int>,
        },
{
    if let Some(i) = r {
        let k = choose|k: int| is_first_named(opts, name, k);
        assert(is_first_named(opts, name, k));
        if k < i {
            assert(opts[k].name@ != name);
        }
        if i < k {
            assert(opts[i as int].name@ != name);
        }
    }
}

/// Reads the `voice_language` option into `voice_lang`, with the voice `voice_type`; an
/// unknown language name is an error and leaves `voice_lang` as it was.
fn extract_voice_lang(
    options: &Vec<CommandOption>,
    voice_lang: &mut VoiceLanguage,
    voice_type: Option<VoiceType>,
) -> (r: Result<(), VoiceError>)
    ensures
        match language_after(options@, *old(voice_lang), voice_type) {
            Ok(l) => r is Ok && *final(voice_lang) == l,
            Err(e) => r == Err::<(), VoiceError>(e) && *final(voice_lang) == *old(voice_lang),
        },
{
    let found = find_option(options, "voice_language");
    proof {
        lemma_first_named(options@, "voice_language"@, found);
    }
    let v = match voice_type {
        Some(t) => t,
        None => VoiceType::Male,
    };
    if found.is_none() {
        if let Some(t) = voice_type {
            *voice_lang = match *voice_lang {
                VoiceLanguage::Portuguese(_) => VoiceLanguage::Portuguese(t),
                VoiceLanguage::English(_) => VoiceLanguage::English(t),
                VoiceLanguage::Japanese(_) => VoiceLanguage::Japanese(t),
            };
        }
    }
    if let Some(k) = found {
        match &options[k].value {
            OptionValue::Text(lang_str) => {
                match VoiceLanguage::from_name(lang_str.as_str()) {
                    Ok(VoiceLanguage::Portuguese(_)) => {
                        *voice_lang = VoiceLanguage::Portuguese(v);
                    },
                    Ok(VoiceLanguage::English(_)) => {
                        *voice_lang = VoiceLanguage::English(v);
                    },
                    Ok(VoiceLanguage::Japanese(_)) => {
                        *voice_lang = VoiceLanguage::Japanese(v);
                    },
                    Err(e) => {
                        return Err(e);
                    },
                }
            },
            _ => {
                *voice_lang = VoiceLanguage::Portuguese(v);
            },
        }
    }
    Ok(())
}

/// Reads a `/voice` request: the text to say, from the first option called `text`, and
/// the language and voice, from the options `voice_type` and `voice_language`.
pub fn run(options: &Vec<CommandOption>) -> (r: Result<(String, VoiceLanguage), VoiceError>)
    ensures
        match voice_request(options@) {
            Ok((text, lang)) => r matches Ok((t, l)) && t@ == text && l == lang,
            Err(e) => r == Err::<(String, VoiceLanguage), VoiceError>(e),
        },
{
    let mut voice_lang = VoiceLanguage::Portuguese(VoiceType::Male);
    let text_pos = find_option(options, "text");
    proof {
        lemma_first_named(options@, "text"@, text_pos);
    }
    let text = match text_pos {
        Some(k) => match &options[k].value {
            OptionValue::Text(t) => t.clone(),
            _ => {
                return Err(VoiceError::NoText);
            },
        },
        None => {
            return Err(VoiceError::NoText);
        },
    };
    let type_pos = find_option(options, "voice_type");
    proof {
        lemma_first_named(options@, "voice_type"@, type_pos);
    }
    match type_pos {
        Some(k) => {
            if let OptionValue::Text(type_str) = &options[k].value {
                let voice_type = VoiceType::from_name(type_str.as_str())?;
                extract_voice_lang(options, &mut voice_lang, Some(voice_type))?;
            }
        },
        None => {
            extract_voice_lang(options, &mut voice_lang, None)?;
        },
    }
    Ok((text, voice_lang))
}

/// The voice channel to read a speech in: the channel of the asking user's voice state,
/// which must be known when the state is.
pub fn join_vc(voice_state: Option<Option<u64>>) -> (r: Result<u64, VoiceError>)
    requires
        voice_state matches Some(c) ==> c is Some,
    ensures
        match voice_state {
            Some(c) => r == Ok::<u64, VoiceError>(c->0),
            None => r == Err::<u64, VoiceError>(VoiceError::NotInVoice),
        },
{
    match voice_state {
        Some(c) => Ok(c.unwrap()),
        None => Err(VoiceError::NotInVoice),
    }
}


/// The service that turns text into speech.
pub const ENDPOINT: &'static str = "https://tiktok-tts.weilnet.workers.dev";

/// Where the speech is stored before it is played.
pub const FILENAME: &'static str = "./audio.mp3";

/// The address speech is asked for at.
pub fn generation_url() -> (r: String)
    ensures
        r@ == ENDPOINT@ + "/api/generation"@,
{
    let mut url = String::from_str(ENDPOINT);
    url.append("/api/generation");
    url
}

/// Why the speech service's answer cannot be used.
#[derive(Clone, Copy, Debug, PartialEq, Eq, Structural)]
pub enum SpeechError {
    /// The answer is not JSON.
    BadResponse,
    /// The answer has no text field `data`.
    NoData,
    /// The `data` field is not base64.
    BadBase64,
}

impl SpeechError {
    /// The text the error is shown as.
    pub fn message(&self) -> (r: String)
        ensures
            r@ == match self {
                SpeechError::BadResponse => "Failed to parse response"@,
                SpeechError::NoData => "No data field in response"@,
                SpeechError::BadBase64 => "Failed to decode base64 data"@,
            },
    {
        match self {
            SpeechError::BadResponse => String::from_str("Failed to parse response"),
            SpeechError::NoData => String::from_str("No data field in response"),
            SpeechError::BadBase64 => String::from_str("Failed to decode base64 data"),
        }
    }
}

#[verifier::external_type_specification]
#[verifier::external_body]
pub struct ExDecodeError(base64::DecodeError);

/// What `base64::decode` makes of some bytes: the decoded bytes, or `None` where it
/// reports an error.
pub uninterp spec fn base64_decoded(input: Seq<u8>) -> Option<Seq<u8>>;

/// `base64::decode` (standard alphabet, canonical padding). Claimed: the result is the
/// decoding named `base64_decoded` of the input bytes, and it fails exactly where that
/// name is `None`.
#[verifier::external_body]
fn base64_decode(input: &[u8]) -> (r: Result<Vec<u8>, base64::DecodeError>)
    ensures
        match r {
            Ok(v) => base64_decoded(input@) == Some(v@),
            Err(_) => base64_decoded(input@) is None,
        },
{
    #[allow(deprecated)]
    base64::decode(input)
}

/// The audio in the speech service's answer, given the answer's `data` field if it holds
/// text.
pub fn decode_speech(data: Option<&str>) -> (r: Result<Vec<u8>, SpeechError>)
    ensures
        match data {
            None => r == Err::<Vec<u8>, SpeechError>(SpeechError::NoData),
            Some(d) => match base64_decoded(d.spec_bytes()) {
                Some(bytes) => r matches Ok(v) && v@ == bytes,
                None => r == Err::<Vec<u8>, SpeechError>(SpeechError::BadBase64),
            },
        },
{
    match data {
        None => Err(SpeechError::NoData),
        Some(d) => match base64_decode(d.as_bytes()) {
            Ok(v) => Ok(v),
            Err(_) => Err(SpeechError::BadBase64),
        },
    }
}

#[verifier::external_type_specification]
#[verifier::external_body]
pub struct ExJsonError(serde_json::Error);

/// What reading some bytes as JSON and taking the text field `key` of the top-level
/// object gives: `None` where the bytes are not JSON, `Some(None)` where there is no such
/// field or it does not hold text, `Some(Some(t))` where it holds the text `t`.
pub uninterp spec fn json_text_field_of(body: Seq<u8>, key: Seq<char>) -> Option<Option<Seq<char>>>;

/// `serde_json::from_slice` into a `serde_json::Value`, then `Value::get(key)` and
/// `Value::as_str`. Claimed: the result is `json_text_field_of` the bytes and the key, an
/// error exactly where that name is `None`. What the parser accepts is not stated.
#[verifier::external_body]
fn json_text_field(body: &[u8], key: &str) -> (r: Result<Option<String>, serde_json::Error>)
    ensures
        match r {
            Ok(Some(t)) => json_text_field_of(body@, key@) == Some(Some(t@)),
            Ok(None) => json_text_field_of(body@, key@) == Some(None::<Seq<char>>),
            Err(_) => json_text_field_of(body@, key@) is None,
        },
{
    let value: serde_json::Value = serde_json::from_slice(body)?;
    Ok(value.get(key).and_then(serde_json::Value::as_str).map(String::from))
}

/// What the speech service's answer `body` yields: the audio its `data` field holds in
/// base64, or why there is none.
pub open spec fn speech_of_response(body: Seq<u8>) -> Result<Seq<u8>, SpeechError> {
    match json_text_field_of(body, "data"@) {
        None => Err(SpeechError::BadResponse),
        Some(None) => Err(SpeechError::NoData),
        Some(Some(d)) => match base64_decoded(vstd::utf8::encode_utf8(d)) {
            Some(bytes) => Ok(bytes),
            None => Err(SpeechError::BadBase64),
        },
    }
}

/// The audio in the speech service's answer, read from the answer's bytes.
pub fn speech_from_response(body: &[u8]) -> (r: Result<Vec<u8>, SpeechError>)
    ensures
        match speech_of_response(body@) {
            Ok(bytes) => r matches Ok(v) && v@ == bytes,
            Err(e) => r == Err::<Vec<u8>, SpeechError>(e),
        },
{
    match json_text_field(body, "data") {
        Err(_) => Err(SpeechError::BadResponse),
        Ok(field) => match field {
            None => decode_speech(None),
            Some(d) => decode_speech(Some(d.as_str())),
        },
    }
}

/// The error shown when the stored speech cannot be found.
pub fn missing_audio_message() -> (r: String)
    ensures
        r@ == "Error: Could not find file "@ + FILENAME@,
{
    let mut m = String::from_str("Error: Could not find file ");
    m.append(FILENAME);
    m
}

/// The error shown when the voice manager has no call for the server, naming whom to
/// blame.
pub fn missing_call_message(admin: u64) -> (r: String)
    ensures
        r@ == "Failed to get manager (if this happened kill "@ + mention_text(admin as nat) + ")"@,
{
    let mut m = String::from_str("Failed to get manager (if this happened kill ");
    push_mention(&mut m, admin);
    m.append(")");
    m
}

fn text_option(name: &str, description: &str, required: bool, choices: Vec<(String, String)>) -> (r: OptionSpec)
    ensures
        r@ == (OptionSpecView {
            kind: OptionKind::Text,
            name: name@,
            description: description@,
            required,
            choices: choices_view(choices@),
        }),
{
    OptionSpec {
        kind: OptionKind::Text,
        name: String::from_str(name),
        description: String::from_str(description),
        required,
        choices,
    }
}

/// The `/voice` command as registered.
pub open spec fn voice_command() -> CommandSpecView {
    CommandSpecView {
        name: "voice"@,
        description: "Text to jotavoice"@,
        options: seq![
            OptionSpecView {
                kind: OptionKind::Text,
                name: "text"@,
                description: "Text to convert to speech"@,
                required: true,
                choices: seq![],
            },
            OptionSpecView {
                kind: OptionKind::Text,
                name: "voice_type"@,
                description: "Whether the voice is male or female"@,
                required: false,
                choices: seq![("Male"@, "Male"@), ("Female"@, "Female"@)],
            },
            OptionSpecView {
                kind: OptionKind::Text,
                name: "voice_language"@,
                description: "Language for the voice"@,
                required: false,
                choices: seq![
                    ("English"@, "English"@),
                    ("Portuguese"@, "Portuguese"@),
                    ("Japanese"@, "Japanese"@),
                ],
            },
        ],
    }
}

/// Declares `/voice`: a required text, and optional voice and language choices.
pub fn register() -> (r: CommandSpec)
    ensures
        r@ == voice_command(),
{
    let text = text_option("text", "Text to convert to speech", true, Vec::new());
    let mut types: Vec<(String, String)> = Vec::new();
    types.push(same_choice("Male"));
    types.push(same_choice("Female"));
    let voice_type = text_option("voice_type", "Whether the voice is male or female", false, types);
    let mut langs: Vec<(String, String)> = Vec::new();
    langs.push(same_choice("English"));
    langs.push(same_choice("Portuguese"));
    langs.push(same_choice("Japanese"));
    let voice_language = text_option("voice_language", "Language for the voice", false, langs);
    let mut options: Vec<OptionSpec> = Vec::new();
    options.push(text);
    options.push(voice_type);
    options.push(voice_language);
    let r = CommandSpec {
        name: String::from_str("voice"),
        description: String::from_str("Text to jotavoice"),
        options,
    };
    assert(choices_view(Seq::<(String, String)>::empty()) =~= Seq::<(Seq<char>, Seq<char>)>::empty());
    assert(choices_view(types@) =~= seq![("Male"@, "Male"@), ("Female"@, "Female"@)]);
    assert(choices_view(langs@) =~= seq![
        ("English"@, "English"@),
        ("Portuguese"@, "Portuguese"@),
        ("Japanese"@, "Japanese"@),
    ]);
    assert(r@.options =~= voice_command().options);
    r
}


/// Each voice and language is known by its name (a language then with the default voice),
/// and every voice and language `/voice` offers is one that reading the request accepts.
pub proof fn law_offered_voices_known()
    ensures
        forall|t: VoiceType| voice_type_named(#[trigger] voice_type_name(t)) == Some(t),
        forall|l: VoiceLanguage| language_named(#[trigger] language_name(l)) == Some(with_voice(l, VoiceType::Male)),
        forall|i: int|
            0 <= i < voice_command().options[1].choices.len() ==> voice_type_named(
                #[trigger] voice_command().options[1].choices[i].1,
            ) is Some,
        forall|i: int|
            0 <= i < voice_command().options[2].choices.len() ==> language_named(
                #[trigger] voice_command().options[2].choices[i].1,
            ) is Some,
{
    reveal_strlit("Male");
    reveal_strlit("Female");
    assert("Female"@ != "Male"@) by {
        assert("Female"@.len() != "Male"@.len());
    }
    reveal_strlit("Portuguese");
    reveal_strlit("English");
    reveal_strlit("Japanese");
    assert("Female"@.len() != "Male"@.len());
    assert("English"@.len() != "Portuguese"@.len());
    assert("Japanese"@.len() != "Portuguese"@.len());
    assert("Japanese"@.len() != "English"@.len());
    assert forall|i: int| 0 <= i < voice_command().options[1].choices.len() implies voice_type_named(
        #[trigger] voice_command().options[1].choices[i].1,
    ) is Some by {
        if i == 0 {
            assert(voice_command().options[1].choices[i].1 == "Male"@);
        } else {
            assert(voice_command().options[1].choices[i].1 == "Female"@);
        }
    }
    assert forall|i: int| 0 <= i < voice_command().options[2].choices.len() implies language_named(
        #[trigger] voice_command().options[2].choices[i].1,
    ) is Some by {
        if i == 0 {
            assert(voice_command().options[2].choices[i].1 == "English"@);
        } else if i == 1 {
            assert(voice_command().options[2].choices[i].1 == "Portuguese"@);
        } else {
            assert(voice_command().options[2].choices[i].1 == "Japanese"@);
        }
    }
}

/// When the first `voice_language` option names one of the three languages, the language
/// read is that language in the chosen voice (male when none was chosen), whatever the
/// language before, and the same for each of the three languages.
pub proof fn law_language_in_chosen_voice(
    opts: Seq<CommandOption>,
    lang: VoiceLanguage,
    voice: Option<VoiceType>,
    k: int,
    name: Seq<char>,
)
    requires
        first_named(opts, "voice_language"@) == Some(k),
        opts[k].value matches OptionValue::Text(s) && s@ == name,
    ensures
        ({
            let v = match voice {
                Some(t) => t,
                None => VoiceType::Male,
            };
            &&& name == "Portuguese"@ ==> language_after(opts, lang, voice) == Ok::<VoiceLanguage, VoiceError>(
                VoiceLanguage::Portuguese(v),
            )
            &&& name == "English"@ ==> language_after(opts, lang, voice) == Ok::<VoiceLanguage, VoiceError>(
                VoiceLanguage::English(v),
            )
            &&& name == "Japanese"@ ==> language_after(opts, lang, voice) == Ok::<VoiceLanguage, VoiceError>(
                VoiceLanguage::Japanese(v),
            )
        }),
{
    reveal_strlit("Portuguese");
    reveal_strlit("English");
    reveal_strlit("Japanese");
    assert("English"@ != "Portuguese"@) by {
        assert("English"@.len() != "Portuguese"@.len());
    }
    assert("Japanese"@ != "Portuguese"@) by {
        assert("Japanese"@.len() != "Portuguese"@.len());
    }
    assert("Japanese"@ != "English"@) by {
        assert("Japanese"@.len() != "English"@.len());
    }
}

/// A `/voice` request with a text, a voice called `voice_name` and a language called
/// `language_name` reads the text in that language with that voice, for each of the
/// three languages and both voices.
pub proof fn law_request_reads_language_and_voice(
    opts: Seq<CommandOption>,
    kt: int,
    kv: int,
    kl: int,
    text: Seq<char>,
    voice_name: Seq<char>,
    language_name: Seq<char>,
    voice: VoiceType,
)
    requires
        first_named(opts, "text"@) == Some(kt),
        opts[kt].value matches OptionValue::Text(s) && s@ == text,
        first_named(opts, "voice_type"@) == Some(kv),
        opts[kv].value matches OptionValue::Text(s) && s@ == voice_name,
        first_named(opts, "voice_language"@) == Some(kl),
        opts[kl].value matches OptionValue::Text(s) && s@ == language_name,
        (voice_name == "Male"@ && voice == VoiceType::Male) || (voice_name == "Female"@ && voice
            == VoiceType::Female),
    ensures
        language_name == "Portuguese"@ ==> voice_request(opts) == Ok::<(Seq<char>, VoiceLanguage), VoiceError>(
            (text, VoiceLanguage::Portuguese(voice)),
        ),
        language_name == "English"@ ==> voice_request(opts) == Ok::<(Seq<char>, VoiceLanguage), VoiceError>(
            (text, VoiceLanguage::English(voice)),
        ),
        language_name == "Japanese"@ ==> voice_request(opts) == Ok::<(Seq<char>, VoiceLanguage), VoiceError>(
            (text, VoiceLanguage::Japanese(voice)),
        ),
{
    reveal_strlit("Male");
    reveal_strlit("Female");
    assert("Female"@ != "Male"@) by {
        assert("Female"@.len() != "Male"@.len());
    }
    law_language_in_chosen_voice(opts, VoiceLanguage::Portuguese(VoiceType::Male), Some(voice), kl, language_name);
}

/// A `/voice` request with a text and a voice but no language reads the text in
/// Portuguese with that voice.
pub proof fn law_request_without_language_is_portuguese(
    opts: Seq<CommandOption>,
    kt: int,
    kv: int,
    text: Seq<char>,
    voice_name: Seq<char>,
    voice: VoiceType,
)
    requires
        first_named(opts, "text"@) == Some(kt),
        opts[kt].value matches OptionValue::Text(s) && s@ == text,
        first_named(opts, "voice_type"@) == Some(kv),
        opts[kv].value matches OptionValue::Text(s) && s@ == voice_name,
        first_named(opts, "voice_language"@) is None,
        (voice_name == "Male"@ && voice == VoiceType::Male) || (voice_name == "Female"@ && voice
            == VoiceType::Female),
    ensures
        voice_request(opts) == Ok::<(Seq<char>, VoiceLanguage), VoiceError>((text, VoiceLanguage::Portuguese(voice))),
{
    reveal_strlit("Male");
    reveal_strlit("Female");
    assert("Female"@ != "Male"@) by {
        assert("Female"@.len() != "Male"@.len());
    }
}

} // verus!
