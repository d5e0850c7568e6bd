use palabot::transcribe::{
    ffmpeg_args, handle_voice_message, join_segments, select_file_id, wav_format_supported,
    whisper_thread_count, RepliedMedia, VoiceAction, VoiceError, VoiceEvent, VoiceState, WavFormat, SAMPLE_RATE,
};

fn media(voice: Option<&str>, audio: Option<&str>) -> RepliedMedia {
    RepliedMedia { voice_file_id: voice.map(|s| s.to_string()), audio_file_id: audio.map(|s| s.to_string()) }
}

fn good_format() -> WavFormat {
    WavFormat { channels: 1, sample_rate: SAMPLE_RATE, bits_per_sample: 16, integer_samples: true }
}

#[test]
fn voice_note_is_preferred_to_audio() {
    assert_eq!(select_file_id(&media(Some("v"), Some("a"))), Some("v".to_string()));
    assert_eq!(select_file_id(&media(None, Some("a"))), Some("a".to_string()));
    assert_eq!(select_file_id(&media(None, None)), None);
}

#[test]
fn ffmpeg_arguments() {
    let args = ffmpeg_args(&"/tmp/in".to_string(), &"/tmp/out.wav".to_string());
    assert_eq!(
        args,
        vec!["-y", "-i", "/tmp/in", "-ar", "16000", "-ac", "1", "-c:a", "pcm_s16le", "-f", "wav", "/tmp/out.wav"]
    );
}

#[test]
fn wav_format_must_be_mono_16khz_16bit_int() {
    assert!(wav_format_supported(&good_format()));
    assert!(!wav_format_supported(&WavFormat { channels: 2, ..good_format() }));
    assert!(!wav_format_supported(&WavFormat { sample_rate: 44_100, ..good_format() }));
    assert!(!wav_format_supported(&WavFormat { bits_per_sample: 32, ..good_format() }));
    assert!(!wav_format_supported(&WavFormat { integer_samples: false, ..good_format() }));
}

#[test]
fn thread_count_from_environment_or_parallelism() {
    assert_eq!(whisper_thread_count(Some("8".to_string()), Some(2)), 8);
    assert_eq!(whisper_thread_count(Some("0".to_string()), Some(2)), 2);
    assert_eq!(whisper_thread_count(Some("-3".to_string()), Some(16)), 4);
    assert_eq!(whisper_thread_count(Some("muchos".to_string()), None), 1);
    assert_eq!(whisper_thread_count(None, Some(3)), 3);
    assert_eq!(whisper_thread_count(None, Some(64)), 4);
    assert_eq!(whisper_thread_count(Some("12".to_string()), Some(1)), 12);
    assert_eq!(whisper_thread_count(None, None), 1);
}

#[test]
fn segments_are_trimmed_and_joined() {
    let segs: Vec<String> = vec!["  Hola ", "", "   ", "mundo\n", " qué tal"].into_iter().map(String::from).collect();
    assert_eq!(join_segments(&segs), "Hola mundo qué tal");
    assert_eq!(join_segments(&vec![]), "");
    assert_eq!(join_segments(&vec![" ".to_string(), "\t".to_string()]), "");
    assert_eq!(join_segments(&vec!["a  b".to_string()]), "a  b");
}

#[test]
fn error_messages() {
    assert_eq!(VoiceError::NotAReply.message(), "The message must reply to an audio message.");
    assert_eq!(VoiceError::NoAudio.message(), "The replied message does not contain audio or a voice note.");
    assert_eq!(VoiceError::ConversionFailed.message(), "ffmpeg could not convert the audio to WAV");
    assert_eq!(
        VoiceError::ModelPathUnset.message(),
        "WHISPER_MODEL_PATH must point to a local Whisper model file"
    );
    assert_eq!(
        VoiceError::ModelFileMissing("/m.bin".to_string()).message(),
        "Whisper model file does not exist: /m.bin"
    );
    assert_eq!(
        VoiceError::UnexpectedWavFormat.message(),
        "unexpected WAV format; expected 16 kHz, mono, signed 16-bit PCM"
    );
}

#[test]
fn transcription_full_run() {
    let (s, a) = handle_voice_message(VoiceState::Idle, VoiceEvent::Requested { replied: Some(media(None, Some("f1"))) });
    assert_eq!(a, VoiceAction::Download { file_id: "f1".to_string() });
    let (s, a) = handle_voice_message(
        s,
        VoiceEvent::Downloaded { input_path: "in".to_string(), wav_path: "out.wav".to_string() },
    );
    match &a {
        VoiceAction::Convert { program, args } => {
            assert_eq!(program, "ffmpeg");
            assert_eq!(args[2], "in");
            assert_eq!(args[11], "out.wav");
        },
        other => panic!("{:?}", other),
    }
    let (s, a) = handle_voice_message(s, VoiceEvent::ConversionFinished { success: true });
    assert_eq!(a, VoiceAction::ReadModelPath);
    let (s, a) = handle_voice_message(s, VoiceEvent::ModelPathRead { path: Some("m.bin".to_string()) });
    assert_eq!(a, VoiceAction::CheckModelFile { path: "m.bin".to_string() });
    let (s, a) = handle_voice_message(s, VoiceEvent::ModelFileChecked { exists: true });
    assert_eq!(a, VoiceAction::OpenWav { path: "out.wav".to_string() });
    let (s, a) = handle_voice_message(s, VoiceEvent::WavOpened { format: good_format() });
    assert_eq!(
        a,
        VoiceAction::Transcribe {
            wav_path: "out.wav".to_string(),
            model_path: "m.bin".to_string(),
            language: "es".to_string(),
            translate: false,
            timestamps: false,
        }
    );
    let (s, a) = handle_voice_message(
        s,
        VoiceEvent::Transcribed { segments: vec![" hola ".to_string(), "".to_string(), "amigo".to_string()] },
    );
    assert_eq!(s, VoiceState::Done);
    assert_eq!(a, VoiceAction::Finish("hola amigo".to_string()));
}

#[test]
fn transcription_refusals() {
    let fail = |s: VoiceState, e: VoiceEvent| handle_voice_message(s, e);
    assert_eq!(
        fail(VoiceState::Idle, VoiceEvent::Requested { replied: None }),
        (VoiceState::Done, VoiceAction::Fail(VoiceError::NotAReply))
    );
    assert_eq!(
        fail(VoiceState::Idle, VoiceEvent::Requested { replied: Some(media(None, None)) }),
        (VoiceState::Done, VoiceAction::Fail(VoiceError::NoAudio))
    );
    assert_eq!(
        fail(VoiceState::Converting { wav_path: "w".to_string() }, VoiceEvent::ConversionFinished { success: false }),
        (VoiceState::Done, VoiceAction::Fail(VoiceError::ConversionFailed))
    );
    assert_eq!(
        fail(VoiceState::LocatingModel { wav_path: "w".to_string() }, VoiceEvent::ModelPathRead { path: None }),
        (VoiceState::Done, VoiceAction::Fail(VoiceError::ModelPathUnset))
    );
    assert_eq!(
        fail(
            VoiceState::CheckingModel { wav_path: "w".to_string(), model_path: "m".to_string() },
            VoiceEvent::ModelFileChecked { exists: false }
        ),
        (VoiceState::Done, VoiceAction::Fail(VoiceError::ModelFileMissing("m".to_string())))
    );
    assert_eq!(
        fail(
            VoiceState::ReadingWav { wav_path: "w".to_string(), model_path: "m".to_string() },
            VoiceEvent::WavOpened { format: WavFormat { channels: 2, ..good_format() } }
        ),
        (VoiceState::Done, VoiceAction::Fail(VoiceError::UnexpectedWavFormat))
    );
    assert_eq!(
        fail(VoiceState::Transcribing, VoiceEvent::ConversionFinished { success: true }),
        (VoiceState::Done, VoiceAction::Abandon)
    );
    assert_eq!(
        fail(VoiceState::Done, VoiceEvent::Requested { replied: Some(media(Some("v"), None)) }),
        (VoiceState::Done, VoiceAction::Abandon)
    );
}
