//! Transcribing the voice note or audio file that a message replies to:
//! which file is fetched, how it is converted, which checks come before
//! the speech recognizer runs, and how its segments become the transcript.
//!
//! As for commands, the caller drives the work: it starts in
//! [`VoiceState::Idle`], hands each [`VoiceEvent`] to
//! [`handle_voice_message`] and performs the [`VoiceAction`] it gets back.

use vstd::prelude::*;
use vstd::string::*;
use crate::search::texts;
use crate::text::{
    is_white_space, parse_i32, parse_i32_spec, push_char, trim, trimmed,
    trimmed_has_no_outer_whitespace,
};

verus! {

/// The sample rate, in Hz, of the audio handed to the recognizer.
pub const SAMPLE_RATE: u32 = 16_000;

/// The media of the message that is replied to: the file id of its voice
/// note and of its audio file, where it has them.
#[derive(Debug, Clone, PartialEq, Eq)]
pub struct RepliedMedia {
    pub voice_file_id: Option<String>,
    pub audio_file_id: Option<String>,
}

/// The format of a WAV file, as its header states it.
#[derive(Debug, Clone, PartialEq, Eq)]
pub struct WavFormat {
    pub channels: u16,
    pub sample_rate: u32,
    pub bits_per_sample: u16,
    /// Whether the samples are integers (rather than floats).
    pub integer_samples: bool,
}

/// Why a transcription was refused.
#[derive(Debug, Clone, PartialEq, Eq)]
pub enum VoiceError {
    NotAReply,
    NoAudio,
    ConversionFailed,
    ModelPathUnset,
    ModelFileMissing(String),
    UnexpectedWavFormat,
}

/// Where a transcription stands.
#[derive(Debug, Clone, PartialEq, Eq)]
pub enum VoiceState {
    Idle,
    /// Waiting for the file to be downloaded.
    Downloading,
    /// Waiting for the conversion to WAV into `wav_path`.
    Converting { wav_path: String },
    /// Waiting for the configured model path.
    LocatingModel { wav_path: String },
    /// Waiting to learn whether the model file exists.
    CheckingModel { wav_path: String, model_path: String },
    /// Waiting for the header of the converted WAV file.
    ReadingWav { wav_path: String, model_path: String },
    /// Waiting for the recognizer's segments.
    Transcribing,
    Done,
}

/// What the outside world reports.
#[derive(Debug, Clone, PartialEq, Eq)]
pub enum VoiceEvent {
    /// Transcription was asked for: the media of the replied-to message,
    /// or `None` when the request does not reply to a message.
    Requested { replied: Option<RepliedMedia> },
    /// The file was downloaded to `input_path`, and `wav_path` was made
    /// for the converted audio.
    Downloaded { input_path: String, wav_path: String },
    /// The converter finished, successfully or not.
    ConversionFinished { success: bool },
    /// The configured model path (`WHISPER_MODEL_PATH`), if it is set.
    ModelPathRead { path: Option<String> },
    /// Whether the model path names an existing file.
    ModelFileChecked { exists: bool },
    /// The header of the converted WAV file.
    WavOpened { format: WavFormat },
    /// The segments that the recognizer produced, in order.
    Transcribed { segments: Vec<String> },
}

/// What is asked of the outside world.
#[derive(Debug, Clone, PartialEq, Eq)]
pub enum VoiceAction {
    /// Download the Telegram file with this id.
    Download { file_id: String },
    /// Run `program` with `args`.
    Convert { program: String, args: Vec<String> },
    /// Read the configured model path.
    ReadModelPath,
    /// Tell whether `path` names an existing file.
    CheckModelFile { path: String },
    /// Read the header of the WAV file at `path`.
    OpenWav { path: String },
    /// Run the recognizer with the model at `model_path` on the samples of
    /// the WAV file at `wav_path`, greedily with one candidate, in
    /// `language`, translating when `translate`, with timestamps when
    /// `timestamps`.
    Transcribe { wav_path: String, model_path: String, language: String, translate: bool, timestamps: bool },
    /// The transcription is refused.
    Fail(VoiceError),
    /// The transcription is done; this is its text.
    Finish(String),
    /// An event that does not fit the state: give up without a result.
    Abandon,
}

/// The text of each refusal.
pub open spec fn voice_error_text(e: VoiceError) -> Seq<char> {
    match e {
        VoiceError::NotAReply => "The message must reply to an audio message."@,
        VoiceError::NoAudio => "The replied message does not contain audio or a voice note."@,
        VoiceError::ConversionFailed => "ffmpeg could not convert the audio to WAV"@,
        VoiceError::ModelPathUnset => "WHISPER_MODEL_PATH must point to a local Whisper model file"@,
        VoiceError::ModelFileMissing(p) => "Whisper model file does not exist: "@ + p@,
        VoiceError::UnexpectedWavFormat => "unexpected WAV format; expected 16 kHz, mono, signed 16-bit PCM"@,
    }
}

impl VoiceError {
    /// The text of the refusal.
    pub fn message(&self) -> (t: String)
        ensures
            t@ == voice_error_text(*self),
    {
        match self {
            VoiceError::NotAReply => String::from_str("The message must reply to an audio message."),
            VoiceError::NoAudio => String::from_str("The replied message does not contain audio or a voice note."),
            VoiceError::ConversionFailed => String::from_str("ffmpeg could not convert the audio to WAV"),
            VoiceError::ModelPathUnset => String::from_str(
                "WHISPER_MODEL_PATH must point to a local Whisper model file",
            ),
            VoiceError::ModelFileMissing(p) => {
                let mut t = String::from_str("Whisper model file does not exist: ");
                t.append(p.as_str());
                t
            },
            VoiceError::UnexpectedWavFormat => String::from_str(
                "unexpected WAV format; expected 16 kHz, mono, signed 16-bit PCM",
            ),
        }
    }
}

/// The file to transcribe: the voice note if there is one, else the
/// audio file.
pub open spec fn media_file_id(m: RepliedMedia) -> Option<String> {
    match m.voice_file_id {
        Some(id) => Some(id),
        None => m.audio_file_id,
    }
}

/// The arguments that make `ffmpeg` convert `input` into 16 kHz mono
/// signed 16-bit PCM WAV at `output`, overwriting it.
pub open spec fn ffmpeg_args_spec(input: Seq<char>, output: Seq<char>) -> Seq<Seq<char>> {
    seq!["-y"@, "-i"@, input, "-ar"@, "16000"@, "-ac"@, "1"@, "-c:a"@, "pcm_s16le"@, "-f"@, "wav"@, output]
}

/// Whether a WAV file is in the format the recognizer is given: mono,
/// 16 kHz, 16-bit integer samples.
pub open spec fn wav_format_ok(f: WavFormat) -> bool {
    f.channels == 1 && f.sample_rate == SAMPLE_RATE && f.bits_per_sample == 16 && f.integer_samples
}

/// The segments kept for the transcript: each trimmed, the empty ones
/// dropped.
pub open spec fn kept_segments(segs: Seq<Seq<char>>) -> Seq<Seq<char>>
    decreases segs.len(),
{
    if segs.len() == 0 {
        seq![]
    } else {
        let rest = kept_segments(segs.drop_last());
        let t = trimmed(segs.last());
        if t.len() > 0 {
            rest.push(t)
        } else {
            rest
        }
    }
}

/// `ws` joined with single spaces.
pub open spec fn join_spaced(ws: Seq<Seq<char>>) -> Seq<char>
    decreases ws.len(),
{
    if ws.len() == 0 {
        seq![]
    } else if ws.len() == 1 {
        ws[0]
    } else {
        join_spaced(ws.drop_last()) + seq![' '] + ws.last()
    }
}

/// The transcript made of the recognizer's segments.
pub open spec fn transcript(segs: Seq<Seq<char>>) -> Seq<char> {
    join_spaced(kept_segments(segs))
}

/// The recognizer's thread count: `WHISPER_THREADS` when it is a positive
/// `i32`, else the available parallelism capped at four, else one.
pub open spec fn thread_count_spec(env_value: Option<String>, available: Option<usize>) -> i32 {
    let from_env = match env_value {
        Some(v) => parse_i32_spec(v@),
        None => None,
    };
    match from_env {
        Some(t) => if t > 0 {
            t
        } else {
            fallback_threads(available)
        },
        None => fallback_threads(available),
    }
}

pub open spec fn fallback_threads(available: Option<usize>) -> i32 {
    match available {
        Some(n) => if n < 4 {
            n as i32
        } else {
            4
        },
        None => 1,
    }
}

/// The file to transcribe: the voice note if there is one, else the
/// audio file.
pub fn select_file_id(m: &RepliedMedia) -> (id: Option<String>)
    ensures
        id == media_file_id(*m),
{
    match &m.voice_file_id {
        Some(id) => Some(id.clone()),
        None => match &m.audio_file_id {
            Some(id) => Some(id.clone()),
            None => None,
        },
    }
}

/// The `ffmpeg` arguments converting `input` into the WAV file `output`.
pub fn ffmpeg_args(input: &String, output: &String) -> (args: Vec<String>)
    ensures
        texts(args@) == ffmpeg_args_spec(input@, output@),
{
    let mut args: Vec<String> = Vec::new();
    args.push(String::from_str("-y"));
    args.push(String::from_str("-i"));
    args.push(input.clone());
    args.push(String::from_str("-ar"));
    args.push(String::from_str("16000"));
    args.push(String::from_str("-ac"));
    args.push(String::from_str("1"));
    args.push(String::from_str("-c:a"));
    args.push(String::from_str("pcm_s16le"));
    args.push(String::from_str("-f"));
    args.push(String::from_str("wav"));
    args.push(output.clone());
    assert(texts(args@) =~= ffmpeg_args_spec(input@, output@));
    args
}

/// Whether a WAV file is mono, 16 kHz, with 16-bit integer samples.
pub fn wav_format_supported(f: &WavFormat) -> (ok: bool)
    ensures
        ok == wav_format_ok(*f),
{
    f.channels == 1 && f.sample_rate == SAMPLE_RATE && f.bits_per_sample == 16 && f.integer_samples
}

/// The recognizer's thread count, from the value of `WHISPER_THREADS` and
/// the machine's available parallelism (a `NonZeroUsize`, so never zero).
pub fn whisper_thread_count(env_value: Option<String>, available: Option<usize>) -> (n: i32)
    requires
        available != Some(0usize),
    ensures
        n == thread_count_spec(env_value, available),
{
    let fallback: i32 = match available {
        Some(c) => if c < 4 {
            c as i32
        } else {
            4
        },
        None => 1,
    };
    let from_env = match &env_value {
        Some(v) => parse_i32(v.as_str()),
        None => None,
    };
    match from_env {
        Some(t) => if t > 0 {
            t
        } else {
            fallback
        },
        None => fallback,
    }
}

/// The transcript: the segments trimmed, the empty ones dropped, the rest
/// joined with single spaces.
pub fn join_segments(segments: &Vec<String>) -> (t: String)
    ensures
        t@ == transcript(texts(segments@)),
{
    let ghost segs = texts(segments@);
    let mut out = String::new();
    let mut count: usize = 0;
    let n = segments.len();
    for i in 0..n
        invariant
            n == segments@.len(),
            segs == texts(segments@),
            out@ == join_spaced(kept_segments(segs.take(i as int))),
            count == kept_segments(segs.take(i as int)).len(),
            count <= i,
    {
        let piece = trim(segments[i].as_str());
        let ghost kept_before = kept_segments(segs.take(i as int));
        assert(segs.take(i + 1).drop_last() =~= segs.take(i as int));
        assert(segs.take(i + 1).last() == segments@[i as int]@);
        if piece.unicode_len() > 0 {
            if count > 0 {
                push_char(&mut out, ' ');
            }
            out.append(piece.as_str());
            count = count + 1;
            proof {
                let kept_now = kept_before.push(piece@);
                assert(kept_now.drop_last() =~= kept_before);
                assert(out@ =~= join_spaced(kept_now));
            }
        }
    }
    assert(segs.take(n as int) =~= segs);
    out
}


/// One step of a transcription: in state `s`, on event `e`, move to
/// `next` and ask for `a`. An event that does not fit the state abandons
/// the transcription.
pub open spec fn voice_spec(s: VoiceState, e: VoiceEvent, next: VoiceState, a: VoiceAction) -> bool {
    match (s, e) {
        (VoiceState::Idle, VoiceEvent::Requested { replied }) => match replied {
            None => next == VoiceState::Done && a == VoiceAction::Fail(VoiceError::NotAReply),
            Some(m) => match media_file_id(m) {
                None => next == VoiceState::Done && a == VoiceAction::Fail(VoiceError::NoAudio),
                Some(file_id) => next == VoiceState::Downloading && a == VoiceAction::Download { file_id },
            },
        },
        (VoiceState::Downloading, VoiceEvent::Downloaded { input_path, wav_path }) => {
            &&& next == VoiceState::Converting { wav_path }
            &&& a is Convert
            &&& a->Convert_program@ == "ffmpeg"@
            &&& texts(a->Convert_args@) == ffmpeg_args_spec(input_path@, wav_path@)
        },
        (VoiceState::Converting { wav_path }, VoiceEvent::ConversionFinished { success }) => if success {
            next == VoiceState::LocatingModel { wav_path } && a == VoiceAction::ReadModelPath
        } else {
            next == VoiceState::Done && a == VoiceAction::Fail(VoiceError::ConversionFailed)
        },
        (VoiceState::LocatingModel { wav_path }, VoiceEvent::ModelPathRead { path }) => match path {
            None => next == VoiceState::Done && a == VoiceAction::Fail(VoiceError::ModelPathUnset),
            Some(model_path) => next == VoiceState::CheckingModel { wav_path, model_path }
                && a == VoiceAction::CheckModelFile { path: model_path },
        },
        (VoiceState::CheckingModel { wav_path, model_path }, VoiceEvent::ModelFileChecked { exists }) => if exists {
            next == VoiceState::ReadingWav { wav_path, model_path } && a == VoiceAction::OpenWav { path: wav_path }
        } else {
            next == VoiceState::Done && a == VoiceAction::Fail(VoiceError::ModelFileMissing(model_path))
        },
        (VoiceState::ReadingWav { wav_path, model_path }, VoiceEvent::WavOpened { format }) => if wav_format_ok(
            format,
        ) {
            &&& next == VoiceState::Transcribing
            &&& a is Transcribe
            &&& a->Transcribe_wav_path == wav_path
            &&& a->Transcribe_model_path == model_path
            &&& a->Transcribe_language@ == "es"@
            &&& !a->Transcribe_translate
            &&& !a->Transcribe_timestamps
        } else {
            next == VoiceState::Done && a == VoiceAction::Fail(VoiceError::UnexpectedWavFormat)
        },
        (VoiceState::Transcribing, VoiceEvent::Transcribed { segments }) => {
            &&& next == VoiceState::Done
            &&& a is Finish
            &&& a->Finish_0@ == transcript(texts(segments@))
        },
        _ => next == VoiceState::Done && a == VoiceAction::Abandon,
    }
}

/// One step of the transcription of the voice note or audio file that a
/// message replies to.
pub fn handle_voice_message(state: VoiceState, event: VoiceEvent) -> (r: (VoiceState, VoiceAction))
    ensures
        voice_spec(state, event, r.0, r.1),
{
    match (state, event) {
        (VoiceState::Idle, VoiceEvent::Requested { replied }) => match replied {
            None => (VoiceState::Done, VoiceAction::Fail(VoiceError::NotAReply)),
            Some(m) => match select_file_id(&m) {
                None => (VoiceState::Done, VoiceAction::Fail(VoiceError::NoAudio)),
                Some(file_id) => (VoiceState::Downloading, VoiceAction::Download { file_id }),
            },
        },
        (VoiceState::Downloading, VoiceEvent::Downloaded { input_path, wav_path }) => {
            let args = ffmpeg_args(&input_path, &wav_path);
            (VoiceState::Converting { wav_path }, VoiceAction::Convert { program: String::from_str("ffmpeg"), args })
        },
        (VoiceState::Converting { wav_path }, VoiceEvent::ConversionFinished { success }) => if success {
            (VoiceState::LocatingModel { wav_path }, VoiceAction::ReadModelPath)
        } else {
            (VoiceState::Done, VoiceAction::Fail(VoiceError::ConversionFailed))
        },
        (VoiceState::LocatingModel { wav_path }, VoiceEvent::ModelPathRead { path }) => match path {
            None => (VoiceState::Done, VoiceAction::Fail(VoiceError::ModelPathUnset)),
            Some(model_path) => {
                let path = model_path.clone();
                (VoiceState::CheckingModel { wav_path, model_path }, VoiceAction::CheckModelFile { path })
            },
        },
        (VoiceState::CheckingModel { wav_path, model_path }, VoiceEvent::ModelFileChecked { exists }) => if exists {
            let path = wav_path.clone();
            (VoiceState::ReadingWav { wav_path, model_path }, VoiceAction::OpenWav { path })
        } else {
            (VoiceState::Done, VoiceAction::Fail(VoiceError::ModelFileMissing(model_path)))
        },
        (VoiceState::ReadingWav { wav_path, model_path }, VoiceEvent::WavOpened { format }) => if wav_format_supported(
            &format,
        ) {
            (
                VoiceState::Transcribing,
                VoiceAction::Transcribe {
                    wav_path,
                    model_path,
                    language: String::from_str("es"),
                    translate: false,
                    timestamps: false,
                },
            )
        } else {
            (VoiceState::Done, VoiceAction::Fail(VoiceError::UnexpectedWavFormat))
        },
        (VoiceState::Transcribing, VoiceEvent::Transcribed { segments }) => {
            let text = join_segments(&segments);
            (VoiceState::Done, VoiceAction::Finish(text))
        },
        _ => (VoiceState::Done, VoiceAction::Abandon),
    }
}

/// How many events a transcription has taken to reach `s`.
pub open spec fn voice_steps_taken(s: VoiceState) -> int {
    match s {
        VoiceState::Idle => 0,
        VoiceState::Downloading => 1,
        VoiceState::Converting { .. } => 2,
        VoiceState::LocatingModel { .. } => 3,
        VoiceState::CheckingModel { .. } => 4,
        VoiceState::ReadingWav { .. } => 5,
        VoiceState::Transcribing => 6,
        VoiceState::Done => -1,
    }
}

/// `states`, `events` and `actions` are a run of one transcription from
/// [`VoiceState::Idle`].
pub open spec fn is_voice_run(states: Seq<VoiceState>, events: Seq<VoiceEvent>, actions: Seq<VoiceAction>) -> bool {
    &&& states.len() == events.len() + 1
    &&& actions.len() == events.len()
    &&& states[0] == VoiceState::Idle
    &&& forall|i: int|
        #![trigger events[i]]
        0 <= i < events.len() ==> voice_spec(states[i], events[i], states[i + 1], actions[i])
}

/// Every step of a transcription that is not over moves it one stage on;
/// an ended transcription stays ended; a step ends it exactly when it
/// fails, finishes or abandons.
pub proof fn voice_makes_progress(s: VoiceState, e: VoiceEvent, next: VoiceState, a: VoiceAction)
    requires
        voice_spec(s, e, next, a),
    ensures
        !(s is Done) && !(next is Done) ==> voice_steps_taken(next) == voice_steps_taken(s) + 1,
        s is Done ==> next is Done && a is Abandon,
        next is Done <==> (a is Fail || a is Finish || a is Abandon),
{
}

proof fn lemma_voice_run_position(states: Seq<VoiceState>, events: Seq<VoiceEvent>, actions: Seq<VoiceAction>, i: int)
    requires
        is_voice_run(states, events, actions),
        0 <= i < states.len(),
    ensures
        !(states[i] is Done) ==> voice_steps_taken(states[i]) == i,
    decreases i,
{
    if i > 0 {
        lemma_voice_run_position(states, events, actions, i - 1);
        assert(voice_spec(states[i - 1], events[i - 1], states[i], actions[i - 1]));
        voice_makes_progress(states[i - 1], events[i - 1], states[i], actions[i - 1]);
    }
}

/// No transcription takes more than seven events: after seven, it is over.
pub proof fn every_transcription_ends(states: Seq<VoiceState>, events: Seq<VoiceEvent>, actions: Seq<VoiceAction>)
    requires
        is_voice_run(states, events, actions),
    ensures
        forall|i: int| 7 <= i < states.len() ==> #[trigger] states[i] is Done,
{
    assert forall|i: int| 7 <= i < states.len() implies #[trigger] states[i] is Done by {
        lemma_voice_run_position(states, events, actions, i);
    }
}

/// The recognizer runs only as the sixth step, after the conversion
/// succeeded, the model file was found to exist and the converted file was
/// found to be mono 16 kHz 16-bit integer PCM; it runs on that converted
/// file.
pub proof fn recognizer_only_after_checks(
    states: Seq<VoiceState>,
    events: Seq<VoiceEvent>,
    actions: Seq<VoiceAction>,
    k: int,
)
    requires
        is_voice_run(states, events, actions),
        0 <= k < actions.len(),
        actions[k] is Transcribe,
    ensures
        k == 5,
        events[1] is Downloaded,
        actions[k]->Transcribe_wav_path == events[1]->Downloaded_wav_path,
        events[2] == (VoiceEvent::ConversionFinished { success: true }),
        events[4] == (VoiceEvent::ModelFileChecked { exists: true }),
        events[5] is WavOpened,
        wav_format_ok(events[5]->WavOpened_format),
{
    assert(voice_spec(states[k], events[k], states[k + 1], actions[k]));
    assert(states[k] is ReadingWav);
    lemma_voice_run_position(states, events, actions, k);
    lemma_voice_run_position(states, events, actions, 4);
    lemma_voice_run_position(states, events, actions, 3);
    lemma_voice_run_position(states, events, actions, 2);
    lemma_voice_run_position(states, events, actions, 1);
    assert(voice_spec(states[1], events[1], states[2], actions[1]));
    assert(voice_spec(states[2], events[2], states[3], actions[2]));
    assert(voice_spec(states[3], events[3], states[4], actions[3]));
    assert(voice_spec(states[4], events[4], states[5], actions[4]));
    voice_makes_progress(states[4], events[4], states[5], actions[4]);
    voice_makes_progress(states[3], events[3], states[4], actions[3]);
    voice_makes_progress(states[2], events[2], states[3], actions[2]);
    voice_makes_progress(states[1], events[1], states[2], actions[1]);
    assert(states[4] is CheckingModel);
    assert(states[3] is LocatingModel);
    assert(states[2] is Converting);
    assert(states[1] is Downloading);
}


proof fn lemma_kept_segments(segs: Seq<Seq<char>>)
    ensures
        forall|i: int|
            0 <= i < kept_segments(segs).len() ==> {
                let w = #[trigger] kept_segments(segs)[i];
                w.len() > 0 && !is_white_space(w[0]) && !is_white_space(w.last())
            },
        kept_segments(segs).len() == 0 <==> forall|j: int| 0 <= j < segs.len() ==> #[trigger] trimmed(segs[j]).len() == 0,
    decreases segs.len(),
{
    if segs.len() > 0 {
        let rest = segs.drop_last();
        lemma_kept_segments(rest);
        trimmed_has_no_outer_whitespace(segs.last());
        assert forall|j: int| 0 <= j < rest.len() implies #[trigger] rest[j] == segs[j] by {}
        if kept_segments(segs).len() == 0 {
            assert forall|j: int| 0 <= j < segs.len() implies #[trigger] trimmed(segs[j]).len() == 0 by {
                if j < rest.len() {
                    assert(rest[j] == segs[j]);
                    assert(trimmed(rest[j]).len() == 0);
                }
            }
        }
    }
}

proof fn lemma_join_spaced_ends(ws: Seq<Seq<char>>)
    requires
        forall|i: int|
            0 <= i < ws.len() ==> {
                let w = #[trigger] ws[i];
                w.len() > 0 && !is_white_space(w[0]) && !is_white_space(w.last())
            },
    ensures
        join_spaced(ws).len() == 0 <==> ws.len() == 0,
        ws.len() > 0 ==> join_spaced(ws)[0] == ws[0][0],
        ws.len() > 0 ==> join_spaced(ws).last() == ws.last().last(),
    decreases ws.len(),
{
    if ws.len() > 1 {
        let rest = ws.drop_last();
        assert forall|i: int| 0 <= i < rest.len() implies {
            let w = #[trigger] rest[i];
            w.len() > 0 && !is_white_space(w[0]) && !is_white_space(w.last())
        } by {
            assert(rest[i] == ws[i]);
        }
        lemma_join_spaced_ends(rest);
        assert(ws.last() == ws[ws.len() - 1]);
    } else if ws.len() == 1 {
        assert(ws.last() == ws[0]);
    }
}

/// The only file a transcription downloads is the voice note (else the
/// audio file) of the message the request replies to, and it does so as
/// its first step.
pub proof fn only_the_replied_file_is_downloaded(
    states: Seq<VoiceState>,
    events: Seq<VoiceEvent>,
    actions: Seq<VoiceAction>,
    k: int,
)
    requires
        is_voice_run(states, events, actions),
        0 <= k < actions.len(),
        actions[k] is Download,
    ensures
        k == 0,
        events[0] is Requested,
        events[0]->Requested_replied is Some,
        media_file_id(events[0]->Requested_replied->0) == Some(actions[k]->Download_file_id),
{
    assert(voice_spec(states[k], events[k], states[k + 1], actions[k]));
    assert(states[k] is Idle);
    lemma_voice_run_position(states, events, actions, k);
}

/// The recognizer is given at least one thread, and at most four unless
/// `WHISPER_THREADS` asks for more.
pub proof fn thread_count_positive(env_value: Option<String>, available: Option<usize>)
    requires
        available != Some(0usize),
    ensures
        thread_count_spec(env_value, available) >= 1,
        thread_count_spec(env_value, available) <= 4 || (env_value is Some && parse_i32_spec(
            env_value->0@,
        ) == Some(thread_count_spec(env_value, available))),
{
}

/// The transcript has no whitespace at either end, and it is empty
/// exactly when every segment is blank.
pub proof fn transcript_is_trimmed(segs: Seq<Seq<char>>)
    ensures
        transcript(segs).len() > 0 ==> !is_white_space(transcript(segs)[0]),
        transcript(segs).len() > 0 ==> !is_white_space(transcript(segs).last()),
        transcript(segs).len() == 0 <==> forall|j: int| 0 <= j < segs.len() ==> #[trigger] trimmed(segs[j]).len() == 0,
{
    lemma_kept_segments(segs);
    let ws = kept_segments(segs);
    lemma_join_spaced_ends(ws);
    if ws.len() > 0 {
        assert(ws.last() == ws[ws.len() - 1]);
    }
}


/// The file transcribed is the voice note whenever the replied message has
/// one, whatever its audio file; the audio file only when there is no
/// voice note; and there is no file only when it has neither.
pub proof fn voice_note_wins(m: RepliedMedia)
    ensures
        m.voice_file_id is Some ==> media_file_id(m) == m.voice_file_id,
        m.voice_file_id is None ==> media_file_id(m) == m.audio_file_id,
        media_file_id(m) is None <==> (m.voice_file_id is None && m.audio_file_id is None),
{
}

proof fn lemma_join_spaced_flatten(ws: Seq<Seq<char>>)
    requires
        ws.len() > 0,
    ensures
        join_spaced(ws).push(' ') == ws.map_values(|w: Seq<char>| w.push(' ')).flatten(),
    decreases ws.len(),
{
    let f = |w: Seq<char>| w.push(' ');
    if ws.len() == 1 {
        assert(ws.map_values(f) =~= seq![ws[0].push(' ')]);
        ws.map_values(f).lemma_flatten_singleton();
    } else {
        let rest = ws.drop_last();
        lemma_join_spaced_flatten(rest);
        assert(ws.map_values(f) =~= rest.map_values(f).push(ws.last().push(' ')));
        rest.map_values(f).lemma_flatten_push(ws.last().push(' '));
        assert(join_spaced(ws).push(' ') =~= join_spaced(rest).push(' ') + ws.last().push(' '));
    }
}

proof fn lemma_kept_segments_filter(segs: Seq<Seq<char>>)
    ensures
        kept_segments(segs) == segs.map_values(|s: Seq<char>| trimmed(s)).filter(|t: Seq<char>| t.len() > 0),
    decreases segs.len(),
{
    let f = |s: Seq<char>| trimmed(s);
    let p = |t: Seq<char>| t.len() > 0;
    if segs.len() == 0 {
        assert(segs.map_values(f) =~= Seq::<Seq<char>>::empty());
        reveal(Seq::filter);
        assert(segs.map_values(f).filter(p) =~= Seq::<Seq<char>>::empty());
    } else {
        let rest = segs.drop_last();
        lemma_kept_segments_filter(rest);
        assert(segs.map_values(f) =~= rest.map_values(f).push(trimmed(segs.last())));
        rest.map_values(f).lemma_filter_push(trimmed(segs.last()), p);
    }
}

/// The transcript is made of all the segments that are not blank, each
/// trimmed, in their order, and nothing else: the kept segments are exactly
/// the trimmed segments that are not empty, and the transcript followed by
/// a space is each of them followed by a space, one after the other.
pub proof fn transcript_is_every_nonblank_segment(segs: Seq<Seq<char>>)
    ensures
        kept_segments(segs) == segs.map_values(|s: Seq<char>| trimmed(s)).filter(|t: Seq<char>| t.len() > 0),
        kept_segments(segs).len() == 0 ==> transcript(segs).len() == 0,
        kept_segments(segs).len() > 0 ==> transcript(segs).push(' ') == kept_segments(segs).map_values(
            |w: Seq<char>| w.push(' '),
        ).flatten(),
{
    lemma_kept_segments_filter(segs);
    if kept_segments(segs).len() > 0 {
        lemma_join_spaced_flatten(kept_segments(segs));
    }
}

} // verus!
