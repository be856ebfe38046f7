//! The speech-recognition session: which model is loaded, the language and
//! vocabulary hint handed to the recogniser, and how the recogniser's
//! segments become the text that is finally pasted.
//!
//! The recogniser itself runs outside this crate; the session only holds
//! its loaded model as an opaque value `C`.

use vstd::prelude::*;

use crate::text::{
    chars_of, collapse_spaces, collapse_spaces_chars, has_double_space, is_trimmed, lemma_collapse_spaces,
    lemma_remove_each, lemma_subrange_keeps_single_spaces, lemma_trim, occurs_in, remove_all_chars,
    remove_each, string_from_chars, trim, trim_chars,
};

verus! {

/// Language setting under which the recogniser detects the language itself.
pub open spec fn auto_language() -> Seq<char> {
    "auto"@
}

/// Vocabulary hint given to the recogniser until the user sets another.
pub open spec fn default_prompt() -> Seq<char> {
    "Gemini, OpenFlow, TypeScript, Rust, Tauri, React, деплой, фича, баг"@
}

/// Phrases the recogniser is known to invent on silence or noise; each is
/// deleted from every transcript, in this order.
pub open spec fn hallucination_phrases() -> Seq<Seq<char>> {
    seq![
        "[музыка]"@,
        "[Музыка]"@,
        "(музыка)"@,
        "(Музыка)"@,
        "[звук]"@,
        "[Звук]"@,
        "(звук)"@,
        "(Звук)"@,
        "[аплодисменты]"@,
        "[Аплодисменты]"@,
        "(аплодисменты)"@,
        "(Аплодисменты)"@,
        "Подпишись на канал"@,
        "подпишись на канал"@,
        "Ставьте лайки"@,
        "ставьте лайки"@,
        "Спасибо за просмотр"@,
        "спасибо за просмотр"@,
    ]
}

/// A transcript after clean-up: the known phrases deleted, runs of spaces
/// folded into one, and surrounding whitespace removed.
pub open spec fn clean_transcript(s: Seq<char>) -> Seq<char> {
    trim(collapse_spaces(remove_each(s, hallucination_phrases())))
}

/// The texts of the segments that the recogniser delivered, in order;
/// a segment whose text could not be read contributes nothing.
pub open spec fn joined_segments(segments: Seq<Option<String>>) -> Seq<char>
    decreases segments.len(),
{
    if segments.len() == 0 {
        Seq::empty()
    } else {
        joined_segments(segments.drop_last()) + match segments.last() {
            Some(t) => t@,
            None => Seq::empty(),
        }
    }
}

/// Prefix of the message reported when the model cannot be loaded.
pub open spec fn load_error_prefix() -> Seq<char> {
    "Ошибка загрузки модели Whisper: "@
}

/// Why a transcription did not produce text.
#[derive(Debug, PartialEq, Eq)]
pub enum TranscribeError {
    /// No model has been loaded yet.
    NotInitialized,
    /// The recogniser could not set up a decoding state; holds its report.
    CreateState(String),
    /// Decoding the audio failed; holds the recogniser's report.
    Inference(String),
    /// The number of decoded segments could not be read; holds the report.
    SegmentCount(String),
}

/// The message shown to the user for a transcription failure.
pub open spec fn error_message(e: TranscribeError) -> Seq<char> {
    match e {
        TranscribeError::NotInitialized => "Модель не инициализирована"@,
        TranscribeError::CreateState(d) => "Ошибка создания стейта: "@ + d@,
        TranscribeError::Inference(d) => "Ошибка инференса: "@ + d@,
        TranscribeError::SegmentCount(d) => "Ошибка получения сегментов: "@ + d@,
    }
}

impl TranscribeError {
    /// The message shown to the user for this failure.
    pub fn message(&self) -> (m: String)
        ensures
            m@ == error_message(*self),
    {
        match self {
            TranscribeError::NotInitialized => "Модель не инициализирована".to_string(),
            TranscribeError::CreateState(d) => "Ошибка создания стейта: ".to_string().concat(
                d.as_str(),
            ),
            TranscribeError::Inference(d) => "Ошибка инференса: ".to_string().concat(d.as_str()),
            TranscribeError::SegmentCount(d) => "Ошибка получения сегментов: ".to_string().concat(
                d.as_str(),
            ),
        }
    }
}

/// The phrases of [`hallucination_phrases`], as string slices.
fn hallucination_phrase_list() -> (v: Vec<&'static str>)
    ensures
        v@.len() == hallucination_phrases().len(),
        forall|k: int| 0 <= k < v@.len() ==> (#[trigger] v@[k])@ == hallucination_phrases()[k],
{
    let mut v: Vec<&'static str> = Vec::new();
    v.push("[музыка]");
    v.push("[Музыка]");
    v.push("(музыка)");
    v.push("(Музыка)");
    v.push("[звук]");
    v.push("[Звук]");
    v.push("(звук)");
    v.push("(Звук)");
    v.push("[аплодисменты]");
    v.push("[Аплодисменты]");
    v.push("(аплодисменты)");
    v.push("(Аплодисменты)");
    v.push("Подпишись на канал");
    v.push("подпишись на канал");
    v.push("Ставьте лайки");
    v.push("ставьте лайки");
    v.push("Спасибо за просмотр");
    v.push("спасибо за просмотр");
    v
}

/// A model file that can be loaded at start-up.
#[derive(Debug, PartialEq, Eq)]
pub enum ModelFile {
    /// The small model, preferred when present.
    Small,
    /// The base model.
    Base,
}

impl ModelFile {
    /// The file's name in the application's data directory.
    pub fn file_name(&self) -> (name: &'static str)
        ensures
            name@ == match self {
                ModelFile::Small => "ggml-small.bin"@,
                ModelFile::Base => "ggml-base.bin"@,
            },
    {
        match self {
            ModelFile::Small => "ggml-small.bin",
            ModelFile::Base => "ggml-base.bin",
        }
    }
}

/// The model to load at start-up, given which files exist: the small
/// model when present, otherwise the base model when present, otherwise
/// none, in which case the application reports that no model is ready.
pub fn startup_model(small_exists: bool, base_exists: bool) -> (r: Option<ModelFile>)
    ensures
        r == if small_exists {
            Some(ModelFile::Small)
        } else if base_exists {
            Some(ModelFile::Base)
        } else {
            None
        },
{
    if small_exists {
        Some(ModelFile::Small)
    } else if base_exists {
        Some(ModelFile::Base)
    } else {
        None
    }
}

/// A recognition session. `C` is the loaded model, which only the
/// recogniser looks into.
pub struct Transcriber<C> {
    context: Option<C>,
    /// Language code handed to the recogniser, or `auto`.
    pub language: String,
    /// Vocabulary hint handed to the recogniser.
    pub custom_prompt: String,
}

/// What a session holds: the loaded model, if any, the language and the
/// vocabulary hint.
pub struct TranscriberView<C> {
    pub model: Option<C>,
    pub language: Seq<char>,
    pub prompt: Seq<char>,
}

impl<C> View for Transcriber<C> {
    type V = TranscriberView<C>;

    closed spec fn view(&self) -> TranscriberView<C> {
        TranscriberView {
            model: self.context,
            language: self.language@,
            prompt: self.custom_prompt@,
        }
    }
}

impl<C> Transcriber<C> {
    /// A session with no model, automatic language detection and the
    /// default vocabulary hint.
    pub fn new() -> (t: Self)
        ensures
            t@.model is None,
            t@.language == auto_language(),
            t@.prompt == default_prompt(),
    {
        Transcriber {
            context: None,
            language: "auto".to_string(),
            custom_prompt: "Gemini, OpenFlow, TypeScript, Rust, Tauri, React, деплой, фича, баг".to_string(),
        }
    }

    /// Takes the outcome of opening a model file: a model is installed and
    /// `Ok` returned; an error report `d` leaves the session as it was and
    /// comes back prefixed as the user-facing message.
    pub fn load_model(&mut self, opened: Result<C, String>) -> (r: Result<(), String>)
        ensures
            final(self)@.language == old(self)@.language,
            final(self)@.prompt == old(self)@.prompt,
            final(self)@.model == model_after_load(old(self)@.model, opened),
            match opened {
                Ok(c) => r is Ok && final(self)@.model == Some(c),
                Err(d) => r matches Err(m) && m@ == load_error_prefix() + d@
                    && final(self)@.model == old(self)@.model,
            },
    {
        match opened {
            Ok(c) => {
                self.context = Some(c);
                Ok(())
            },
            Err(d) => Err("Ошибка загрузки модели Whisper: ".to_string().concat(d.as_str())),
        }
    }

    /// Whether a model has been loaded.
    pub fn is_loaded(&self) -> (b: bool)
        ensures
            b == self@.model is Some,
    {
        self.context.is_some()
    }

    /// The model to transcribe with: the first step of every
    /// transcription, which fails when no model is loaded.
    pub fn model(&self) -> (r: Result<&C, TranscribeError>)
        ensures
            match self@.model {
                Some(c) => r matches Ok(m) && *m == c,
                None => r matches Err(e) && e is NotInitialized,
            },
    {
        match &self.context {
            Some(c) => Ok(c),
            None => Err(TranscribeError::NotInitialized),
        }
    }

    /// Replaces the language and the vocabulary hint.
    pub fn set_settings(&mut self, language: String, prompt: String)
        ensures
            final(self)@.language == language@,
            final(self)@.prompt == prompt@,
            final(self)@.model == old(self)@.model,
    {
        self.language = language;
        self.custom_prompt = prompt;
    }

    /// The transcript built from the recogniser's segments: the texts that
    /// could be read, joined in order, then cleaned up.
    pub fn assemble_transcript(segments: &Vec<Option<String>>) -> (r: String)
        ensures
            r@ == clean_transcript(joined_segments(segments@)),
    {
        let mut joined: Vec<char> = Vec::new();
        let n = segments.len();
        for k in 0..n
            invariant
                n == segments@.len(),
                joined@ == joined_segments(segments@.take(k as int)),
        {
            assert(segments@.take(k + 1).drop_last() =~= segments@.take(k as int));
            match &segments[k] {
                Some(t) => {
                    let mut part = chars_of(t.as_str());
                    joined.append(&mut part);
                },
                None => {
                    assert(joined@ =~= joined@ + Seq::<char>::empty());
                },
            }
        }
        assert(segments@.take(n as int) =~= segments@);
        let text = string_from_chars(&joined);
        Self::clean_hallucinations(text.as_str())
    }

    /// Deletes the phrases the recogniser invents, folds runs of spaces
    /// into one and trims surrounding whitespace. The result is never
    /// longer than the input, has no two spaces side by side and no
    /// whitespace at either end.
    pub fn clean_hallucinations(text: &str) -> (r: String)
        ensures
            r@ == clean_transcript(text@),
            r@.len() <= text@.len(),
            !has_double_space(r@),
            is_trimmed(r@),
    {
        let phrases = hallucination_phrase_list();
        let ghost all = hallucination_phrases();
        let mut cur = chars_of(text);
        assert(all.take(0) =~= Seq::<Seq<char>>::empty());
        for k in 0..phrases.len()
            invariant
                phrases@.len() == all.len(),
                all == hallucination_phrases(),
                forall|j: int| 0 <= j < phrases@.len() ==> (#[trigger] phrases@[j])@ == all[j],
                cur@ == remove_each(text@, all.take(k as int)),
        {
            let p = chars_of(phrases[k]);
            assert(all.take(k + 1).drop_last() =~= all.take(k as int));
            assert(all.take(k + 1).last() == all[k as int]);
            cur = remove_all_chars(&cur, &p);
        }
        assert(all.take(all.len() as int) =~= all);
        let folded = collapse_spaces_chars(&cur);
        let trimmed = trim_chars(&folded);
        proof {
            lemma_remove_each(text@, all);
            lemma_collapse_spaces(cur@);
            let (a, b) = lemma_trim(folded@);
            lemma_subrange_keeps_single_spaces(folded@, a, b);
        }
        string_from_chars(&trimmed)
    }
}

/// Clean-up leaves alone a transcript that is already clean: one that holds
/// none of the invented phrases, no two spaces side by side and no
/// whitespace at either end.
pub proof fn lemma_clean_text_unchanged(s: Seq<char>)
    requires
        forall|k: int|
            0 <= k < hallucination_phrases().len() ==> !occurs_in(
                s,
                #[trigger] hallucination_phrases()[k],
            ),
        !has_double_space(s),
        is_trimmed(s),
    ensures
        clean_transcript(s) == s,
{
    lemma_remove_each(s, hallucination_phrases());
    lemma_collapse_spaces(s);
    lemma_trim(s);
}

/// Clean-up is settled after one pass on any transcript that comes out of
/// it free of the invented phrases: cleaning it again changes nothing.
pub proof fn lemma_clean_settles(s: Seq<char>)
    requires
        forall|k: int|
            0 <= k < hallucination_phrases().len() ==> !occurs_in(
                clean_transcript(s),
                #[trigger] hallucination_phrases()[k],
            ),
    ensures
        clean_transcript(clean_transcript(s)) == clean_transcript(s),
{
    let r = remove_each(s, hallucination_phrases());
    lemma_collapse_spaces(r);
    let c = collapse_spaces(r);
    let (a, b) = lemma_trim(c);
    lemma_subrange_keeps_single_spaces(c, a, b);
    lemma_clean_text_unchanged(clean_transcript(s));
}

/// A call that can change a session's model or settings.
pub enum SessionCall<C> {
    /// `load_model` with the outcome of opening a model file.
    Load(Result<C, String>),
    /// `set_settings` with a language and a vocabulary hint.
    Settings(String, String),
}

/// The model after `load_model` is given `opened`: a newly opened model
/// replaces the current one; a failure keeps it.
pub open spec fn model_after_load<C>(model: Option<C>, opened: Result<C, String>) -> Option<C> {
    match opened {
        Ok(c) => Some(c),
        Err(_) => model,
    }
}

/// The model after the calls `calls`, in order, starting from `model`.
pub open spec fn model_after<C>(model: Option<C>, calls: Seq<SessionCall<C>>) -> Option<C>
    decreases calls.len(),
{
    if calls.len() == 0 {
        model
    } else {
        let before = model_after(model, calls.drop_last());
        match calls.last() {
            SessionCall::Load(opened) => model_after_load(before, opened),
            SessionCall::Settings(_, _) => before,
        }
    }
}

/// Whether call `call` is a load whose model file opened.
pub open spec fn is_successful_load<C>(call: SessionCall<C>) -> bool {
    call matches SessionCall::Load(Ok(_))
}

/// A session holds a model after a sequence of `load_model` and
/// `set_settings` calls exactly when it held one before or one of the loads
/// succeeded; in particular a new session is loaded exactly when some load
/// succeeded, and once loaded it stays loaded. (Transcribing and reading
/// the state take the session by shared reference and change nothing.)
pub proof fn lemma_loaded_after_calls<C>(model: Option<C>, calls: Seq<SessionCall<C>>)
    ensures
        model_after(model, calls) is Some <==> (model is Some || exists|i: int|
            0 <= i < calls.len() && is_successful_load(#[trigger] calls[i])),
        model is Some ==> model_after(model, calls) is Some,
    decreases calls.len(),
{
    if calls.len() > 0 {
        let rest = calls.drop_last();
        lemma_loaded_after_calls(model, rest);
        let last = calls.len() - 1;
        if model_after(model, calls) is Some && model is None {
            if is_successful_load(calls[last]) {
            } else {
                let i = choose|i: int| 0 <= i < rest.len() && is_successful_load(#[trigger] rest[i]);
                assert(calls[i] == rest[i]);
            }
        }
        if exists|i: int| 0 <= i < calls.len() && is_successful_load(#[trigger] calls[i]) {
            let i = choose|i: int| 0 <= i < calls.len() && is_successful_load(#[trigger] calls[i]);
            if i < last {
                assert(rest[i] == calls[i]);
            }
        }
    }
}

/// Clean-up deletes nothing but these phrases: a transcript in which
/// none of them occurs, with no two spaces side by side and no whitespace
/// at either end, comes back unchanged, whatever other words it holds.
pub proof fn lemma_only_listed_phrases_removed(s: Seq<char>)
    requires
        !occurs_in(s, "[музыка]"@),
        !occurs_in(s, "[Музыка]"@),
        !occurs_in(s, "(музыка)"@),
        !occurs_in(s, "(Музыка)"@),
        !occurs_in(s, "[звук]"@),
        !occurs_in(s, "[Звук]"@),
        !occurs_in(s, "(звук)"@),
        !occurs_in(s, "(Звук)"@),
        !occurs_in(s, "[аплодисменты]"@),
        !occurs_in(s, "[Аплодисменты]"@),
        !occurs_in(s, "(аплодисменты)"@),
        !occurs_in(s, "(Аплодисменты)"@),
        !occurs_in(s, "Подпишись на канал"@),
        !occurs_in(s, "подпишись на канал"@),
        !occurs_in(s, "Ставьте лайки"@),
        !occurs_in(s, "ставьте лайки"@),
        !occurs_in(s, "Спасибо за просмотр"@),
        !occurs_in(s, "спасибо за просмотр"@),
        !has_double_space(s),
        is_trimmed(s),
    ensures
        clean_transcript(s) == s,
{
    let hp = hallucination_phrases();
    assert(hp.len() == 18);
    assert forall|k: int| 0 <= k < hp.len() implies !occurs_in(s, #[trigger] hp[k]) by {
        if k == 0 { assert(hp[k] == "[музыка]"@); }
        if k == 1 { assert(hp[k] == "[Музыка]"@); }
        if k == 2 { assert(hp[k] == "(музыка)"@); }
        if k == 3 { assert(hp[k] == "(Музыка)"@); }
        if k == 4 { assert(hp[k] == "[звук]"@); }
        if k == 5 { assert(hp[k] == "[Звук]"@); }
        if k == 6 { assert(hp[k] == "(звук)"@); }
        if k == 7 { assert(hp[k] == "(Звук)"@); }
        if k == 8 { assert(hp[k] == "[аплодисменты]"@); }
        if k == 9 { assert(hp[k] == "[Аплодисменты]"@); }
        if k == 10 { assert(hp[k] == "(аплодисменты)"@); }
        if k == 11 { assert(hp[k] == "(Аплодисменты)"@); }
        if k == 12 { assert(hp[k] == "Подпишись на канал"@); }
        if k == 13 { assert(hp[k] == "подпишись на канал"@); }
        if k == 14 { assert(hp[k] == "Ставьте лайки"@); }
        if k == 15 { assert(hp[k] == "ставьте лайки"@); }
        if k == 16 { assert(hp[k] == "Спасибо за просмотр"@); }
        if k == 17 { assert(hp[k] == "спасибо за просмотр"@); }
    }
    lemma_clean_text_unchanged(s);
}

/// The transcript text grows segment by segment: a readable segment adds
/// its text at the end, an unreadable one adds nothing.
pub proof fn lemma_joined_segments_push(segments: Seq<Option<String>>, t: String)
    ensures
        joined_segments(segments.push(Some(t))) == joined_segments(segments) + t@,
        joined_segments(segments.push(None)) == joined_segments(segments),
{
    assert(segments.push(Some(t)).drop_last() =~= segments);
    assert(segments.push(None::<String>).drop_last() =~= segments);
    assert(joined_segments(segments) + Seq::<char>::empty() =~= joined_segments(segments));
}

/// Joining is the concatenation of the parts: the text of two runs of
/// segments one after the other is the text of the first followed by the
/// text of the second.
pub proof fn lemma_joined_segments_concat(a: Seq<Option<String>>, b: Seq<Option<String>>)
    ensures
        joined_segments(a + b) == joined_segments(a) + joined_segments(b),
    decreases b.len(),
{
    if b.len() == 0 {
        assert(a + b =~= a);
        assert(joined_segments(a) + Seq::<char>::empty() =~= joined_segments(a));
    } else {
        let rest = b.drop_last();
        lemma_joined_segments_concat(a, rest);
        assert((a + b).drop_last() =~= a + rest);
        assert((a + b).last() == b.last());
        match b.last() {
            Some(t) => {
                assert(joined_segments(a) + joined_segments(rest) + t@ =~= joined_segments(a) + (
                joined_segments(rest) + t@));
            },
            None => {
                assert(joined_segments(a + rest) + Seq::<char>::empty() =~= joined_segments(
                    a + rest,
                ));
                assert(joined_segments(rest) + Seq::<char>::empty() =~= joined_segments(rest));
            },
        }
    }
}

/// The text of a failure message is a fixed heading for the kind of
/// failure followed by the recogniser's whole report: it ends with the
/// report, and what comes before the report is the same for every report.
pub proof fn lemma_error_message_carries_report(d1: String, d2: String)
    ensures
        ({
            let m1 = error_message(TranscribeError::CreateState(d1));
            let m2 = error_message(TranscribeError::CreateState(d2));
            &&& m1.len() >= d1@.len()
            &&& m1.skip(m1.len() - d1@.len()) == d1@
            &&& m1.take(m1.len() - d1@.len()) == m2.take(m2.len() - d2@.len())
        }),
        ({
            let m1 = error_message(TranscribeError::Inference(d1));
            let m2 = error_message(TranscribeError::Inference(d2));
            &&& m1.len() >= d1@.len()
            &&& m1.skip(m1.len() - d1@.len()) == d1@
            &&& m1.take(m1.len() - d1@.len()) == m2.take(m2.len() - d2@.len())
        }),
        ({
            let m1 = error_message(TranscribeError::SegmentCount(d1));
            let m2 = error_message(TranscribeError::SegmentCount(d2));
            &&& m1.len() >= d1@.len()
            &&& m1.skip(m1.len() - d1@.len()) == d1@
            &&& m1.take(m1.len() - d1@.len()) == m2.take(m2.len() - d2@.len())
        }),
{
    let h1 = "Ошибка создания стейта: "@;
    let h2 = "Ошибка инференса: "@;
    let h3 = "Ошибка получения сегментов: "@;
    assert((h1 + d1@).skip(h1.len() as int) =~= d1@);
    assert((h1 + d1@).take(h1.len() as int) =~= h1);
    assert((h1 + d2@).take(h1.len() as int) =~= h1);
    assert((h2 + d1@).skip(h2.len() as int) =~= d1@);
    assert((h2 + d1@).take(h2.len() as int) =~= h2);
    assert((h2 + d2@).take(h2.len() as int) =~= h2);
    assert((h3 + d1@).skip(h3.len() as int) =~= d1@);
    assert((h3 + d1@).take(h3.len() as int) =~= h3);
    assert((h3 + d2@).take(h3.len() as int) =~= h3);
}

} // verus!
