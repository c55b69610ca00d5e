//! Synthesis requests: normalization, validation, language parsing and the
//! alignment of text segments with language tags.

use crate::text::{
    chars_of, contains_char, decimal_text, joined, push_decimal, same_text, split_on, split_text,
    text_of, trim_text, trimmed, views_of,
};
use vstd::prelude::*;
use vstd::string::StringExecFns;

verus! {

/// The character that separates the segments of an input text.
pub const SEGMENT_DELIMITER: char = '|';

/// The character that separates the tags of a language specifier.
pub const LANGUAGE_DELIMITER: char = ',';

/// The smallest step count a request may ask for.
pub const MIN_TOTAL_STEP: usize = 1;

/// The largest step count a request may ask for.
pub const MAX_TOTAL_STEP: usize = 10;

/// The step count of a request that names none.
pub const DEFAULT_TOTAL_STEP: usize = 5;

/// Why a request was turned down before any work was done for it.
#[derive(Debug)]
pub enum RequestError {
    /// The input text is empty.
    EmptyInput,
    /// The voice is not in the style registry.
    UnsupportedVoice { voice: String },
    /// The step count lies outside the accepted range.
    StepOutOfRange,
    /// A language tag is not in the supported set.
    UnsupportedLanguage { tag: String },
    /// Several language tags were given, but not one per segment.
    SegmentMismatch { segments: usize, languages: usize },
}

/// The mathematical content of a [`RequestError`].
pub enum Rejection {
    EmptyInput,
    UnsupportedVoice(Seq<char>),
    StepOutOfRange,
    UnsupportedLanguage(Seq<char>),
    SegmentMismatch(nat, nat),
}

impl View for RequestError {
    type V = Rejection;

    open spec fn view(&self) -> Rejection {
        match *self {
            RequestError::EmptyInput => Rejection::EmptyInput,
            RequestError::UnsupportedVoice { voice } => Rejection::UnsupportedVoice(voice@),
            RequestError::StepOutOfRange => Rejection::StepOutOfRange,
            RequestError::UnsupportedLanguage { tag } => Rejection::UnsupportedLanguage(tag@),
            RequestError::SegmentMismatch { segments, languages } => Rejection::SegmentMismatch(
                segments as nat,
                languages as nat,
            ),
        }
    }
}

/// The text that reports `r` to the client.
pub open spec fn rejection_message(r: Rejection) -> Seq<char> {
    match r {
        Rejection::EmptyInput => "Input text cannot be empty"@,
        Rejection::UnsupportedVoice(voice) => "Unsupported voice: "@ + voice,
        Rejection::StepOutOfRange => "total_step must be between 1 and 10"@,
        Rejection::UnsupportedLanguage(tag) => "Invalid language: "@ + tag
            + ". Supported: [\"en\", \"ko\", \"es\", \"pt\", \"fr\"]"@,
        Rejection::SegmentMismatch(segments, languages) => "Mismatch: Input has "@ + decimal_text(
            segments,
        ) + " segments (split by '|'), but "@ + decimal_text(languages)
            + " languages provided. They must match or provide single language."@,
    }
}

impl RequestError {
    /// The text that reports this error to the client. For an unsupported
    /// language it names the tag and lists the supported set.
    pub fn message(&self) -> (m: String)
        ensures
            m@ == rejection_message(self@),
    {
        match self {
            RequestError::EmptyInput => String::from_str("Input text cannot be empty"),
            RequestError::UnsupportedVoice { voice } => joined(
                "Unsupported voice: ",
                voice.as_str(),
            ),
            RequestError::StepOutOfRange => String::from_str(
                "total_step must be between 1 and 10",
            ),
            RequestError::UnsupportedLanguage { tag } => {
                let mut m = joined("Invalid language: ", tag.as_str());
                m.append(". Supported: [\"en\", \"ko\", \"es\", \"pt\", \"fr\"]");
                m
            },
            RequestError::SegmentMismatch { segments, languages } => {
                let mut m = String::from_str("Mismatch: Input has ");
                push_decimal(&mut m, *segments as u64);
                m.append(" segments (split by '|'), but ");
                push_decimal(&mut m, *languages as u64);
                m.append(" languages provided. They must match or provide single language.");
                m
            },
        }
    }

    /// The HTTP status that reports this error: every one is the client's.
    pub fn status(&self) -> (code: u16)
        ensures
            code == 400,
    {
        400
    }
}

/// Whether `tag` is one of the languages the engine speaks.
pub open spec fn is_supported(tag: Seq<char>) -> bool {
    tag == "en"@ || tag == "ko"@ || tag == "es"@ || tag == "pt"@ || tag == "fr"@
}

/// Whether `tag` is one of the languages the engine speaks.
pub fn is_supported_language(tag: &str) -> (r: bool)
    ensures
        r == is_supported(tag@),
{
    same_text(tag, "en") || same_text(tag, "ko") || same_text(tag, "es") || same_text(tag, "pt")
        || same_text(tag, "fr")
}

/// Each piece of `pieces` without its surrounding white space.
pub open spec fn trimmed_each(pieces: Seq<Seq<char>>) -> Seq<Seq<char>> {
    Seq::new(pieces.len(), |i: int| trimmed(pieces[i]))
}

/// The tags a language specifier names: its pieces between commas, each
/// trimmed.
pub open spec fn language_tags(specifier: Seq<char>) -> Seq<Seq<char>> {
    trimmed_each(split_on(specifier, LANGUAGE_DELIMITER))
}

/// The first tag of `tags` that is not supported, if there is one.
pub open spec fn first_unsupported(tags: Seq<Seq<char>>) -> Option<Seq<char>>
    decreases tags.len(),
{
    if tags.len() == 0 {
        None
    } else if !is_supported(tags[0]) {
        Some(tags[0])
    } else {
        first_unsupported(tags.drop_first())
    }
}

/// No tag is reported as unsupported exactly when every tag is supported;
/// the tag that is reported is the first that is not.
pub proof fn lemma_first_unsupported(tags: Seq<Seq<char>>)
    ensures
        first_unsupported(tags) is None <==> forall|i: int|
            0 <= i < tags.len() ==> is_supported(#[trigger] tags[i]),
        first_unsupported(tags) matches Some(tag) ==> exists|i: int|
            0 <= i < tags.len() && #[trigger] tags[i] == tag && !is_supported(tag) && forall|
                j: int,
            |
                0 <= j < i ==> is_supported(#[trigger] tags[j]),
    decreases tags.len(),
{
    if tags.len() > 0 {
        let rest = tags.drop_first();
        lemma_first_unsupported(rest);
        if is_supported(tags[0]) {
            if first_unsupported(rest) is None {
                assert forall|i: int| 0 <= i < tags.len() implies is_supported(
                    #[trigger] tags[i],
                ) by {
                    if i > 0 {
                        assert(tags[i] == rest[i - 1]);
                    }
                }
            } else {
                let tag = first_unsupported(rest)->0;
                let i = choose|i: int|
                    0 <= i < rest.len() && #[trigger] rest[i] == tag && !is_supported(tag)
                        && forall|j: int| 0 <= j < i ==> is_supported(#[trigger] rest[j]);
                assert(tags[i + 1] == tag);
                assert forall|j: int| 0 <= j < i + 1 implies is_supported(#[trigger] tags[j]) by {
                    if j > 0 {
                        assert(tags[j] == rest[j - 1]);
                    }
                }
            }
        } else {
            assert(first_unsupported(tags) == Some(tags[0]));
        }
    }
}

/// What parsing a language specifier gives: its tags, or the rejection of
/// the first one that is not supported.
pub open spec fn parsed_languages(specifier: Seq<char>) -> Result<Seq<Seq<char>>, Rejection> {
    match first_unsupported(language_tags(specifier)) {
        Some(tag) => Err(Rejection::UnsupportedLanguage(tag)),
        None => Ok(language_tags(specifier)),
    }
}

/// The pieces of `text` between occurrences of `sep`, each trimmed.
pub fn split_trimmed(text: &str, sep: char) -> (pieces: Vec<String>)
    ensures
        views_of(pieces@) == trimmed_each(split_on(text@, sep)),
{
    let chars = chars_of(text);
    let raw = split_text(&chars, sep);
    let mut pieces: Vec<String> = Vec::new();
    let mut i: usize = 0;
    while i < raw.len()
        invariant
            i <= raw.len(),
            views_of(raw@) == split_on(text@, sep),
            pieces.len() == i,
            forall|k: int| 0 <= k < i ==> pieces@[k]@ == trimmed(#[trigger] raw@[k]@),
        decreases raw.len() - i,
    {
        let piece = chars_of(raw[i].as_str());
        pieces.push(trim_text(&piece));
        i += 1;
    }
    proof {
        let expected = trimmed_each(split_on(text@, sep));
        assert(views_of(pieces@).len() == expected.len());
        assert forall|k: int| 0 <= k < expected.len() implies views_of(pieces@)[k]
            == expected[k] by {
            assert(views_of(raw@)[k] == raw@[k]@);
        }
        assert(views_of(pieces@) =~= expected);
    }
    pieces
}

/// Parses a comma-separated language specifier. Each entry is trimmed and
/// must be a supported language; the first one that is not is the error.
pub fn parse_languages(specifier: &str) -> (r: Result<Vec<String>, RequestError>)
    ensures
        match r {
            Ok(tags) => parsed_languages(specifier@) == Ok::<Seq<Seq<char>>, Rejection>(
                views_of(tags@),
            ),
            Err(e) => parsed_languages(specifier@) == Err::<Seq<Seq<char>>, Rejection>(e@),
        },
{
    let tags = split_trimmed(specifier, LANGUAGE_DELIMITER);
    let ghost all = language_tags(specifier@);
    let mut i: usize = 0;
    assert(all.skip(0) == all);
    while i < tags.len()
        invariant
            i <= tags.len(),
            views_of(tags@) == all,
            all == language_tags(specifier@),
            first_unsupported(all) == first_unsupported(all.skip(i as int)),
        decreases tags.len() - i,
    {
        assert(all.skip(i as int)[0] == tags@[i as int]@) by {
            assert(views_of(tags@)[i as int] == tags@[i as int]@);
        }
        assert(all.skip(i as int).len() > 0);
        if !is_supported_language(tags[i].as_str()) {
            let tag = tags[i].clone();
            assert(first_unsupported(all.skip(i as int)) == Some(tag@));
            return Err(RequestError::UnsupportedLanguage { tag });
        }
        assert(all.skip(i as int).drop_first() == all.skip(i + 1));
        i += 1;
    }
    Ok(tags)
}

/// One unit of text to synthesize, with the language it is spoken in.
#[derive(Clone, Debug)]
pub struct Segment {
    pub text: String,
    pub language: String,
}

impl View for Segment {
    type V = (Seq<char>, Seq<char>);

    open spec fn view(&self) -> (Seq<char>, Seq<char>) {
        (self.text@, self.language@)
    }
}

/// The view of each segment of `v`, in order.
pub open spec fn segment_views(v: Seq<Segment>) -> Seq<(Seq<char>, Seq<char>)> {
    Seq::new(v.len(), |i: int| v[i]@)
}

/// The segments of an input text: its trimmed pieces between delimiters
/// where it holds a delimiter, else the whole text as it stands.
pub open spec fn segment_texts(input: Seq<char>) -> Seq<Seq<char>> {
    if input.contains(SEGMENT_DELIMITER) {
        trimmed_each(split_on(input, SEGMENT_DELIMITER))
    } else {
        seq![input]
    }
}

/// The language of each of `count` segments: a single tag is shared by
/// all, several tags are taken one per segment, and any other number of
/// tags fits no alignment.
pub open spec fn aligned_languages(count: nat, tags: Seq<Seq<char>>) -> Option<Seq<Seq<char>>> {
    if tags.len() == 1 {
        Some(Seq::new(count, |i: int| tags[0]))
    } else if tags.len() == count {
        Some(tags)
    } else {
        None
    }
}

/// What aligning `input` with `tags` gives: the segments, each with its
/// language, or the rejection that reports both counts.
pub open spec fn aligned_segments(input: Seq<char>, tags: Seq<Seq<char>>) -> Result<
    Seq<(Seq<char>, Seq<char>)>,
    Rejection,
> {
    let texts = segment_texts(input);
    match aligned_languages(texts.len(), tags) {
        Some(languages) => Ok(Seq::new(texts.len(), |i: int| (texts[i], languages[i]))),
        None => Err(Rejection::SegmentMismatch(texts.len(), tags.len())),
    }
}

/// Splits `input` into segments and gives each its language.
pub fn align_segments(input: &str, languages: &Vec<String>) -> (r: Result<
    Vec<Segment>,
    RequestError,
>)
    ensures
        match r {
            Ok(segments) => aligned_segments(input@, views_of(languages@)) == Ok::<
                Seq<(Seq<char>, Seq<char>)>,
                Rejection,
            >(segment_views(segments@)),
            Err(e) => aligned_segments(input@, views_of(languages@)) == Err::<
                Seq<(Seq<char>, Seq<char>)>,
                Rejection,
            >(e@),
        },
{
    let chars = chars_of(input);
    let texts: Vec<String> = if contains_char(&chars, SEGMENT_DELIMITER) {
        split_trimmed(input, SEGMENT_DELIMITER)
    } else {
        let mut whole: Vec<String> = Vec::new();
        whole.push(text_of(&chars));
        assert(views_of(whole@) =~= seq![input@]);
        whole
    };
    assert(views_of(texts@) == segment_texts(input@));
    let share = languages.len() == 1;
    if !share && languages.len() != texts.len() {
        return Err(
            RequestError::SegmentMismatch { segments: texts.len(), languages: languages.len() },
        );
    }
    let ghost tags = views_of(languages@);
    let ghost chosen = aligned_languages(texts.len() as nat, tags).unwrap();
    let mut segments: Vec<Segment> = Vec::new();
    let mut i: usize = 0;
    while i < texts.len()
        invariant
            i <= texts.len(),
            segments.len() == i,
            tags == views_of(languages@),
            share == (languages.len() == 1),
            share || languages.len() == texts.len(),
            aligned_languages(texts.len() as nat, tags) == Some(chosen),
            forall|k: int|
                0 <= k < i ==> (#[trigger] segments@[k])@ == (texts@[k]@, chosen[k]),
        decreases texts.len() - i,
    {
        let language = if share {
            languages[0].clone()
        } else {
            languages[i].clone()
        };
        assert(language@ == chosen[i as int]) by {
            if share {
                assert(tags[0] == languages@[0]@);
            } else {
                assert(tags[i as int] == languages@[i as int]@);
            }
        }
        segments.push(Segment { text: texts[i].clone(), language });
        i += 1;
    }
    proof {
        let expected = Seq::new(
            segment_texts(input@).len(),
            |k: int| (segment_texts(input@)[k], chosen[k]),
        );
        assert forall|k: int| 0 <= k < expected.len() implies segment_views(segments@)[k]
            == expected[k] by {
            assert(views_of(texts@)[k] == texts@[k]@);
        }
        assert(segment_views(segments@) =~= expected);
    }
    Ok(segments)
}

/// A request as the client sent it, before any default is applied or any
/// field is checked. The speed factor is carried as text: the factor
/// rendered with two decimals.
#[derive(Debug)]
pub struct CreateSpeechRequest {
    pub model: Option<String>,
    pub input: String,
    pub voice: String,
    pub response_format: Option<String>,
    pub speed: Option<String>,
    pub total_step: Option<usize>,
    pub lang: Option<String>,
}

/// The mathematical content of a [`SynthesisRequest`].
pub struct RequestModel {
    pub input: Seq<char>,
    pub voice: Seq<char>,
    pub format: Seq<char>,
    pub speed: Seq<char>,
    pub total_step: nat,
    pub lang: Seq<char>,
    pub segments: Seq<(Seq<char>, Seq<char>)>,
}

/// A request with every default applied and every field checked.
#[derive(Debug)]
pub struct SynthesisRequest {
    input: String,
    voice: String,
    format: String,
    speed: String,
    total_step: usize,
    lang: String,
    segments: Vec<Segment>,
}

impl View for SynthesisRequest {
    type V = RequestModel;

    closed spec fn view(&self) -> RequestModel {
        RequestModel {
            input: self.input@,
            voice: self.voice@,
            format: self.format@,
            speed: self.speed@,
            total_step: self.total_step as nat,
            lang: self.lang@,
            segments: segment_views(self.segments@),
        }
    }
}

/// The text of an optional field, or `default` where the field is absent.
pub open spec fn text_or(field: Option<String>, default: Seq<char>) -> Seq<char> {
    match field {
        Some(text) => text@,
        None => default,
    }
}

/// The step count a payload asks for.
pub open spec fn requested_step(total_step: Option<usize>) -> nat {
    match total_step {
        Some(n) => n as nat,
        None => DEFAULT_TOTAL_STEP as nat,
    }
}

/// What normalizing `payload` gives. The checks run in a fixed order and
/// the first one that fails decides the rejection: empty input, unknown
/// voice, step count out of range, unsupported language, and last a number
/// of languages that fits no alignment.
pub open spec fn normalized(payload: CreateSpeechRequest, voice_known: bool) -> Result<
    RequestModel,
    Rejection,
> {
    let lang = text_or(payload.lang, "en"@);
    let step = requested_step(payload.total_step);
    if payload.input@.len() == 0 {
        Err(Rejection::EmptyInput)
    } else if !voice_known {
        Err(Rejection::UnsupportedVoice(payload.voice@))
    } else if step < MIN_TOTAL_STEP || step > MAX_TOTAL_STEP {
        Err(Rejection::StepOutOfRange)
    } else {
        match parsed_languages(lang) {
            Err(e) => Err(e),
            Ok(tags) => match aligned_segments(payload.input@, tags) {
                Err(e) => Err(e),
                Ok(segments) => Ok(
                    RequestModel {
                        input: payload.input@,
                        voice: payload.voice@,
                        format: text_or(payload.response_format, "mp3"@),
                        speed: text_or(payload.speed, "1.00"@),
                        total_step: step,
                        lang,
                        segments,
                    },
                ),
            },
        }
    }
}

/// A request is accepted only with an input that is not empty, a voice
/// that is known, a step count from 1 to 10 and supported languages; it
/// then has one language for each of its segments, in the order of the
/// input.
pub proof fn lemma_accepted_request_is_valid(payload: CreateSpeechRequest, voice_known: bool)
    ensures
        normalized(payload, voice_known) matches Ok(m) ==> {
            &&& m.input.len() > 0
            &&& voice_known
            &&& MIN_TOTAL_STEP <= m.total_step <= MAX_TOTAL_STEP
            &&& forall|i: int|
                0 <= i < language_tags(m.lang).len() ==> is_supported(
                    #[trigger] language_tags(m.lang)[i],
                )
            &&& m.segments.len() == segment_texts(m.input).len()
            &&& forall|i: int|
                0 <= i < m.segments.len() ==> (#[trigger] m.segments[i]).0 == segment_texts(
                    m.input,
                )[i] && is_supported(m.segments[i].1)
        },
{
    if normalized(payload, voice_known) is Ok {
        let m = normalized(payload, voice_known)->Ok_0;
        let tags = language_tags(m.lang);
        lemma_first_unsupported(tags);
        let languages = aligned_languages(segment_texts(m.input).len(), tags)->0;
        assert forall|i: int| 0 <= i < m.segments.len() implies is_supported(
            (#[trigger] m.segments[i]).1,
        ) by {
            assert(is_supported(tags[0]));
            if tags.len() != 1 {
                assert(is_supported(tags[i]));
            }
            assert(m.segments[i].1 == languages[i]);
        }
    }
}

/// Whether `model` names a model this service knows. Any other name is
/// served all the same, by the default model.
pub fn model_is_recognized(model: &str) -> (r: bool)
    ensures
        r == (model@ == "supertonic-2"@ || model@ == "tts-1"@),
{
    same_text(model, "supertonic-2") || same_text(model, "tts-1")
}

fn text_or_default(field: Option<String>, default: &str) -> (text: String)
    ensures
        text@ == text_or(field, default@),
{
    match field {
        Some(text) => text,
        None => String::from_str(default),
    }
}

impl SynthesisRequest {
    /// Applies the defaults to `payload` and checks it. `voice_known` says
    /// whether the style registry holds the payload's voice.
    pub fn new(payload: CreateSpeechRequest, voice_known: bool) -> (r: Result<
        SynthesisRequest,
        RequestError,
    >)
        ensures
            match r {
                Ok(request) => normalized(payload, voice_known) == Ok::<RequestModel, Rejection>(
                    request@,
                ),
                Err(e) => normalized(payload, voice_known) == Err::<RequestModel, Rejection>(e@),
            },
    {
        let ghost before = payload;
        let CreateSpeechRequest { model: _, input, voice, response_format, speed, total_step, lang } =
            payload;
        if input.as_str().is_empty() {
            return Err(RequestError::EmptyInput);
        }
        if !voice_known {
            return Err(RequestError::UnsupportedVoice { voice });
        }
        let step = match total_step {
            Some(n) => n,
            None => DEFAULT_TOTAL_STEP,
        };
        if step < MIN_TOTAL_STEP || step > MAX_TOTAL_STEP {
            return Err(RequestError::StepOutOfRange);
        }
        let lang = text_or_default(lang, "en");
        let tags = match parse_languages(lang.as_str()) {
            Ok(tags) => tags,
            Err(e) => {
                return Err(e);
            },
        };
        let segments = match align_segments(input.as_str(), &tags) {
            Ok(segments) => segments,
            Err(e) => {
                return Err(e);
            },
        };
        let format = text_or_default(response_format, "mp3");
        let speed = text_or_default(speed, "1.00");
        Ok(SynthesisRequest { input, voice, format, speed, total_step: step, lang, segments })
    }

    /// The input text as the client sent it.
    pub fn input(&self) -> (r: &String)
        ensures
            r@ == self@.input,
    {
        &self.input
    }

    /// The voice the client asked for.
    pub fn voice(&self) -> (r: &String)
        ensures
            r@ == self@.voice,
    {
        &self.voice
    }

    /// The output format.
    pub fn format(&self) -> (r: &String)
        ensures
            r@ == self@.format,
    {
        &self.format
    }

    /// The speed factor, rendered with two decimals.
    pub fn speed(&self) -> (r: &String)
        ensures
            r@ == self@.speed,
    {
        &self.speed
    }

    /// The number of synthesis steps.
    pub fn total_step(&self) -> (r: usize)
        ensures
            r == self@.total_step,
    {
        self.total_step
    }

    /// The language specifier as the client sent it.
    pub fn lang(&self) -> (r: &String)
        ensures
            r@ == self@.lang,
    {
        &self.lang
    }

    /// The segments to synthesize, in order, each with its language.
    pub fn segments(&self) -> (r: &Vec<Segment>)
        ensures
            segment_views(r@) == self@.segments,
    {
        &self.segments
    }
}

} // verus!
