//! The course of one request: validation, cache lookup, synthesis,
//! encoding, storing and the answer. Each step takes what the outside
//! world reported and says what to do next; the caller does the I/O.

use crate::audio::{
    concat_samples, concatenated, content_type_of, conversion_of, convert_audio,
    determine_content_type, failure_message, finish_external, Conversion, ConversionModel,
    EncodeError, EncodeFailure,
};
use crate::cache::{cache_file, cache_file_of, cache_key_of};
use crate::request::{
    normalized, rejection_message, CreateSpeechRequest, Rejection, RequestError, RequestModel,
    SynthesisRequest,
};
use crate::synthesis::Synthesis;
use crate::text::{joined, views_of};
use vstd::prelude::*;

verus! {

/// The status of an answer that blames the request.
pub const STATUS_BAD_REQUEST: u16 = 400;

/// The status of an answer that reports a failure of the service.
pub const STATUS_INTERNAL_ERROR: u16 = 500;

/// What the client is sent.
#[derive(Debug)]
pub enum Response {
    /// Audio, announced by its content type.
    Audio { content_type: String, bytes: Vec<u8> },
    /// A plain-text reason under an error status.
    Failure { status: u16, message: String },
}

/// The mathematical content of a [`Response`].
pub enum ResponseModel {
    Audio(Seq<char>, Seq<u8>),
    Failure(int, Seq<char>),
}

impl View for Response {
    type V = ResponseModel;

    open spec fn view(&self) -> ResponseModel {
        match *self {
            Response::Audio { content_type, bytes } => ResponseModel::Audio(content_type@, bytes@),
            Response::Failure { status, message } => ResponseModel::Failure(
                status as int,
                message@,
            ),
        }
    }
}

/// Why a valid request could not be served.
#[derive(Debug)]
pub enum ServiceError {
    /// The engine failed on the segment at place `segment`.
    Engine { segment: usize, reason: String },
    /// The task that ran the engine did not come back.
    Task { reason: String },
    /// The audio could not be brought into the requested format.
    Conversion { error: EncodeError },
}

/// The mathematical content of a [`ServiceError`].
pub enum ServiceFailure {
    Engine(nat, Seq<char>),
    Task(Seq<char>),
    Conversion(EncodeFailure),
}

impl View for ServiceError {
    type V = ServiceFailure;

    open spec fn view(&self) -> ServiceFailure {
        match *self {
            ServiceError::Engine { segment, reason } => ServiceFailure::Engine(
                segment as nat,
                reason@,
            ),
            ServiceError::Task { reason } => ServiceFailure::Task(reason@),
            ServiceError::Conversion { error } => ServiceFailure::Conversion(error@),
        }
    }
}

/// The text that reports `f` to the client.
pub open spec fn service_message(f: ServiceFailure) -> Seq<char> {
    match f {
        ServiceFailure::Engine(_, reason) => "TTS Error: "@ + reason,
        ServiceFailure::Task(reason) => "Task Error: "@ + reason,
        ServiceFailure::Conversion(e) => "Conversion Error: "@ + failure_message(e),
    }
}

impl ServiceError {
    /// The text that reports this error to the client.
    pub fn message(&self) -> (m: String)
        ensures
            m@ == service_message(self@),
    {
        match self {
            ServiceError::Engine { segment: _, reason } => joined("TTS Error: ", reason.as_str()),
            ServiceError::Task { reason } => joined("Task Error: ", reason.as_str()),
            ServiceError::Conversion { error } => {
                let reason = error.message();
                joined("Conversion Error: ", reason.as_str())
            },
        }
    }

    /// The HTTP status that reports this error: every one is the
    /// service's.
    pub fn status(&self) -> (code: u16)
        ensures
            code == STATUS_INTERNAL_ERROR,
    {
        STATUS_INTERNAL_ERROR
    }

    /// The answer that reports this error.
    pub fn response(&self) -> (response: Response)
        ensures
            response@ == ResponseModel::Failure(
                STATUS_INTERNAL_ERROR as int,
                service_message(self@),
            ),
    {
        Response::Failure { status: self.status(), message: self.message() }
    }
}

/// The answer to a request that was turned down.
pub fn rejection_response(error: &RequestError) -> (response: Response)
    ensures
        response@ == ResponseModel::Failure(
            STATUS_BAD_REQUEST as int,
            rejection_message(error@),
        ),
{
    Response::Failure { status: error.status(), message: error.message() }
}

/// Audio to store in the cache as `file` and to send to the client. A
/// write that fails is noted and the audio is sent all the same.
#[derive(Debug)]
pub struct Delivery {
    pub file: String,
    pub content_type: String,
    pub bytes: Vec<u8>,
}

/// A valid request that waits for the lookup of `file` in the cache.
#[derive(Debug)]
pub struct Lookup {
    pub request: SynthesisRequest,
    pub file: String,
}

/// A valid request that waits for the synthesis of its segments.
#[derive(Debug)]
pub struct Job {
    pub request: SynthesisRequest,
    pub file: String,
}

/// A request whose audio waits for the run of the external encoder.
#[derive(Debug)]
pub struct EncoderJob {
    pub arguments: Vec<String>,
    pub input: Vec<u8>,
    pub file: String,
    pub content_type: String,
}

/// What the cache reported of a file.
#[derive(Debug)]
pub enum CacheLookup {
    /// The file exists and was read.
    Hit { bytes: Vec<u8> },
    /// The file exists and could not be read.
    Unreadable,
    /// There is no such file.
    Missing,
}

/// What to do after the lookup.
#[derive(Debug)]
pub enum AfterLookup {
    /// Send the stored audio.
    Respond(Response),
    /// Synthesize the segments of the request, one after the other.
    Synthesize(Job),
}

/// What to do after the synthesis.
#[derive(Debug)]
pub enum AfterSynthesis {
    /// Store and send the audio.
    Deliver(Delivery),
    /// Run the external encoder.
    Encode(EncoderJob),
}

/// What the run of the external encoder came to.
#[derive(Debug)]
pub enum EncoderRun {
    /// The encoder ran to its end, with status zero or not, and wrote
    /// `output`.
    Finished { succeeded: bool, output: Vec<u8> },
    /// The encoder could not be started, fed or awaited.
    Unavailable { reason: String },
}

/// Checks `payload` and names the cache file of the request.
pub fn begin(payload: CreateSpeechRequest, voice_known: bool) -> (r: Result<Lookup, RequestError>)
    ensures
        match r {
            Ok(lookup) => {
                &&& normalized(payload, voice_known) == Ok::<RequestModel, Rejection>(
                    lookup.request@,
                )
                &&& lookup.file@ == cache_file_of(
                    cache_key_of(lookup.request@),
                    lookup.request@.format,
                )
            },
            Err(e) => normalized(payload, voice_known) == Err::<RequestModel, Rejection>(e@),
        },
{
    match SynthesisRequest::new(payload, voice_known) {
        Ok(request) => {
            let file = cache_file(&request);
            Ok(Lookup { request, file })
        },
        Err(error) => Err(error),
    }
}

impl Lookup {
    /// A hit is answered with the stored bytes and nothing is synthesized.
    /// A file that is missing, or cannot be read, is made anew.
    pub fn after_lookup(self, outcome: CacheLookup) -> (r: AfterLookup)
        ensures
            match outcome {
                CacheLookup::Hit { bytes } => r matches AfterLookup::Respond(response)
                    && response@ == ResponseModel::Audio(
                    content_type_of(self.request@.format),
                    bytes@,
                ),
                _ => r matches AfterLookup::Synthesize(job) && job.request == self.request
                    && job.file == self.file,
            },
    {
        match outcome {
            CacheLookup::Hit { bytes } => {
                let content_type = determine_content_type(self.request.format().as_str());
                AfterLookup::Respond(Response::Audio { content_type, bytes })
            },
            _ => AfterLookup::Synthesize(Job { request: self.request, file: self.file }),
        }
    }
}

/// Whether `delivery` stores `bytes` as `file` and sends them under
/// `content_type`.
pub open spec fn delivers(
    delivery: Delivery,
    file: Seq<char>,
    content_type: Seq<char>,
    bytes: Seq<u8>,
) -> bool {
    &&& delivery.file@ == file
    &&& delivery.content_type@ == content_type
    &&& delivery.bytes@ == bytes
}

/// What the synthesis of the request with the given format and cache file
/// comes to.
pub open spec fn is_after_synthesis(
    r: Result<AfterSynthesis, ServiceError>,
    outcome: Synthesis,
    format: Seq<char>,
    file: Seq<char>,
) -> bool {
    match outcome {
        Synthesis::Samples { parts, sample_rate } => match conversion_of(
            concatenated(parts@),
            sample_rate as int,
            format,
        ) {
            Ok(ConversionModel::Done(bytes)) => r matches Ok(AfterSynthesis::Deliver(d))
                && delivers(d, file, content_type_of(format), bytes),
            Ok(ConversionModel::External(arguments, input)) => {
                &&& r matches Ok(AfterSynthesis::Encode(job))
                &&& views_of(job.arguments@) == arguments
                &&& job.input@ == input
                &&& job.file@ == file
                &&& job.content_type@ == content_type_of(format)
            },
            Err(e) => r matches Err(error) && error@ == ServiceFailure::Conversion(e),
        },
        Synthesis::EngineFailed { segment, reason } => r matches Err(error) && error@
            == ServiceFailure::Engine(segment as nat, reason@),
        Synthesis::TaskFailed { reason } => r matches Err(error) && error@
            == ServiceFailure::Task(reason@),
    }
}

impl Job {
    /// The samples of the segments are joined in order and brought into
    /// the requested format: the library delivers `pcm` and `wav` itself
    /// and hands every other format to the external encoder. A failure of
    /// the engine, of its task or of the conversion is an error of the
    /// service.
    pub fn after_synthesis(self, outcome: Synthesis) -> (r: Result<AfterSynthesis, ServiceError>)
        ensures
            is_after_synthesis(r, outcome, self.request@.format, self.file@),
    {
        match outcome {
            Synthesis::Samples { parts, sample_rate } => {
                let samples = concat_samples(&parts);
                let format = self.request.format();
                let content_type = determine_content_type(format.as_str());
                match convert_audio(&samples, sample_rate, format.as_str()) {
                    Ok(Conversion::Done { bytes }) => Ok(
                        AfterSynthesis::Deliver(Delivery { file: self.file, content_type, bytes }),
                    ),
                    Ok(Conversion::External { arguments, input }) => Ok(
                        AfterSynthesis::Encode(
                            EncoderJob { arguments, input, file: self.file, content_type },
                        ),
                    ),
                    Err(error) => Err(ServiceError::Conversion { error }),
                }
            },
            Synthesis::EngineFailed { segment, reason } => Err(
                ServiceError::Engine { segment, reason },
            ),
            Synthesis::TaskFailed { reason } => Err(ServiceError::Task { reason }),
        }
    }
}

impl EncoderJob {
    /// What the encoder wrote is delivered where it ended with status
    /// zero. Any other end is a failure of the conversion.
    pub fn after_encoder(self, outcome: EncoderRun) -> (r: Result<Delivery, ServiceError>)
        ensures
            match outcome {
                EncoderRun::Finished { succeeded, output } => if succeeded {
                    r matches Ok(d) && delivers(d, self.file@, self.content_type@, output@)
                } else {
                    r matches Err(error) && error@ == ServiceFailure::Conversion(
                        EncodeFailure::EncoderFailed,
                    )
                },
                EncoderRun::Unavailable { reason } => r matches Err(error) && error@
                    == ServiceFailure::Conversion(EncodeFailure::EncoderUnavailable(reason@)),
            },
    {
        match outcome {
            EncoderRun::Finished { succeeded, output } => match finish_external(
                succeeded,
                output,
            ) {
                Ok(bytes) => Ok(
                    Delivery { file: self.file, content_type: self.content_type, bytes },
                ),
                Err(error) => Err(ServiceError::Conversion { error }),
            },
            EncoderRun::Unavailable { reason } => Err(
                ServiceError::Conversion { error: EncodeError::EncoderUnavailable { reason } },
            ),
        }
    }
}

} // verus!
