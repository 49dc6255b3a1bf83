//! One request, from its path to its response.
//!
//! The library decides and the caller acts. `start` reads the request. For
//! an accepted request the caller asks the cache for the source bytes with
//! `FetchCache::get_or_fetch`, holding the cache's lock; on a miss it
//! fetches, hands the outcome to `FetchCache::complete`, and only then lets
//! the lock go. `finish` turns the source into the response.

use crate::codec::decoded;
use crate::engine::Engine;
use crate::engine::Photon;
use crate::error::DecodeSpecError;
use crate::error::Error;
use crate::error::FetchError;
use crate::error::Status;
use crate::ops::OutputFormat;
use crate::ops::Resize;
use crate::ops::Spec;
use crate::picture::admitted;
use crate::picture::admits;
use crate::picture::encoding;
use crate::picture::leads;
use crate::picture::lemma_refused_not_admitted;
use crate::picture::lemma_resize_sets_shape;
use crate::picture::picture_of;
use crate::picture::refused_at;
use crate::picture::Picture;
use crate::picture::side_limit;
use crate::raw::bytes_content;
use crate::source::percent_decoded;
use crate::source::url_parses;
use crate::source::SourceUrl;
use bytes::Bytes;
use vstd::prelude::*;

verus! {

/// A request that was read: where the source is and what to do with it.
pub struct Request {
    pub url: SourceUrl,
    pub specs: Vec<Spec>,
}

/// What a request is answered with. A failure carries no format and no
/// body.
pub struct Response {
    pub status: Status,
    pub format: Option<OutputFormat>,
    pub body: Vec<u8>,
}

/// What the caller does after `start`.
pub enum Step {
    /// Obtain the source bytes of this request, then call `finish`.
    Acquire(Request),
    /// Send this response; nothing is fetched.
    Respond(Response),
}

/// The index of the first operation of `specs` that is not admitted, where
/// there is one.
pub open spec fn first_refused(width: nat, height: nat, specs: Seq<Spec>) -> int {
    choose|index: int| refused_at(width, height, specs, index)
}

/// What writing `after` in `format` comes to.
pub open spec fn written(after: Picture, format: OutputFormat) -> Result<Seq<u8>, Error> {
    match encoding(after, format) {
        Some(bytes) => Ok(bytes),
        None => Err(Error::Encode),
    }
}

/// Whether `out` is what applying `specs` to `pic` and writing the result
/// in `format` can come to. A list that is not admitted comes to the error
/// of its first refused operation. An admitted list comes to what the
/// encoder makes of an image that the list leads to; where every operation
/// is exact there is one such image.
pub open spec fn processed(
    pic: Picture,
    specs: Seq<Spec>,
    format: OutputFormat,
    out: Result<Seq<u8>, Error>,
) -> bool {
    if !admitted(pic.width, pic.height, specs) {
        out == Err::<Seq<u8>, Error>(
            Error::Operation { index: first_refused(pic.width, pic.height, specs) as usize },
        )
    } else {
        exists|after: Picture| (#[trigger] leads(pic, specs, after)) && out == written(after, format)
    }
}

/// Whether `out` is what the source bytes `data` can come to: decoded,
/// transformed by `specs`, and written in `format`.
pub open spec fn rendered(
    data: Seq<u8>,
    specs: Seq<Spec>,
    format: OutputFormat,
    out: Result<Seq<u8>, Error>,
) -> bool {
    match decoded(data, side_limit()) {
        Some((width, height, pixels)) => if picture_of(width, height, pixels).wf() {
            processed(picture_of(width, height, pixels), specs, format, out)
        } else {
            out == Err::<Seq<u8>, Error>(Error::ImageDecode)
        },
        None => out == Err::<Seq<u8>, Error>(Error::ImageDecode),
    }
}

/// The bytes of a result as a sequence.
pub open spec fn outcome(out: Result<Vec<u8>, Error>) -> Result<Seq<u8>, Error> {
    match out {
        Ok(bytes) => Ok(bytes@),
        Err(e) => Err(e),
    }
}

impl Response {
    /// Whether this is the response to `outcome`: a success carries the
    /// bytes and their format; a failure carries its status and nothing
    /// else.
    pub open spec fn answers(self, outcome: Result<Seq<u8>, Error>, format: OutputFormat) -> bool {
        match outcome {
            Ok(bytes) => {
                &&& self.status == Status::Success
                &&& self.format == Some(format)
                &&& self.body@ == bytes
            },
            Err(e) => {
                &&& self.status == e.status()
                &&& self.format is None
                &&& self.body@.len() == 0
            },
        }
    }

    /// The response that reports `error`.
    pub fn failure(error: Error) -> (response: Response)
        ensures
            response.status == error.status(),
            response.status != Status::Success,
            response.format is None,
            response.body@.len() == 0,
    {
        Response { status: error.status(), format: None, body: Vec::new() }
    }

    /// The response that carries an image written in `format`.
    pub fn image(body: Vec<u8>, format: OutputFormat) -> (response: Response)
        ensures
            response.status == Status::Success,
            response.format == Some(format),
            response.body == body,
    {
        Response { status: Status::Success, format: Some(format), body }
    }

    /// The media type of the body, where there is one.
    pub fn content_type(&self) -> (text: Option<&'static str>)
        ensures
            match text {
                Some(t) => self.format is Some && t@ == self.format->0.media_type(),
                None => self.format is None,
            },
    {
        match self.format {
            Some(format) => Some(format.content_type()),
            None => None,
        }
    }
}

/// Reads a request. `specs` is what the decoder made of the operations'
/// segment, `segment` the percent-encoded address of the source. A failed
/// decoding and an address that is no absolute URL are answered at once, in
/// that order, as bad requests: nothing is fetched for them.
pub fn start(specs: Result<Vec<Spec>, DecodeSpecError>, segment: &str) -> (step: Step)
    ensures
        match step {
            Step::Acquire(request) => {
                &&& specs is Ok
                &&& request.specs == specs->Ok_0
                &&& url_parses(percent_decoded(segment@))
                &&& request.url@ == percent_decoded(segment@)
            },
            Step::Respond(response) => {
                &&& specs is Err || !url_parses(percent_decoded(segment@))
                &&& response.status == Status::BadRequest
                &&& response.format is None
                &&& response.body@.len() == 0
            },
        },
{
    match specs {
        Err(_) => Step::Respond(Response::failure(Error::DecodeSpec)),
        Ok(specs) => match SourceUrl::from_segment(segment) {
            Err(_) => Step::Respond(Response::failure(Error::InvalidUrl)),
            Ok(url) => Step::Acquire(Request { url, specs }),
        },
    }
}

/// Applies `specs` to the image of any engine and writes the result.
pub fn process<E: Engine>(engine: E, specs: &[Spec], format: OutputFormat) -> (out: Result<
    Vec<u8>,
    Error,
>)
    requires
        engine.wf(),
    ensures
        processed(engine.picture(), specs@, format, outcome(out)),
{
    let mut engine = engine;
    let ghost before = engine.picture();
    match engine.apply(specs) {
        Err(e) => {
            proof {
                let index = e->index as int;
                lemma_refused_not_admitted(before.width, before.height, specs@, index);
                let first = first_refused(before.width, before.height, specs@);
                assert(refused_at(before.width, before.height, specs@, first));
            }
            Err(e)
        },
        Ok(_) => {
            let ghost after = engine.picture();
            let out = engine.generate(format);
            assert(leads(before, specs@, after) && outcome(out) == written(after, format));
            out
        },
    }
}

/// Decodes the source bytes, applies `specs`, and writes the result in
/// `format`.
pub fn render(data: Bytes, specs: &[Spec], format: OutputFormat) -> (out: Result<Vec<u8>, Error>)
    ensures
        rendered(bytes_content(data), specs@, format, outcome(out)),
{
    match Photon::from_bytes(data) {
        Err(e) => Err(e),
        Ok(engine) => process(engine, specs, format),
    }
}

/// Ends a request whose source was asked for. A failed fetch is a bad
/// request. Fetched bytes are rendered in the standard format; whatever
/// fails from there on is a server error, and no failure carries a body.
pub fn finish(request: Request, source: Result<Bytes, FetchError>) -> (response: Response)
    ensures
        match source {
            Ok(data) => exists|out: Result<Seq<u8>, Error>|
                (#[trigger] rendered(
                    bytes_content(data),
                    request.specs@,
                    OutputFormat::standard(),
                    out,
                )) && response.answers(out, OutputFormat::standard()),
            Err(_) => response.answers(Err(Error::Fetch), OutputFormat::standard()),
        },
        source is Err ==> response.status == Status::BadRequest,
        source is Ok ==> response.status == Status::Success || response.status
            == Status::InternalServerError,
        response.status != Status::Success ==> response.format is None && response.body@.len()
            == 0,
        response.status == Status::Success ==> response.format == Some(OutputFormat::standard()),
{
    let format = OutputFormat::Jpeg(85);
    match source {
        Err(_) => Response::failure(Error::Fetch),
        Ok(data) => {
            let out = render(data, request.specs.as_slice(), format);
            let ghost seen = outcome(out);
            let response = match out {
                Ok(body) => Response::image(body, format),
                Err(e) => Response::failure(e),
            };
            assert(rendered(bytes_content(data), request.specs@, format, seen)
                && response.answers(seen, format));
            response
        },
    }
}

/// A source that the decoder refuses is a server error, whatever the
/// operations: no engine is made, nothing is applied and nothing encoded.
pub proof fn lemma_undecodable_source(
    data: Seq<u8>,
    specs: Seq<Spec>,
    format: OutputFormat,
    out: Result<Seq<u8>, Error>,
)
    requires
        decoded(data, side_limit()) is None,
        rendered(data, specs, format, out),
    ensures
        out == Err::<Seq<u8>, Error>(Error::ImageDecode),
        Error::ImageDecode.status() == Status::InternalServerError,
{
}

/// A request for one admitted resize of a source that decodes is answered
/// with what the encoder makes of an image of exactly the size that was
/// named, whatever the size of the source: it fails only where the encoder
/// does.
pub proof fn lemma_resize_request(
    data: Seq<u8>,
    op: Resize,
    format: OutputFormat,
    out: Result<Seq<u8>, Error>,
)
    requires
        decoded(data, side_limit()) matches Some((w, h, p)) && picture_of(w, h, p).wf() && admits(
            w as nat,
            h as nat,
            Spec::Resize(op),
        ),
        rendered(data, seq![Spec::Resize(op)], format, out),
    ensures
        exists|after: Picture|
            {
                &&& after.width == op.width
                &&& after.height == op.height
                &&& after.pixels.len() == op.width * op.height * 4
                &&& #[trigger] written(after, format) == out
            },
{
    let specs = seq![Spec::Resize(op)];
    let (w, h, p) = decoded(data, side_limit())->0;
    let pic = picture_of(w, h, p);
    assert(specs.drop_last() =~= Seq::<Spec>::empty());
    assert(specs.last() == Spec::Resize(op));
    assert(admitted(pic.width, pic.height, specs.drop_last()));
    assert(admitted(pic.width, pic.height, specs));
    let after = choose|after: Picture|
        (#[trigger] leads(pic, specs, after)) && out == written(after, format);
    assert(leads(pic, specs, after));
    assert(Seq::<Spec>::empty().push(Spec::Resize(op)) =~= specs);
    lemma_resize_sets_shape(pic, Seq::<Spec>::empty(), op, after);
    assert(written(after, format) == out);
}

} // verus!
