use bytes::Bytes;
use thumbor::cache::FetchCache;
use thumbor::cache::FetchStep;
use thumbor::engine::Photon;
use thumbor::error::DecodeSpecError;
use thumbor::error::Error;
use thumbor::error::FetchError;
use thumbor::error::Status;
use thumbor::handler::finish;
use thumbor::handler::process;
use thumbor::handler::render;
use thumbor::handler::start;
use thumbor::handler::Request;
use thumbor::handler::Response;
use thumbor::handler::Step;
use thumbor::ops::Crop;
use thumbor::ops::OutputFormat;
use thumbor::ops::Resize;
use thumbor::ops::SampleFilter;
use thumbor::ops::Spec;

const SOURCE: &str = "https%3A%2F%2Fexample.com%2Fimages%2Fsquare.png";

fn square_png(side: u32) -> Bytes {
    let picture = image::RgbaImage::from_pixel(side, side, image::Rgba([10, 120, 230, 255]));
    let mut out = std::io::Cursor::new(Vec::new());
    picture.write_to(&mut out, image::ImageOutputFormat::Png).unwrap();
    Bytes::from(out.into_inner())
}

fn resize(width: u32, height: u32) -> Spec {
    Spec::Resize(Resize { width, height, filter: SampleFilter::CatmullRom })
}

fn accepted(specs: Vec<Spec>, segment: &str) -> Request {
    match start(Ok(specs), segment) {
        Step::Acquire(request) => request,
        Step::Respond(_) => panic!("the request should have been accepted"),
    }
}

/// Plays the part of the program: asks the cache, fetches on a miss with
/// `fetch`, and counts the fetches.
fn serve(
    cache: &mut FetchCache,
    specs: Vec<Spec>,
    segment: &str,
    fetch: &dyn Fn(&str) -> Result<Bytes, FetchError>,
    fetches: &mut u32,
) -> Response {
    match start(Ok(specs), segment) {
        Step::Respond(response) => response,
        Step::Acquire(request) => {
            let source = match cache.get_or_fetch(&request.url) {
                FetchStep::Hit(data) => Ok(data),
                FetchStep::Miss(key) => {
                    *fetches += 1;
                    cache.complete(key, fetch(request.url.as_str()))
                }
            };
            finish(request, source)
        }
    }
}

#[test]
fn resize_request_answers_with_a_jpeg_of_the_named_size() {
    let mut cache = FetchCache::new(1024);
    let mut fetches = 0;
    let response = serve(
        &mut cache,
        vec![resize(100, 100)],
        SOURCE,
        &|address| {
            assert_eq!(address, "https://example.com/images/square.png");
            Ok(square_png(200))
        },
        &mut fetches,
    );
    assert_eq!(response.status, Status::Success);
    assert_eq!(response.status.code(), 200);
    assert_eq!(response.content_type(), Some("image/jpeg"));
    let back = image::load_from_memory(&response.body).unwrap();
    assert_eq!(image::guess_format(&response.body).unwrap(), image::ImageFormat::Jpeg);
    assert_eq!((back.width(), back.height()), (100, 100));
    assert_eq!(fetches, 1);
}

#[test]
fn resize_request_gives_the_named_size_whatever_the_source() {
    for (side, width, height) in [(3, 9_000, 2), (50, 7, 300), (200, 200, 200), (16, 1, 1)] {
        let request = accepted(vec![resize(width, height)], SOURCE);
        let response = finish(request, Ok(square_png(side)));
        assert_eq!(response.status, Status::Success);
        assert_eq!(&response.body[..2], &[0xFF, 0xD8]);
        let back = image::load_from_memory(&response.body).unwrap();
        assert_eq!((back.width(), back.height()), (width, height));
    }
}

#[test]
fn result_that_jpeg_cannot_hold_is_a_server_error() {
    let request = accepted(vec![resize(70_000, 1)], SOURCE);
    let response = finish(request, Ok(square_png(4)));
    assert_eq!(response.status, Status::InternalServerError);
    assert!(response.body.is_empty());
    assert_eq!(
        render(square_png(4), &[resize(70_000, 1)], OutputFormat::Jpeg(85)),
        Err(Error::Encode)
    );
}

#[test]
fn second_request_for_a_url_does_not_fetch() {
    let mut cache = FetchCache::new(1024);
    let mut fetches = 0;
    let first = serve(&mut cache, vec![resize(50, 50)], SOURCE, &|_| Ok(square_png(64)), &mut fetches);
    let second = serve(
        &mut cache,
        vec![resize(20, 10)],
        SOURCE,
        &|_| panic!("the source is cached"),
        &mut fetches,
    );
    assert_eq!(first.status, Status::Success);
    assert_eq!(second.status, Status::Success);
    assert_eq!(fetches, 1);
    let back = image::load_from_memory(&second.body).unwrap();
    assert_eq!((back.width(), back.height()), (20, 10));
    assert_eq!(cache.len(), 1);
}

#[test]
fn cache_keeps_the_source_not_the_result() {
    let mut cache = FetchCache::new(4);
    let mut fetches = 0;
    let source = square_png(64);
    let expected = source.clone();
    serve(&mut cache, vec![resize(8, 8)], SOURCE, &move |_| Ok(source.clone()), &mut fetches);
    let request = accepted(Vec::new(), SOURCE);
    assert_eq!(&cache.get(request.url.key()).unwrap()[..], &expected[..]);
}

#[test]
fn url_that_does_not_parse_is_a_bad_request_without_a_fetch() {
    let mut cache = FetchCache::new(4);
    let mut fetches = 0;
    let response = serve(
        &mut cache,
        vec![resize(100, 100)],
        "not%20a%20url",
        &|_| panic!("nothing is to be fetched"),
        &mut fetches,
    );
    assert_eq!(response.status, Status::BadRequest);
    assert_eq!(response.status.code(), 400);
    assert_eq!(response.content_type(), None);
    assert!(response.body.is_empty());
    assert_eq!(fetches, 0);
    assert_eq!(cache.len(), 0);
}

#[test]
fn start_reads_the_request() {
    let request = accepted(vec![resize(3, 4)], SOURCE);
    assert_eq!(request.url.as_str(), "https://example.com/images/square.png");
    assert_eq!(request.specs, vec![resize(3, 4)]);
}

#[test]
fn start_rejects_operations_that_could_not_be_decoded() {
    match start(Err(DecodeSpecError {}), SOURCE) {
        Step::Respond(response) => {
            assert_eq!(response.status, Status::BadRequest);
            assert!(response.body.is_empty());
            assert_eq!(response.format, None);
        }
        Step::Acquire(_) => panic!("nothing may be fetched for a request that was not decoded"),
    }
}

#[test]
fn start_reports_the_operations_before_the_url() {
    match start(Err(DecodeSpecError {}), "abc") {
        Step::Respond(response) => assert_eq!(response.status, Status::BadRequest),
        Step::Acquire(_) => panic!("both parts of the request are wrong"),
    }
}

#[test]
fn failed_fetch_is_a_bad_request() {
    let mut cache = FetchCache::new(4);
    let mut fetches = 0;
    let response = serve(&mut cache, Vec::new(), SOURCE, &|_| Err(FetchError {}), &mut fetches);
    assert_eq!(response.status, Status::BadRequest);
    assert!(response.body.is_empty());
    assert_eq!(response.content_type(), None);
    assert_eq!(fetches, 1);
    assert_eq!(cache.len(), 0);
}

#[test]
fn source_that_is_no_image_is_a_server_error() {
    let mut cache = FetchCache::new(4);
    let mut fetches = 0;
    let response = serve(
        &mut cache,
        Vec::new(),
        SOURCE,
        &|_| Ok(Bytes::from_static(b"<html>not found</html>")),
        &mut fetches,
    );
    assert_eq!(response.status, Status::InternalServerError);
    assert_eq!(response.status.code(), 500);
    assert!(response.body.is_empty());
    assert_eq!(response.content_type(), None);
    assert_eq!(cache.len(), 1);
}

#[test]
fn operation_that_is_not_admitted_is_a_server_error_without_a_body() {
    let request = accepted(vec![resize(10, 10), Spec::Unknown], SOURCE);
    let response = finish(request, Ok(square_png(16)));
    assert_eq!(response.status, Status::InternalServerError);
    assert!(response.body.is_empty());
}

#[test]
fn empty_list_passes_the_source_through() {
    let request = accepted(Vec::new(), SOURCE);
    let response = finish(request, Ok(square_png(24)));
    assert_eq!(response.status, Status::Success);
    let back = image::load_from_memory(&response.body).unwrap().into_rgba8();
    assert_eq!(back.dimensions(), (24, 24));
    let p = back.get_pixel(12, 12).0;
    assert!((p[0] as i32 - 10).abs() <= 6);
    assert!((p[1] as i32 - 120).abs() <= 6);
    assert!((p[2] as i32 - 230).abs() <= 6);
}

#[test]
fn render_reports_each_failure() {
    let garbage = Bytes::from_static(b"garbage");
    assert_eq!(render(garbage, &[], OutputFormat::Png), Err(Error::ImageDecode));
    let refused = [Spec::Crop(Crop { x1: 9, y1: 0, x2: 10, y2: 1 })];
    assert_eq!(
        render(square_png(4), &refused, OutputFormat::Png),
        Err(Error::Operation { index: 0 })
    );
    assert!(render(square_png(4), &[], OutputFormat::Png).is_ok());
}

#[test]
fn render_in_png_gives_the_pixels_back() {
    let out = render(square_png(5), &[], OutputFormat::Png).unwrap();
    let back = image::load_from_memory(&out).unwrap().into_rgba8();
    assert_eq!(back.dimensions(), (5, 5));
    assert!(back.pixels().all(|p| p.0 == [10, 120, 230, 255]));
}

#[test]
fn process_takes_any_engine() {
    let engine = Photon::from_rgba(2, 2, vec![7; 16]).unwrap();
    let out = process(engine, &[resize(6, 3)], OutputFormat::Png).unwrap();
    let back = image::load_from_memory(&out).unwrap();
    assert_eq!((back.width(), back.height()), (6, 3));
    let again = Photon::from_rgba(2, 2, vec![7; 16]).unwrap();
    assert_eq!(
        process(again, &[Spec::Unknown], OutputFormat::Png),
        Err(Error::Operation { index: 0 })
    );
}

#[test]
fn responses_carry_status_format_and_body() {
    let image = Response::image(vec![1, 2, 3], OutputFormat::Png);
    assert_eq!(image.status, Status::Success);
    assert_eq!(image.content_type(), Some("image/png"));
    assert_eq!(image.body, vec![1, 2, 3]);
    let failure = Response::failure(Error::Encode);
    assert_eq!(failure.status, Status::InternalServerError);
    assert_eq!(failure.content_type(), None);
    assert!(failure.body.is_empty());
}

#[test]
fn each_error_has_its_status() {
    assert_eq!(Error::DecodeSpec.status(), Status::BadRequest);
    assert_eq!(Error::InvalidUrl.status(), Status::BadRequest);
    assert_eq!(Error::Fetch.status(), Status::BadRequest);
    assert_eq!(Error::ImageDecode.status(), Status::InternalServerError);
    assert_eq!(Error::Operation { index: 3 }.status(), Status::InternalServerError);
    assert_eq!(Error::Encode.status(), Status::InternalServerError);
    assert_eq!(Status::Success.code(), 200);
    assert_eq!(Status::BadRequest.code(), 400);
    assert_eq!(Status::InternalServerError.code(), 500);
}
