use flaschentaschen_web::gate::{FailureGate, DEFAULT_STOP_THRESHOLD};
use flaschentaschen_web::handler::{ControlCall, FrameHandler};
use flaschentaschen_web::map_err;
use flaschentaschen_web::raster::{
    encode_raster, get_ppm_from_jpeg, write_raster, FrameFormat, RasterError,
};

fn encoded_image(width: u32, height: u32, rgb: [u8; 3], format: image::ImageOutputFormat) -> String {
    let img = image::RgbImage::from_pixel(width, height, image::Rgb(rgb));
    let mut buf: Vec<u8> = Vec::new();
    image::DynamicImage::ImageRgb8(img)
        .write_to(&mut buf, format)
        .expect("encoding a test image");
    base64::encode(&buf)
}

fn red_png(width: u32, height: u32) -> String {
    encoded_image(width, height, [255, 0, 0], image::ImageOutputFormat::Png)
}

fn red_jpeg(width: u32, height: u32) -> String {
    encoded_image(width, height, [255, 0, 0], image::ImageOutputFormat::Jpeg(100))
}

fn corrupted_payload() -> String {
    let mut bytes = base64::decode(red_jpeg(2, 2)).unwrap();
    for b in bytes.iter_mut().take(16) {
        *b = 0x42;
    }
    base64::encode(&bytes)
}

#[test]
fn gate_starts_empty() {
    let g = FailureGate::new(DEFAULT_STOP_THRESHOLD);
    assert_eq!(g.consecutive_failures(), 0);
    assert_eq!(g.threshold(), 1000);
}

#[test]
fn gate_counts_and_resets() {
    let mut g = FailureGate::new(3);
    assert_eq!(g.record_failure(), 1);
    assert_eq!(g.record_failure(), 2);
    g.record_success();
    assert_eq!(g.consecutive_failures(), 0);
    assert_eq!(g.record_failure(), 1);
}

#[test]
fn gate_trips_only_above_threshold() {
    let g = FailureGate::new(DEFAULT_STOP_THRESHOLD);
    assert!(!g.is_tripped(0));
    assert!(!g.is_tripped(1000));
    assert!(g.is_tripped(1001));
}

#[test]
fn failures_up_to_threshold_are_acknowledged() {
    let mut h = FrameHandler::new(DEFAULT_STOP_THRESHOLD);
    for i in 0..1000u32 {
        assert_eq!(h.decide(i, false), ControlCall::Ack(i));
    }
    assert_eq!(h.consecutive_failures(), 1000);
}

#[test]
fn failure_past_threshold_stops() {
    let mut h = FrameHandler::new(DEFAULT_STOP_THRESHOLD);
    for i in 0..1000u32 {
        assert_eq!(h.decide(i, false), ControlCall::Ack(i));
    }
    assert_eq!(h.decide(1000, false), ControlCall::Stop);
    assert_eq!(h.decide(1001, false), ControlCall::Stop);
}

#[test]
fn single_success_resets_the_count() {
    let mut h = FrameHandler::new(DEFAULT_STOP_THRESHOLD);
    for i in 0..999u32 {
        assert_eq!(h.decide(i, false), ControlCall::Ack(i));
    }
    assert_eq!(h.decide(999, true), ControlCall::Ack(999));
    assert_eq!(h.consecutive_failures(), 0);
    for i in 0..999u32 {
        assert_eq!(h.decide(i, false), ControlCall::Ack(i));
    }
    assert_eq!(h.consecutive_failures(), 999);
}

#[test]
fn corrupted_payload_counts_one_failure_and_acks() {
    let mut h = FrameHandler::new(DEFAULT_STOP_THRESHOLD);
    let step = h.on_frame(5, &corrupted_payload(), FrameFormat::Jpeg);
    assert!(step.raster.is_none());
    assert_eq!(step.control, ControlCall::Ack(5));
    assert_eq!(h.consecutive_failures(), 1);
}

#[test]
fn thousand_corrupted_frames_then_stop() {
    let mut h = FrameHandler::new(DEFAULT_STOP_THRESHOLD);
    let bad = corrupted_payload();
    let mut acks = 0;
    for i in 1..=1000u32 {
        let step = h.on_frame(i, &bad, FrameFormat::Jpeg);
        assert_eq!(step.control, ControlCall::Ack(i));
        acks += 1;
    }
    assert_eq!(acks, 1000);
    let step = h.on_frame(1001, &bad, FrameFormat::Jpeg);
    assert_eq!(step.control, ControlCall::Stop);
    assert_eq!(h.consecutive_failures(), 1001);
}

#[test]
fn encoded_frame_resets_count_whatever_transmit_does() {
    let mut h = FrameHandler::new(DEFAULT_STOP_THRESHOLD);
    let bad = corrupted_payload();
    h.on_frame(1, &bad, FrameFormat::Jpeg);
    h.on_frame(2, &bad, FrameFormat::Jpeg);
    let step = h.on_frame(3, &red_png(2, 2), FrameFormat::Png);
    assert!(step.raster.is_some());
    assert_eq!(step.control, ControlCall::Ack(3));
    // the raster is dropped here, as a failed transmit would: the count stays reset
    drop(step);
    assert_eq!(h.consecutive_failures(), 0);
}

#[test]
fn red_png_gives_exact_raster() {
    let r = encode_raster(&red_png(2, 2), FrameFormat::Png).unwrap();
    let mut expected = b"P6\n2 2\n255\n".to_vec();
    for _ in 0..4 {
        expected.extend_from_slice(&[0xFF, 0x00, 0x00]);
    }
    assert_eq!(r, expected);
}

#[test]
fn red_jpeg_gives_header_and_reddish_samples() {
    let r = get_ppm_from_jpeg(&red_jpeg(2, 2)).unwrap();
    let header = b"P6\n2 2\n255\n";
    assert_eq!(&r[..header.len()], &header[..]);
    let body = &r[header.len()..];
    assert_eq!(body.len(), 12);
    for px in body.chunks(3) {
        assert!(px[0] >= 250 && px[1] <= 5 && px[2] <= 5, "{:?}", px);
    }
}

#[test]
fn raster_header_declares_dimensions() {
    let r = encode_raster(&red_png(13, 7), FrameFormat::Png).unwrap();
    let header = b"P6\n13 7\n255\n";
    assert_eq!(&r[..header.len()], &header[..]);
    assert_eq!(r.len() - header.len(), 13 * 7 * 3);
    let j = encode_raster(&red_jpeg(10, 4), FrameFormat::Jpeg).unwrap();
    let header = b"P6\n10 4\n255\n";
    assert_eq!(&j[..header.len()], &header[..]);
    assert_eq!(j.len() - header.len(), 10 * 4 * 3);
}

#[test]
fn encoding_is_deterministic() {
    let payload = red_jpeg(6, 3);
    let a = encode_raster(&payload, FrameFormat::Jpeg).unwrap();
    let b = encode_raster(&payload, FrameFormat::Jpeg).unwrap();
    assert_eq!(a, b);
}

#[test]
fn write_raster_lays_out_header_and_samples() {
    let r = write_raster(640, 480, &[1, 2, 3]);
    assert_eq!(r, b"P6\n640 480\n255\n\x01\x02\x03".to_vec());
    let z = write_raster(0, 10, &[]);
    assert_eq!(z, b"P6\n0 10\n255\n".to_vec());
}

#[test]
fn invalid_base64_is_rejected() {
    let r = encode_raster(&"not base64 !!".to_string(), FrameFormat::Jpeg);
    assert_eq!(r, Err(RasterError::InvalidBase64));
}

#[test]
fn non_image_bytes_are_rejected() {
    let payload = base64::encode(b"hello, display");
    assert_eq!(encode_raster(&payload, FrameFormat::Png), Err(RasterError::UndecodableImage));
    assert_eq!(get_ppm_from_jpeg(&payload), Err(RasterError::UndecodableImage));
}

#[test]
fn format_tag_selects_decoder() {
    assert_eq!(
        encode_raster(&red_png(2, 2), FrameFormat::Jpeg),
        Err(RasterError::UndecodableImage)
    );
}

#[test]
fn map_err_passes_success() {
    let r: Result<u32, String> = map_err(Ok(3), "context");
    assert_eq!(r, Ok(3));
}

#[test]
fn map_err_prefixes_message() {
    let r: Result<u32, String> = map_err(Err("boom".to_string()), "Could not open new tab");
    assert_eq!(r, Err("Could not open new tab: boom".to_string()));
}
