use vstd::prelude::*;

verus! {

/// The compressed formats in which frames arrive.
#[derive(Clone, Copy, Debug, PartialEq, Eq, Structural)]
pub enum FrameFormat {
    Jpeg,
    Png,
}

/// Why a frame payload could not be turned into a raster image.
#[derive(Clone, Copy, Debug, PartialEq, Eq, Structural)]
pub enum RasterError {
    /// The payload is not valid base64.
    InvalidBase64,
    /// The decoded bytes are not an image of the declared format.
    UndecodableImage,
}

#[verifier::external_type_specification]
#[verifier::external_body]
pub struct ExBase64DecodeError(base64::DecodeError);

#[verifier::external_type_specification]
#[verifier::external_body]
pub struct ExImageError(image::ImageError);

/// The bytes that standard base64 decoding gives for a text, if it is valid.
pub uninterp spec fn base64_decoded(s: Seq<char>) -> Option<Seq<u8>>;

/// Width, height and row-major 8-bit RGB samples of an image file
/// (`png` selects PNG over JPEG), if it decodes.
pub uninterp spec fn decoded_rgb(data: Seq<u8>, png: bool) -> Option<(u32, u32, Seq<u8>)>;

/// Relies on base64::decode (standard alphabet, with padding).
#[verifier::external_body]
fn decode_base64(s: &str) -> (r: Result<Vec<u8>, base64::DecodeError>)
    ensures
        match r {
            Ok(bytes) => base64_decoded(s@) == Some(bytes@),
            Err(_) => base64_decoded(s@).is_none(),
        },
{
    base64::decode(s)
}

/// Relies on image::load_from_memory_with_format to decode the image, and on
/// DynamicImage::to_rgb8 for its samples, which are three per pixel.
#[verifier::external_body]
fn decode_rgb(data: &[u8], format: FrameFormat) -> (r: Result<(u32, u32, Vec<u8>), image::ImageError>)
    ensures
        match r {
            Ok((w, h, px)) => {
                &&& decoded_rgb(data@, format is Png) == Some((w, h, px@))
                &&& px@.len() == w * h * 3
            },
            Err(_) => decoded_rgb(data@, format is Png).is_none(),
        },
{
    let format = match format {
        FrameFormat::Jpeg => image::ImageFormat::Jpeg,
        FrameFormat::Png => image::ImageFormat::Png,
    };
    let rgb = image::load_from_memory_with_format(data, format)?.to_rgb8();
    let (w, h) = rgb.dimensions();
    Ok((w, h, rgb.into_raw()))
}

/// ASCII decimal digits of `n`, most significant first.
pub open spec fn decimal(n: nat) -> Seq<u8>
    decreases n,
{
    if n < 10 {
        seq![(n + 48) as u8]
    } else {
        decimal(n / 10).push((n % 10 + 48) as u8)
    }
}

/// The raster header `"P6\n<width> <height>\n255\n"`.
pub open spec fn raster_header(width: nat, height: nat) -> Seq<u8> {
    seq![80u8, 54u8, 10u8] + decimal(width) + seq![32u8] + decimal(height) + seq![10u8, 50u8,
        53u8, 53u8, 10u8]
}

/// A raster image: the header followed by the samples.
pub open spec fn raster_bytes(width: nat, height: nat, samples: Seq<u8>) -> Seq<u8> {
    raster_header(width, height) + samples
}

/// Width, height and samples of the image that a base64 payload holds.
pub open spec fn decoded_frame(payload: Seq<char>, format: FrameFormat) -> Option<(u32, u32, Seq<u8>)> {
    match base64_decoded(payload) {
        None => None,
        Some(data) => decoded_rgb(data, format is Png),
    }
}

/// What encoding a base64 payload of the given format gives.
pub open spec fn raster_of(payload: Seq<char>, format: FrameFormat) -> Result<Seq<u8>, RasterError> {
    match base64_decoded(payload) {
        None => Err(RasterError::InvalidBase64),
        Some(data) => match decoded_rgb(data, format is Png) {
            None => Err(RasterError::UndecodableImage),
            Some((w, h, px)) => Ok(raster_bytes(w as nat, h as nat, px)),
        },
    }
}

/// The image that a payload holds has one RGB triple per pixel.
pub open spec fn samples_fill_frame(payload: Seq<char>, format: FrameFormat) -> bool {
    match decoded_frame(payload, format) {
        Some((w, h, px)) => px.len() == w * h * 3,
        None => true,
    }
}

/// Appends the decimal digits of `n`.
fn push_decimal(out: &mut Vec<u8>, n: u32)
    ensures
        final(out)@ == old(out)@ + decimal(n as nat),
    decreases n,
{
    if n < 10 {
        out.push(n as u8 + 48);
    } else {
        let ghost before = out@;
        push_decimal(out, n / 10);
        out.push((n % 10) as u8 + 48);
        assert(out@ =~= before + decimal(n as nat));
    }
}

/// Appends `src` to `out`.
fn push_all(out: &mut Vec<u8>, src: &[u8])
    ensures
        final(out)@ == old(out)@ + src@,
{
    let ghost before = out@;
    let mut i: usize = 0;
    while i < src.len()
        invariant
            i <= src@.len(),
            out@ == before + src@.subrange(0, i as int),
        decreases src@.len() - i,
    {
        out.push(src[i]);
        i = i + 1;
        assert(out@ =~= before + src@.subrange(0, i as int));
    }
    assert(src@.subrange(0, i as int) =~= src@);
}

/// Lays out a raster image from its dimensions and samples.
pub fn write_raster(width: u32, height: u32, samples: &[u8]) -> (r: Vec<u8>)
    ensures
        r@ == raster_bytes(width as nat, height as nat, samples@),
{
    let mut out: Vec<u8> = Vec::new();
    out.push(80u8);
    out.push(54u8);
    out.push(10u8);
    push_decimal(&mut out, width);
    out.push(32u8);
    push_decimal(&mut out, height);
    out.push(10u8);
    out.push(50u8);
    out.push(53u8);
    out.push(53u8);
    out.push(10u8);
    assert(out@ =~= raster_header(width as nat, height as nat));
    push_all(&mut out, samples);
    out
}

/// Turns a base64 payload of a compressed image into a raster image.
pub fn encode_raster(payload: &String, format: FrameFormat) -> (r: Result<Vec<u8>, RasterError>)
    ensures
        match r {
            Ok(bytes) => raster_of(payload@, format) == Ok::<Seq<u8>, RasterError>(bytes@),
            Err(e) => raster_of(payload@, format) == Err::<Seq<u8>, RasterError>(e),
        },
        samples_fill_frame(payload@, format),
{
    let data = match decode_base64(payload.as_str()) {
        Ok(data) => data,
        Err(_) => return Err(RasterError::InvalidBase64),
    };
    match decode_rgb(data.as_slice(), format) {
        Ok((w, h, px)) => Ok(write_raster(w, h, px.as_slice())),
        Err(_) => Err(RasterError::UndecodableImage),
    }
}

/// Accepts a base64 encoded JPEG image and returns its raster counterpart.
pub fn get_ppm_from_jpeg(base64_str: &String) -> (r: Result<Vec<u8>, RasterError>)
    ensures
        match r {
            Ok(bytes) => raster_of(base64_str@, FrameFormat::Jpeg) == Ok::<Seq<u8>, RasterError>(bytes@),
            Err(e) => raster_of(base64_str@, FrameFormat::Jpeg) == Err::<Seq<u8>, RasterError>(e),
        },
        samples_fill_frame(base64_str@, FrameFormat::Jpeg),
{
    encode_raster(base64_str, FrameFormat::Jpeg)
}

/// An encoded frame declares the decoded image's width and height in its
/// header, and carries exactly three samples per pixel after it.
pub proof fn lemma_raster_declares_dimensions(payload: Seq<char>, format: FrameFormat)
    requires
        raster_of(payload, format) is Ok,
        samples_fill_frame(payload, format),
    ensures
        decoded_frame(payload, format) matches Some((w, h, px)) && ({
            let bytes = raster_of(payload, format)->Ok_0;
            let header = raster_header(w as nat, h as nat);
            &&& bytes.subrange(0, header.len() as int) == header
            &&& bytes.len() - header.len() == w * h * 3
        }),
{
    let (w, h, px) = decoded_frame(payload, format)->Some_0;
    let header = raster_header(w as nat, h as nat);
    assert(raster_of(payload, format)->Ok_0.subrange(0, header.len() as int) =~= header);
}

/// Encoding depends on the payload and format alone: equal inputs give
/// byte-identical outputs.
pub proof fn lemma_encoding_is_deterministic(
    p1: Seq<char>,
    f1: FrameFormat,
    p2: Seq<char>,
    f2: FrameFormat,
)
    requires
        p1 == p2,
        f1 == f2,
    ensures
        raster_of(p1, f1) == raster_of(p2, f2),
{
}

} // verus!
