//! Image preprocessing rules: which metadata is required and how it is read,
//! the resampling filter, the resize and center-crop geometry, and where each
//! pixel channel lands in the input tensor. Pixel scaling and normalization,
//! which are floating point, are computed by the caller as a table with one
//! value per channel and byte.

use vstd::prelude::*;
use crate::cli::Layout;
use crate::json::{
    as_bool, as_u64, field, is_array, json_bool, json_field, json_get, json_is_array, json_u64, spec_json_get,
    JsonValue,
};

verus! {

/// An 8-bit RGB image, row-major, three bytes per pixel.
#[derive(Clone, Debug)]
pub struct RgbPixels {
    pub width: u32,
    pub height: u32,
    pub data: Vec<u8>,
}

/// The image holds exactly `width * height` pixels.
pub open spec fn rgb_wf(width: u32, height: u32, data: Seq<u8>) -> bool {
    data.len() == width as int * height as int * 3
}

impl RgbPixels {
    /// The buffer matches the dimensions.
    pub open spec fn wf(&self) -> bool {
        rgb_wf(self.width, self.height, self.data@)
    }
}

/// The resampling filters, by their PIL codes 0..=3.
#[derive(Clone, Copy, Debug, PartialEq, Eq, Structural)]
pub enum Resample {
    Nearest,
    Lanczos3,
    Triangle,
    CatmullRom,
}

/// The image-processor metadata that preprocessing reads: each field is the
/// value found in `preprocessor_config.json` when it has the expected JSON type.
#[derive(Clone, Copy, Debug, PartialEq, Eq, Structural)]
pub struct ProcessorMeta {
    pub do_normalize: Option<bool>,
    pub do_rescale: Option<bool>,
    pub resample: Option<u64>,
    pub do_resize: Option<bool>,
    /// `size.shortest_edge`
    pub size_shortest_edge: Option<u64>,
    /// `size` itself, when it is a number
    pub size_value: Option<u64>,
    pub size_width: Option<u64>,
    pub size_height: Option<u64>,
    pub do_center_crop: Option<bool>,
    pub crop_width: Option<u64>,
    pub crop_height: Option<u64>,
    /// `crop_size` itself, when it is a number
    pub crop_value: Option<u64>,
    /// `image_mean` is an array
    pub image_mean_is_array: bool,
    /// `image_std` is an array
    pub image_std_is_array: bool,
}

/// What preprocessing reads from a `preprocessor_config.json` document.
pub open spec fn spec_processor_meta(doc: JsonValue) -> ProcessorMeta {
    let size = spec_json_get(doc, "size"@);
    let crop = spec_json_get(doc, "crop_size"@);
    ProcessorMeta {
        do_normalize: json_bool(spec_json_get(doc, "do_normalize"@)),
        do_rescale: json_bool(spec_json_get(doc, "do_rescale"@)),
        resample: json_u64(spec_json_get(doc, "resample"@)),
        do_resize: json_bool(spec_json_get(doc, "do_resize"@)),
        size_shortest_edge: json_u64(json_field(size, "shortest_edge"@)),
        size_value: json_u64(size),
        size_width: json_u64(json_field(size, "width"@)),
        size_height: json_u64(json_field(size, "height"@)),
        do_center_crop: json_bool(spec_json_get(doc, "do_center_crop"@)),
        crop_width: json_u64(json_field(crop, "width"@)),
        crop_height: json_u64(json_field(crop, "height"@)),
        crop_value: json_u64(crop),
        image_mean_is_array: json_is_array(spec_json_get(doc, "image_mean"@)),
        image_std_is_array: json_is_array(spec_json_get(doc, "image_std"@)),
    }
}

/// Reads the preprocessing metadata from a parsed `preprocessor_config.json`.
pub fn processor_meta(doc: &JsonValue) -> (m: ProcessorMeta)
    ensures
        m == spec_processor_meta(*doc),
{
    let size = json_get(doc, "size");
    let crop = json_get(doc, "crop_size");
    ProcessorMeta {
        do_normalize: as_bool(json_get(doc, "do_normalize")),
        do_rescale: as_bool(json_get(doc, "do_rescale")),
        resample: as_u64(json_get(doc, "resample")),
        do_resize: as_bool(json_get(doc, "do_resize")),
        size_shortest_edge: as_u64(field(size, "shortest_edge")),
        size_value: as_u64(size),
        size_width: as_u64(field(size, "width")),
        size_height: as_u64(field(size, "height")),
        do_center_crop: as_bool(json_get(doc, "do_center_crop")),
        crop_width: as_u64(field(crop, "width")),
        crop_height: as_u64(field(crop, "height")),
        crop_value: as_u64(crop),
        image_mean_is_array: is_array(json_get(doc, "image_mean")),
        image_std_is_array: is_array(json_get(doc, "image_std")),
    }
}

/// Why a processor could not be built.
#[derive(Clone, Copy, Debug, PartialEq, Eq, Structural)]
pub enum ProcessorError {
    /// No metadata, and not all of `--mean`, `--std`, `--scale`, `--stretch` given.
    NoMetadata,
}

/// Why an image could not be brought to the model's input size.
#[derive(Clone, Copy, Debug, PartialEq, Eq, Structural)]
pub enum PixelError {
    /// The file's bytes are not an image the decoder accepts.
    Undecodable,
    UnsupportedResample(u64),
    MissingSizeWidth,
    MissingSizeHeight,
    InvalidResize,
    InvalidCrop,
    /// The processed image has this size instead of the model's.
    SizeMismatch { width: u32, height: u32 },
}

/// Where the three normalization constants of one kind come from.
#[derive(Clone, Copy, Debug, PartialEq, Eq, Structural)]
pub enum TripleSource {
    /// Normalization is off: the neutral constants.
    Neutral,
    /// The command-line override.
    Override,
    /// The metadata array.
    Metadata,
    /// The built-in default.
    Default,
}

/// Where the pixel scale factor comes from.
#[derive(Clone, Copy, Debug, PartialEq, Eq, Structural)]
pub enum ScaleSource {
    Override,
    /// Rescaling is switched off: factor 1.
    One,
    /// `rescale_factor` from the metadata, or 1/255 when it is not a number.
    Metadata,
}

/// The geometry and channel order of preprocessing for one model input.
#[derive(Clone, Copy, Debug)]
pub struct ImagePlan {
    pub width: u32,
    pub height: u32,
    pub layout: Layout,
    pub stretch: bool,
    pub bgr: bool,
    pub meta: ProcessorMeta,
}

/// An image side that preprocessing accepts.
pub open spec fn side_ok(v: int) -> bool {
    0 < v <= 16384
}

/// Either metadata exists or all four explicit overrides are given.
pub open spec fn spec_metadata_ok(has_metadata: bool, has_mean: bool, has_std: bool, has_scale: bool, stretch: bool) -> bool {
    has_metadata || (has_mean && has_std && has_scale && stretch)
}

/// Refuses to guess the input convention: without metadata, `--mean`, `--std`,
/// `--scale` and `--stretch` must all be given.
pub fn check_metadata(has_metadata: bool, has_mean: bool, has_std: bool, has_scale: bool, stretch: bool) -> (r: Result<(), ProcessorError>)
    ensures
        r is Ok <==> spec_metadata_ok(has_metadata, has_mean, has_std, has_scale, stretch),
        r matches Err(e) ==> e == ProcessorError::NoMetadata,
{
    if has_metadata || (has_mean && has_std && has_scale && stretch) {
        Ok(())
    } else {
        Err(ProcessorError::NoMetadata)
    }
}

/// Whether the model size is acceptable for preprocessing.
pub fn dims_in_range(width: u32, height: u32) -> (r: bool)
    ensures
        r == (side_ok(width as int) && side_ok(height as int)),
{
    width > 0 && height > 0 && width <= 16384 && height <= 16384
}

impl ProcessorMeta {
    /// Normalization is on unless the metadata switches it off.
    pub open spec fn spec_normalizes(&self) -> bool {
        match self.do_normalize { Some(b) => b, None => true }
    }

    /// Where the mean (when `is_mean`) or the standard deviation comes from.
    pub open spec fn spec_triple_source(&self, is_mean: bool, has_override: bool) -> TripleSource {
        if !(self.spec_normalizes() || has_override) {
            TripleSource::Neutral
        } else if has_override {
            TripleSource::Override
        } else if (if is_mean { self.image_mean_is_array } else { self.image_std_is_array }) {
            TripleSource::Metadata
        } else {
            TripleSource::Default
        }
    }

    /// Chooses the source of the mean (when `is_mean`) or standard deviation.
    pub fn triple_source(&self, is_mean: bool, has_override: bool) -> (r: TripleSource)
        ensures
            r == self.spec_triple_source(is_mean, has_override),
    {
        let normalizes = match self.do_normalize {
            Some(b) => b,
            None => true,
        };
        if !(normalizes || has_override) {
            TripleSource::Neutral
        } else if has_override {
            TripleSource::Override
        } else if (if is_mean { self.image_mean_is_array } else { self.image_std_is_array }) {
            TripleSource::Metadata
        } else {
            TripleSource::Default
        }
    }

    /// Where the scale factor comes from.
    pub open spec fn spec_scale_source(&self, has_override: bool) -> ScaleSource {
        if has_override {
            ScaleSource::Override
        } else if self.do_rescale == Some(false) {
            ScaleSource::One
        } else {
            ScaleSource::Metadata
        }
    }

    /// Chooses the source of the scale factor.
    pub fn scale_source(&self, has_override: bool) -> (r: ScaleSource)
        ensures
            r == self.spec_scale_source(has_override),
    {
        if has_override {
            ScaleSource::Override
        } else if self.do_rescale == Some(false) {
            ScaleSource::One
        } else {
            ScaleSource::Metadata
        }
    }

    /// Resizing is on unless the metadata switches it off.
    pub open spec fn spec_resizes(&self) -> bool {
        match self.do_resize { Some(b) => b, None => true }
    }

    /// Center cropping is off unless the metadata switches it on.
    pub open spec fn spec_crops(&self) -> bool {
        match self.do_center_crop { Some(b) => b, None => false }
    }

    /// The shortest-edge length, from `size.shortest_edge` or a numeric `size`.
    pub open spec fn spec_shortest_edge(&self) -> Option<u64> {
        match self.size_shortest_edge {
            Some(s) => Some(s),
            None => self.size_value,
        }
    }
}

/// Where the normalization constants come from, by the metadata fields alone:
/// an override always wins; without one, metadata that switches normalization
/// off gives the neutral constants; otherwise the metadata's `image_mean`
/// (for the mean) or `image_std` (for the standard deviation) is used when it
/// is an array, and the built-in default when it is not.
pub proof fn lemma_normalization_sources(m: ProcessorMeta)
    ensures
        m.spec_triple_source(true, true) == TripleSource::Override,
        m.spec_triple_source(false, true) == TripleSource::Override,
        m.do_normalize == Some(false) ==> m.spec_triple_source(true, false) == TripleSource::Neutral
            && m.spec_triple_source(false, false) == TripleSource::Neutral,
        m.do_normalize != Some(false) && m.image_mean_is_array ==> m.spec_triple_source(true, false)
            == TripleSource::Metadata,
        m.do_normalize != Some(false) && !m.image_mean_is_array ==> m.spec_triple_source(true, false)
            == TripleSource::Default,
        m.do_normalize != Some(false) && m.image_std_is_array ==> m.spec_triple_source(false, false)
            == TripleSource::Metadata,
        m.do_normalize != Some(false) && !m.image_std_is_array ==> m.spec_triple_source(false, false)
            == TripleSource::Default,
{
}

/// The filter for a PIL resample code (3, bicubic, when absent).
pub open spec fn spec_resample(code: Option<u64>) -> Result<Resample, PixelError> {
    let c: u64 = match code { Some(c) => c, None => 3 };
    if c == 0 {
        Ok(Resample::Nearest)
    } else if c == 1 {
        Ok(Resample::Lanczos3)
    } else if c == 2 {
        Ok(Resample::Triangle)
    } else if c == 3 {
        Ok(Resample::CatmullRom)
    } else {
        Err(PixelError::UnsupportedResample(c))
    }
}

/// Maps a PIL resample code to a filter: nearest (0), Lanczos (1), bilinear (2), bicubic (3).
pub fn resample_filter(code: Option<u64>) -> (r: Result<Resample, PixelError>)
    ensures
        r == spec_resample(code),
{
    let c: u64 = match code {
        Some(c) => c,
        None => 3,
    };
    if c == 0 {
        Ok(Resample::Nearest)
    } else if c == 1 {
        Ok(Resample::Lanczos3)
    } else if c == 2 {
        Ok(Resample::Triangle)
    } else if c == 3 {
        Ok(Resample::CatmullRom)
    } else {
        Err(PixelError::UnsupportedResample(c))
    }
}

/// Decodes image file bytes with `image::ImageReader` (format guessed from the
/// content, default limits) and converts the result with `to_rgb8`, which drops
/// any alpha channel. The contract claims only that a decoded image's buffer
/// matches its size. Which image comes out is left unsaid: the crate lets any
/// code in the process register its own format-detection and decoding hooks,
/// which are consulted before the built-in decoders.
#[verifier::external_body]
fn decode_rgb(bytes: &[u8]) -> (r: Option<RgbPixels>)
    ensures
        r matches Some(img) ==> img.wf(),
{
    let mut reader = image::ImageReader::new(std::io::Cursor::new(bytes)).with_guessed_format().ok()?;
    reader.limits(image::Limits::default());
    let img = reader.decode().ok()?.to_rgb8();
    let (width, height) = img.dimensions();
    Some(RgbPixels { width, height, data: img.into_raw() })
}

/// Decodes an image file's bytes to 8-bit RGB. Whether the bytes decode, and
/// to which pixels, is the image crate's decision; a decoded image always has a
/// buffer that matches its size, and a failure is `Undecodable`.
pub fn decode_image(bytes: &[u8]) -> (r: Result<RgbPixels, PixelError>)
    ensures
        r matches Ok(img) ==> img.wf(),
        r matches Err(e) ==> e == PixelError::Undecodable,
{
    match decode_rgb(bytes) {
        Some(img) => Ok(img),
        None => Err(PixelError::Undecodable),
    }
}

/// What `image::imageops::resize` makes of an RGB image (its bytes and size)
/// at a new size with the nearest-neighbour or triangle filter.
pub uninterp spec fn resized_rgb(data: Seq<u8>, width: u32, height: u32, new_width: u32, new_height: u32, filter: Resample) -> Seq<u8>;

/// An all-black RGB image of the given size.
pub open spec fn blank_rgb(width: u32, height: u32) -> Seq<u8> {
    Seq::new((width * height * 3) as nat, |k: int| 0u8)
}

/// `image::imageops::resize` on an RGB image. The contract claims that the
/// result has exactly the new size; that a resize to the image's own size is
/// a copy; that an image without pixels gives a black canvas; and that with
/// the nearest-neighbour or triangle filter, which compute with IEEE basic
/// arithmetic, `floor` and `ceil` only, the bytes are `resized_rgb` of the
/// arguments. For Lanczos3 and Catmull-Rom the bytes are left unsaid: those
/// filters call `sin` and `powi`, whose precision std does not fix.
#[verifier::external_body]
fn resize_rgb(img: &RgbPixels, new_width: u32, new_height: u32, filter: Resample) -> (r: RgbPixels)
    requires
        img.wf(),
        side_ok(new_width as int),
        side_ok(new_height as int),
    ensures
        r.width == new_width,
        r.height == new_height,
        r.wf(),
        img.width == 0 || img.height == 0 ==> forall|k: int| 0 <= k < r.data@.len() ==> r.data@[k] == 0,
        new_width == img.width && new_height == img.height ==> r.data@ == img.data@,
        filter == Resample::Nearest || filter == Resample::Triangle ==> r.data@ == resized_rgb(
            img.data@,
            img.width,
            img.height,
            new_width,
            new_height,
            filter,
        ),
{
    let src: image::RgbImage = image::ImageBuffer::from_raw(img.width, img.height, img.data.clone())
        .expect("pixel buffer matches its dimensions");
    let f = match filter {
        Resample::Nearest => image::imageops::FilterType::Nearest,
        Resample::Lanczos3 => image::imageops::FilterType::Lanczos3,
        Resample::Triangle => image::imageops::FilterType::Triangle,
        Resample::CatmullRom => image::imageops::FilterType::CatmullRom,
    };
    let out = image::imageops::resize(&src, new_width, new_height, f);
    RgbPixels { width: new_width, height: new_height, data: out.into_raw() }
}

/// The larger of two sizes.
pub open spec fn max_side(a: int, b: int) -> int {
    if a >= b { a } else { b }
}

/// For output pixel (x, y) of a center crop to `cw`×`ch` of an `iw`×`ih` image,
/// the source pixel, if any: the image is first centered on a zero canvas of at
/// least the crop size, then the crop is taken from the canvas center.
pub open spec fn crop_source(iw: int, ih: int, cw: int, ch: int, x: int, y: int) -> Option<(int, int)> {
    let pw = max_side(cw, iw);
    let ph = max_side(ch, ih);
    let sx = x + (pw - cw) / 2 - (pw - iw) / 2;
    let sy = y + (ph - ch) / 2 - (ph - ih) / 2;
    if 0 <= sx < iw && 0 <= sy < ih {
        Some((sx, sy))
    } else {
        None
    }
}

/// The bytes of a center crop (with zero padding) of an RGB image.
pub open spec fn center_cropped(data: Seq<u8>, iw: int, ih: int, cw: int, ch: int) -> Seq<u8> {
    Seq::new(
        (cw * ch * 3) as nat,
        |k: int|
            match crop_source(iw, ih, cw, ch, (k / 3) % cw, (k / 3) / cw) {
                Some((sx, sy)) => data[(sy * iw + sx) * 3 + k % 3],
                None => 0u8,
            },
    )
}

proof fn lemma_pixel_index(x: int, y: int, w: int, h: int, c: int)
    requires
        0 <= x < w,
        0 <= y < h,
        0 <= c < 3,
    ensures
        0 <= y * w,
        y * w + x < w * h,
        0 <= (y * w + x) * 3 + c < w * h * 3,
{
    assert(0 <= y * w && y * w + x < w * h && 0 <= (y * w + x) * 3 + c < w * h * 3) by (nonlinear_arith)
        requires
            0 <= x < w,
            0 <= y < h,
            0 <= c < 3,
    ;
}

proof fn lemma_decompose(k: int, cw: int, ch: int)
    requires
        0 <= k < cw * ch * 3,
        cw > 0,
        ch > 0,
    ensures
        0 <= (k / 3) % cw < cw,
        0 <= (k / 3) / cw < ch,
{
    let p = k / 3;
    assert(0 <= p < cw * ch);
    assert(0 <= p / cw < ch) by (nonlinear_arith)
        requires
            0 <= p < cw * ch,
            cw > 0,
    ;
}

/// Center-crops an RGB image to `cw`×`ch`, padding with black where the image is smaller.
pub fn center_crop(img: &RgbPixels, cw: u32, ch: u32) -> (r: RgbPixels)
    requires
        img.wf(),
        side_ok(cw as int),
        side_ok(ch as int),
    ensures
        r.width == cw,
        r.height == ch,
        r.wf(),
        r.data@ == center_cropped(img.data@, img.width as int, img.height as int, cw as int, ch as int),
{
    let iw = img.width as i64;
    let ih = img.height as i64;
    let w = cw as i64;
    let h = ch as i64;
    let pw: i64 = if w >= iw { w } else { iw };
    let ph: i64 = if h >= ih { h } else { ih };
    let ox: i64 = (pw - w) / 2 - (pw - iw) / 2;
    let oy: i64 = (ph - h) / 2 - (ph - ih) / 2;
    proof {
        assert(cw as int * ch as int * 3 <= 805306368) by (nonlinear_arith)
            requires
                side_ok(cw as int),
                side_ok(ch as int),
        ;
    }
    let total: usize = (cw as usize) * (ch as usize) * 3;
    let mut out: Vec<u8> = Vec::new();
    let mut k: usize = 0;
    while k < total
        invariant
            img.wf(),
            iw == img.width,
            ih == img.height,
            w == cw,
            h == ch,
            side_ok(cw as int),
            side_ok(ch as int),
            pw == max_side(w as int, iw as int),
            ph == max_side(h as int, ih as int),
            ox == (pw - w) / 2 - (pw - iw) / 2,
            oy == (ph - h) / 2 - (ph - ih) / 2,
            total == cw * ch * 3,
            k <= total,
            out@.len() == k,
            forall|j: int| 0 <= j < k ==> out@[j] == #[trigger] center_cropped(img.data@, iw as int, ih as int, w as int, h as int)[j],
        decreases total - k,
    {
        proof {
            lemma_decompose(k as int, cw as int, ch as int);
        }
        let p: usize = k / 3;
        let c: usize = k % 3;
        let x = (p % (cw as usize)) as i64;
        let y = (p / (cw as usize)) as i64;
        let sx: i64 = x + ox;
        let sy: i64 = y + oy;
        let v: u8 = if 0 <= sx && sx < iw && 0 <= sy && sy < ih {
            proof {
                lemma_pixel_index(sx as int, sy as int, iw as int, ih as int, c as int);
            }
            let dlen = img.data.len();
            let syu = sy as usize;
            let sxu = sx as usize;
            let wu = img.width as usize;
            assert((syu as int) * (wu as int) + (sxu as int) < img.data@.len());
            assert(((syu as int) * (wu as int) + (sxu as int)) * 3 + (c as int) < dlen);
            let row: usize = syu * wu;
            let idx: usize = (row + sxu) * 3 + c;
            img.data[idx]
        } else {
            0u8
        };
        out.push(v);
        k = k + 1;
    }
    RgbPixels { width: cw, height: ch, data: out }
}


impl ImagePlan {
    /// The model size is one preprocessing accepts.
    pub open spec fn wf(&self) -> bool {
        side_ok(self.width as int) && side_ok(self.height as int)
    }

    /// The shortest-edge length to resize to, when preprocessing resizes by the
    /// shortest edge (no `--stretch`, resizing on, a shortest edge in the metadata).
    pub open spec fn spec_edge_resize(&self) -> Option<u64> {
        if !self.stretch && self.meta.spec_resizes() {
            self.meta.spec_shortest_edge()
        } else {
            None
        }
    }

    /// The shortest-edge length to resize to, if that is how this plan resizes;
    /// the caller then scales the decoded image's sides by `edge / min(side)`.
    pub fn edge_resize(&self) -> (r: Option<u64>)
        ensures
            r == self.spec_edge_resize(),
    {
        let resizes = match self.meta.do_resize {
            Some(b) => b,
            None => true,
        };
        if !self.stretch && resizes {
            match self.meta.size_shortest_edge {
                Some(s) => Some(s),
                None => self.meta.size_value,
            }
        } else {
            None
        }
    }

    /// The size to resize to (without `--stretch`): the shortest-edge size
    /// computed by the caller, or `size.width`×`size.height` (each taken modulo 2^32).
    pub open spec fn spec_resize_target(&self, edge_dims: Option<(u32, u32)>) -> Result<(u32, u32), PixelError> {
        let target: Result<(u32, u32), PixelError> = if self.meta.spec_shortest_edge() is Some {
            Ok(edge_dims->0)
        } else {
            match self.meta.size_width {
                None => Err(PixelError::MissingSizeWidth),
                Some(w) => match self.meta.size_height {
                    None => Err(PixelError::MissingSizeHeight),
                    Some(h) => Ok((w as u32, h as u32)),
                },
            }
        };
        match target {
            Err(e) => Err(e),
            Ok((w, h)) => if side_ok(w as int) && side_ok(h as int) {
                Ok((w, h))
            } else {
                Err(PixelError::InvalidResize)
            },
        }
    }

    /// The center-crop size: `crop_size.width`/`height`, else a numeric
    /// `crop_size`, else the model size (each taken modulo 2^32).
    pub open spec fn spec_crop_size(&self) -> Result<(u32, u32), PixelError> {
        let w: u64 = match self.meta.crop_width {
            Some(v) => v,
            None => match self.meta.crop_value { Some(v) => v, None => self.width as u64 },
        };
        let h: u64 = match self.meta.crop_height {
            Some(v) => v,
            None => match self.meta.crop_value { Some(v) => v, None => self.height as u64 },
        };
        if side_ok(w as u32 as int) && side_ok(h as u32 as int) {
            Ok((w as u32, h as u32))
        } else {
            Err(PixelError::InvalidCrop)
        }
    }

    /// Center cropping applies: not with `--stretch`, and only when the metadata asks for it.
    pub open spec fn spec_crops_image(&self) -> bool {
        !self.stretch && self.meta.spec_crops()
    }

    /// The resize preprocessing performs on an image, after the resample code
    /// is checked: with `--stretch` straight to the model size; otherwise, when
    /// the metadata resizes, to the shortest-edge size (`edge_dims`, computed by
    /// the caller) or to `size.width`×`size.height`; `None` when nothing is resized.
    pub open spec fn spec_resize_step(&self, edge_dims: Option<(u32, u32)>) -> Result<Option<(u32, u32, Resample)>, PixelError> {
        match spec_resample(self.meta.resample) {
            Err(e) => Err(e),
            Ok(f) => if self.stretch {
                Ok(Some((self.width, self.height, f)))
            } else if self.meta.spec_resizes() {
                match self.spec_resize_target(edge_dims) {
                    Err(e) => Err(e),
                    Ok((w, h)) => Ok(Some((w, h, f))),
                }
            } else {
                Ok(None)
            },
        }
    }

    /// The size after the crop (if any) of a `width`×`height` image, which must
    /// be the model's size.
    pub open spec fn spec_finish_size(&self, width: u32, height: u32) -> Result<(u32, u32), PixelError> {
        let staged: Result<(u32, u32), PixelError> = if self.spec_crops_image() {
            self.spec_crop_size()
        } else {
            Ok((width, height))
        };
        match staged {
            Err(e) => Err(e),
            Ok((w, h)) => if w == self.width && h == self.height {
                Ok((w, h))
            } else {
                Err(PixelError::SizeMismatch { width: w, height: h })
            },
        }
    }

    /// What follows the resize for a `width`×`height` image with bytes `data`:
    /// the center crop, when it applies, and the check against the model size.
    pub open spec fn spec_finish_fit(&self, width: u32, height: u32, data: Seq<u8>) -> Result<(u32, u32, Seq<u8>), PixelError> {
        match self.spec_finish_size(width, height) {
            Err(e) => Err(e),
            Ok((w, h)) => Ok((
                w,
                h,
                if self.spec_crops_image() {
                    center_cropped(data, width as int, height as int, w as int, h as int)
                } else {
                    data
                },
            )),
        }
    }

    /// The size of the processed `width`×`height` image, or the error that stops it.
    pub open spec fn spec_fit_size(&self, width: u32, height: u32, edge_dims: Option<(u32, u32)>) -> Result<(u32, u32), PixelError> {
        match self.spec_resize_step(edge_dims) {
            Err(e) => Err(e),
            Ok(None) => self.spec_finish_size(width, height),
            Ok(Some((w, h, _))) => self.spec_finish_size(w, h),
        }
    }

    /// The resize to perform, if any (see `spec_resize_step`). `edge_dims` is
    /// the shortest-edge size computed by the caller; it is needed exactly when
    /// `edge_resize` is `Some`.
    pub fn resize_step(&self, edge_dims: Option<(u32, u32)>) -> (r: Result<Option<(u32, u32, Resample)>, PixelError>)
        requires
            self.spec_edge_resize() is Some ==> edge_dims is Some,
        ensures
            r == self.spec_resize_step(edge_dims),
    {
        let filter = match resample_filter(self.meta.resample) {
            Ok(f) => f,
            Err(e) => return Err(e),
        };
        if self.stretch {
            return Ok(Some((self.width, self.height, filter)));
        }
        let resizes = match self.meta.do_resize {
            Some(b) => b,
            None => true,
        };
        if !resizes {
            return Ok(None);
        }
        let edge = match self.meta.size_shortest_edge {
            Some(s) => Some(s),
            None => self.meta.size_value,
        };
        let (w, h): (u32, u32) = if edge.is_some() {
            match edge_dims {
                Some(d) => d,
                None => (0, 0),
            }
        } else {
            let w = match self.meta.size_width {
                Some(w) => w,
                None => return Err(PixelError::MissingSizeWidth),
            };
            let h = match self.meta.size_height {
                Some(h) => h,
                None => return Err(PixelError::MissingSizeHeight),
            };
            (w as u32, h as u32)
        };
        if !(w > 0 && h > 0 && w <= 16384 && h <= 16384) {
            return Err(PixelError::InvalidResize);
        }
        Ok(Some((w, h, filter)))
    }

    /// Crops a resized (or unresized) image when the metadata asks for it and
    /// checks that the result has the model's size (see `spec_finish_fit`).
    pub fn finish_fit(&self, img: RgbPixels) -> (r: Result<RgbPixels, PixelError>)
        requires
            img.wf(),
        ensures
            match r {
                Ok(out) => out.wf() && self.spec_finish_fit(img.width, img.height, img.data@)
                    == Ok::<(u32, u32, Seq<u8>), PixelError>((out.width, out.height, out.data@)),
                Err(e) => self.spec_finish_fit(img.width, img.height, img.data@)
                    == Err::<(u32, u32, Seq<u8>), PixelError>(e),
            },
    {
        let crops = match self.meta.do_center_crop {
            Some(b) => b,
            None => false,
        };
        let mut im = img;
        if !self.stretch && crops {
            let cw64: u64 = match self.meta.crop_width {
                Some(v) => v,
                None => match self.meta.crop_value {
                    Some(v) => v,
                    None => self.width as u64,
                },
            };
            let ch64: u64 = match self.meta.crop_height {
                Some(v) => v,
                None => match self.meta.crop_value {
                    Some(v) => v,
                    None => self.height as u64,
                },
            };
            let cw = cw64 as u32;
            let ch = ch64 as u32;
            if !(cw > 0 && ch > 0 && cw <= 16384 && ch <= 16384) {
                return Err(PixelError::InvalidCrop);
            }
            im = center_crop(&im, cw, ch);
        }
        if im.width == self.width && im.height == self.height {
            Ok(im)
        } else {
            Err(PixelError::SizeMismatch { width: im.width, height: im.height })
        }
    }

    /// Brings a decoded image to the model's input size: the resize step, the
    /// resize itself with `image::imageops::resize`, then `finish_fit`. The
    /// outcome's size and every error are fixed by the plan. The pixels are
    /// `spec_finish_fit` of the input when nothing is resized or the resize
    /// keeps the size, of `resized_rgb` of the input with the chosen
    /// nearest-neighbour or triangle filter, of a black canvas for an image
    /// without pixels, and otherwise of some image of the resized size.
    pub fn fit_image(&self, img: RgbPixels, edge_dims: Option<(u32, u32)>) -> (r: Result<RgbPixels, PixelError>)
        requires
            self.wf(),
            img.wf(),
            self.spec_edge_resize() is Some ==> edge_dims is Some,
        ensures
            match r {
                Ok(out) => out.wf() && self.spec_fit_size(img.width, img.height, edge_dims)
                    == Ok::<(u32, u32), PixelError>((out.width, out.height)),
                Err(e) => self.spec_fit_size(img.width, img.height, edge_dims)
                    == Err::<(u32, u32), PixelError>(e),
            },
            self.spec_resize_step(edge_dims) == Ok::<Option<(u32, u32, Resample)>, PixelError>(None) ==> (
            r matches Ok(out) ==> self.spec_finish_fit(img.width, img.height, img.data@)
                == Ok::<(u32, u32, Seq<u8>), PixelError>((out.width, out.height, out.data@))),
            self.spec_resize_step(edge_dims) matches Ok(Some((w, h, f))) ==> (r matches Ok(out) ==> (
            (w == img.width && h == img.height ==> self.spec_finish_fit(w, h, img.data@)
                == Ok::<(u32, u32, Seq<u8>), PixelError>((out.width, out.height, out.data@)))
            && (img.width == 0 || img.height == 0 ==> self.spec_finish_fit(w, h, blank_rgb(w, h))
                == Ok::<(u32, u32, Seq<u8>), PixelError>((out.width, out.height, out.data@)))
            && (f == Resample::Nearest || f == Resample::Triangle ==> self.spec_finish_fit(
                w,
                h,
                resized_rgb(img.data@, img.width, img.height, w, h, f),
            ) == Ok::<(u32, u32, Seq<u8>), PixelError>((out.width, out.height, out.data@))))),
            self.spec_resize_step(edge_dims) matches Ok(Some((w, h, _))) ==> (r matches Ok(out) ==> exists|
                d: Seq<u8>,
            |
                rgb_wf(w, h, d) && #[trigger] self.spec_finish_fit(w, h, d)
                    == Ok::<(u32, u32, Seq<u8>), PixelError>((out.width, out.height, out.data@))),
    {
        match self.resize_step(edge_dims) {
            Err(e) => Err(e),
            Ok(None) => self.finish_fit(img),
            Ok(Some((w, h, f))) => {
                let resized = resize_rgb(&img, w, h, f);
                proof {
                    if img.width == 0 || img.height == 0 {
                        assert(resized.data@ =~= blank_rgb(w, h));
                    }
                }
                let r = self.finish_fit(resized);
                proof {
                    if r is Ok {
                        assert(self.spec_finish_fit(w, h, resized.data@) == Ok::<(u32, u32, Seq<u8>), PixelError>(
                            (r->Ok_0.width, r->Ok_0.height, r->Ok_0.data@),
                        ));
                    }
                }
                r
            },
        }
    }
}

/// Whatever the metadata says, a processed image has exactly the model's size,
/// and so has every image that passes the final stage.
pub proof fn lemma_fit_image_has_model_size(
    plan: ImagePlan,
    width: u32,
    height: u32,
    data: Seq<u8>,
    edge_dims: Option<(u32, u32)>,
)
    ensures
        plan.spec_fit_size(width, height, edge_dims) is Ok ==> plan.spec_fit_size(width, height, edge_dims)
            == Ok::<(u32, u32), PixelError>((plan.width, plan.height)),
        plan.spec_finish_fit(width, height, data) is Ok ==> plan.spec_finish_fit(width, height, data)->Ok_0.0
            == plan.width && plan.spec_finish_fit(width, height, data)->Ok_0.1 == plan.height,
{
}

/// With `--stretch` and a supported resample code, every image is resized
/// straight to the model's size, and nothing is cropped afterwards.
pub proof fn lemma_stretch_resizes_directly(plan: ImagePlan, edge_dims: Option<(u32, u32)>, data: Seq<u8>)
    requires
        plan.stretch,
        spec_resample(plan.meta.resample) is Ok,
    ensures
        plan.spec_resize_step(edge_dims) == Ok::<Option<(u32, u32, Resample)>, PixelError>(
            Some((plan.width, plan.height, spec_resample(plan.meta.resample)->Ok_0)),
        ),
        plan.spec_finish_fit(plan.width, plan.height, data) == Ok::<(u32, u32, Seq<u8>), PixelError>(
            (plan.width, plan.height, data),
        ),
{
}

/// Position in the input tensor of channel `c` of pixel `i` (row-major) of an
/// image with `area` pixels: planar for NCHW, interleaved for NHWC.
pub open spec fn spec_tensor_index(layout: Layout, area: int, i: int, c: int) -> int {
    match layout {
        Layout::Nchw => c * area + i,
        Layout::Nhwc => i * 3 + c,
    }
}

/// Where channel `c` of pixel `i` goes in the input tensor.
pub fn tensor_index(layout: Layout, area: usize, i: usize, c: usize) -> (r: usize)
    requires
        i < area,
        c < 3,
        area * 3 <= usize::MAX,
    ensures
        r == spec_tensor_index(layout, area as int, i as int, c as int),
        r < area * 3,
{
    proof {
        assert(c * area + i < area * 3 && i * 3 + c < area * 3) by (nonlinear_arith)
            requires
                i < area,
                c < 3,
        ;
    }
    match layout {
        Layout::Nchw => c * area + i,
        Layout::Nhwc => i * 3 + c,
    }
}

/// The image channel that feeds tensor channel `c`: reversed for BGR models.
pub open spec fn spec_source_channel(bgr: bool, c: int) -> int {
    if bgr { 2 - c } else { c }
}

/// The image channel read for tensor channel `c`.
pub fn source_channel(bgr: bool, c: usize) -> (r: usize)
    requires
        c < 3,
    ensures
        r == spec_source_channel(bgr, c as int),
        r < 3,
{
    if bgr { 2 - c } else { c }
}

/// The (pixel, channel) pair whose value sits at position `j` of the input
/// tensor of an image with `area` pixels.
pub open spec fn spec_tensor_source(layout: Layout, area: int, j: int) -> (int, int) {
    match layout {
        Layout::Nchw => (j % area, j / area),
        Layout::Nhwc => (j / 3, j % 3),
    }
}

/// The value for channel `c` of pixel `i`: the entry of `table` for that
/// channel (256 entries each) and the byte of image channel
/// `spec_source_channel(bgr, c)` of the pixel.
pub open spec fn spec_channel_value<T>(bgr: bool, data: Seq<u8>, table: Seq<T>, i: int, c: int) -> T {
    table[c * 256 + data[i * 3 + spec_source_channel(bgr, c)] as int]
}

/// The input tensor of an RGB image with `area` pixels and bytes `data`.
pub open spec fn spec_tensor<T>(layout: Layout, bgr: bool, data: Seq<u8>, area: int, table: Seq<T>) -> Seq<T> {
    Seq::new(
        (3 * area) as nat,
        |j: int| spec_channel_value(bgr, data, table, spec_tensor_source(layout, area, j).0, spec_tensor_source(layout, area, j).1),
    )
}

proof fn lemma_tensor_source_inverts(layout: Layout, area: int, i: int, c: int)
    requires
        0 <= i < area,
        0 <= c < 3,
    ensures
        spec_tensor_source(layout, area, spec_tensor_index(layout, area, i, c)) == (i, c),
{
    match layout {
        Layout::Nchw => {
            assert((c * area + i) / area == c && (c * area + i) % area == i) by (nonlinear_arith)
                requires
                    0 <= i < area,
                    0 <= c < 3,
            {
                vstd::arithmetic::div_mod::lemma_fundamental_div_mod_converse(c * area + i, area, c, i);
            }
        },
        Layout::Nhwc => {},
    }
}

proof fn lemma_tensor_source_bounds(layout: Layout, area: int, j: int)
    requires
        0 <= j < 3 * area,
    ensures
        0 <= spec_tensor_source(layout, area, j).0 < area,
        0 <= spec_tensor_source(layout, area, j).1 < 3,
{
    match layout {
        Layout::Nchw => {
            assert(0 <= j % area < area && 0 <= j / area < 3) by (nonlinear_arith)
                requires
                    0 <= j < 3 * area,
            ;
        },
        Layout::Nhwc => {},
    }
}

impl ImagePlan {
    /// The model's input tensor for a processed image: channel `c` of pixel `i`
    /// goes to `tensor_index(layout, area, i, c)` and holds the `table` entry
    /// for that channel and the byte of image channel `source_channel(bgr, c)`.
    /// The caller's `table` holds the normalized value of every channel and byte.
    pub fn tensor<T: Copy>(&self, img: &RgbPixels, table: &Vec<T>) -> (out: Vec<T>)
        requires
            img.wf(),
            table@.len() == 3 * 256,
        ensures
            out@ == spec_tensor(self.layout, self.bgr, img.data@, img.width * img.height, table@),
            forall|i: int, c: int|
                0 <= i < img.width * img.height && 0 <= c < 3 ==> out@[spec_tensor_index(
                    self.layout,
                    img.width * img.height,
                    i,
                    c,
                )] == spec_channel_value(self.bgr, img.data@, table@, i, c),
    {
        let n: usize = img.data.len();
        let area: usize = n / 3;
        let ghost a: int = img.width * img.height;
        assert(area == a);
        let mut out: Vec<T> = Vec::new();
        let mut j: usize = 0;
        while j < n
            invariant
                img.wf(),
                table@.len() == 3 * 256,
                n == img.data@.len(),
                n == 3 * a,
                area == a,
                j <= n,
                out@.len() == j,
                forall|k: int| 0 <= k < j ==> out@[k] == #[trigger] spec_tensor(self.layout, self.bgr, img.data@, a, table@)[k],
            decreases n - j,
        {
            proof {
                lemma_tensor_source_bounds(self.layout, a, j as int);
            }
            let (i, c): (usize, usize) = match self.layout {
                Layout::Nchw => (j % area, j / area),
                Layout::Nhwc => (j / 3, j % 3),
            };
            let ch = source_channel(self.bgr, c);
            let b: u8 = img.data[i * 3 + ch];
            let v: T = table[c * 256 + b as usize];
            out.push(v);
            j = j + 1;
        }
        assert(out@ =~= spec_tensor(self.layout, self.bgr, img.data@, a, table@));
        assert forall|i: int, c: int| 0 <= i < a && 0 <= c < 3 implies out@[spec_tensor_index(self.layout, a, i, c)]
            == spec_channel_value(self.bgr, img.data@, table@, i, c) by {
            lemma_tensor_source_inverts(self.layout, a, i, c);
            lemma_tensor_index_bijective(self.layout, a, i, c, i, c, 0);
        }
        out
    }
}

/// NHWC is the transpose of NCHW: two plans that differ only in layout resize,
/// crop and reject images alike, and the tensor of one processed image holds
/// the value for channel `c` of pixel `i` at `i * 3 + c` under NHWC and at
/// `c * area + i` under NCHW.
pub proof fn lemma_nhwc_transposes_nchw<T>(
    nchw: ImagePlan,
    nhwc: ImagePlan,
    edge_dims: Option<(u32, u32)>,
    width: u32,
    height: u32,
    data: Seq<u8>,
    table: Seq<T>,
)
    requires
        nchw.layout == Layout::Nchw,
        nhwc.layout == Layout::Nhwc,
        nchw.width == nhwc.width,
        nchw.height == nhwc.height,
        nchw.stretch == nhwc.stretch,
        nchw.bgr == nhwc.bgr,
        nchw.meta == nhwc.meta,
        rgb_wf(width, height, data),
        table.len() == 3 * 256,
    ensures
        nchw.spec_edge_resize() == nhwc.spec_edge_resize(),
        nchw.spec_resize_step(edge_dims) == nhwc.spec_resize_step(edge_dims),
        nchw.spec_finish_fit(width, height, data) == nhwc.spec_finish_fit(width, height, data),
        spec_tensor(nchw.layout, nchw.bgr, data, width * height, table).len() == 3 * (width * height),
        spec_tensor(nhwc.layout, nhwc.bgr, data, width * height, table).len() == 3 * (width * height),
        forall|i: int, c: int|
            0 <= i < width * height && 0 <= c < 3 ==> #[trigger] spec_tensor(nhwc.layout, nhwc.bgr, data, width * height, table)[i * 3 + c]
                == spec_tensor(nchw.layout, nchw.bgr, data, width * height, table)[c * (width * height) + i],
{
    let a: int = width * height;
    assert forall|i: int, c: int| 0 <= i < a && 0 <= c < 3 implies #[trigger] spec_tensor(nhwc.layout, nhwc.bgr, data, a, table)[i * 3 + c]
        == spec_tensor(nchw.layout, nchw.bgr, data, a, table)[c * a + i] by {
        lemma_tensor_source_inverts(Layout::Nchw, a, i, c);
        lemma_tensor_source_inverts(Layout::Nhwc, a, i, c);
        lemma_tensor_index_bijective(Layout::Nchw, a, i, c, i, c, 0);
        lemma_tensor_index_bijective(Layout::Nhwc, a, i, c, i, c, 0);
    }
}

/// Every element of the input tensor is written exactly once: distinct
/// (pixel, channel) pairs land at distinct positions below `3 * area`, and every
/// such position is reached.
pub proof fn lemma_tensor_index_bijective(layout: Layout, area: int, i1: int, c1: int, i2: int, c2: int, j: int)
    requires
        0 <= i1 < area,
        0 <= i2 < area,
        0 <= c1 < 3,
        0 <= c2 < 3,
        0 <= j < 3 * area,
    ensures
        0 <= spec_tensor_index(layout, area, i1, c1) < 3 * area,
        spec_tensor_index(layout, area, i1, c1) == spec_tensor_index(layout, area, i2, c2) ==> i1 == i2
            && c1 == c2,
        exists|i: int, c: int|
            0 <= i < area && 0 <= c < 3 && #[trigger] spec_tensor_index(layout, area, i, c) == j,
{
    match layout {
        Layout::Nchw => {
            assert(0 <= c1 * area + i1 < 3 * area) by (nonlinear_arith)
                requires
                    0 <= i1 < area,
                    0 <= c1 < 3,
            ;
            if c1 * area + i1 == c2 * area + i2 {
                assert(i1 == i2 && c1 == c2) by (nonlinear_arith)
                    requires
                        c1 * area + i1 == c2 * area + i2,
                        0 <= i1 < area,
                        0 <= i2 < area,
                        0 <= c1 < 3,
                        0 <= c2 < 3,
                ;
            }
            let c = j / area;
            let i = j % area;
            assert(0 <= i < area && 0 <= c < 3 && c * area + i == j) by (nonlinear_arith)
                requires
                    0 <= j < 3 * area,
                    c == j / area,
                    i == j % area,
            ;
            assert(spec_tensor_index(layout, area, i, c) == j);
        },
        Layout::Nhwc => {
            let c = j % 3;
            let i = j / 3;
            assert(0 <= i < area && 0 <= c < 3 && i * 3 + c == j);
            assert(spec_tensor_index(layout, area, i, c) == j);
        },
    }
}

} // verus!
