use dino_cli::cli::Layout;
use dino_cli::json::{JsonNumber, JsonValue};
use dino_cli::preprocess::{
    center_crop, check_metadata, decode_image, dims_in_range, processor_meta, resample_filter, source_channel,
    tensor_index, ImagePlan, PixelError, ProcessorError, ProcessorMeta, Resample, RgbPixels, ScaleSource,
    TripleSource,
};

fn meta() -> ProcessorMeta {
    ProcessorMeta {
        do_normalize: None,
        do_rescale: None,
        resample: None,
        do_resize: None,
        size_shortest_edge: None,
        size_value: None,
        size_width: None,
        size_height: None,
        do_center_crop: None,
        crop_width: None,
        crop_height: None,
        crop_value: None,
        image_mean_is_array: false,
        image_std_is_array: false,
    }
}

fn plan(width: u32, height: u32, stretch: bool, meta: ProcessorMeta) -> ImagePlan {
    ImagePlan { width, height, layout: Layout::Nchw, stretch, bgr: false, meta }
}

/// A `w`×`h` image whose byte at (x, y, c) is 10*y + 3*x + c + 1.
fn image(w: u32, h: u32) -> RgbPixels {
    let mut data = Vec::new();
    for y in 0..h {
        for x in 0..w {
            for c in 0..3 {
                data.push((10 * y + 3 * x + c + 1) as u8);
            }
        }
    }
    RgbPixels { width: w, height: h, data }
}

#[test]
fn metadata_or_all_overrides() {
    assert_eq!(check_metadata(true, false, false, false, false), Ok(()));
    assert_eq!(check_metadata(false, true, true, true, true), Ok(()));
    assert_eq!(check_metadata(false, true, true, true, false), Err(ProcessorError::NoMetadata));
    assert_eq!(check_metadata(false, true, false, true, true), Err(ProcessorError::NoMetadata));
}

#[test]
fn model_size_bounds() {
    assert!(dims_in_range(224, 224));
    assert!(dims_in_range(16384, 1));
    assert!(!dims_in_range(0, 224));
    assert!(!dims_in_range(224, 16385));
}

#[test]
fn resample_codes() {
    assert_eq!(resample_filter(Some(0)), Ok(Resample::Nearest));
    assert_eq!(resample_filter(Some(1)), Ok(Resample::Lanczos3));
    assert_eq!(resample_filter(Some(2)), Ok(Resample::Triangle));
    assert_eq!(resample_filter(Some(3)), Ok(Resample::CatmullRom));
    assert_eq!(resample_filter(None), Ok(Resample::CatmullRom));
    assert_eq!(resample_filter(Some(4)), Err(PixelError::UnsupportedResample(4)));
}

#[test]
fn normalization_sources() {
    let mut m = meta();
    assert_eq!(m.triple_source(true, false), TripleSource::Default);
    assert_eq!(m.triple_source(true, true), TripleSource::Override);
    m.image_mean_is_array = true;
    assert_eq!(m.triple_source(true, false), TripleSource::Metadata);
    assert_eq!(m.triple_source(false, false), TripleSource::Default);
    m.do_normalize = Some(false);
    assert_eq!(m.triple_source(true, false), TripleSource::Neutral);
    assert_eq!(m.triple_source(true, true), TripleSource::Override);
    assert_eq!(m.scale_source(true), ScaleSource::Override);
    assert_eq!(m.scale_source(false), ScaleSource::Metadata);
    m.do_rescale = Some(false);
    assert_eq!(m.scale_source(false), ScaleSource::One);
}

#[test]
fn crop_smaller_image_is_padded() {
    // a 1x1 image centered in a 3x3 crop: the middle pixel
    let out = center_crop(&image(1, 1), 3, 3);
    assert_eq!((out.width, out.height), (3, 3));
    let mut expected = vec![0u8; 27];
    expected[12..15].copy_from_slice(&[1, 2, 3]);
    assert_eq!(out.data, expected);
}

#[test]
fn crop_takes_the_center() {
    // 4x3 image cropped to 2x1: x offset 1, y offset 1
    let img = image(4, 3);
    let out = center_crop(&img, 2, 1);
    assert_eq!((out.width, out.height), (2, 1));
    assert_eq!(out.data, vec![14, 15, 16, 17, 18, 19]);
}

#[test]
fn crop_mixed_padding() {
    // 1 wide, 3 high, cropped to 3x1: padded horizontally, cut vertically
    let out = center_crop(&image(1, 3), 3, 1);
    assert_eq!(out.data, vec![0, 0, 0, 11, 12, 13, 0, 0, 0]);
}

#[test]
fn stretch_resizes_to_model_size() {
    let p = plan(4, 4, true, meta());
    let out = p.fit_image(image(2, 2), None).unwrap();
    assert_eq!((out.width, out.height), (4, 4));
    assert_eq!(out.data.len(), 48);
}

#[test]
fn same_size_resize_keeps_pixels() {
    let mut m = meta();
    m.size_width = Some(3);
    m.size_height = Some(2);
    let p = plan(3, 2, false, m);
    let img = image(3, 2);
    assert_eq!(p.fit_image(img.clone(), None).unwrap().data, img.data);
}

#[test]
fn resize_then_crop() {
    let mut m = meta();
    m.size_shortest_edge = Some(4);
    m.do_center_crop = Some(true);
    m.crop_value = Some(2);
    let p = plan(2, 2, false, m);
    assert_eq!(p.edge_resize(), Some(4));
    let out = p.fit_image(image(2, 3), Some((4, 6))).unwrap();
    assert_eq!((out.width, out.height), (2, 2));
}

#[test]
fn processing_errors() {
    let mut m = meta();
    m.resample = Some(7);
    assert_eq!(plan(2, 2, true, m).fit_image(image(2, 2), None).err(), Some(PixelError::UnsupportedResample(7)));
    let m = meta();
    assert_eq!(plan(2, 2, false, m).fit_image(image(2, 2), None).err(), Some(PixelError::MissingSizeWidth));
    let mut m = meta();
    m.size_width = Some(2);
    assert_eq!(plan(2, 2, false, m).fit_image(image(2, 2), None).err(), Some(PixelError::MissingSizeHeight));
    m.size_height = Some(0);
    assert_eq!(plan(2, 2, false, m).fit_image(image(2, 2), None).err(), Some(PixelError::InvalidResize));
    let mut m = meta();
    m.do_resize = Some(false);
    m.do_center_crop = Some(true);
    m.crop_width = Some(20000);
    assert_eq!(plan(2, 2, false, m).fit_image(image(2, 2), None).err(), Some(PixelError::InvalidCrop));
    let mut m = meta();
    m.do_resize = Some(false);
    assert_eq!(
        plan(2, 2, false, m).fit_image(image(3, 2), None).err(),
        Some(PixelError::SizeMismatch { width: 3, height: 2 })
    );
}

#[test]
fn sizes_wrap_like_u32_casts() {
    let mut m = meta();
    m.size_width = Some((1u64 << 32) + 2);
    m.size_height = Some(2);
    let out = plan(2, 2, false, m).fit_image(image(2, 2), None).unwrap();
    assert_eq!((out.width, out.height), (2, 2));
}

#[test]
fn tensor_positions() {
    assert_eq!(tensor_index(Layout::Nchw, 10, 4, 2), 24);
    assert_eq!(tensor_index(Layout::Nhwc, 10, 4, 2), 14);
    assert_eq!(source_channel(false, 0), 0);
    assert_eq!(source_channel(true, 0), 2);
    assert_eq!(source_channel(true, 1), 1);
    let mut seen = vec![false; 30];
    for layout in [Layout::Nchw, Layout::Nhwc] {
        seen.iter_mut().for_each(|s| *s = false);
        for i in 0..10 {
            for c in 0..3 {
                let j = tensor_index(layout, 10, i, c);
                assert!(!seen[j]);
                seen[j] = true;
            }
        }
        assert!(seen.iter().all(|s| *s));
    }
}

fn png_bytes(img: image::DynamicImage) -> Vec<u8> {
    let mut out = std::io::Cursor::new(Vec::new());
    img.write_to(&mut out, image::ImageFormat::Png).unwrap();
    out.into_inner()
}

#[test]
fn decodes_rgb() {
    let src = image(3, 2);
    let rgb = image::RgbImage::from_raw(3, 2, src.data.clone()).unwrap();
    let bytes = png_bytes(image::DynamicImage::ImageRgb8(rgb));
    let out = decode_image(&bytes).unwrap();
    assert_eq!((out.width, out.height), (3, 2));

    assert_eq!(out.data, src.data);
}

#[test]
fn alpha_is_discarded() {
    let rgba = image::RgbaImage::from_raw(1, 1, vec![10, 20, 30, 40]).unwrap();
    let out = decode_image(&png_bytes(image::DynamicImage::ImageRgba8(rgba))).unwrap();
    assert_eq!(out.data, vec![10, 20, 30]);
}

#[test]
fn undecodable_bytes() {
    assert_eq!(decode_image(&[1, 2, 3, 4]).err(), Some(PixelError::Undecodable));
    assert_eq!(decode_image(&[]).err(), Some(PixelError::Undecodable));
}

#[test]
fn resize_steps() {
    let p = plan(4, 5, true, meta());
    assert_eq!(p.resize_step(None), Ok(Some((4, 5, Resample::CatmullRom))));
    let mut m = meta();
    m.resample = Some(0);
    m.size_width = Some(8);
    m.size_height = Some(6);
    assert_eq!(plan(4, 4, false, m).resize_step(None), Ok(Some((8, 6, Resample::Nearest))));
    m.do_resize = Some(false);
    assert_eq!(plan(4, 4, false, m).resize_step(None), Ok(None));
    let mut m = meta();
    m.size_value = Some(7);
    assert_eq!(plan(4, 4, false, m).edge_resize(), Some(7));
    assert_eq!(plan(4, 4, false, m).resize_step(Some((7, 9))), Ok(Some((7, 9, Resample::CatmullRom))));
    assert_eq!(plan(4, 4, false, m).resize_step(Some((0, 9))), Err(PixelError::InvalidResize));
    m.resample = Some(9);
    assert_eq!(plan(4, 4, false, m).resize_step(Some((7, 9))), Err(PixelError::UnsupportedResample(9)));
}

#[test]
fn finishing_crops_and_checks_size() {
    let mut m = meta();
    m.do_center_crop = Some(true);
    let p = plan(2, 1, false, m);
    let out = p.finish_fit(image(4, 3)).unwrap();
    assert_eq!(out.data, vec![14, 15, 16, 17, 18, 19]);
    // with --stretch nothing is cropped
    assert_eq!(
        plan(2, 1, true, m).finish_fit(image(4, 3)).err(),
        Some(PixelError::SizeMismatch { width: 4, height: 3 })
    );
    assert_eq!(plan(4, 3, true, m).finish_fit(image(4, 3)).unwrap().data, image(4, 3).data);
}

fn num(u: u64) -> JsonValue {
    JsonValue::Number(JsonNumber::Unsigned(u))
}

fn obj(members: Vec<(&str, JsonValue)>) -> JsonValue {
    JsonValue::Object(members.into_iter().map(|(k, v)| (k.to_string(), v)).collect())
}

#[test]
fn metadata_fields() {
    let doc = obj(vec![
        ("do_normalize", JsonValue::Bool(false)),
        ("resample", num(2)),
        ("size", obj(vec![("shortest_edge", num(256)), ("width", num(300))])),
        ("crop_size", num(224)),
        ("do_center_crop", JsonValue::Bool(true)),
        ("image_mean", JsonValue::Array(vec![num(0), num(0), num(0)])),
        ("image_std", JsonValue::Text("0.5".to_string())),
        ("do_resize", num(1)),
        ("do_rescale", JsonValue::Bool(true)),
        ("do_rescale", JsonValue::Bool(false)),
    ]);
    let m = processor_meta(&doc);
    assert_eq!(m.do_normalize, Some(false));
    assert_eq!(m.resample, Some(2));
    assert_eq!(m.size_shortest_edge, Some(256));
    assert_eq!(m.size_value, None);
    assert_eq!(m.size_width, Some(300));
    assert_eq!(m.size_height, None);
    assert_eq!(m.crop_value, Some(224));
    assert_eq!(m.crop_width, None);
    assert_eq!(m.do_center_crop, Some(true));
    assert!(m.image_mean_is_array);
    assert!(!m.image_std_is_array);
    // a number is not a boolean
    assert_eq!(m.do_resize, None);
    // the last of repeated keys counts
    assert_eq!(m.do_rescale, Some(false));
    assert_eq!(processor_meta(&JsonValue::Null), meta());
    assert_eq!(processor_meta(&JsonValue::Array(vec![])), meta());
}

#[test]
fn tensors_by_layout() {
    // a 2x1 image; table entry c * 256 + b is 1000 * c + b
    let img = RgbPixels { width: 2, height: 1, data: vec![1, 2, 3, 4, 5, 6] };
    let table: Vec<u32> = (0..3).flat_map(|c| (0..256).map(move |b| 1000 * c + b)).collect();
    let mut p = plan(2, 1, false, meta());
    assert_eq!(p.tensor(&img, &table), vec![1, 4, 1002, 1005, 2003, 2006]);
    p.layout = Layout::Nhwc;
    assert_eq!(p.tensor(&img, &table), vec![1, 1002, 2003, 4, 1005, 2006]);
    p.bgr = true;
    assert_eq!(p.tensor(&img, &table), vec![3, 1002, 2001, 6, 1005, 2004]);
}

#[test]
fn nhwc_is_nchw_transposed() {
    let img = image(3, 2);
    let table: Vec<u32> = (0..768).collect();
    let mut p = plan(3, 2, false, meta());
    p.bgr = true;
    let planar = p.tensor(&img, &table);
    p.layout = Layout::Nhwc;
    let interleaved = p.tensor(&img, &table);
    let area = 6;
    for i in 0..area {
        for c in 0..3 {
            assert_eq!(interleaved[i * 3 + c], planar[c * area + i]);
        }
    }
}

#[test]
fn empty_image_resizes_to_black() {
    let p = plan(2, 2, true, meta());
    let out = p.fit_image(RgbPixels { width: 0, height: 3, data: vec![] }, None).unwrap();
    assert_eq!(out.data, vec![0u8; 12]);
}

#[test]
fn nearest_upscale_repeats_pixels() {
    let mut m = meta();
    m.resample = Some(0);
    let p = plan(2, 2, true, m);
    let out = p.fit_image(RgbPixels { width: 1, height: 1, data: vec![7, 8, 9] }, None).unwrap();
    assert_eq!(out.data, vec![7, 8, 9, 7, 8, 9, 7, 8, 9, 7, 8, 9]);
}
