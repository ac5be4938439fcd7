use rmbg::errors::RmbgError;
use rmbg::imageio::is_image_path;
use rmbg::pipeline::finish_output;
use rmbg::pipeline::prepare_input;
use rmbg::pipeline::select_io_names;
use rmbg::pixels::build_mask_rgba;
use rmbg::pixels::composite_rgba;
use rmbg::pixels::pack_channels;

fn png_bytes(w: u32, h: u32, rgba: &[u8]) -> Vec<u8> {
    let buf: image::ImageBuffer<image::Rgba<u8>, Vec<u8>> =
        image::ImageBuffer::from_raw(w, h, rgba.to_vec()).unwrap();
    let mut out = std::io::Cursor::new(Vec::new());
    buf.write_to(&mut out, image::ImageFormat::Png).unwrap();
    out.into_inner()
}

fn decode_rgba(png: &[u8]) -> (u32, u32, Vec<u8>) {
    let img = image::load_from_memory(png).unwrap();
    (img.width(), img.height(), img.to_rgba8().into_raw())
}

#[test]
fn mime_gate_accepts_images_and_rejects_text() {
    assert!(is_image_path("photo.png"));
    assert!(is_image_path("dir/photo.jpg"));
    assert!(!is_image_path("notes.txt"));
    assert!(!is_image_path("model.onnx"));
}

#[test]
fn select_io_names_takes_first_of_each() {
    let inputs = vec!["in_a".to_string(), "in_b".to_string()];
    let outputs = vec!["out_a".to_string()];
    let (i, o) = select_io_names(&inputs, &outputs).unwrap();
    assert_eq!(i, "in_a");
    assert_eq!(o, "out_a");
}

#[test]
fn select_io_names_fails_without_inputs_or_outputs() {
    let none: Vec<String> = Vec::new();
    let some = vec!["t".to_string()];
    assert_eq!(select_io_names(&none, &some).unwrap_err(), RmbgError::SchemaError);
    assert_eq!(select_io_names(&some, &none).unwrap_err(), RmbgError::SchemaError);
}

#[test]
fn pack_channels_lays_planes_out_in_order() {
    // two pixels: (1,2,3,4) and (5,6,7,8)
    let rgba = vec![1u8, 2, 3, 4, 5, 6, 7, 8];
    assert_eq!(pack_channels(&rgba), vec![1u8, 5, 2, 6, 3, 7]);
}

#[test]
fn build_mask_replicates_intensity_and_saturates_alpha() {
    let intensities = vec![5u8, 9];
    assert_eq!(build_mask_rgba(&intensities), vec![5u8, 5, 5, 255, 9, 9, 9, 255]);
}

#[test]
fn composite_keeps_rgb_and_copies_mask_red_into_alpha() {
    let src = vec![10u8, 20, 30, 40, 50, 60, 70, 80];
    let mask = vec![111u8, 1, 2, 3, 222, 4, 5, 6];
    assert_eq!(composite_rgba(&src, &mask), vec![10u8, 20, 30, 111, 50, 60, 70, 222]);
}

#[test]
fn prepare_input_packs_the_expected_tensor() {
    // a 4x4 image processed at resolution 4: the resize keeps it as is,
    // so the packed tensor is exactly the planar layout of the source
    let mut rgba: Vec<u8> = Vec::new();
    for p in 0..16u32 {
        rgba.push(p as u8);
        rgba.push(100 + p as u8);
        rgba.push(200 + p as u8);
        rgba.push(255);
    }
    let bytes = png_bytes(4, 4, &rgba);
    let prepared = prepare_input("photo.png", &bytes, 4).unwrap();
    assert_eq!(prepared.width, 4);
    assert_eq!(prepared.height, 4);
    assert_eq!(prepared.source_rgba, rgba);
    let mut expected: Vec<u8> = Vec::new();
    for c in 0..3u32 {
        for p in 0..16u32 {
            expected.push((100 * c + p) as u8);
        }
    }
    assert_eq!(prepared.planar, expected);
}

#[test]
fn prepare_input_resizes_to_the_model_resolution() {
    let rgba = vec![128u8; 4 * 6 * 3];
    let bytes = png_bytes(6, 3, &rgba);
    let prepared = prepare_input("photo.png", &bytes, 4).unwrap();
    assert_eq!(prepared.width, 6);
    assert_eq!(prepared.height, 3);
    assert_eq!(prepared.planar.len(), 3 * 4 * 4);
}

#[test]
fn text_input_fails_before_decoding() {
    // valid image bytes behind a text path: the MIME check comes first
    let bytes = png_bytes(2, 2, &[0u8; 16]);
    assert_eq!(
        prepare_input("notes.txt", &bytes, 4).unwrap_err(),
        RmbgError::UnsupportedFileType
    );
}

#[test]
fn undecodable_bytes_fail_with_decode_error() {
    let bytes = vec![1u8, 2, 3, 4];
    assert_eq!(prepare_input("photo.png", &bytes, 4).unwrap_err(), RmbgError::DecodeError);
}

#[test]
fn finish_output_copies_mask_into_alpha_exactly() {
    // 4x4 source at resolution 4: the mask resize keeps it as is, so each
    // pixel's alpha is exactly its quantized intensity
    let mut src: Vec<u8> = Vec::new();
    for p in 0..16u32 {
        src.push(3 * p as u8);
        src.push(60 + p as u8);
        src.push(120 + p as u8);
        src.push(7);
    }
    let intensities: Vec<u8> = (0..16u8).map(|p| 16 * p).collect();
    let png = finish_output(&intensities, 4, 4, 4, &src).unwrap();
    let (w, h, out) = decode_rgba(&png);
    assert_eq!((w, h), (4, 4));
    for p in 0..16usize {
        assert_eq!(out[4 * p], src[4 * p]);
        assert_eq!(out[4 * p + 1], src[4 * p + 1]);
        assert_eq!(out[4 * p + 2], src[4 * p + 2]);
        assert_eq!(out[4 * p + 3], intensities[p]);
    }
}

#[test]
fn final_image_keeps_source_dimensions_and_white_mask_saturates() {
    // 3x2 source, model resolution 8: the composite comes back at 3x2, and
    // an all-white mask saturates every alpha
    let mut src: Vec<u8> = Vec::new();
    for p in 0..6u32 {
        src.push(10 + p as u8);
        src.push(40 + p as u8);
        src.push(90 + p as u8);
        src.push(33);
    }
    let intensities = vec![255u8; 64];
    let png = finish_output(&intensities, 8, 3, 2, &src).unwrap();
    let (w, h, out) = decode_rgba(&png);
    assert_eq!((w, h), (3, 2));
    for p in 0..6usize {
        assert_eq!(out[4 * p], src[4 * p]);
        assert_eq!(out[4 * p + 1], src[4 * p + 1]);
        assert_eq!(out[4 * p + 2], src[4 * p + 2]);
        assert_eq!(out[4 * p + 3], 255);
    }
}

#[test]
fn photo_scenario_keeps_300_by_200() {
    // a 300x200 source processed at model resolution 256 comes back as a
    // 300x200 RGBA image
    let src = vec![77u8; 4 * 300 * 200];
    let intensities = vec![255u8; 256 * 256];
    let png = finish_output(&intensities, 256, 300, 200, &src).unwrap();
    let (w, h, out) = decode_rgba(&png);
    assert_eq!((w, h), (300, 200));
    assert_eq!(out.len(), 4 * 300 * 200);
    for p in 0..(300 * 200) {
        assert_eq!(out[4 * p + 3], 255);
    }
}
