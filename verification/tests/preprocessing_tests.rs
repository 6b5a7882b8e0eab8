use ocr_core::{keepratio_resize, process_chunks, process_images, Error, Image};

fn solid(width: u32, height: u32, value: u8) -> Image {
    Image { width, height, data: vec![value; (width * height * 3) as usize] }
}

#[test]
fn canvas_has_fixed_dimensions() {
    for (w, h) in [(100u32, 25u32), (2600, 100), (1, 1), (804, 32), (1, 3000)] {
        let canvas = keepratio_resize(&solid(w, h, 10)).unwrap();
        assert_eq!(canvas.width, 804);
        assert_eq!(canvas.height, 32);
        assert_eq!(canvas.data.len(), 804 * 32 * 3);
    }
}

#[test]
fn zero_dimension_image_is_rejected() {
    let no_width = Image { width: 0, height: 7, data: vec![] };
    assert_eq!(keepratio_resize(&no_width).unwrap_err(), Error::InvalidImageDimensions);
    let no_height = Image { width: 7, height: 0, data: vec![] };
    assert_eq!(keepratio_resize(&no_height).unwrap_err(), Error::InvalidImageDimensions);
}

#[test]
fn wide_image_fills_full_canvas_width() {
    // ratio 26 exceeds the target ratio 25.125, so the content spans all 804
    // columns and no right-hand padding is left.
    let canvas = keepratio_resize(&solid(2600, 100, 77)).unwrap();
    assert!(canvas.data.iter().all(|&b| b == 77));
}

#[test]
fn narrow_image_leaves_black_right_padding() {
    // ratio 4: the content is round(32 * 4) = 128 columns wide; everything to
    // its right stays black.
    let canvas = keepratio_resize(&solid(100, 25, 200)).unwrap();
    for y in 0..32usize {
        for x in 0..804usize {
            for c in 0..3usize {
                let b = canvas.data[(y * 804 + x) * 3 + c];
                if x < 128 {
                    assert_eq!(b, 200, "content pixel at ({y},{x},{c})");
                } else {
                    assert_eq!(b, 0, "padding pixel at ({y},{x},{c})");
                }
            }
        }
    }
}

#[test]
fn chunks_cover_expected_canvas_columns() {
    // Mark every canvas column with its own byte value, then check that
    // chunk i reads exactly columns i*252 .. i*252+300.
    let mut data = vec![0u8; 804 * 32 * 3];
    for y in 0..32usize {
        for x in 0..804usize {
            for c in 0..3usize {
                data[(y * 804 + x) * 3 + c] = (x % 251) as u8;
            }
        }
    }
    let canvas = Image { width: 804, height: 32, data };
    let chunks = process_chunks(&canvas);
    assert_eq!(chunks.len(), 3 * 32 * 300 * 3);
    for i in 0..3usize {
        let left = (i * 252).min(804 - 300);
        assert_eq!(left, i * 252);
        for x in [0usize, 1, 299] {
            let got = chunks[((i * 32) * 300 + x) * 3];
            assert_eq!(got, ((left + x) % 251) as u8, "chunk {i}, column {x}");
        }
    }
}

#[test]
fn batch_row_count_and_unit_interval() {
    let images = vec![solid(100, 25, 30), solid(2600, 100, 250)];
    let tensor = process_images(&images).unwrap();
    // one row is one (3, 32, 300) chunk; each image contributes three rows
    assert_eq!(tensor.len(), 2 * 3 * (3 * 32 * 300));
    for &b in &tensor {
        let v = b as f32 / 255.0;
        assert!((0.0..=1.0).contains(&v));
    }
}

#[test]
fn batch_fails_on_any_zero_dimension_image() {
    let images = vec![solid(10, 10, 1), Image { width: 0, height: 4, data: vec![] }];
    assert_eq!(process_images(&images).unwrap_err(), Error::InvalidImageDimensions);
}

#[test]
fn round_trip_uniform_image() {
    // A single solid 100x25 image: three rows, every content value the same
    // normalized constant, padding exactly 0.0.
    let tensor = process_images(&vec![solid(100, 25, 200)]).unwrap();
    assert_eq!(tensor.len(), 3 * 3 * 32 * 300);
    let rows = tensor.len() / (3 * 32 * 300);
    assert_eq!(rows, 3);
    for k in 0..3usize {
        for c in 0..3usize {
            for y in 0..32usize {
                for x in 0..300usize {
                    let v = tensor[((k * 3 + c) * 32 + y) * 300 + x] as f32 / 255.0;
                    let col = (k % 3) * 252 + x;
                    if col < 128 {
                        assert_eq!(v, 200.0 / 255.0, "row {k}, column {col}");
                    } else {
                        assert_eq!(v, 0.0, "row {k}, column {col}");
                    }
                }
            }
        }
    }
}
