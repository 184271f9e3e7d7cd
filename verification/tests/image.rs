use acdatservice::compose::{composite, Canvas, LayerRole, LayerSet, LAYER_COUNT};
use acdatservice::encode::{encode, finish, MAX_SCALE, MAX_SIDE, MIN_SCALE};
use acdatservice::error::IconError;
use acdatservice::raster::{decode, is_icon_size, Raster, PIXELS, RASTER_BYTES, SIDE};

fn filled(rgba: [u8; 4]) -> Vec<u8> {
    let mut bytes = Vec::with_capacity(RASTER_BYTES);
    for _ in 0..PIXELS {
        bytes.extend_from_slice(&rgba);
    }
    bytes
}

fn pattern(seed: u8, alpha: fn(usize) -> u8) -> Vec<u8> {
    let mut bytes = Vec::with_capacity(RASTER_BYTES);
    for i in 0..PIXELS {
        bytes.push(seed.wrapping_add(i as u8));
        bytes.push(seed.wrapping_mul(3).wrapping_add((i / 7) as u8));
        bytes.push(seed.wrapping_add((i * 5) as u8));
        bytes.push(alpha(i));
    }
    bytes
}

fn raster(bytes: Vec<u8>) -> Raster {
    decode(bytes).unwrap()
}

fn by_image(under: &[u8], over: &[u8]) -> Vec<u8> {
    let mut bottom = image::RgbaImage::from_raw(32, 32, under.to_vec()).unwrap();
    let top = image::RgbaImage::from_raw(32, 32, over.to_vec()).unwrap();
    image::imageops::overlay(&mut bottom, &top, 0, 0);
    bottom.into_raw()
}

#[test]
fn sizes_of_a_raster() {
    assert_eq!(SIDE, 32);
    assert_eq!(PIXELS, 32 * 32);
    assert_eq!(RASTER_BYTES, 32 * 32 * 4);
    assert_eq!(LAYER_COUNT, 6);
    assert_eq!((MIN_SCALE, MAX_SCALE, MAX_SIDE), (1, 8, 256));
}

#[test]
fn decode_takes_the_bytes_as_they_are() {
    let bytes = pattern(9, |i| (i % 256) as u8);
    let r = decode(bytes.clone()).unwrap();
    assert_eq!(r.bytes(), &bytes);
    assert_eq!(r.duplicate().bytes(), &bytes);
}

#[test]
fn decode_refuses_any_other_length() {
    for n in [0usize, 1, 4, 4095, 4097, 8192, 3072, 1024] {
        assert_eq!(decode(vec![0u8; n]).err(), Some(IconError::DecodeFailure), "{}", n);
    }
}

#[test]
fn roles_in_stack_order() {
    let roles = [
        LayerRole::Background,
        LayerRole::Underlay,
        LayerRole::Base,
        LayerRole::Overlay,
        LayerRole::Overlay2,
        LayerRole::Effect,
    ];
    for (i, role) in roles.iter().enumerate() {
        assert_eq!(role.index(), i);
        assert_eq!(LayerRole::at(i), Some(*role));
        assert_eq!(role.is_optional(), i != 2);
    }
    assert_eq!(LayerRole::at(6), None);
    assert_eq!(LayerRole::at(usize::MAX), None);
}

#[test]
fn new_canvas_is_transparent_black() {
    assert_eq!(Canvas::new().bytes(), &vec![0u8; RASTER_BYTES]);
}

#[test]
fn opaque_layer_replaces_what_is_under_it() {
    let mut canvas = Canvas::new();
    canvas.paint(&raster(filled([10, 20, 30, 255])));
    assert_eq!(canvas.bytes(), &filled([10, 20, 30, 255]));
    canvas.paint(&raster(filled([1, 2, 3, 255])));
    assert_eq!(canvas.bytes(), &filled([1, 2, 3, 255]));
}

#[test]
fn transparent_layer_changes_nothing() {
    let mut canvas = Canvas::new();
    let below = pattern(40, |i| (i * 3) as u8);
    canvas.paint(&raster(pattern(40, |_| 255)));
    let before = canvas.bytes().clone();
    canvas.paint(&raster(pattern(200, |_| 0)));
    assert_eq!(canvas.bytes(), &before);
    let mut blank = Canvas::new();
    blank.paint(&raster(filled([9, 9, 9, 0])));
    assert_eq!(blank.bytes(), &vec![0u8; RASTER_BYTES]);
    assert_ne!(below, before);
}

#[test]
fn half_transparent_layer_blends_as_the_image_crate_does() {
    let below = pattern(17, |i| (i % 251) as u8);
    let above = pattern(99, |i| (i * 7 % 256) as u8);
    let mut canvas = Canvas::new();
    canvas.paint(&raster(below.clone()));
    let first = by_image(&vec![0u8; RASTER_BYTES], &below);
    assert_eq!(canvas.bytes(), &first);
    canvas.paint(&raster(above.clone()));
    let second = by_image(&first, &above);
    assert_eq!(canvas.bytes(), &second);
    assert_ne!(second, first);
    assert_ne!(second, above);
}

#[test]
fn one_blended_pixel() {
    let mut canvas = Canvas::new();
    canvas.paint(&raster(filled([200, 100, 0, 255])));
    canvas.paint(&raster(filled([0, 100, 200, 128])));
    let px = &canvas.bytes()[0..4];
    // The blend is computed in floating point and cut off, not rounded.
    let mut by_hand = image::Rgba([200u8, 100, 0, 255]);
    image::Pixel::blend(&mut by_hand, &image::Rgba([0u8, 100, 200, 128]));
    assert_eq!(px, &by_hand.0);
    assert!(px[3] >= 254, "{}", px[3]);
    assert!(px[1] >= 99 && px[1] <= 100, "{}", px[1]);
    assert!(px[0] >= 98 && px[0] <= 101, "{}", px[0]);
    assert!(px[2] >= 99 && px[2] <= 101, "{}", px[2]);
    for i in 0..PIXELS {
        assert_eq!(&canvas.bytes()[4 * i..4 * i + 4], px);
    }
}

#[test]
fn layer_set_holds_each_layer_in_its_place() {
    let set = LayerSet::new(raster(filled([1, 1, 1, 255])))
        .with(LayerRole::Overlay, raster(filled([2, 2, 2, 255])))
        .with(LayerRole::Background, raster(filled([3, 3, 3, 255])));
    assert_eq!(set.get(LayerRole::Base).unwrap().bytes(), &filled([1, 1, 1, 255]));
    assert_eq!(set.get(LayerRole::Overlay).unwrap().bytes(), &filled([2, 2, 2, 255]));
    assert_eq!(set.get(LayerRole::Background).unwrap().bytes(), &filled([3, 3, 3, 255]));
    assert!(set.get(LayerRole::Underlay).is_none());
    assert!(set.get(LayerRole::Overlay2).is_none());
    assert!(set.get(LayerRole::Effect).is_none());
    let set = set.with(LayerRole::Base, raster(filled([4, 4, 4, 255])));
    assert_eq!(set.get(LayerRole::Base).unwrap().bytes(), &filled([4, 4, 4, 255]));
}

#[test]
fn base_alone_with_inert_effect_is_the_base() {
    // Opaque, half transparent and fully transparent coloured pixels alike.
    let base = pattern(5, |i| (i * 37 % 256) as u8);
    assert!(base.chunks(4).any(|px| px[3] == 0 && px[0] != 0));
    assert!(base.chunks(4).any(|px| px[3] == 255));
    assert!(base.chunks(4).any(|px| px[3] > 0 && px[3] < 255));
    let alone = composite(&LayerSet::new(raster(base.clone())));
    assert_eq!(alone.bytes(), &base);
    let with_effect = composite(
        &LayerSet::new(raster(base.clone())).with(LayerRole::Effect, raster(pattern(77, |_| 0))),
    );
    assert_eq!(with_effect.bytes(), &base);
}

#[test]
fn lowest_layer_makes_the_canvas() {
    let under = pattern(5, |i| if i % 2 == 0 { 200 } else { 0 });
    let base = pattern(90, |_| 0);
    let canvas = composite(
        &LayerSet::new(raster(base.clone())).with(LayerRole::Underlay, raster(under.clone())),
    );
    // The base is fully transparent, so the underlay shows as it is.
    assert_eq!(canvas.bytes(), &under);
    assert_eq!(Canvas::from_raster(&raster(under.clone())).bytes(), &under);
}

#[test]
fn stack_order_is_fixed_by_role() {
    // Six opaque quarters, so that each layer shows where no higher one covers it.
    fn band(from: usize, rgba: [u8; 4]) -> Vec<u8> {
        let mut bytes = vec![0u8; RASTER_BYTES];
        for i in from..PIXELS {
            bytes[4 * i..4 * i + 4].copy_from_slice(&rgba);
        }
        bytes
    }
    let layers = [
        (LayerRole::Background, band(0, [1, 0, 0, 255])),
        (LayerRole::Underlay, band(100, [2, 0, 0, 255])),
        (LayerRole::Base, band(200, [3, 0, 0, 255])),
        (LayerRole::Overlay, band(300, [4, 0, 0, 255])),
        (LayerRole::Overlay2, band(400, [5, 0, 0, 255])),
        (LayerRole::Effect, band(500, [6, 0, 0, 255])),
    ];
    let orders: [[usize; 5]; 4] = [[0, 1, 3, 4, 5], [5, 4, 3, 1, 0], [3, 0, 5, 1, 4], [4, 5, 0, 3, 1]];
    for order in orders {
        let mut set = LayerSet::new(raster(layers[2].1.clone()));
        for k in order {
            set = set.with(layers[k].0, raster(layers[k].1.clone()));
        }
        let canvas = composite(&set);
        for i in 0..PIXELS {
            let expected = if i >= 500 { 6 } else { (i / 100 + 1) as u8 };
            assert_eq!(canvas.bytes()[4 * i], expected, "pixel {}", i);
            assert_eq!(canvas.bytes()[4 * i + 3], 255);
        }
    }
}

#[test]
fn swapping_roles_changes_the_picture() {
    let red = filled([255, 0, 0, 255]);
    let blue = filled([0, 0, 255, 255]);
    let a = composite(&LayerSet::new(raster(red.clone())).with(LayerRole::Overlay, raster(blue.clone())));
    let b = composite(&LayerSet::new(raster(blue.clone())).with(LayerRole::Underlay, raster(red.clone())));
    let c = composite(&LayerSet::new(raster(blue.clone())).with(LayerRole::Overlay, raster(red.clone())));
    assert_eq!(a.bytes(), &blue);
    assert_eq!(b.bytes(), &blue);
    assert_eq!(c.bytes(), &red);
}

#[test]
fn composite_matches_the_image_crate_layer_by_layer() {
    let base = pattern(1, |i| (i % 256) as u8);
    let under = pattern(2, |i| (255 - i % 256) as u8);
    let over = pattern(3, |i| (i * 11 % 256) as u8);
    let effect = pattern(4, |i| (i * 13 % 256) as u8);
    let set = LayerSet::new(raster(base.clone()))
        .with(LayerRole::Effect, raster(effect.clone()))
        .with(LayerRole::Underlay, raster(under.clone()))
        .with(LayerRole::Overlay, raster(over.clone()));
    let canvas = composite(&set);
    let mut expected = under.clone();
    for layer in [&base, &over, &effect] {
        expected = by_image(&expected, layer);
    }
    assert_eq!(canvas.bytes(), &expected);
}

fn decoded_png(png: &[u8]) -> (u32, u32, Vec<u8>) {
    assert_eq!(&png[0..8], &[0x89, b'P', b'N', b'G', 0x0d, 0x0a, 0x1a, 0x0a]);
    let image = image::load_from_memory_with_format(png, image::ImageFormat::Png)
        .unwrap()
        .into_rgba8();
    (image.width(), image.height(), image.into_raw())
}

#[test]
fn finish_at_scale_one_encodes_the_canvas_unchanged() {
    let base = pattern(21, |i| (i % 256) as u8);
    let mut canvas = Canvas::new();
    canvas.paint(&raster(base));
    let png = finish(&canvas, 1).unwrap();
    assert_ne!(&png, canvas.bytes());
    let (w, h, pixels) = decoded_png(&png);
    assert_eq!((w, h), (32, 32));
    assert_eq!(&pixels, canvas.bytes());
}

#[test]
fn finish_twice_gives_the_same_bytes() {
    let mut canvas = Canvas::new();
    canvas.paint(&raster(pattern(33, |i| (i * 5 % 256) as u8)));
    for scale in 1..=8 {
        assert_eq!(finish(&canvas, scale), finish(&canvas, scale), "scale {}", scale);
    }
}

#[test]
fn finish_at_each_scale_gives_that_size() {
    let mut canvas = Canvas::new();
    canvas.paint(&raster(pattern(33, |_| 255)));
    for scale in 1..=8u32 {
        let png = finish(&canvas, scale).unwrap();
        let (w, h, pixels) = decoded_png(&png);
        assert_eq!((w, h), (32 * scale, 32 * scale));
        assert_eq!(pixels.len() as u32, 4 * w * h);
    }
}

#[test]
fn finish_scales_with_the_lanczos_filter() {
    let mut canvas = Canvas::new();
    canvas.paint(&raster(pattern(50, |_| 255)));
    let (_, _, pixels) = decoded_png(&finish(&canvas, 2).unwrap());
    let source = image::RgbaImage::from_raw(32, 32, canvas.bytes().clone()).unwrap();
    let lanczos =
        image::imageops::resize(&source, 64, 64, image::imageops::FilterType::Lanczos3).into_raw();
    let nearest =
        image::imageops::resize(&source, 64, 64, image::imageops::FilterType::Nearest).into_raw();
    assert_eq!(pixels, lanczos);
    assert_ne!(pixels, nearest);
}

#[test]
fn flat_canvas_stays_flat_when_scaled() {
    let mut canvas = Canvas::new();
    canvas.paint(&raster(filled([12, 34, 56, 255])));
    let (_, _, pixels) = decoded_png(&finish(&canvas, 3).unwrap());
    for px in pixels.chunks(4) {
        assert_eq!(px, &[12, 34, 56, 255]);
    }
}

#[test]
fn finish_refuses_a_scale_out_of_range() {
    let canvas = Canvas::new();
    assert_eq!(finish(&canvas, 0), Err(IconError::InvalidScale));
    assert_eq!(finish(&canvas, 9), Err(IconError::InvalidScale));
    assert_eq!(finish(&canvas, u32::MAX), Err(IconError::InvalidScale));
    for scale in 1..=8 {
        assert!(finish(&canvas, scale).is_ok(), "scale {}", scale);
    }
}

#[test]
fn encode_checks_side_and_length() {
    assert_eq!(encode(&vec![0u8; 4096], 0), Err(IconError::EncodeFailure));
    assert_eq!(encode(&vec![0u8; 4096], 31), Err(IconError::EncodeFailure));
    assert_eq!(encode(&vec![0u8; 4095], 32), Err(IconError::EncodeFailure));
    assert_eq!(encode(&vec![0u8; 0], 32), Err(IconError::EncodeFailure));
    assert_eq!(encode(&vec![0u8; 4 * 257 * 257], 257), Err(IconError::EncodeFailure));
    let (w, h, pixels) = decoded_png(&encode(&vec![7u8; 4], 1).unwrap());
    assert_eq!((w, h, pixels), (1, 1, vec![7u8; 4]));
    let big = vec![200u8; 4 * 256 * 256];
    let (w, h, pixels) = decoded_png(&encode(&big, 256).unwrap());
    assert_eq!((w, h), (256, 256));
    assert_eq!(pixels, big);
}

#[test]
fn icons_are_textures_of_raster_size() {
    assert!(is_icon_size(32, 32));
    assert!(!is_icon_size(32, 31));
    assert!(!is_icon_size(33, 32));
    assert!(!is_icon_size(0, 0));
    assert!(!is_icon_size(64, 64));
}

#[test]
fn blending_covers_every_pair_of_alphas() {
    // Every alpha under every alpha, with colours at and near the ends of the
    // range: the blend must give an answer for each, and the same as the
    // image crate gives.
    let colours = [0u8, 1, 127, 128, 254, 255];
    for (k, under_colour) in colours.iter().enumerate() {
        for over_colour in colours {
            let mut checked = 0;
            for under_alpha_block in 0..64usize {
                let mut under = Vec::with_capacity(RASTER_BYTES);
                let mut over = Vec::with_capacity(RASTER_BYTES);
                for i in 0..PIXELS {
                    let under_alpha = (under_alpha_block * 4 + i / 256) as u8;
                    let over_alpha = (i % 256) as u8;
                    under.extend_from_slice(&[*under_colour, colours[(k + 1) % 6], 255 - *under_colour, under_alpha]);
                    over.extend_from_slice(&[over_colour, 255 - over_colour, colours[(k + 2) % 6], over_alpha]);
                }
                let mut canvas = Canvas::new();
                canvas.paint(&raster(under.clone()));
                let first = by_image(&vec![0u8; RASTER_BYTES], &under);
                assert_eq!(canvas.bytes(), &first);
                canvas.paint(&raster(over.clone()));
                assert_eq!(canvas.bytes(), &by_image(&first, &over));
                checked += PIXELS;
            }
            assert_eq!(checked, 256 * 256);
        }
    }
}
