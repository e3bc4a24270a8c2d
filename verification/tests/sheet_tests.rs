use spritesheet::cli::Config;
use spritesheet::cli::parse_args;
use spritesheet::codec::decode_image;
use spritesheet::codec::encode_image;
use spritesheet::codec::extension_of;
use spritesheet::compose::compose;
use spritesheet::cropping::auto_crop;
use spritesheet::cropping::crop_bounds;
use spritesheet::errors::SheetError;
use spritesheet::layout::Mode;
use spritesheet::layout::cell_dims;
use spritesheet::layout::layout;
use spritesheet::layout::offset_for;
use spritesheet::layout::offsets_for;
use spritesheet::pipeline::build_sheet;
use spritesheet::pipeline::load_sprites;
use spritesheet::raster::Image;
use spritesheet::raster::Rgba;

fn px(r: u8, g: u8, b: u8, a: u8) -> Rgba {
    Rgba { r, g, b, a }
}

fn clear() -> Rgba {
    px(0, 0, 0, 0)
}

/// A w x h image, fully transparent except the listed pixels.
fn image_with(w: u32, h: u32, set: &[(u32, u32, Rgba)]) -> Image {
    let mut pixels = vec![clear(); (w * h) as usize];
    for &(x, y, p) in set {
        pixels[(y * w + x) as usize] = p;
    }
    Image::new(w, h, pixels)
}

/// A w x h image where pixel (x, y) is a distinct opaque color.
fn opaque_image(w: u32, h: u32) -> Image {
    let mut pixels = Vec::new();
    for y in 0..h {
        for x in 0..w {
            pixels.push(px(x as u8, y as u8, 7, 255));
        }
    }
    Image::new(w, h, pixels)
}

fn get(img: &Image, x: u32, y: u32) -> Rgba {
    img.get(x, y)
}

#[test]
fn transparent_image_keeps_full_dimensions() {
    let img = image_with(3, 2, &[]);
    let b = crop_bounds(&img);
    assert_eq!((b.left, b.right, b.top, b.bottom), (0, 3, 0, 2));
    let c = auto_crop(&img);
    assert_eq!((c.width, c.height), (3, 2));
    for y in 0..2 {
        for x in 0..3 {
            assert_eq!(get(&c, x, y), clear());
        }
    }
}

#[test]
fn bounds_are_tight_around_opaque_pixels() {
    let img = image_with(5, 4, &[(1, 1, px(9, 0, 0, 200)), (3, 2, px(0, 9, 0, 1))]);
    let b = crop_bounds(&img);
    assert_eq!((b.left, b.right, b.top, b.bottom), (1, 3, 1, 2));
    let c = auto_crop(&img);
    assert_eq!((c.width, c.height), (2, 1));
    assert_eq!(get(&c, 0, 0), px(9, 0, 0, 200));
    assert_eq!(get(&c, 1, 0), clear());
}

#[test]
fn single_opaque_pixel_gives_empty_crop() {
    let img = image_with(3, 3, &[(1, 1, px(1, 2, 3, 255))]);
    let b = crop_bounds(&img);
    assert_eq!((b.left, b.right, b.top, b.bottom), (1, 1, 1, 1));
    let c = auto_crop(&img);
    assert_eq!((c.width, c.height), (0, 0));
}

#[test]
fn cell_is_maximum_of_cropped_dimensions() {
    let sprites = vec![opaque_image(10, 10), opaque_image(6, 6)];
    let (cw, ch) = cell_dims(&sprites);
    assert_eq!((cw, ch), (10, 10));
    let sprites2 = vec![opaque_image(3, 9), opaque_image(7, 2)];
    assert_eq!(cell_dims(&sprites2), (7, 9));
}

#[test]
fn centered_offset_floors_and_topleft_is_zero() {
    assert_eq!(offset_for(10, 10, 6, 6, Mode::Centered), (2, 2));
    assert_eq!(offset_for(10, 10, 5, 5, Mode::Centered), (2, 2));
    assert_eq!(offset_for(10, 10, 10, 10, Mode::Centered), (0, 0));
    assert_eq!(offset_for(10, 10, 6, 6, Mode::TopLeft), (0, 0));
    assert_eq!(offset_for(10, 10, 10, 10, Mode::TopLeft), (0, 0));
}

#[test]
fn two_sprites_centered_scenario() {
    let a = opaque_image(10, 10);
    let b = opaque_image(6, 6);
    let b00 = get(&b, 0, 0);
    let sprites = vec![a, b];
    let (cw, ch) = cell_dims(&sprites);
    assert_eq!((cw, ch), (10, 10));
    let offsets = offsets_for(&sprites, cw, ch, Mode::Centered);
    assert_eq!(offsets, vec![(0, 0), (2, 2)]);
    let sheet = compose(&sprites, &offsets, cw, ch);
    assert_eq!((sheet.width, sheet.height), (20, 10));
    // sprite index 1, local (0, 0)
    assert_eq!(get(&sheet, 12, 2), b00);
    // first cell holds sprite A verbatim
    assert_eq!(get(&sheet, 0, 0), px(0, 0, 7, 255));
    assert_eq!(get(&sheet, 9, 9), px(9, 9, 7, 255));
}

#[test]
fn pixels_outside_placed_rectangle_are_transparent() {
    let a = opaque_image(10, 10);
    let b = opaque_image(6, 6);
    let sprites = vec![a, b];
    let offsets = offsets_for(&sprites, 10, 10, Mode::Centered);
    let sheet = compose(&sprites, &offsets, 10, 10);
    // cell of sprite B, outside [12, 18) x [2, 8)
    assert_eq!(get(&sheet, 10, 0), clear());
    assert_eq!(get(&sheet, 11, 5), clear());
    assert_eq!(get(&sheet, 18, 5), clear());
    assert_eq!(get(&sheet, 15, 1), clear());
    assert_eq!(get(&sheet, 15, 8), clear());
}

#[test]
fn single_sprite_equal_to_its_cell_round_trips() {
    // with one sprite the cell size is the cropped size, so the sheet
    // reproduces the sprite exactly, in either mode
    let sprite = opaque_image(4, 3);
    let sprites = vec![opaque_image(4, 3)];
    let (cw, ch) = cell_dims(&sprites);
    assert_eq!((cw, ch), (4, 3));
    for mode in [Mode::Centered, Mode::TopLeft] {
        let offsets = offsets_for(&sprites, cw, ch, mode);
        assert_eq!(offsets, vec![(0, 0)]);
        let sheet = compose(&sprites, &offsets, cw, ch);
        assert_eq!((sheet.width, sheet.height), (4, 3));
        for y in 0..3 {
            for x in 0..4 {
                assert_eq!(get(&sheet, x, y), get(&sprite, x, y));
            }
        }
    }
}

#[test]
fn all_transparent_single_input_round_trips_through_build_sheet() {
    // an all-transparent image keeps its full dimensions through the crop
    let images = vec![image_with(4, 3, &[])];
    let sheet = build_sheet(&images, Mode::Centered).unwrap();
    assert_eq!((sheet.width, sheet.height), (4, 3));
    for y in 0..3 {
        for x in 0..4 {
            assert_eq!(get(&sheet, x, y), clear());
        }
    }
}

#[test]
fn topleft_mode_places_sprites_at_cell_corners() {
    let sprites = vec![opaque_image(4, 4), opaque_image(2, 2)];
    let offsets = offsets_for(&sprites, 4, 4, Mode::TopLeft);
    assert_eq!(offsets, vec![(0, 0), (0, 0)]);
    let sheet = compose(&sprites, &offsets, 4, 4);
    assert_eq!((sheet.width, sheet.height), (8, 4));
    assert_eq!(get(&sheet, 4, 0), px(0, 0, 7, 255));
    assert_eq!(get(&sheet, 6, 0), clear());
    assert_eq!(get(&sheet, 4, 2), clear());
}

#[test]
fn layout_reports_cell_sheet_and_offsets() {
    let sprites = vec![opaque_image(10, 10), opaque_image(6, 6)];
    let l = layout(&sprites, Mode::Centered);
    assert_eq!((l.cell_w, l.cell_h), (10, 10));
    assert_eq!((l.sheet_w, l.sheet_h), (20, 10));
    assert_eq!(l.offsets, vec![(0, 0), (2, 2)]);
    let lt = layout(&sprites, Mode::TopLeft);
    assert_eq!(lt.offsets, vec![(0, 0), (0, 0)]);
}

#[test]
fn inputs_that_crop_to_nothing_give_an_empty_sheet() {
    // a single opaque pixel spans no column pair, so the crop is 0x0
    let images = vec![image_with(3, 3, &[(1, 1, px(5, 5, 5, 255))])];
    let sheet = build_sheet(&images, Mode::Centered).unwrap();
    assert_eq!((sheet.width, sheet.height), (0, 0));
}

#[test]
fn parse_accepts_output_inputs_and_flag() {
    let args = vec![
        "-o".to_string(),
        "out.png".to_string(),
        "a.png".to_string(),
        "b.png".to_string(),
        "-t".to_string(),
    ];
    let c: Config = parse_args(&args).ok().unwrap();
    assert_eq!(c.output, "out.png");
    assert_eq!(c.inputs, vec!["a.png".to_string(), "b.png".to_string()]);
    assert!(matches!(c.mode, Mode::TopLeft));

    let args2 = vec!["--output".to_string(), "s.png".to_string(), "x.png".to_string()];
    let c2 = parse_args(&args2).ok().unwrap();
    assert_eq!(c2.output, "s.png");
    assert!(matches!(c2.mode, Mode::Centered));
}

#[test]
fn zero_inputs_is_a_usage_error() {
    let args = vec!["-o".to_string(), "out.png".to_string()];
    let e = parse_args(&args).err().unwrap();
    assert!(matches!(e, SheetError::Usage { .. }));
    let e2 = parse_args(&Vec::new()).err().unwrap();
    assert!(matches!(e2, SheetError::Usage { .. }));
}

#[test]
fn missing_output_and_unknown_flags_are_usage_errors() {
    let args = vec!["a.png".to_string()];
    assert!(matches!(parse_args(&args), Err(SheetError::Usage { .. })));
    let args2 = vec!["-o".to_string(), "out.png".to_string(), "--bogus".to_string(), "a.png".to_string()];
    assert!(matches!(parse_args(&args2), Err(SheetError::Usage { .. })));
    let args3 = vec!["-o".to_string()];
    assert!(matches!(parse_args(&args3), Err(SheetError::Usage { .. })));
    let args4 = vec![
        "-o".to_string(),
        "a.png".to_string(),
        "-o".to_string(),
        "b.png".to_string(),
        "c.png".to_string(),
    ];
    assert!(matches!(parse_args(&args4), Err(SheetError::Usage { .. })));
}

#[test]
fn undecodable_input_gives_decode_error_naming_the_path() {
    let path = "missing-sprite.png".to_string();
    let garbage = vec![1u8, 2, 3, 4];
    let e = decode_image(&path, &garbage).err().unwrap();
    match &e {
        SheetError::Decode { path: p, .. } => assert_eq!(p, "missing-sprite.png"),
        _ => panic!("expected a decode error"),
    }
    let msg = e.message();
    assert!(msg.starts_with("no valid image at missing-sprite.png: "));

    let inputs = vec![
        ("ok.png".to_string(), encode_image(&opaque_image(2, 2), &"ok.png".to_string(), &"png".to_string()).unwrap()),
        ("bad.png".to_string(), vec![9u8]),
    ];
    match load_sprites(&inputs) {
        Err(SheetError::Decode { path: p, .. }) => assert_eq!(p, "bad.png"),
        _ => panic!("expected a decode error for bad.png"),
    }
}

#[test]
fn png_round_trip_keeps_pixels() {
    let img = image_with(3, 2, &[(0, 0, px(10, 20, 30, 255)), (2, 1, px(1, 2, 3, 40))]);
    let bytes = encode_image(&img, &"sheet.png".to_string(), &"png".to_string()).unwrap();
    let back = decode_image(&"sheet.png".to_string(), &bytes).unwrap();
    assert_eq!((back.width, back.height), (3, 2));
    for y in 0..2 {
        for x in 0..3 {
            assert_eq!(get(&back, x, y), get(&img, x, y));
        }
    }
}

#[test]
fn unsupported_extension_is_an_encode_error() {
    let img = opaque_image(2, 2);
    let e = encode_image(&img, &"out.xyz".to_string(), &"xyz".to_string()).err().unwrap();
    match &e {
        SheetError::Encode { path: p, .. } => assert_eq!(p, "out.xyz"),
        _ => panic!("expected an encode error"),
    }
    assert!(e.message().starts_with("writing out.xyz failed: "));
}

#[test]
fn extension_is_taken_after_the_last_dot() {
    assert_eq!(extension_of(&"out.png".to_string()), Some("png".to_string()));
    assert_eq!(extension_of(&"a.b.jpeg".to_string()), Some("jpeg".to_string()));
    assert_eq!(extension_of(&"noext".to_string()), None);
    assert_eq!(extension_of(&"trailing.".to_string()), Some(String::new()));
}

#[test]
fn usage_error_message_is_prefixed() {
    let e = SheetError::Usage { msg: "m".to_string() };
    assert_eq!(e.message(), "usage error: m");
}

#[test]
fn whole_pipeline_two_sprites_with_transparent_margins() {
    // A: opaque corners at (1, 1) and (11, 11) in 13x13, so the bounding box
    // spans columns/rows 1..=11 and the crop is 10x10 starting at (1, 1).
    // B: opaque corners at (2, 0) and (8, 6) in 9x8, cropped to 6x6 at (2, 0).
    let a_set = [(1, 1, px(200, 0, 0, 255)), (11, 11, px(201, 0, 0, 255))];
    let b_set = [(2, 0, px(0, 200, 0, 255)), (8, 6, px(0, 201, 0, 255))];
    let images = vec![image_with(13, 13, &a_set), image_with(9, 8, &b_set)];
    let sheet = build_sheet(&images, Mode::Centered).unwrap();
    // crops are 10x10 and 6x6, so the cell is 10x10 and the sheet 20x10
    assert_eq!((sheet.width, sheet.height), (20, 10));
    // sprite index 1, local (0, 0) is B's crop origin, B's pixel (2, 0)
    assert_eq!(get(&sheet, 12, 2), px(0, 200, 0, 255));
    // inside B's cell but left of its placed rectangle
    assert_eq!(get(&sheet, 11, 1), clear());
    // A's crop origin is A's pixel (1, 1)
    assert_eq!(get(&sheet, 0, 0), px(200, 0, 0, 255));
}
