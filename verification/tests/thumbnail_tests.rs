use cliphist_ui::config::ImageConfig;
use cliphist_ui::model::parse_list;
use cliphist_ui::thumbnails::{
    cache_filename, expected_thumbnail_names, is_stale_thumbnail, render_thumbnail,
    rounded_corners, sanitize_id, thumbnail_bounds, worker_count, ThumbnailError,
};
use std::io::Cursor;

fn png_bytes(width: u32, height: u32) -> Vec<u8> {
    let image = image::RgbaImage::from_pixel(width, height, image::Rgba([10, 20, 30, 255]));
    let mut out = Cursor::new(Vec::new());
    image.write_to(&mut out, image::ImageFormat::Png).unwrap();
    out.into_inner()
}

#[test]
fn cache_file_names_encode_id_size_and_options() {
    let config = ImageConfig::default();
    assert_eq!(cache_filename("8107", &config), "8107-260x140-aspect1-round1.png");
    let config = ImageConfig {
        width: 0,
        height: 0,
        preserve_aspect_ratio: false,
        rounded_corners: false,
        ..ImageConfig::default()
    };
    assert_eq!(cache_filename("a/b c", &config), "a_b_c-1x1-aspect0-round0.png");
}

#[test]
fn sanitize_id_keeps_only_safe_characters() {
    assert_eq!(sanitize_id("Ab-_09"), "Ab-_09");
    assert_eq!(sanitize_id("../x y"), "___x_y");
    assert_eq!(sanitize_id("é"), "_");
    assert_eq!(sanitize_id(""), "");
}

#[test]
fn bounds_are_at_least_one() {
    let config = ImageConfig { width: 0, height: 5, ..ImageConfig::default() };
    assert_eq!(thumbnail_bounds(&config), (1, 5));
}

#[test]
fn only_current_image_thumbnails_are_expected() {
    let items = parse_list(
        "3\t[[ binary data 1 KiB png 2x2 ]]\n2\tplain text\n1\t[[ binary data 1 KiB jpg 4x4 ]]",
        40,
    );
    let config = ImageConfig::default();
    let expected = expected_thumbnail_names(&items, &config);
    assert_eq!(
        expected,
        vec![
            "3-260x140-aspect1-round1.png".to_string(),
            "1-260x140-aspect1-round1.png".to_string(),
        ]
    );
    assert!(!is_stale_thumbnail("3-260x140-aspect1-round1.png", &expected));
    assert!(is_stale_thumbnail("2-260x140-aspect1-round1.png", &expected));
    assert!(is_stale_thumbnail("3-100x100-aspect1-round1.png", &expected));
    assert!(!is_stale_thumbnail("notes.txt", &expected));
    assert!(!is_stale_thumbnail(".png", &expected));
    assert!(!is_stale_thumbnail("3-260x140-aspect1-round1.tmp", &expected));
}

#[test]
fn worker_count_is_clamped() {
    let mut config = ImageConfig::default();
    assert_eq!(worker_count(&config), 3);
    config.concurrent_jobs = 0;
    assert_eq!(worker_count(&config), 1);
    config.concurrent_jobs = 50;
    assert_eq!(worker_count(&config), 8);
}

#[test]
fn rounded_corners_clear_only_corner_alpha() {
    let (w, h) = (20u32, 20u32);
    let mut pixels = vec![255u8; (w * h * 4) as usize];
    rounded_corners(w, h, &mut pixels);
    let alpha = |x: u32, y: u32| pixels[((y * w + x) * 4 + 3) as usize];
    assert_eq!(alpha(0, 0), 0);
    assert_eq!(alpha(19, 0), 0);
    assert_eq!(alpha(0, 19), 0);
    assert_eq!(alpha(19, 19), 0);
    assert_eq!(alpha(10, 10), 255);
    assert_eq!(alpha(10, 0), 255);
    assert_eq!(alpha(7, 7), 255);
    for (i, value) in pixels.iter().enumerate() {
        if i % 4 != 3 {
            assert_eq!(*value, 255);
        }
    }
}

#[test]
fn tiny_images_are_not_rounded() {
    let mut pixels = vec![200u8; 4];
    rounded_corners(1, 1, &mut pixels);
    assert_eq!(pixels, vec![200u8; 4]);
}

#[test]
fn data_that_is_no_image_fails_to_decode() {
    let config = ImageConfig::default();
    assert_eq!(render_thumbnail(b"not an image", &config), Err(ThumbnailError::Decode));
    assert_eq!(render_thumbnail(&[], &config), Err(ThumbnailError::Decode));
}

#[test]
fn thumbnails_fit_the_configured_size_with_round_corners() {
    let config = ImageConfig { width: 20, height: 20, ..ImageConfig::default() };
    let png = render_thumbnail(&png_bytes(40, 20), &config).unwrap();
    let thumb = image::load_from_memory(&png).unwrap().to_rgba8();
    assert_eq!(thumb.dimensions(), (20, 10));
    assert_eq!(thumb.get_pixel(0, 0).0[3], 0);
    assert_eq!(thumb.get_pixel(10, 5).0[3], 255);
}

#[test]
fn thumbnails_can_be_stretched_and_square_cornered() {
    let config = ImageConfig {
        width: 16,
        height: 16,
        preserve_aspect_ratio: false,
        rounded_corners: false,
        ..ImageConfig::default()
    };
    let png = render_thumbnail(&png_bytes(40, 20), &config).unwrap();
    let thumb = image::load_from_memory(&png).unwrap().to_rgba8();
    assert_eq!(thumb.dimensions(), (16, 16));
    assert_eq!(thumb.get_pixel(0, 0).0[3], 255);
}

#[test]
fn requests_are_queued_until_the_queue_is_full() {
    let (sender, receiver) = async_channel::bounded(1);
    let mut thumbnailer = cliphist_ui::thumbnails::Thumbnailer::with_sender(sender);
    let items = parse_list("7\t[[ binary data 1 KiB png 2x2 ]]\n6\t[[ binary data 1 KiB gif 2x2 ]]", 40);
    assert!(thumbnailer.request(&items[0]));
    assert!(!thumbnailer.request(&items[1]));
    let job = receiver.try_recv().unwrap();
    assert_eq!(job.id, "7");
    assert_eq!(job.raw_line, "7\t[[ binary data 1 KiB png 2x2 ]]");
    assert!(thumbnailer.request(&items[1]));
}

#[test]
fn pruning_picks_exactly_the_stale_png_files() {
    let items = parse_list("3\t[[ binary data 1 KiB png 2x2 ]]\n2\ttext", 40);
    let config = ImageConfig::default();
    let found: Vec<String> = [
        "3-260x140-aspect1-round1.png",
        "9-260x140-aspect1-round1.png",
        "readme.txt",
        "3-260x140-aspect1-round1.tmp.png",
        ".png",
    ]
    .iter()
    .map(|s| s.to_string())
    .collect();
    assert_eq!(
        cliphist_ui::thumbnails::stale_thumbnail_names(&found, &items, &config),
        vec![
            "9-260x140-aspect1-round1.png".to_string(),
            "3-260x140-aspect1-round1.tmp.png".to_string(),
        ]
    );
}

#[test]
fn a_job_carries_the_entry_id_and_line() {
    let items = parse_list("7\t[[ binary data 1 KiB png 2x2 ]]", 40);
    let job = cliphist_ui::thumbnails::ThumbnailJob::for_item(&items[0]);
    assert_eq!(job.id, "7");
    assert_eq!(job.raw_line, "7\t[[ binary data 1 KiB png 2x2 ]]");
}

#[test]
fn rounded_corners_are_mirror_images() {
    let (w, h) = (9u32, 6u32);
    let mut pixels = vec![255u8; (w * h * 4) as usize];
    rounded_corners(w, h, &mut pixels);
    let alpha = |x: u32, y: u32| pixels[((y * w + x) * 4 + 3) as usize];
    for y in 0..h {
        for x in 0..w {
            assert_eq!(alpha(x, y), alpha(w - 1 - x, y));
            assert_eq!(alpha(x, y), alpha(x, h - 1 - y));
        }
    }
    assert_eq!(alpha(4, 0), 255);
}

#[test]
fn pruning_again_finds_nothing_stale() {
    let items = parse_list("3\t[[ binary data 1 KiB png 2x2 ]]", 40);
    let config = ImageConfig::default();
    let found: Vec<String> =
        ["3-260x140-aspect1-round1.png", "9-1x1-aspect1-round1.png", "notes.txt"]
            .iter()
            .map(|s| s.to_string())
            .collect();
    let stale = cliphist_ui::thumbnails::stale_thumbnail_names(&found, &items, &config);
    let kept: Vec<String> = found.into_iter().filter(|n| !stale.contains(n)).collect();
    assert!(cliphist_ui::thumbnails::stale_thumbnail_names(&kept, &items, &config).is_empty());
}

#[test]
fn images_under_eight_pixels_are_not_rounded() {
    for (w, h) in [(7u32, 30u32), (30, 7), (4, 4), (2, 2)] {
        let mut pixels = vec![255u8; (w * h * 4) as usize];
        rounded_corners(w, h, &mut pixels);
        assert!(pixels.iter().all(|b| *b == 255), "{w}x{h}");
    }
    let mut pixels = vec![255u8; 8 * 8 * 4];
    rounded_corners(8, 8, &mut pixels);
    assert_eq!(pixels[3], 0);
}

#[test]
fn fitted_thumbnails_without_rounding_fit_the_configured_size() {
    let config = ImageConfig { width: 30, height: 30, rounded_corners: false, ..ImageConfig::default() };
    let png = render_thumbnail(&png_bytes(40, 20), &config).unwrap();
    let thumb = image::load_from_memory(&png).unwrap();
    assert_eq!((thumb.width(), thumb.height()), (30, 15));
}

#[test]
fn rounding_a_mirrored_image_mirrors_the_rounded_image() {
    let (w, h) = (12u32, 10u32);
    let mut pixels: Vec<u8> = (0..w * h * 4).map(|i| (i % 251) as u8).collect();
    let mirror = |p: &Vec<u8>| -> Vec<u8> {
        let mut out = p.clone();
        for y in 0..h {
            for x in 0..w {
                for c in 0..4 {
                    out[((y * w + x) * 4 + c) as usize] = p[((y * w + (w - 1 - x)) * 4 + c) as usize];
                }
            }
        }
        out
    };
    let mut mirrored = mirror(&pixels);
    rounded_corners(w, h, &mut mirrored);
    rounded_corners(w, h, &mut pixels);
    assert_eq!(mirrored, mirror(&pixels));
}
