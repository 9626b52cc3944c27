use snappea::dmabuf::{
    drm_format_to_gst_format, needs_explicit_modifier, select_best_format, select_dmabuf_format, usable_dmabuf_formats,
    BufferModifier, DmabufBuffer, PixelFormat, TripleBufferPool,
};
use snappea::geometry::Rect;
use snappea::image::{canvas_size, frame_offset, pixel_span, save_rgba_to_buffer, ImageEncodeError, RgbaImage};
use snappea::media::{
    clipboard_export_path, detect_media_type, file_uri, gif_export_filter, gif_frame_delay_ms, gif_playback_delay_ms,
    media_file_url, plan_export, trimmed_frame_range, ClipboardData, ExportFormat, ExportPlan, MediaType,
};
use snappea::ocr::{
    assemble_block, block_numbers, models_need_download, ocr_dpi, ocr_upscale_factor, sort_reading_order, OcrWord,
};
use snappea::text::{parse_i32, parse_u32, trim_str};

const XR24: u32 = 875713112;
const NV12: u32 = 842094158;

#[test]
fn software_encoders_prefer_rgb_and_linear_layout() {
    let offered = vec![
        (PixelFormat::Nv12, vec![BufferModifier::Linear]),
        (PixelFormat::Argb8888, vec![BufferModifier::Other(7), BufferModifier::Linear]),
        (PixelFormat::Xrgb8888, vec![BufferModifier::Other(5)]),
    ];
    assert_eq!(select_best_format(&offered, false), Some((PixelFormat::Xrgb8888, BufferModifier::Other(5))));
    assert_eq!(select_best_format(&offered, true), Some((PixelFormat::Nv12, BufferModifier::Linear)));
}

#[test]
fn unpreferred_formats_fall_back_to_the_first_entry() {
    let offered = vec![
        (PixelFormat::Other(1), vec![BufferModifier::Other(9), BufferModifier::Linear]),
        (PixelFormat::Yuyv, vec![]),
    ];
    assert_eq!(select_best_format(&offered, false), Some((PixelFormat::Other(1), BufferModifier::Other(9))));
    assert_eq!(select_best_format(&[], false), None);
    let empty_mods = vec![(PixelFormat::Xbgr8888, vec![])];
    assert_eq!(select_best_format(&empty_mods, false), Some((PixelFormat::Xbgr8888, BufferModifier::Invalid)));
}

#[test]
fn gstreamer_format_names() {
    assert_eq!(drm_format_to_gst_format(PixelFormat::Xrgb8888), Some("BGRx"));
    assert_eq!(drm_format_to_gst_format(PixelFormat::Argb8888), Some("BGRA"));
    assert_eq!(drm_format_to_gst_format(PixelFormat::Xbgr8888), Some("RGBx"));
    assert_eq!(drm_format_to_gst_format(PixelFormat::Abgr8888), Some("RGBA"));
    assert_eq!(drm_format_to_gst_format(PixelFormat::Nv12), Some("NV12"));
    assert_eq!(drm_format_to_gst_format(PixelFormat::Yuyv), Some("YUY2"));
    assert_eq!(drm_format_to_gst_format(PixelFormat::Other(3)), None);
    assert!(!needs_explicit_modifier(BufferModifier::Linear));
    assert!(!needs_explicit_modifier(BufferModifier::Invalid));
    assert!(needs_explicit_modifier(BufferModifier::Other(1)));
}

#[test]
fn compositor_codes_are_parsed_and_filtered() {
    let offered = vec![(0u32, vec![0u64]), (XR24, vec![0x0100_0000_0000_0001u64, 0]), (NV12, vec![0])];
    let supported = vec![vec![true], vec![true, false], vec![false]];
    let usable = usable_dmabuf_formats(&offered, &supported);
    assert_eq!(usable, vec![(PixelFormat::Xrgb8888, vec![BufferModifier::Other(0x0100_0000_0000_0001)])]);
    assert_eq!(
        select_dmabuf_format(&offered, &supported, false),
        Some((PixelFormat::Xrgb8888, BufferModifier::Other(0x0100_0000_0000_0001)))
    );
    let invalid = vec![(XR24, vec![0x00ff_ffff_ffff_ffffu64])];
    assert_eq!(
        select_dmabuf_format(&invalid, &vec![vec![true]], true),
        Some((PixelFormat::Xrgb8888, BufferModifier::Invalid))
    );
    assert_eq!(select_dmabuf_format(&[], &[], true), None);
    assert_eq!(select_dmabuf_format(&offered, &vec![vec![false], vec![false, false], vec![false]], true), None);
}

#[test]
fn triple_buffer_rotates_through_three_buffers() {
    let b = |fd: u32| DmabufBuffer::new(fd, 64, 32, 256, PixelFormat::Xrgb8888, BufferModifier::Linear);
    let mut pool = TripleBufferPool::new(b(0), b(1), b(2));
    assert_eq!(pool.current().fd, 0);
    pool.advance();
    assert_eq!(pool.current().fd, 1);
    pool.advance();
    assert_eq!(pool.current().fd, 2);
    pool.advance();
    assert_eq!(pool.current().fd, 0);
    assert_eq!(pool.size(), 256 * 32);
    assert_eq!((pool.width(), pool.height(), pool.stride()), (64, 32, 256));
    assert_eq!(pool.format(), PixelFormat::Xrgb8888);
    assert_eq!(pool.modifier(), BufferModifier::Linear);
}

fn image(w: u32, h: u32, f: impl Fn(u32, u32, u32) -> u8) -> RgbaImage {
    let mut px = Vec::new();
    for y in 0..h {
        for x in 0..w {
            for c in 0..4 {
                px.push(f(x, y, c));
            }
        }
    }
    RgbaImage::from_raw(w, h, px).unwrap()
}

fn pixel(img: &RgbaImage, x: u32, y: u32) -> [u8; 4] {
    let i = ((y * img.width() + x) * 4) as usize;
    let p = img.as_raw();
    [p[i], p[i + 1], p[i + 2], p[i + 3]]
}

#[test]
fn png_encoding_writes_a_png_file() {
    let img = image(2, 2, |x, y, c| (x * 10 + y * 100 + c) as u8);
    let mut buf = vec![1u8, 2, 3];
    assert_eq!(save_rgba_to_buffer(&img, &mut buf), Ok(()));
    assert_eq!(&buf[..3], &[1, 2, 3]);
    assert_eq!(&buf[3..11], &[137, 80, 78, 71, 13, 10, 26, 10]);
    assert!(buf.len() > 11 + 25);
    let empty = RgbaImage::from_raw(0, 5, vec![]).unwrap();
    assert_eq!(save_rgba_to_buffer(&empty, &mut Vec::new()), Err(ImageEncodeError::EmptyImage));
}

#[test]
fn raw_buffers_must_hold_every_pixel() {
    assert!(RgbaImage::from_raw(2, 2, vec![0; 16]).is_some());
    assert!(RgbaImage::from_raw(2, 2, vec![0; 15]).is_none());
    assert!(RgbaImage::from_raw(2, 2, vec![0; 17]).is_none());
}

#[test]
fn pixelation_averages_each_block() {
    // 4x2 image, red channel = x, others fixed.
    let mut img = image(4, 2, |x, y, c| if c == 0 { (x * 10 + y) as u8 } else { 200 });
    img.pixelate_region(0, 0, 3, 1, 2);
    // Block (0..=1, 0..=1): red values 0,10,1,11 -> mean 5 (rounded down).
    assert_eq!(pixel(&img, 0, 0), [5, 200, 200, 200]);
    assert_eq!(pixel(&img, 1, 1), [5, 200, 200, 200]);
    // Block (2..=3, 0..=1): 20,30,21,31 -> 25.
    assert_eq!(pixel(&img, 2, 0), [25, 200, 200, 200]);
    assert_eq!(pixel(&img, 3, 1), [25, 200, 200, 200]);
}

#[test]
fn pixelation_leaves_the_outside_alone_and_cuts_the_last_block_short() {
    let mut img = image(5, 1, |x, _y, c| if c == 0 { (x * 3) as u8 } else { 0 });
    // Corners given in any order; region x 1..=4, blocks of 3: {1,2,3} and {4}.
    img.pixelate_region(4, 0, 1, 0, 3);
    assert_eq!(pixel(&img, 0, 0)[0], 0);
    assert_eq!(pixel(&img, 1, 0)[0], 6);
    assert_eq!(pixel(&img, 3, 0)[0], 6);
    assert_eq!(pixel(&img, 4, 0)[0], 12);
}

#[test]
fn pixelation_span_clamps_to_the_image() {
    assert_eq!(pixel_span(-5, 3, 10), (0, 3));
    assert_eq!(pixel_span(8, 20, 10), (8, 9));
    assert_eq!(pixel_span(2, 2, 0), (2, 0));
    // Both corners left of the image: the larger one wraps to a huge value.
    assert_eq!(pixel_span(-3, -1, 10), (0, 9));
}

#[test]
fn multi_screen_canvas() {
    let bounds = Rect::new(-100, 0, 1820, 1080);
    assert_eq!(canvas_size(bounds), (1920, 1080));
    assert_eq!(canvas_size(Rect::new(10, 10, 0, 0)), (0, 0));
    assert_eq!(frame_offset(Rect::new(0, 0, 1920, 1080), bounds), (100, 0));
}

#[test]
fn media_types_by_extension() {
    assert_eq!(detect_media_type(Some("gif")), MediaType::Gif);
    assert_eq!(detect_media_type(Some("GIF")), MediaType::Gif);
    assert_eq!(detect_media_type(Some("mp4")), MediaType::Video);
    assert_eq!(detect_media_type(None), MediaType::Video);
}

#[test]
fn clipboard_offers_what_it_holds() {
    let d = ClipboardData { png_bytes: vec![1], gif_bytes: vec![], file_uri: "file:///tmp/a.mp4".to_string() };
    assert_eq!(d.available(), vec!["image/png".to_string(), "text/uri-list".to_string()]);
    assert_eq!(d.as_bytes("image/png"), Some(vec![1]));
    assert_eq!(d.as_bytes("image/gif"), None);
    assert_eq!(d.as_bytes("text/uri-list"), Some(b"file:///tmp/a.mp4\r\n".to_vec()));
    assert_eq!(d.as_bytes("text/plain"), None);
}

#[test]
fn gif_timing() {
    assert_eq!(gif_frame_delay_ms(100, 1), 100);
    assert_eq!(gif_frame_delay_ms(70, 2), 35);
    assert_eq!(gif_frame_delay_ms(5, 0), 100);
    assert_eq!(gif_playback_delay_ms(&[(40, 1), (80, 1)]), 40);
    assert_eq!(gif_playback_delay_ms(&[]), 100);
    assert_eq!(trimmed_frame_range(2, 50, 10), (2, 10));
    assert_eq!(trimmed_frame_range(20, 30, 10), (10, 10));
}

#[test]
fn gif_filter_graphs() {
    assert_eq!(gif_export_filter(None, 100, true), "fps=15");
    assert_eq!(gif_export_filter(Some(24), 50, true), "fps=24,scale=iw*50/100:ih*50/100");
    assert_eq!(
        gif_export_filter(Some(10), 100, false),
        "fps=10,split[s0][s1];[s0]palettegen[p];[s1][p]paletteuse=dither=bayer"
    );
    assert_eq!(gif_export_filter(Some(0), 7, true), "fps=0,scale=iw*7/100:ih*7/100");
}

#[test]
fn export_plans() {
    assert_eq!(plan_export(ExportFormat::Gif, true, MediaType::Video, false), ExportPlan::FfmpegGif);
    assert_eq!(plan_export(ExportFormat::Gif, true, MediaType::Gif, true), ExportPlan::FramesGif);
    assert_eq!(plan_export(ExportFormat::Gif, false, MediaType::Video, false), ExportPlan::NoFrames);
    assert_eq!(plan_export(ExportFormat::Video, true, MediaType::Gif, true), ExportPlan::FfmpegVideo);
    assert_eq!(plan_export(ExportFormat::Video, false, MediaType::Video, false), ExportPlan::FfmpegRequired);
}

#[test]
fn clipboard_export_files_and_uris() {
    assert_eq!(clipboard_export_path(ExportFormat::Gif, Some("mp4")), "/tmp/snappea-clipboard.gif");
    assert_eq!(clipboard_export_path(ExportFormat::Video, Some("webm")), "/tmp/snappea-clipboard.webm");
    assert_eq!(clipboard_export_path(ExportFormat::Video, None), "/tmp/snappea-clipboard.mp4");
    assert_eq!(file_uri("/tmp/a.gif"), "file:///tmp/a.gif");
    assert_eq!(media_file_url("/tmp/my clip.mp4"), "file:///tmp/my%20clip.mp4");
}

fn word(block: i32, line: i32, n: i32, left: i32, text: &str) -> OcrWord {
    OcrWord {
        left,
        top: 10 * line,
        width: 8,
        height: 9,
        block_num: block,
        line_num: line,
        word_num: n,
        text: text.to_string(),
        confident: true,
    }
}

#[test]
fn ocr_preparation() {
    assert!(!models_need_download());
    assert_eq!(ocr_upscale_factor(99, 500), 4);
    assert_eq!(ocr_upscale_factor(500, 150), 2);
    assert_eq!(ocr_upscale_factor(300, 200), 1);
    assert_eq!(ocr_dpi(150, 800), 300);
    assert_eq!(ocr_dpi(200, 800), 150);
}

#[test]
fn ocr_words_are_joined_in_reading_order() {
    let words = vec![
        word(1, 2, 1, 0, "world"),
        word(1, 1, 2, 50, "there"),
        word(2, 1, 1, 0, "other"),
        word(1, 1, 1, 5, "hello"),
        OcrWord { confident: false, ..word(1, 3, 1, -40, "ghost") },
        word(1, 3, 2, 0, "   "),
    ];
    let sorted = sort_reading_order(&words);
    let texts: Vec<&str> = sorted.iter().map(|w| w.text.as_str()).collect();
    assert_eq!(texts, vec!["other", "hello", "there", "world", "ghost", "   "]);
    let b = assemble_block(&words, 1).unwrap();
    assert_eq!(b.text, "hello there world");
    assert_eq!((b.left, b.top, b.right, b.bottom), (0, 10, 58, 29));
    assert_eq!(b.block_num, 1);
    assert!(assemble_block(&words, 7).is_none());
    let mut blocks = block_numbers(&words);
    blocks.sort();
    assert_eq!(blocks, vec![1, 2]);
}

#[test]
fn text_helpers() {
    assert_eq!(trim_str("  a b \n"), "a b");
    assert_eq!(trim_str(" \t "), "");
    assert_eq!(parse_i32("-42"), Some(-42));
    assert_eq!(parse_i32("+7"), Some(7));
    assert_eq!(parse_u32("4294967296"), None);
    assert_eq!(parse_u32("12a"), None);
}

#[test]
fn pixelating_twice_changes_nothing_more() {
    let mut img = image(7, 5, |x, y, c| ((x * 37 + y * 11 + c * 5) % 251) as u8);
    img.pixelate_region(1, 0, 6, 4, 3);
    let once = img.as_raw().clone();
    img.pixelate_region(1, 0, 6, 4, 3);
    assert_eq!(img.as_raw(), &once);
}
