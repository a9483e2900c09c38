use keet::cover::{
    artwork_url, base64_encode, cache_path_for, cell_metrics, cover_files, decode_and_resize, empty_slot_lines, image_is_sticky,
    itunes_url, kitty_clear_escape, kitty_transmit, large_artwork_url, legacy_cache_path_for,
    parse_cell_metrics_reply, passive_lines, placeholder_lines, protocol_from_env, render, render_half_block,
    render_half_block_public, render_image_block, render_viz_sixel_indexed, sanitize_fs, set_cell_metrics,
    sidecar_names, sixel_encode_indexed, urlencoded, viz_image_clear_escape, viz_iterm2_lines, viz_kitty_lines,
    viz_sixel_lines, with_alpha, CoverImage, CoverSize, GraphicsProtocol,
};
use keet::theme::ThemeKind;

#[test]
fn cover_cache_lives_in_config_dir_not_music_folder() {
    let config = "/home/someone/.config/keet";
    let path = cache_path_for(Some(config), Some("AC/DC"), Some("Back in Black."))
        .expect("cache path resolvable when the config dir is known");
    let path = std::path::Path::new(&path);
    let covers = std::path::Path::new(config).join("covers");
    assert!(path.starts_with(&covers), "cache must live under {covers:?}, got {path:?}");
    // Filename sanitized: '/' replaced, trailing dot trimmed.
    assert_eq!(path.file_name().unwrap().to_string_lossy(), "AC_DC - Back in Black.cover.jpg");
    // Unusable without both tags.
    assert!(cache_path_for(Some(config), None, Some("X")).is_none());
    assert!(cache_path_for(Some(config), Some("X"), None).is_none());
}

#[test]
fn legacy_cache_path_stays_next_to_the_track_for_reads() {
    let path = legacy_cache_path_for("/music/rock/song.flac", Some("A"), Some("B")).unwrap();
    assert_eq!(std::path::Path::new(&path), std::path::Path::new("/music/rock/A - B.cover.jpg"));
}

#[test]
fn wezterm_on_unix_uses_kitty() {
    let p = protocol_from_env(Some("WezTerm"), None, false, None, false, false);
    assert_eq!(p, GraphicsProtocol::Kitty);
}

#[test]
fn wezterm_on_windows_falls_back_to_half_block() {
    let p = protocol_from_env(Some("WezTerm"), None, false, None, false, true);
    assert_eq!(p, GraphicsProtocol::HalfBlock);
}

#[test]
fn windows_terminal_uses_sixel() {
    let p = protocol_from_env(None, Some("xterm-256color"), false, None, true, true);
    assert_eq!(p, GraphicsProtocol::Sixel);
}

#[test]
fn plain_terminal_uses_half_block() {
    let p = protocol_from_env(None, Some("xterm-256color"), false, None, false, false);
    assert_eq!(p, GraphicsProtocol::HalfBlock);
}

#[test]
fn ghostty_uses_kitty_and_iterm_uses_osc1337() {
    let g = protocol_from_env(Some("ghostty"), None, false, None, false, false);
    assert_eq!(g, GraphicsProtocol::Kitty);
    let i = protocol_from_env(Some("iTerm.app"), None, false, None, false, false);
    assert_eq!(i, GraphicsProtocol::Iterm2);
}

#[test]
fn viz_sixel_first_line_erases_whole_block_before_painting() {
    let lines = viz_sixel_lines("SIXELDATA", 120, 16);
    assert_eq!(lines.len(), 16);
    let erase_pass = "\x1B[2K\x1B[B".repeat(16);
    let want_prefix = format!("\x1B[s{}\x1B[u", erase_pass);
    assert!(
        lines[0].starts_with(&want_prefix),
        "first line must erase all rows before painting, got start: {:?}",
        &lines[0][..lines[0].len().min(40)]
    );
    assert!(lines[0].contains("SIXELDATA"));
    assert!(lines[0].ends_with("\x1B[u\x1B[120C"));
}

#[test]
fn cell_metrics_parses_direct_16t_reply() {
    assert_eq!(parse_cell_metrics_reply("\x1B[6;19;9t", 120, 30), Some((9, 19)));
}

#[test]
fn cell_metrics_parses_14t_text_area_fallback() {
    assert_eq!(parse_cell_metrics_reply("\x1B[4;570;1080t", 120, 30), Some((9, 19)));
}

#[test]
fn cell_metrics_found_amid_other_input_and_prefers_16t() {
    let buf = "x\x1B[4;600;1200t..\x1B[6;20;10t!";
    assert_eq!(parse_cell_metrics_reply(buf, 120, 30), Some((10, 20)));
}

#[test]
fn cell_metrics_rejects_insane_or_missing_replies() {
    assert_eq!(parse_cell_metrics_reply("\x1B[6;0;0t", 120, 30), None);
    assert_eq!(parse_cell_metrics_reply("\x1B[6;500;3t", 120, 30), None);
    assert_eq!(parse_cell_metrics_reply("no reply here", 120, 30), None);
    assert_eq!(parse_cell_metrics_reply("", 120, 30), None);
}

#[test]
fn sixel_indexed_emits_fixed_palette_and_rle() {
    let idx = vec![0u8; 48];
    let s = sixel_encode_indexed(&idx, &[(0, 0, 0), (255, 255, 255)], 8, 6);
    assert!(s.starts_with("\x1BP9;1;0q"), "proven-on-WT DCS header");
    assert!(s.contains("#0;2;0;0;0"), "palette entry 0 in percent scale");
    assert!(s.contains("#1;2;100;100;100"), "palette entry 1 in percent scale");
    assert!(s.contains("#0!8~"), "RLE band for color 0");
    assert!(s.ends_with("\x1B\\"), "string terminator");
}

#[test]
fn sixel_indexed_partial_band_overlays_colors() {
    let idx = vec![0, 1, 0, 1, 0, 1];
    let s = sixel_encode_indexed(&idx, &[(0, 0, 0), (255, 0, 0)], 2, 3);
    assert!(s.contains("#0F?"), "color 0 paints column 0 only");
    assert!(s.contains("#1?F"), "color 1 paints column 1 only");
    assert!(s.contains('$'), "carriage return between color overlays");
    assert!(s.contains('-'), "band terminator");
}

#[test]
fn viz_sixel_skip_lines_write_nothing_destructive() {
    let lines = viz_sixel_lines("SIXELDATA", 80, 4);
    for line in &lines[1..] {
        assert_eq!(line, "\x1B[80C");
    }
}

/// A PNG of one colour, made by the same crate that decodes it.
fn png(width: u32, height: u32, rgb: [u8; 3]) -> Vec<u8> {
    let img = image::RgbImage::from_pixel(width, height, image::Rgb(rgb));
    let mut out = std::io::Cursor::new(Vec::new());
    image::DynamicImage::ImageRgb8(img).write_to(&mut out, image::ImageFormat::Png).unwrap();
    out.into_inner()
}

#[test]
fn a_picture_is_shrunk_to_its_slot_as_half_blocks() {
    let size = CoverSize::minimal();
    let bytes = png(40, 40, [10, 20, 30]);
    match decode_and_resize(GraphicsProtocol::HalfBlock, &bytes, size) {
        Some(CoverImage::HalfBlock { width, height, pixels, size: s }) => {
            assert_eq!((width, height), (18, 16));
            assert_eq!(s, size);
            assert_eq!(pixels.len(), 18 * 16 * 3);
            assert_eq!(&pixels[..3], &[10, 20, 30]);
        }
        _ => panic!("half blocks expected"),
    }
    // The lines hold one cell of two pixels per column.
    let img = decode_and_resize(GraphicsProtocol::HalfBlock, &bytes, size).unwrap();
    let lines = render(&img);
    assert_eq!(lines.len(), 8);
    assert!(lines[0].contains("\x1B[38;2;10;20;30m"));
    assert_eq!(lines[0].matches('\u{2580}').count(), 18);
    assert_eq!(img.size(), size);
}

#[test]
fn a_picture_becomes_a_png_for_terminals_that_scale() {
    let bytes = png(8, 8, [1, 2, 3]);
    let size = CoverSize::classic();
    let k = decode_and_resize(GraphicsProtocol::Kitty, &bytes, size).unwrap();
    match &k {
        CoverImage::Kitty { png, .. } => {
            assert!(png.starts_with(b"\x89PNG"));
            assert_ne!(png, &bytes, "scaled to its own size");
        }
        _ => panic!("kitty expected"),
    }
    let lines = render(&k);
    assert_eq!(lines.len(), 10);
    assert!(lines[0].starts_with("\x1B_G"));
    let i = decode_and_resize(GraphicsProtocol::Iterm2, &bytes, size).unwrap();
    let lines = render(&i);
    assert_eq!(lines.len(), 10);
    assert!(lines[0].contains("\x1B]1337;File="));
    assert_eq!(lines[1], "\x1B[20C");
}

#[test]
fn a_picture_becomes_sixel_data() {
    let bytes = png(8, 8, [200, 0, 0]);
    let s = decode_and_resize(GraphicsProtocol::Sixel, &bytes, CoverSize::minimal()).unwrap();
    match &s {
        CoverImage::Sixel { data, .. } => assert!(data.starts_with("\x1BP"), "{data:?}"),
        _ => panic!("sixel expected"),
    }
    let lines = render(&s);
    assert_eq!(lines.len(), 8);
    assert_eq!(lines[7], "\x1B[18C");
}

#[test]
fn what_is_no_picture_is_no_cover() {
    for p in [
        GraphicsProtocol::Kitty,
        GraphicsProtocol::Iterm2,
        GraphicsProtocol::Sixel,
        GraphicsProtocol::HalfBlock,
    ] {
        assert!(decode_and_resize(p, b"not a picture", CoverSize::minimal()).is_none());
    }
}

#[test]
fn half_blocks_pair_rows_and_leave_a_last_odd_row() {
    let pixels = [1u8, 2, 3, 4, 5, 6, 7, 8, 9];
    let lines = render_half_block(1, 3, &pixels);
    assert_eq!(lines.len(), 2);
    assert_eq!(lines[0], "\x1B[38;2;1;2;3m\x1B[48;2;4;5;6m\u{2580}\x1B[0m");
    assert_eq!(render_half_block_public(1, 3, &pixels), lines);
}

#[test]
fn base64_pads_to_four() {
    assert_eq!(base64_encode(b""), "");
    assert_eq!(base64_encode(b"f"), "Zg==");
    assert_eq!(base64_encode(b"fo"), "Zm8=");
    assert_eq!(base64_encode(b"foo"), "Zm9v");
    assert_eq!(base64_encode(&[0xff, 0xfe, 0xfd, 0xfc]), "//79/A==");
}

#[test]
fn kitty_payload_is_sent_in_chunks() {
    let bytes = vec![7u8; 4000];
    let s = kitty_transmit(&bytes, CoverSize::classic());
    assert_eq!(s.matches("\x1B_G").count(), 2);
    assert!(s.contains("m=1"));
    assert!(s.contains("m=0"));
    let lines = viz_kitty_lines(&bytes, 30, 4);
    assert_eq!(lines.len(), 4);
    assert!(lines[0].contains("i=2"));
    let lines = viz_iterm2_lines(b"abc", 30, 4);
    assert!(lines[0].contains("YWJj"));
}

#[test]
fn slots_follow_the_theme() {
    assert_eq!(CoverSize::for_theme(ThemeKind::Minimal), CoverSize::minimal());
    assert_eq!(CoverSize::for_theme(ThemeKind::Classic), CoverSize::classic());
    assert_eq!(CoverSize::for_theme(ThemeKind::HiFi), CoverSize::classic());
    assert_eq!(CoverSize::classic().sixel_px(), (200, 200));
    assert!(!image_is_sticky(GraphicsProtocol::HalfBlock));
    assert!(image_is_sticky(GraphicsProtocol::Sixel));
}

#[test]
fn empty_slots_are_blank() {
    let size = CoverSize::minimal();
    let lines = empty_slot_lines(GraphicsProtocol::Kitty, size);
    assert_eq!(lines.len(), 8);
    assert_eq!(lines[0], format!("{}{}", kitty_clear_escape(), " ".repeat(18)));
    assert_eq!(empty_slot_lines(GraphicsProtocol::Sixel, size)[0], " ".repeat(18));
    assert_eq!(passive_lines(size)[3], "\x1B[18C");
    assert_eq!(placeholder_lines(size)[0], format!("\x1B[48;2;0;0;0m{}\x1B[0m", " ".repeat(18)));
    assert_eq!(viz_image_clear_escape(), "\x1B_Ga=d,d=i,i=2,q=2\x1B\\");
}

#[test]
fn cell_metrics_are_stored_in_one_number() {
    assert_eq!(cell_metrics(set_cell_metrics(Some((9, 19)))), Some((9, 19)));
    assert_eq!(cell_metrics(set_cell_metrics(None)), None);
}

#[test]
fn file_names_hold_nothing_that_systems_refuse() {
    assert_eq!(sanitize_fs("a/b:c?"), "a_b_c_");
    assert_eq!(sanitize_fs("end. ."), "end");
    let p = cache_path_for(None, Some("A"), Some("B"));
    assert_eq!(p, None);
}

#[test]
fn queries_are_escaped_and_replies_read() {
    assert_eq!(urlencoded("a b&ü"), "a%20b%26%C3%BC");
    let url = itunes_url("AC/DC", "Back in Black");
    assert!(url.contains("AC%2FDC"), "{url}");
    let reply = r#"{"resultCount":1,"results":[{"artworkUrl100":"http://x/100x100bb.jpg"}]}"#;
    let art = artwork_url(reply).unwrap();
    assert_eq!(art, "http://x/100x100bb.jpg");
    assert_eq!(large_artwork_url(&art), "http://x/600x600bb.jpg");
    assert_eq!(artwork_url("{\"results\":[]}"), None);
    assert_eq!(artwork_url("nonsense"), None);
}

#[test]
fn sidecars_are_looked_for_by_name() {
    assert!(sidecar_names().contains(&"cover.jpg"));
}

#[test]
fn opaque_pixels_have_a_fourth_byte() {
    assert_eq!(with_alpha(&[1, 2, 3, 4, 5, 6]), vec![1, 2, 3, 255, 4, 5, 6, 255]);
    assert_eq!(with_alpha(&[1, 2]), Vec::<u8>::new());
}

#[test]
fn indexed_pictures_become_lines() {
    let lines = render_viz_sixel_indexed(&[0; 12], &[(0, 0, 0)], 2, 6, 10, 3);
    assert_eq!(lines.len(), 3);
    assert!(lines[0].contains("\x1BP9;1;0q"));
}

#[test]
fn picture_blocks_follow_the_protocol() {
    let rgb = vec![9u8; 4 * 4 * 3];
    let k = render_image_block(GraphicsProtocol::Kitty, &rgb, 4, 4, 10, 2);
    assert_eq!(k.len(), 2);
    assert!(k[0].starts_with("\x1B_G"));
    let s = render_image_block(GraphicsProtocol::Sixel, &rgb, 4, 4, 10, 2);
    assert!(s[0].contains("\x1BP"));
    let i = render_image_block(GraphicsProtocol::Iterm2, &rgb, 4, 4, 10, 2);
    assert!(i[0].contains("1337"));
}

#[test]
fn covers_are_looked_for_beside_the_track_first() {
    let files = cover_files("/music/a/song.flac", Some("/conf"), Some("A"), Some("B"));
    assert_eq!(files.len(), 18);
    assert_eq!(files[0], "/music/a/cover.jpg");
    assert_eq!(files[15], "/music/a/Front.jpg");
    assert_eq!(files[16], "/conf/covers/A - B.cover.jpg");
    assert_eq!(files[17], "/music/a/A - B.cover.jpg");
    let files = cover_files("/music/a/song.flac", Some("/conf"), None, Some("B"));
    assert_eq!(files.len(), 16);
    let files = cover_files("", Some("/conf"), Some("A"), Some("B"));
    assert_eq!(files, vec!["/conf/covers/A - B.cover.jpg".to_string()]);
}

#[test]
fn pictures_too_large_for_their_sums_are_left_out() {
    let size = CoverSize { cols: 1, rows: 1 };
    let deep = image::ImageBuffer::<image::Luma<u16>, Vec<u16>>::from_pixel(400, 400, image::Luma([60000]));
    let mut png = std::io::Cursor::new(Vec::new());
    image::DynamicImage::ImageLuma16(deep).write_to(&mut png, image::ImageFormat::Png).unwrap();
    let png = png.into_inner();
    assert!(decode_and_resize(GraphicsProtocol::HalfBlock, &png, size).is_none());
    assert!(decode_and_resize(GraphicsProtocol::Kitty, &png, size).is_some());
    let flat = image::RgbImage::from_pixel(400, 400, image::Rgb([9, 8, 7]));
    let mut png = std::io::Cursor::new(Vec::new());
    image::DynamicImage::ImageRgb8(flat).write_to(&mut png, image::ImageFormat::Png).unwrap();
    match decode_and_resize(GraphicsProtocol::HalfBlock, &png.into_inner(), size) {
        Some(CoverImage::HalfBlock { width, height, pixels, .. }) => {
            assert_eq!((width, height), (1, 2));
            assert_eq!(pixels, vec![9, 8, 7, 9, 8, 7]);
        }
        _ => panic!("a picture of eight bits is shrunk"),
    }
}
