use opensokoban::config::{CRATE, CRATE_GOAL, FLOOR, GOAL, PLAYER, PLAYER_GOAL, WALL};
use opensokoban::icon::{fit_icon, icons_from, window_icons};
use opensokoban::render::{get_player_sprite, tile_sprites};
use opensokoban::ui::UiState;

#[test]
fn ui_starts_closed_with_level_number() {
    let ui = UiState::new(7);
    assert!(!ui.show_credits);
    assert!(!ui.show_go_to_level);
    assert_eq!(ui.level_input_buffer, "7");
    assert_eq!(UiState::new(0).level_input_buffer, "0");
    assert_eq!(UiState::new(1234).level_input_buffer, "1234");
}

#[test]
fn open_go_to_level_fills_field() {
    let mut ui = UiState::new(1);
    ui.level_input_buffer = "junk".to_string();
    ui.open_go_to_level(42);
    assert!(ui.show_go_to_level);
    assert_eq!(ui.level_input_buffer, "42");
}

fn submit(text: &str) -> (Option<usize>, bool) {
    let mut ui = UiState::new(1);
    ui.show_go_to_level = true;
    ui.level_input_buffer = text.to_string();
    let level = ui.submit_level();
    (level, ui.show_go_to_level)
}

#[test]
fn submit_accepts_level_numbers() {
    assert_eq!(submit("12"), (Some(12), false));
    assert_eq!(submit("1"), (Some(1), false));
    assert_eq!(submit("60"), (Some(60), false));
    assert_eq!(submit("+5"), (Some(5), false));
    assert_eq!(submit("007"), (Some(7), false));
}

#[test]
fn submit_refuses_other_text() {
    assert_eq!(submit("0"), (None, true));
    assert_eq!(submit("61"), (None, true));
    assert_eq!(submit(""), (None, true));
    assert_eq!(submit("+"), (None, true));
    assert_eq!(submit("-1"), (None, true));
    assert_eq!(submit(" 3"), (None, true));
    assert_eq!(submit("abc"), (None, true));
    assert_eq!(submit("99999999999999999999999"), (None, true));
}

#[test]
fn player_sprites() {
    assert_eq!(get_player_sprite((1, 0), 0), (0, 2));
    assert_eq!(get_player_sprite((0, 1), 0), (1, 2));
    assert_eq!(get_player_sprite((0, -1), 0), (0, 3));
    assert_eq!(get_player_sprite((-1, 0), 0), (1, 3));
    assert_eq!(get_player_sprite((5, 5), 0), (0, 2));
    assert_eq!(get_player_sprite((1, 0), 1), (2, 2));
    assert_eq!(get_player_sprite((-1, 0), 2), (1, 5));
    assert_eq!(get_player_sprite((0, -1), 3), (2, 5));
}

fn png_bytes(width: u32, height: u32) -> (Vec<u8>, Vec<u8>) {
    let mut img = image::RgbaImage::new(width, height);
    for (x, y, p) in img.enumerate_pixels_mut() {
        *p = image::Rgba([x as u8, y as u8, 200, 255]);
    }
    let raw = img.clone().into_raw();
    let mut out = std::io::Cursor::new(Vec::new());
    img.write_to(&mut out, image::ImageFormat::Png).unwrap();
    (out.into_inner(), raw)
}

#[test]
fn icons_from_64_pixel_png() {
    let (png, raw) = png_bytes(64, 64);
    let icons = window_icons(&png);
    assert_eq!(icons.big, raw);
    assert_eq!(icons.medium.len(), 32 * 32 * 4);
    assert_eq!(icons.small.len(), 16 * 16 * 4);
    assert!(icons.medium.iter().any(|&b| b != 0));
    assert!(icons.small.iter().any(|&b| b != 0));
}

#[test]
fn icons_from_other_size_png() {
    let (png, _) = png_bytes(8, 8);
    let icons = window_icons(&png);
    assert_eq!(icons.big, vec![0u8; 64 * 64 * 4]);
    assert_eq!(icons.medium.len(), 32 * 32 * 4);
    assert!(icons.medium.iter().any(|&b| b != 0));
}

#[test]
fn icons_from_garbage_are_blank() {
    let icons = window_icons(&[1, 2, 3]);
    assert_eq!(icons.big, vec![0u8; 64 * 64 * 4]);
    assert_eq!(icons.medium, vec![0u8; 32 * 32 * 4]);
    assert_eq!(icons.small, vec![0u8; 16 * 16 * 4]);
}

#[test]
fn fit_icon_keeps_exact_length_only() {
    assert_eq!(fit_icon(vec![1, 2, 3, 4], 4), vec![1, 2, 3, 4]);
    assert_eq!(fit_icon(vec![1, 2, 3], 4), vec![0, 0, 0, 0]);
    assert_eq!(fit_icon(vec![], 0), Vec::<u8>::new());
}

#[test]
fn icons_from_given_pixels() {
    let big: Vec<u8> = (0..64 * 64 * 4).map(|i| (i % 251) as u8).collect();
    let medium = vec![7u8; 32 * 32 * 4];
    let small = vec![9u8; 16 * 16 * 4];
    let icons = icons_from(Some((big.clone(), 64, 64)), medium.clone(), small.clone());
    assert_eq!(icons.big, big);
    assert_eq!(icons.medium, medium);
    assert_eq!(icons.small, small);

    let icons = icons_from(Some((vec![1u8; 8 * 8 * 4], 8, 8)), medium.clone(), vec![3u8; 5]);
    assert_eq!(icons.big, vec![0u8; 64 * 64 * 4]);
    assert_eq!(icons.medium, medium);
    assert_eq!(icons.small, vec![0u8; 16 * 16 * 4]);

    let icons = icons_from(None, medium, small);
    assert_eq!(icons.big, vec![0u8; 64 * 64 * 4]);
    assert_eq!(icons.medium, vec![0u8; 32 * 32 * 4]);
    assert_eq!(icons.small, vec![0u8; 16 * 16 * 4]);
}

#[test]
fn sprites_for_each_tile() {
    let p = (2, 5);
    assert_eq!(tile_sprites(FLOOR, p), vec![(0, 1)]);
    assert_eq!(tile_sprites(WALL, p), vec![(0, 1), (2, 0)]);
    assert_eq!(tile_sprites(GOAL, p), vec![(0, 1), (1, 1)]);
    assert_eq!(tile_sprites(CRATE, p), vec![(0, 1), (0, 0)]);
    assert_eq!(tile_sprites(CRATE_GOAL, p), vec![(0, 1), (1, 0)]);
    assert_eq!(tile_sprites(PLAYER, p), vec![(0, 1), (2, 5)]);
    assert_eq!(tile_sprites(PLAYER_GOAL, p), vec![(0, 1), (1, 1), (2, 5)]);
    assert_eq!(tile_sprites(9, p), vec![(0, 1)]);
}
