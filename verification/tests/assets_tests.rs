use game_gem::assets::{frame_cell, grid_frame_count, AssetConfig, AssetManager, ImageAsset, PixelFormat};

fn config() -> AssetConfig {
    AssetConfig { root: "assets".to_string(), hot_reload: false }
}

fn numbered(width: u32, height: u32) -> ImageAsset {
    let mut img = ImageAsset::new(width, height);
    for (i, b) in img.pixels.iter_mut().enumerate() {
        *b = i as u8;
    }
    img
}

#[test]
fn image_new_is_zeroed() {
    let img = ImageAsset::new(3, 2);
    assert_eq!(img.width, 3);
    assert_eq!(img.height, 2);
    assert_eq!(img.format, PixelFormat::Rgba8);
    assert_eq!(img.pixels.len(), 24);
    assert!(img.pixels.iter().all(|&b| b == 0));
    assert_eq!(img.get_pixel(2, 1), (0, 0, 0, 0));
}

#[test]
fn set_then_get_pixel() {
    let mut img = ImageAsset::new(4, 4);
    img.set_pixel(2, 3, 10, 20, 30, 40);
    assert_eq!(img.get_pixel(2, 3), (10, 20, 30, 40));
    assert_eq!(img.get_pixel(3, 3), (0, 0, 0, 0));
    assert_eq!(&img.pixels[(3 * 4 + 2) * 4..(3 * 4 + 2) * 4 + 4], &[10, 20, 30, 40]);
}

#[test]
fn pixel_outside_buffer() {
    let mut img = ImageAsset::new(2, 2);
    assert_eq!(img.get_pixel(0, 2), (0, 0, 0, 0));
    img.set_pixel(5, 5, 1, 2, 3, 4);
    assert!(img.pixels.iter().all(|&b| b == 0));
    // x past the width wraps onto the next row, as the buffer is read linearly
    img.set_pixel(2, 0, 9, 9, 9, 9);
    assert_eq!(img.get_pixel(0, 1), (9, 9, 9, 9));
}

#[test]
fn sub_image_copies_region() {
    let img = numbered(4, 3);
    let sub = img.sub_image(1, 1, 2, 2);
    assert_eq!(sub.width, 2);
    assert_eq!(sub.height, 2);
    assert_eq!(sub.format, PixelFormat::Rgba8);
    assert_eq!(sub.get_pixel(0, 0), img.get_pixel(1, 1));
    assert_eq!(sub.get_pixel(1, 0), img.get_pixel(2, 1));
    assert_eq!(sub.get_pixel(0, 1), img.get_pixel(1, 2));
    assert_eq!(sub.get_pixel(1, 1), img.get_pixel(2, 2));
    assert_eq!(sub.get_pixel(0, 0), (20, 21, 22, 23));
}

#[test]
fn sub_image_past_the_buffer_is_black() {
    let img = numbered(2, 2);
    let sub = img.sub_image(1, 1, 2, 2);
    assert_eq!(sub.get_pixel(0, 0), (12, 13, 14, 15));
    assert_eq!(sub.get_pixel(0, 1), (0, 0, 0, 0));
    assert_eq!(sub.get_pixel(1, 1), (0, 0, 0, 0));
}

#[test]
fn sub_image_of_whole_image_is_the_image() {
    let img = numbered(3, 2);
    let sub = img.sub_image(0, 0, 3, 2);
    assert_eq!(sub.pixels, img.pixels);
}

#[test]
fn flip_horizontal_mirrors_columns() {
    let mut img = numbered(3, 2);
    let before = img.clone();
    img.flip_horizontal();
    for y in 0..2 {
        for x in 0..3 {
            assert_eq!(img.get_pixel(x, y), before.get_pixel(2 - x, y));
        }
    }
    assert_eq!(img.get_pixel(0, 0), (8, 9, 10, 11));
    img.flip_horizontal();
    assert_eq!(img.pixels, before.pixels);
}

#[test]
fn flip_vertical_mirrors_rows() {
    let mut img = numbered(2, 3);
    let before = img.clone();
    img.flip_vertical();
    for y in 0..3 {
        for x in 0..2 {
            assert_eq!(img.get_pixel(x, y), before.get_pixel(x, 2 - y));
        }
    }
    img.flip_vertical();
    assert_eq!(img.pixels, before.pixels);
}

#[test]
fn flips_keep_trailing_bytes() {
    let mut img = numbered(2, 2);
    img.pixels.push(200);
    img.flip_horizontal();
    img.flip_vertical();
    assert_eq!(img.pixels[16], 200);
    assert_eq!(img.pixels.len(), 17);
}

#[test]
fn load_image_caches_by_path() {
    let mut m = AssetManager::new(config());
    let a = m.load_image("sprites/player.png").unwrap();
    assert_eq!(a.path(), "assets/sprites/player.png");
    assert_eq!(m.image_count(), 1);
    assert_eq!(m.total_image_bytes(), 4);
    let b = m.load_image("/sprites/player.png").unwrap();
    assert_eq!(b.path(), "assets/sprites/player.png");
    assert_eq!(m.image_count(), 1);
    assert_eq!(m.total_image_bytes(), 4);
    assert_eq!(a.get().pixels, b.get().pixels);
    assert!(a.ref_count() >= 3);
    assert_eq!(a.width, 1);
}

#[test]
fn normalize_strips_leading_separators() {
    let mut m = AssetManager::new(config());
    let h = m.load_image("//\\\\ui/button.png").unwrap();
    assert_eq!(h.path(), "assets/ui/button.png");
    let h2 = m.load_image("\\/x.png").unwrap();
    assert_eq!(h2.path(), "assets//x.png");
}

#[test]
fn unload_image_forgets_it() {
    let mut m = AssetManager::new(config());
    m.load_image("a.png").unwrap();
    m.load_image("b.png").unwrap();
    assert_eq!(m.image_count(), 2);
    assert_eq!(m.total_image_bytes(), 8);
    m.unload_image("a.png");
    assert_eq!(m.image_count(), 1);
    assert_eq!(m.total_image_bytes(), 4);
    m.unload_image("missing.png");
    assert_eq!(m.image_count(), 1);
    m.check_hot_reload();
    assert_eq!(m.image_count(), 1);
    m.clear();
    assert_eq!(m.image_count(), 0);
    assert_eq!(m.total_image_bytes(), 0);
}

#[test]
fn handle_outlives_unload() {
    let mut m = AssetManager::new(config());
    let h = m.load_image("keep.png").unwrap();
    assert!(h.ref_count() >= 2);
    m.unload_image("keep.png");
    assert_eq!(h.ref_count(), 1);
    assert_eq!(h.get().pixels, vec![0, 0, 0, 0]);
}

#[test]
fn sprite_grid_cells() {
    assert_eq!(frame_cell(7, 3), (1, 2));
    assert_eq!(frame_cell(0, 5), (0, 0));
    assert_eq!(grid_frame_count(4, 3), 12);
}

#[test]
fn total_bytes_is_sum_over_cached_images() {
    let mut m = AssetManager::new(AssetConfig { root: "assets".to_string(), hot_reload: false });
    let mut handles = Vec::new();
    for p in ["a.png", "b.png", "/c.png", "a.png"] {
        handles.push(m.load_image(p).unwrap());
    }
    m.unload_image("b.png");
    let kept: usize = [&handles[0], &handles[2]].iter().map(|h| h.get().pixels.len()).sum();
    assert_eq!(m.image_count(), 2);
    assert_eq!(m.total_image_bytes(), kept);
    assert_eq!(kept, 8);
}
