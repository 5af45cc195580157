use relic_scanner::raster::{Raster, Rect};
use relic_scanner::region::{
    get_relic_image, relic_window, slice, INFO_HEIGHT, MIN_HEIGHT, MIN_WIDTH, PANEL_HEIGHT,
    PANEL_TOP, PANEL_WIDTH, SET_HEIGHT, STAT_GAP, STAT_LEFT, STAT_LINES, WINDOW_HEIGHT,
    WINDOW_LENGTH,
};

/// An image whose pixel (x, y) holds x and y, each split in two bytes.
fn gradient(width: u32, height: u32) -> Raster {
    let mut data = Vec::with_capacity((width * height * 4) as usize);
    for y in 0..height {
        for x in 0..width {
            data.push((x % 256) as u8);
            data.push((x / 256) as u8);
            data.push((y % 256) as u8);
            data.push((y / 256) as u8);
        }
    }
    Raster::new(width, height, data).unwrap()
}

fn pixel(image: &Raster, x: u32, y: u32) -> (u32, u32) {
    let at = ((y * image.width() + x) * 4) as usize;
    let data = image.data();
    (
        data[at] as u32 + 256 * data[at + 1] as u32,
        data[at + 2] as u32 + 256 * data[at + 3] as u32,
    )
}

/// Checks that `part` shows `source` from (`x`, `y`) on, at its corners.
fn assert_cut(part: &Raster, x: u32, y: u32, width: u32, height: u32) {
    assert_eq!((part.width(), part.height()), (width, height));
    assert_eq!(part.data().len(), (width * height * 4) as usize);
    if width > 0 && height > 0 {
        assert_eq!(pixel(part, 0, 0), (x, y));
        assert_eq!(pixel(part, width - 1, 0), (x + width - 1, y));
        assert_eq!(pixel(part, 0, height - 1), (x, y + height - 1));
        assert_eq!(
            pixel(part, width - 1, height - 1),
            (x + width - 1, y + height - 1)
        );
    }
}

#[test]
fn a_raster_needs_four_bytes_per_pixel() {
    assert!(Raster::new(2, 3, vec![0; 24]).is_some());
    assert!(Raster::new(2, 3, vec![0; 23]).is_none());
    assert!(Raster::new(2, 3, vec![0; 25]).is_none());
    assert!(Raster::new(2, 3, vec![0; 28]).is_none());
    assert!(Raster::new(0, 3, Vec::new()).is_some());
    assert!(Raster::new(0, 0, vec![0; 4]).is_none());
    assert!(Raster::new(u32::MAX, u32::MAX, vec![0; 4]).is_none());
    let image = Raster::new(2, 1, vec![1, 2, 3, 4, 5, 6, 7, 8]).unwrap();
    assert_eq!(image.width(), 2);
    assert_eq!(image.height(), 1);
    assert_eq!(image.data(), &vec![1, 2, 3, 4, 5, 6, 7, 8]);
}

#[test]
fn a_crop_copies_the_pixels_of_its_area() {
    let image = Raster::new(
        3,
        2,
        vec![
            0, 0, 0, 0, 1, 1, 1, 1, 2, 2, 2, 2, //
            3, 3, 3, 3, 4, 4, 4, 4, 5, 5, 5, 5,
        ],
    )
    .unwrap();
    let part = image.crop(Rect { x: 1, y: 0, width: 2, height: 2 }).unwrap();
    assert_eq!(part.width(), 2);
    assert_eq!(part.height(), 2);
    assert_eq!(
        part.data(),
        &vec![1, 1, 1, 1, 2, 2, 2, 2, 4, 4, 4, 4, 5, 5, 5, 5]
    );
    let whole = image.crop(Rect { x: 0, y: 0, width: 3, height: 2 }).unwrap();
    assert_eq!(whole.data(), image.data());
    let corner = image.crop(Rect { x: 2, y: 1, width: 1, height: 1 }).unwrap();
    assert_eq!(corner.data(), &vec![5, 5, 5, 5]);
}

#[test]
fn an_empty_crop_is_an_empty_image() {
    let image = gradient(4, 4);
    let flat = image.crop(Rect { x: 1, y: 4, width: 3, height: 0 }).unwrap();
    assert_eq!((flat.width(), flat.height()), (3, 0));
    assert!(flat.data().is_empty());
    let thin = image.crop(Rect { x: 4, y: 0, width: 0, height: 4 }).unwrap();
    assert_eq!((thin.width(), thin.height()), (0, 4));
    assert!(thin.data().is_empty());
}

#[test]
fn a_crop_beyond_the_image_is_refused() {
    let image = gradient(4, 4);
    assert!(image.crop(Rect { x: 2, y: 0, width: 3, height: 1 }).is_none());
    assert!(image.crop(Rect { x: 0, y: 2, width: 1, height: 3 }).is_none());
    assert!(image.crop(Rect { x: 5, y: 0, width: 0, height: 0 }).is_none());
    assert!(image
        .crop(Rect { x: u32::MAX, y: 0, width: 2, height: 1 })
        .is_none());
    assert!(image
        .crop(Rect { x: 0, y: 1, width: 1, height: u32::MAX })
        .is_none());
}

#[test]
fn the_panel_lies_at_the_right_edge_of_the_window() {
    assert_eq!(
        relic_window((0, 0), 1920, 1080),
        Some(Rect { x: 1320, y: 75, width: 600, height: 550 })
    );
    assert_eq!(
        relic_window((100, 20), 2560, 1440),
        Some(Rect { x: 1420, y: 95, width: 600, height: 550 })
    );
    assert_eq!(
        relic_window((640, 455), 2560, 1080),
        Some(Rect { x: 1960, y: 530, width: 600, height: 550 })
    );
    assert_eq!(WINDOW_LENGTH, 1920);
    assert_eq!(WINDOW_HEIGHT, 1080);
    assert_eq!((PANEL_WIDTH, PANEL_HEIGHT, PANEL_TOP), (600, 550, 75));
}

#[test]
fn a_panel_beyond_the_screen_is_refused() {
    assert_eq!(relic_window((1, 0), 1920, 1080), None);
    assert_eq!(relic_window((0, 456), 1920, 1080), None);
    assert_eq!(relic_window((0, 0), 1919, 1080), None);
    assert_eq!(relic_window((0, 0), 1920, 624), None);
    assert_eq!(relic_window((u32::MAX, 0), u32::MAX, u32::MAX), None);
    assert_eq!(relic_window((0, u32::MAX), u32::MAX, u32::MAX), None);
    assert!(relic_window((u32::MAX - 1920, 0), u32::MAX, 625).is_some());
}

#[test]
fn the_panel_is_cut_out_of_the_screen() {
    let screen = gradient(1930, 640);
    let panel = get_relic_image(&screen, (10, 5)).unwrap();
    assert_cut(&panel, 1330, 80, 600, 550);
    assert!(get_relic_image(&screen, (11, 5)).is_none());
    assert!(get_relic_image(&screen, (10, 16)).is_none());
}

#[test]
fn a_panel_divides_into_its_bands() {
    let panel = gradient(600, 550);
    let bands = slice(&panel).unwrap();
    assert_cut(&bands.info, 0, 0, 600, 275);
    assert_cut(&bands.set, 0, 500, 600, 50);
    assert_eq!(bands.stat_lines.len(), 5);
    // The stat area is 550 - 275 - 15 - 50 = 210 rows high, a line 42.
    for (i, line) in bands.stat_lines.iter().enumerate() {
        assert_cut(line, 75, 290 + 42 * i as u32, 525, 42);
    }
}

#[test]
fn rows_that_the_division_leaves_over_belong_to_no_line() {
    // The stat area is 214 rows high, a line 42; four rows are left over.
    let panel = gradient(100, 554);
    let bands = slice(&panel).unwrap();
    for (i, line) in bands.stat_lines.iter().enumerate() {
        assert_cut(line, 75, 290 + 42 * i as u32, 25, 42);
    }
    assert_cut(&bands.set, 0, 504, 100, 50);
}

#[test]
fn stat_lines_share_one_height_within_the_stat_area() {
    for (width, height) in [(75, 340), (76, 341), (80, 344), (90, 345), (600, 550), (333, 777)] {
        let bands = slice(&gradient(width, height)).unwrap();
        let area = height - INFO_HEIGHT - STAT_GAP - SET_HEIGHT;
        let line = bands.stat_lines[0].height();
        assert_eq!(line, area / STAT_LINES);
        let mut total = 0;
        for band in &bands.stat_lines {
            assert_eq!(band.height(), line);
            assert_eq!(band.width(), width - STAT_LEFT);
            total += band.height();
        }
        assert!(total <= area);
        assert!(area - total < STAT_LINES);
    }
}

#[test]
fn the_smallest_panel_has_empty_stat_lines() {
    let bands = slice(&gradient(MIN_WIDTH, MIN_HEIGHT)).unwrap();
    assert_cut(&bands.info, 0, 0, 75, 275);
    assert_cut(&bands.set, 0, 290, 75, 50);
    assert_eq!(bands.stat_lines.len(), 5);
    for line in &bands.stat_lines {
        assert_eq!((line.width(), line.height()), (0, 0));
    }
}

#[test]
fn a_panel_too_small_is_not_divided() {
    assert!(slice(&gradient(74, 340)).is_none());
    assert!(slice(&gradient(75, 339)).is_none());
    assert!(slice(&gradient(0, 0)).is_none());
    assert!(slice(&gradient(600, 100)).is_none());
}
