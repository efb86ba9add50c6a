use multimpaste::icon::{icon_alpha_at, tray_icon_rgba};

fn alpha(image: &[u8], x: usize, y: usize) -> u8 {
    image[(y * 32 + x) * 4 + 3]
}

#[test]
fn icon_is_32_by_32_rgba() {
    let image = tray_icon_rgba();
    assert_eq!(image.len(), 32 * 32 * 4);
    for (i, byte) in image.iter().enumerate() {
        if i % 4 != 3 {
            assert_eq!(*byte, 0);
        } else {
            assert!(*byte == 0 || *byte == 255);
        }
    }
}

#[test]
fn icon_draws_two_sheet_outlines() {
    let image = tray_icon_rgba();
    assert_eq!(alpha(&image, 0, 0), 0);
    assert_eq!(alpha(&image, 3, 3), 255);
    assert_eq!(alpha(&image, 4, 4), 255);
    assert_eq!(alpha(&image, 5, 5), 0);
    assert_eq!(alpha(&image, 11, 7), 255);
    assert_eq!(alpha(&image, 28, 28), 255);
    assert_eq!(alpha(&image, 29, 29), 0);
    // the back sheet's border is hidden under the front sheet's inside
    assert_eq!(alpha(&image, 19, 15), 0);
    assert_eq!(alpha(&image, 19, 5), 255);
    assert_eq!(icon_alpha_at(31, 31), 0);
}

#[test]
fn tray_icon_accepts_the_drawn_pixels() {
    let attempt = multimpaste::icon::tray_icon_image();
    assert_eq!(attempt.width, 32);
    assert_eq!(attempt.height, 32);
    assert!(attempt.result.is_ok());
}
