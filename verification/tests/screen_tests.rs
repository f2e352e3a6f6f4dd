use chip8::screen::Screen;

#[test]
fn test_creating_new_screen() {
    let screen = Screen::new(true, true);
    assert_eq!(screen.pixel_buffer.len(), 32);
    assert_eq!(screen.pixel_buffer[0], 0);
    assert_eq!(screen.pixel_buffer[16], 0);
    assert_eq!(screen.pixel_buffer[31], 0);
}

#[test]
fn screen_test_clearing_screen() {
    let mut screen = Screen::new(true, true);
    screen.pixel_buffer[0] = 1;
    screen.pixel_buffer[16] = 1;
    screen.pixel_buffer[31] = 1;

    screen.clear();
    assert_eq!(screen.pixel_buffer, [0; 32]);
}

#[test]
fn screen_test_setting_pixel() {
    let mut screen = Screen::new(true, true);

    screen.set_pixel(0, 63, true);
    assert_eq!(screen.pixel_buffer[0], 1);

    screen.set_pixel(0, 63, false);
    assert_eq!(screen.pixel_buffer[0], 0);

    screen.set_pixel(31, 63, true);
    assert_eq!(screen.pixel_buffer[31], 1);

    screen.set_pixel(31, 63, false);
    assert_eq!(screen.pixel_buffer[31], 0);
}

#[test]
fn screen_test_getting_pixel() {
    let mut screen = Screen::new(true, true);

    assert_eq!(screen.get_pixel(0, 0), false);
    assert_eq!(screen.get_pixel(31, 63), false);
    assert_eq!(screen.get_pixel(16, 32), false);

    screen.set_pixel(0, 31, true);
    assert_eq!(screen.get_pixel(0, 31), true);

    screen.set_pixel(0, 0, true);
    assert_eq!(screen.get_pixel(0, 0), true);

    screen.set_pixel(16, 32, true);
    assert_eq!(screen.get_pixel(16, 32), true);
}

#[test]
fn screen_test_drawing_sprite_to_empty_buffer() {
    let mut screen = Screen::new(true, true);

    let sprite = vec![255, 255, 255];
    screen.draw_sprite(&sprite, 15, 0);

    assert_eq!(screen.get_pixel(15, 0), true);
    assert_eq!(screen.get_pixel(16, 0), true);
    assert_eq!(screen.get_pixel(17, 0), true);

    assert_eq!(screen.get_pixel(15, 7), true);
    assert_eq!(screen.get_pixel(16, 7), true);
    assert_eq!(screen.get_pixel(17, 7), true);

    assert_eq!(screen.get_pixel(15, 3), true);
    assert_eq!(screen.get_pixel(16, 4), true);
    assert_eq!(screen.get_pixel(17, 5), true);

    assert_eq!(screen.get_pixel(15, 8), false);
    assert_eq!(screen.get_pixel(16, 8), false);
    assert_eq!(screen.get_pixel(17, 8), false);
}

#[test]
fn screen_test_drawing_sprite_to_top_left() {
    let mut screen = Screen::new(true, true);

    let sprite = vec![255, 255, 255];
    screen.draw_sprite(&sprite, 0, 0);

    assert_eq!(screen.get_pixel(0, 0), true);
    assert_eq!(screen.get_pixel(1, 4), true);
    assert_eq!(screen.get_pixel(2, 7), true);
}

#[test]
fn screen_test_drawing_sprite_to_bottom_right() {
    let mut screen = Screen::new(true, true);

    let sprite = vec![255, 255, 255];
    screen.draw_sprite(&sprite, 29, 56);

    assert_eq!(screen.get_pixel(29, 56), true);
    assert_eq!(screen.get_pixel(30, 60), true);
    assert_eq!(screen.get_pixel(31, 63), true);
}

#[test]
fn screen_test_vertical_wrapping() {
    let mut screen = Screen::new(true, true);

    let sprite = vec![255, 255, 255];
    screen.draw_sprite(&sprite, 31, 0);

    assert_eq!(screen.get_pixel(31, 0), true);
    assert_eq!(screen.get_pixel(0, 3), true);
    assert_eq!(screen.get_pixel(1, 7), true);
}

#[test]
fn screen_test_horizontal_wrapping() {
    let mut screen = Screen::new(true, true);

    let sprite = vec![255, 255, 255];
    screen.draw_sprite(&sprite, 15, 60);

    assert_eq!(screen.get_pixel(15, 60), true);
    assert_eq!(screen.get_pixel(16, 0), true);
    assert_eq!(screen.get_pixel(17, 2), true);
}

#[test]
fn screen_test_no_wrapping_vertically() {
    let mut screen = Screen::new(true, false);

    let sprite = vec![255, 255, 255];
    screen.draw_sprite(&sprite, 31, 60);

    assert_eq!(screen.get_pixel(31, 60), true);
    assert_eq!(screen.get_pixel(31, 0), true);
    assert_eq!(screen.get_pixel(31, 2), true);

    assert_eq!(screen.get_pixel(0, 60), false);
    assert_eq!(screen.get_pixel(0, 0), false);
    assert_eq!(screen.get_pixel(0, 2), false);
}

#[test]
fn screen_test_no_wrapping_horizontally() {
    let mut screen = Screen::new(false, true);

    let sprite = vec![255, 255, 255];
    screen.draw_sprite(&sprite, 31, 60);

    assert_eq!(screen.get_pixel(31, 60), true);
    assert_eq!(screen.get_pixel(31, 0), false);
    assert_eq!(screen.get_pixel(31, 2), false);

    assert_eq!(screen.get_pixel(0, 60), true);
    assert_eq!(screen.get_pixel(0, 0), false);
    assert_eq!(screen.get_pixel(0, 2), false);
}

#[test]
/// The RGBA read is four 0xFF bytes per lit pixel and four 0x00 bytes per
/// dark one, rows before columns.
fn screen_test_rgba_buffer() {
    let mut screen = Screen::new(true, true);
    screen.set_pixel(0, 0, true);
    screen.set_pixel(1, 2, true);

    let buf = screen.get_buffer();
    assert_eq!(buf.len(), 32 * 64 * 4);

    for k in 0..4 {
        assert_eq!(buf[k], 0xFF);
        assert_eq!(buf[4 + k], 0x00);
        assert_eq!(buf[(64 + 2) * 4 + k], 0xFF);
        assert_eq!(buf[(64 + 3) * 4 + k], 0x00);
    }
}

#[test]
/// Drawing the same sprite twice on the screen restores the touched pixels.
fn screen_test_drawing_twice_restores() {
    let mut screen = Screen::new(true, true);
    screen.set_pixel(10, 1, true);

    let sprite = vec![0x81, 0x42];
    screen.draw_sprite(&sprite, 10, 0);
    screen.draw_sprite(&sprite, 10, 0);

    for col in 0..64 {
        assert_eq!(screen.get_pixel(10, col), col == 1);
        assert_eq!(screen.get_pixel(11, col), false);
    }
}
