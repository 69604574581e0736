use myosa::oled::{oLed, OLED_I2C_ADDRESS, WHITE};

#[test]
fn oled_new_i2c_is_blank() {
    let d = oLed::new_i2c(128, 64, -1);
    assert_eq!(d.buffer.len(), 1024);
    assert!(d.buffer.iter().all(|b| *b == 0));
    assert_eq!(d.i2c_addr, OLED_I2C_ADDRESS);
    assert_eq!(d.rst_pin, -1);
    assert_eq!((d.cursor_x, d.cursor_y), (0, 0));
    assert_eq!((d.text_color, d.text_bg), (WHITE, 0));
    assert_eq!((d.text_size_x, d.text_size_y, d.rotation), (1, 1, 0));
    assert_eq!(d.edges, vec![(0u8, 0u8); 12]);
}

#[test]
fn oled_spi_constructors_have_no_address() {
    let a = oLed::new_soft_spi(128, 32, 1, 2, 3, 4, 5);
    assert_eq!(a.i2c_addr, 0);
    assert_eq!(a.rst_pin, 4);
    assert_eq!(a.buffer.len(), 512);
    let b = oLed::new_hw_spi(96, 16, 7, 8, 9);
    assert_eq!(b.i2c_addr, 0);
    assert_eq!(b.rst_pin, 8);
    assert_eq!(b.buffer.len(), 192);
}

#[test]
fn oled_begin_sets_edges_and_welcome_state() {
    let mut d = oLed::new_i2c(128, 64, -1);
    d.buffer[5] = 0xFF;
    assert!(d.begin());
    assert_eq!(
        d.edges,
        vec![(0, 1), (1, 2), (2, 3), (3, 0), (5, 4), (4, 7), (7, 6), (6, 5), (0, 4), (1, 5), (2, 6), (3, 7)]
    );
    assert!(d.buffer.iter().all(|b| *b == 0));
    assert_eq!((d.cursor_x, d.cursor_y), (98, 48));
    assert_eq!((d.text_size_x, d.text_size_y), (1, 1));
    assert_eq!((d.text_color, d.text_bg), (WHITE, WHITE));
    assert_eq!(d.rotation, 0);
}

#[test]
fn oled_text_state_setters() {
    let mut d = oLed::new_i2c(128, 64, -1);
    d.setTextSize(0);
    assert_eq!((d.text_size_x, d.text_size_y), (1, 1));
    d.setTextSize(4);
    assert_eq!((d.text_size_x, d.text_size_y), (4, 4));
    d.setRotation(7);
    assert_eq!(d.rotation, 3);
    d.setTextColor(0);
    assert_eq!((d.text_color, d.text_bg), (0, 0));
    d.setTextColor_bg(1, 0);
    assert_eq!((d.text_color, d.text_bg), (1, 0));
    d.setCursor(-3, 70);
    assert_eq!((d.cursor_x, d.cursor_y), (-3, 70));
}

#[test]
fn oled_clear_and_forwarded_drawing() {
    let mut d = oLed::new_i2c(16, 8, -1);
    d.buffer[0] = 1;
    d.buffer[15] = 0x80;
    d.drawLine(0, 0, 10, 10, 1);
    d.fillRect(0, 0, 4, 4, 1);
    d.print("hi");
    d.display();
    assert_eq!(d.buffer[0], 1);
    assert_eq!(d.buffer[15], 0x80);
    let mut bmp = [1u8, 2, 3];
    d.drawBitmap_mut(0, 0, &mut bmp, 8, 3, 1);
    assert_eq!(bmp, [1, 2, 3]);
    d.clearDisplay();
    assert_eq!(d.buffer, vec![0u8; 16]);
}
