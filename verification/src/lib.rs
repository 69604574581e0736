#![allow(non_camel_case_types, non_snake_case)]
pub mod actuator;
pub mod gfx;
pub mod ssd1306;
pub mod wire;
pub mod bits;
pub mod apds9960;
pub mod bmp180;
pub mod si7021;
pub mod mpu6050_min;
pub mod si7021_min;
pub mod vibration;
pub mod ftserial;
pub mod airquality;
pub mod accelgyro;
pub mod assi;
pub mod ads;
pub mod myosa;
pub mod steering;
pub mod oled;
pub mod fontconvert;
