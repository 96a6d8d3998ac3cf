//! Platform-independent logic shared by the device-envoy device abstractions.

mod bits;
pub mod conway;
pub mod duration;
pub mod layout;
pub mod audio_player;
pub mod button;
pub mod capabilities;
pub mod orientation;
pub mod touch;
pub mod tga;
pub mod ir;
pub mod lcd_text;
pub mod char_lcd;
pub mod clock;
pub mod clock_sync;
pub mod led;
pub mod led4;
pub mod led_strip;
pub mod flash_array;
pub mod wifi_auto;
pub mod servo;
pub mod rfid;
pub mod time_sync;
pub mod dns_lookup;
pub mod simulator;
pub mod tiling;
pub mod dns_tester;
pub mod audio_playback;
pub mod calibration_driver;
pub mod led2d;
pub mod web_supervisor;
pub mod hd44780;
pub mod unix_order;
