use espcam::espcam::{
    Camera, CameraConfig, FrameBuffer, FrameBufferLocation, GrabMode, HardwareInitError,
    PixelFormat, RawFrame, Timestamp, FRAME_BUFFER_COUNT, JPEG_QUALITY, PIN_RESET_UNUSED,
    XCLK_FREQ_HZ,
};

fn board_config() -> CameraConfig {
    CameraConfig::new(32, 0, 5, 18, 19, 21, 36, 39, 34, 35, 25, 23, 22, 26, 27, PixelFormat::Rgb565, 4)
}

fn started_camera() -> Camera {
    Camera::new(board_config(), Ok(())).unwrap()
}

fn raw_frame(tag: u8) -> RawFrame {
    RawFrame {
        width: 2,
        height: 1,
        format: PixelFormat::Grayscale,
        data: vec![tag, tag],
        timestamp: Timestamp { sec: 7, usec: tag as i64 },
    }
}

fn acquire(camera: &mut Camera, tag: u8) -> FrameBuffer {
    camera.get_framebuffer(Some(raw_frame(tag))).unwrap()
}

#[test]
fn config_takes_pins_in_wiring_order() {
    let config = board_config();
    assert_eq!(config.pin_pwdn, 32);
    assert_eq!(config.pin_xclk, 0);
    assert_eq!(config.pin_d0, 5);
    assert_eq!(config.pin_d1, 18);
    assert_eq!(config.pin_d2, 19);
    assert_eq!(config.pin_d3, 21);
    assert_eq!(config.pin_d4, 36);
    assert_eq!(config.pin_d5, 39);
    assert_eq!(config.pin_d6, 34);
    assert_eq!(config.pin_d7, 35);
    assert_eq!(config.pin_vsync, 25);
    assert_eq!(config.pin_href, 23);
    assert_eq!(config.pin_pclk, 22);
    assert_eq!(config.pin_sccb_sda, 26);
    assert_eq!(config.pin_sccb_scl, 27);
}

#[test]
fn config_has_fixed_driver_settings() {
    let config = board_config();
    assert_eq!(config.pin_reset, 0xff);
    assert_eq!(config.pin_reset, PIN_RESET_UNUSED);
    assert_eq!(config.xclk_freq_hz, 20_000_000);
    assert_eq!(config.xclk_freq_hz, XCLK_FREQ_HZ);
    assert_eq!(config.ledc_timer, 0);
    assert_eq!(config.ledc_channel, 0);
    assert_eq!(config.jpeg_quality, 12);
    assert_eq!(config.jpeg_quality, JPEG_QUALITY);
    assert_eq!(config.fb_count, 1);
    assert_eq!(config.fb_count, FRAME_BUFFER_COUNT);
    assert_eq!(config.grab_mode, GrabMode::WhenEmpty);
    assert_eq!(config.fb_location, FrameBufferLocation::Psram);
}

#[test]
fn config_carries_format_and_size() {
    let config =
        CameraConfig::new(1, 2, 3, 4, 5, 6, 7, 8, 9, 10, 11, 12, 13, 14, 15, PixelFormat::Jpeg, 13);
    assert_eq!(config.pixel_format, PixelFormat::Jpeg);
    assert_eq!(config.frame_size, 13);
}

#[test]
fn camera_starts_with_empty_ledger() {
    let camera = started_camera();
    assert_eq!(camera.config(), board_config());
    assert_eq!(camera.issued(), 0);
    assert_eq!(camera.outstanding(), 0);
}

#[test]
fn camera_reports_driver_failure() {
    let failed = Camera::new(board_config(), Err(0x105));
    assert!(matches!(failed, Err(HardwareInitError::DriverRejected(0x105))));
    let failed = Camera::new(board_config(), Err(-1));
    assert!(matches!(failed, Err(HardwareInitError::DriverRejected(-1))));
}

#[test]
fn no_frame_from_driver_is_none() {
    let mut camera = started_camera();
    assert!(camera.get_framebuffer(None).is_none());
    assert_eq!(camera.issued(), 0);
    assert_eq!(camera.outstanding(), 0);
}

#[test]
fn frame_reports_what_the_driver_delivered() {
    let mut camera = started_camera();
    let raw = RawFrame {
        width: 3,
        height: 2,
        format: PixelFormat::Rgb565,
        data: vec![1, 2, 3, 4, 5, 6, 7, 8, 9, 10, 11, 12],
        timestamp: Timestamp { sec: 12, usec: 345 },
    };
    let frame = camera.get_framebuffer(Some(raw)).unwrap();
    assert_eq!(frame.width(), 3);
    assert_eq!(frame.height(), 2);
    assert_eq!(frame.format(), PixelFormat::Rgb565);
    assert_eq!(frame.data(), &[1u8, 2, 3, 4, 5, 6, 7, 8, 9, 10, 11, 12][..]);
    assert_eq!(frame.timestamp(), Timestamp { sec: 12, usec: 345 });
    assert_eq!(frame.id(), 0);
    assert!(frame.fb_return(&mut camera));
}

#[test]
fn handles_are_numbered_in_order() {
    let mut camera = started_camera();
    let first = acquire(&mut camera, 1);
    let second = acquire(&mut camera, 2);
    assert_eq!(first.id(), 0);
    assert_eq!(second.id(), 1);
    assert_eq!(camera.issued(), 2);
    assert_eq!(camera.outstanding(), 2);
    assert!(second.fb_return(&mut camera));
    assert!(first.fb_return(&mut camera));
    let third = acquire(&mut camera, 3);
    assert_eq!(third.id(), 2);
    assert!(third.fb_return(&mut camera));
}

#[test]
fn each_handle_is_released_exactly_once() {
    let mut camera = started_camera();
    let mut driver_returns = 0;
    let mut acquired = 0;
    for round in 0..20u8 {
        let a = acquire(&mut camera, round);
        acquired += 1;
        if round % 3 == 0 {
            let b = acquire(&mut camera, round);
            acquired += 1;
            if a.fb_return(&mut camera) {
                driver_returns += 1;
            }
            if b.fb_return(&mut camera) {
                driver_returns += 1;
            }
        } else if a.fb_return(&mut camera) {
            driver_returns += 1;
        }
        assert_eq!(camera.outstanding(), 0);
    }
    assert_eq!(driver_returns, acquired);
    assert_eq!(camera.issued(), acquired as u64);
}

#[test]
fn outstanding_counts_handles_not_yet_returned() {
    let mut camera = started_camera();
    let a = acquire(&mut camera, 1);
    let b = acquire(&mut camera, 2);
    let c = acquire(&mut camera, 3);
    assert_eq!(camera.outstanding(), 3);
    assert!(b.fb_return(&mut camera));
    assert_eq!(camera.outstanding(), 2);
    assert!(a.fb_return(&mut camera));
    assert_eq!(camera.outstanding(), 1);
    assert!(c.fb_return(&mut camera));
    assert_eq!(camera.outstanding(), 0);
    assert_eq!(camera.issued(), 3);
}

#[test]
fn handle_of_another_camera_releases_nothing() {
    let mut here = started_camera();
    let mut there = started_camera();
    let first_there = acquire(&mut there, 1);
    let second_there = acquire(&mut there, 2);
    let first_here = acquire(&mut here, 3);
    assert_eq!(second_there.id(), 1);
    assert!(!second_there.fb_return(&mut here));
    assert_eq!(here.outstanding(), 1);
    assert!(first_here.fb_return(&mut here));
    assert_eq!(here.outstanding(), 0);
    assert!(first_there.fb_return(&mut there));
    assert_eq!(there.outstanding(), 1);
}
