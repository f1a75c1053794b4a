use espcam::command::DeviceCommand;
use espcam::espcam::{Camera, CameraConfig, FrameBuffer, PixelFormat, RawFrame, Timestamp};
use espcam::link::{ChunkedSend, MAX_CHUNK_LEN};
use espcam::stream::{
    build_upload, frame_upload, mode_command, picture_upload, FrameError, StopReason,
    StreamAction, StreamEvent, StreamOrchestrator, StreamPhase, DISPLAY_HEIGHT, DISPLAY_WIDTH,
    STALE_FRAMES, STREAMING_MODE,
};
use espcam::transcode::{encode_png, framebuffer_to_img, resize, RasterImage, TranscodeError};

fn camera() -> Camera {
    let config = CameraConfig::new(
        32, 0, 5, 18, 19, 21, 36, 39, 34, 35, 25, 23, 22, 26, 27, PixelFormat::Rgb565, 4,
    );
    Camera::new(config, Ok(())).unwrap()
}

fn solid_rgb565(width: usize, height: usize, packed: u16) -> RawFrame {
    let mut data = Vec::new();
    for _ in 0..width * height {
        data.push((packed >> 8) as u8);
        data.push((packed & 0xff) as u8);
    }
    RawFrame {
        width,
        height,
        format: PixelFormat::Rgb565,
        data,
        timestamp: Timestamp { sec: 0, usec: 0 },
    }
}

fn frame(camera: &mut Camera, raw: RawFrame) -> FrameBuffer {
    camera.get_framebuffer(Some(raw)).unwrap()
}

/// A loop that has its session and has selected the display mode.
fn running(stale_frames: usize) -> StreamOrchestrator {
    let mut stream = StreamOrchestrator::new(stale_frames);
    assert_eq!(stream.on_event(StreamEvent::SessionOpened), StreamAction::SendModeCommand);
    assert_eq!(stream.on_event(StreamEvent::ModeSelected), StreamAction::AcquireFrame);
    stream
}

#[test]
fn display_settings() {
    assert_eq!(DISPLAY_WIDTH, 32);
    assert_eq!(DISPLAY_HEIGHT, 32);
    assert_eq!(STREAMING_MODE, 1);
    assert_eq!(STALE_FRAMES, 1);
}

#[test]
fn mode_command_selects_streaming() {
    assert!(matches!(mode_command(), DeviceCommand::ImageMode(1)));
    assert_eq!(mode_command().to_bytes(), Ok(vec![5, 0, 4, 1, 1]));
}

#[test]
fn frame_upload_wraps_the_picture() {
    assert_eq!(
        frame_upload(vec![1, 2, 3, 4]),
        Ok(vec![5, 0, 0, 0, 0, 4, 0, 0, 0, 1, 2, 3, 4])
    );
}

#[test]
fn picture_upload_carries_the_png() {
    let picture = RasterImage::from_raw(2, 2, vec![9; 12]).unwrap();
    let bytes = picture_upload(&picture).unwrap();
    let png_len = bytes.len() - 9;
    assert_eq!(&bytes[..2], &((png_len + 1) as u16).to_le_bytes()[..]);
    assert_eq!(&bytes[2..5], &[0u8, 0, 0][..]);
    assert_eq!(&bytes[5..9], &(png_len as u32).to_le_bytes()[..]);
    let decoded = image::load_from_memory(&bytes[9..]).unwrap().to_rgb8();
    assert_eq!(decoded.into_raw(), vec![9; 12]);
}

#[test]
fn picture_upload_reports_a_refused_picture() {
    let picture = RasterImage::from_raw(0, 0, Vec::new()).unwrap();
    assert_eq!(
        picture_upload(&picture),
        Err(FrameError::Transcode(TranscodeError::EncoderRejected))
    );
}

#[test]
fn solid_frame_reaches_the_display_in_ordered_chunks() {
    let mut camera = camera();
    let fb = frame(&mut camera, solid_rgb565(240, 240, 0xF800));
    let bytes = build_upload(&fb, DISPLAY_WIDTH, DISPLAY_HEIGHT).unwrap();
    assert!(fb.fb_return(&mut camera));

    // one header that announces the length of the PNG, then the PNG
    let png = &bytes[9..];
    assert!(!png.is_empty() && png.len() <= 65535);
    assert_eq!(&bytes[..2], &((png.len() + 1) as u16).to_le_bytes()[..]);
    assert_eq!(&bytes[2..5], &[0u8, 0, 0][..]);
    assert_eq!(&bytes[5..9], &(png.len() as u32).to_le_bytes()[..]);

    // the PNG is a 32 by 32 picture of the colour of the frame
    let picture = image::load_from_memory(png).unwrap().to_rgb8();
    assert_eq!((picture.width(), picture.height()), (32, 32));
    for pixel in picture.pixels() {
        assert!(pixel.0[0] >= 253);
        assert!(pixel.0[1] <= 2);
        assert!(pixel.0[2] <= 2);
    }

    // it is written in chunks of 512 bytes, in order
    let mut send = ChunkedSend::new(bytes.len(), MAX_CHUNK_LEN).unwrap();
    let mut written = Vec::new();
    let mut chunks = 0;
    while let Some((start, end)) = send.next_chunk() {
        assert_eq!(start, written.len());
        written.extend_from_slice(&bytes[start..end]);
        chunks += 1;
        send.record(true);
    }
    assert_eq!(chunks, (bytes.len() + 511) / 512);
    assert_eq!(written, bytes);
    assert_eq!(send.outcome(), Some(Ok(())));
}

#[test]
fn picture_does_not_change_when_its_frame_is_returned() {
    let mut camera = camera();
    let fb = frame(&mut camera, solid_rgb565(48, 48, 0x07E0));
    let picture = framebuffer_to_img(&fb).unwrap();
    let scaled = resize(&picture, 32, 32).unwrap();
    let while_held = encode_png(&scaled).unwrap();
    assert!(fb.fb_return(&mut camera));
    let later = frame(&mut camera, solid_rgb565(48, 48, 0x001F));
    assert_eq!(encode_png(&scaled).unwrap(), while_held);
    assert_eq!(encode_png(&resize(&picture, 32, 32).unwrap()).unwrap(), while_held);
    assert!(later.fb_return(&mut camera));
    assert_eq!(encode_png(&scaled).unwrap(), while_held);
}

#[test]
fn grayscale_frame_is_shown_in_gray() {
    let mut camera = camera();
    let raw = RawFrame {
        width: 64,
        height: 48,
        format: PixelFormat::Grayscale,
        data: vec![100; 64 * 48],
        timestamp: Timestamp { sec: 1, usec: 2 },
    };
    let fb = frame(&mut camera, raw);
    let bytes = build_upload(&fb, 32, 32).unwrap();
    let picture = image::load_from_memory(&bytes[9..]).unwrap().to_rgb8();
    for pixel in picture.pixels() {
        for channel in pixel.0 {
            assert!((channel as i32 - 100).abs() <= 2);
        }
    }
}

#[test]
fn frame_of_display_size_is_shown_as_it_is() {
    let mut camera = camera();
    let mut raw = solid_rgb565(32, 32, 0);
    for i in 0..32 * 32 {
        raw.data[2 * i] = (i % 256) as u8;
        raw.data[2 * i + 1] = (i / 4) as u8;
    }
    let data = raw.data.clone();
    let fb = frame(&mut camera, raw);
    let bytes = build_upload(&fb, 32, 32).unwrap();
    let picture = image::load_from_memory(&bytes[9..]).unwrap().to_rgb8().into_raw();
    for i in 0..32 * 32 {
        let packed = (data[2 * i] as u32) << 8 | data[2 * i + 1] as u32;
        let want = [
            ((packed >> 11) * 255 / 31) as u8,
            (((packed >> 5) & 63) * 255 / 63) as u8,
            ((packed & 31) * 255 / 31) as u8,
        ];
        assert_eq!(&picture[3 * i..3 * i + 3], &want[..]);
    }
}

#[test]
fn frame_that_cannot_be_unpacked_gives_nothing_to_send() {
    let mut camera = camera();
    let mut raw = solid_rgb565(4, 4, 0);
    raw.format = PixelFormat::Jpeg;
    let fb = frame(&mut camera, raw);
    assert_eq!(
        build_upload(&fb, 32, 32),
        Err(FrameError::Transcode(TranscodeError::UnsupportedFormat))
    );
    let mut raw = solid_rgb565(4, 4, 0);
    raw.data.truncate(31);
    let fb = frame(&mut camera, raw);
    assert_eq!(
        build_upload(&fb, 32, 32),
        Err(FrameError::Transcode(TranscodeError::TruncatedFrame))
    );
}

#[test]
fn frame_without_pixels_gives_nothing_to_send() {
    let mut camera = camera();
    let fb = frame(&mut camera, solid_rgb565(0, 0, 0));
    assert_eq!(
        build_upload(&fb, 32, 32),
        Err(FrameError::Transcode(TranscodeError::InvalidDimensions))
    );
    let fb = frame(&mut camera, solid_rgb565(4, 4, 0));
    assert_eq!(
        build_upload(&fb, 0, 32),
        Err(FrameError::Transcode(TranscodeError::InvalidDimensions))
    );
}

#[test]
fn loop_begins_by_waiting_for_its_session() {
    let stream = StreamOrchestrator::new(STALE_FRAMES);
    assert_eq!(stream.phase(), StreamPhase::Connecting);
    assert!(!stream.cancel_requested());
}

#[test]
fn loop_ends_without_a_session() {
    let mut stream = StreamOrchestrator::new(1);
    assert_eq!(stream.on_event(StreamEvent::SessionFailed), StreamAction::Stop);
    assert_eq!(stream.phase(), StreamPhase::Stopped(StopReason::ConnectFailed));
    assert_eq!(stream.on_event(StreamEvent::SessionOpened), StreamAction::Wait);
    assert_eq!(stream.phase(), StreamPhase::Stopped(StopReason::ConnectFailed));
}

#[test]
fn loop_ends_when_the_mode_command_fails() {
    let mut stream = StreamOrchestrator::new(1);
    assert_eq!(stream.on_event(StreamEvent::SessionOpened), StreamAction::SendModeCommand);
    assert_eq!(stream.phase(), StreamPhase::SelectingMode);
    assert_eq!(stream.on_event(StreamEvent::ModeFailed), StreamAction::Stop);
    assert_eq!(stream.phase(), StreamPhase::Stopped(StopReason::ModeRejected));
}

#[test]
fn first_frame_after_the_mode_command_is_discarded() {
    let mut camera = camera();
    let mut source = vec![solid_rgb565(8, 8, 0x001F), solid_rgb565(8, 8, 0xF800)];
    let mut stream = StreamOrchestrator::new(STALE_FRAMES);
    assert_eq!(stream.on_event(StreamEvent::SessionOpened), StreamAction::SendModeCommand);
    let mut action = stream.on_event(StreamEvent::ModeSelected);
    let mut discarded = Vec::new();
    let mut processed = Vec::new();
    let mut held: Option<FrameBuffer> = None;
    loop {
        match action {
            StreamAction::AcquireFrame => {
                held = Some(frame(&mut camera, source.remove(0)));
                action = stream.on_event(StreamEvent::FrameAcquired);
            }
            StreamAction::DiscardFrame => {
                let fb = held.take().unwrap();
                discarded.push(fb.data()[0]);
                assert!(fb.fb_return(&mut camera));
                held = Some(frame(&mut camera, source.remove(0)));
                action = stream.on_event(StreamEvent::FrameAcquired);
            }
            StreamAction::ProcessFrame => {
                let fb = held.take().unwrap();
                processed.push(fb.data()[0]);
                let bytes = build_upload(&fb, 32, 32).unwrap();
                assert!(fb.fb_return(&mut camera));
                let picture = image::load_from_memory(&bytes[9..]).unwrap().to_rgb8();
                assert!(picture.get_pixel(16, 16).0[0] >= 253);
                assert!(picture.get_pixel(16, 16).0[2] <= 2);
                break;
            }
            other => panic!("unexpected action {:?}", other),
        }
    }
    assert_eq!(discarded, vec![0x00]);
    assert_eq!(processed, vec![0xF8]);
    assert!(source.is_empty());
    assert_eq!(camera.outstanding(), 0);
    assert_eq!(camera.issued(), 2);
    assert_eq!(stream.phase(), StreamPhase::Transcoding);
}

#[test]
fn number_of_discarded_frames_is_a_setting() {
    let mut stream = running(3);
    assert_eq!(stream.phase(), StreamPhase::Acquiring { stale_left: 3 });
    assert_eq!(stream.on_event(StreamEvent::FrameAcquired), StreamAction::DiscardFrame);
    assert_eq!(stream.on_event(StreamEvent::FrameAcquired), StreamAction::DiscardFrame);
    assert_eq!(stream.on_event(StreamEvent::FrameAcquired), StreamAction::DiscardFrame);
    assert_eq!(stream.on_event(StreamEvent::FrameAcquired), StreamAction::ProcessFrame);

    let mut stream = running(0);
    assert_eq!(stream.on_event(StreamEvent::FrameAcquired), StreamAction::ProcessFrame);
}

#[test]
fn missing_stale_frame_is_skipped() {
    let mut stream = running(1);
    assert_eq!(stream.on_event(StreamEvent::NoFrame), StreamAction::AcquireFrame);
    assert_eq!(stream.phase(), StreamPhase::Acquiring { stale_left: 0 });
    assert_eq!(stream.on_event(StreamEvent::FrameAcquired), StreamAction::ProcessFrame);
}

#[test]
fn missing_frame_skips_the_iteration() {
    let mut stream = running(1);
    assert_eq!(stream.on_event(StreamEvent::FrameAcquired), StreamAction::DiscardFrame);
    assert_eq!(stream.on_event(StreamEvent::NoFrame), StreamAction::AcquireFrame);
    assert_eq!(stream.phase(), StreamPhase::Acquiring { stale_left: 1 });
}

#[test]
fn loop_goes_on_after_a_frame() {
    let mut stream = running(1);
    stream.on_event(StreamEvent::FrameAcquired);
    assert_eq!(stream.on_event(StreamEvent::FrameAcquired), StreamAction::ProcessFrame);
    assert_eq!(stream.on_event(StreamEvent::PayloadReady), StreamAction::SendPayload);
    assert_eq!(stream.phase(), StreamPhase::Sending);
    assert_eq!(stream.on_event(StreamEvent::PayloadSent), StreamAction::AcquireFrame);
    assert_eq!(stream.phase(), StreamPhase::Acquiring { stale_left: 1 });
}

#[test]
fn loop_goes_on_after_a_rejected_frame() {
    let mut stream = running(0);
    assert_eq!(stream.on_event(StreamEvent::FrameAcquired), StreamAction::ProcessFrame);
    assert_eq!(stream.on_event(StreamEvent::FrameRejected), StreamAction::AcquireFrame);
    assert_eq!(stream.phase(), StreamPhase::Acquiring { stale_left: 0 });
}

#[test]
fn loop_goes_on_after_a_failed_payload() {
    let mut stream = running(0);
    stream.on_event(StreamEvent::FrameAcquired);
    stream.on_event(StreamEvent::PayloadReady);
    assert_eq!(stream.on_event(StreamEvent::PayloadFailed), StreamAction::AcquireFrame);
    assert_eq!(stream.phase(), StreamPhase::Acquiring { stale_left: 0 });
}

#[test]
fn cancellation_waits_for_the_payload_under_way() {
    let mut stream = running(0);
    stream.on_event(StreamEvent::FrameAcquired);
    assert_eq!(stream.on_event(StreamEvent::PayloadReady), StreamAction::SendPayload);
    assert_eq!(stream.on_event(StreamEvent::CancelRequested), StreamAction::Wait);
    assert!(stream.cancel_requested());
    assert_eq!(stream.phase(), StreamPhase::Sending);
    assert_eq!(stream.on_event(StreamEvent::PayloadSent), StreamAction::Stop);
    assert_eq!(stream.phase(), StreamPhase::Stopped(StopReason::Cancelled));
}

#[test]
fn cancellation_before_the_first_frame() {
    let mut stream = StreamOrchestrator::new(1);
    assert_eq!(stream.on_event(StreamEvent::CancelRequested), StreamAction::Wait);
    assert_eq!(stream.on_event(StreamEvent::SessionOpened), StreamAction::SendModeCommand);
    assert_eq!(stream.on_event(StreamEvent::ModeSelected), StreamAction::Stop);
    assert_eq!(stream.phase(), StreamPhase::Stopped(StopReason::Cancelled));
}

#[test]
fn cancellation_while_a_frame_is_awaited() {
    let mut stream = running(1);
    stream.on_event(StreamEvent::CancelRequested);
    assert_eq!(stream.on_event(StreamEvent::FrameAcquired), StreamAction::DiscardFrame);
    assert_eq!(stream.on_event(StreamEvent::FrameAcquired), StreamAction::ProcessFrame);
    assert_eq!(stream.on_event(StreamEvent::FrameRejected), StreamAction::Stop);
    assert_eq!(stream.phase(), StreamPhase::Stopped(StopReason::Cancelled));
}

#[test]
fn stopped_loop_stays_stopped() {
    let mut stream = StreamOrchestrator::new(1);
    stream.on_event(StreamEvent::SessionFailed);
    for event in [
        StreamEvent::SessionOpened,
        StreamEvent::ModeSelected,
        StreamEvent::FrameAcquired,
        StreamEvent::PayloadSent,
        StreamEvent::CancelRequested,
    ] {
        assert_eq!(stream.on_event(event), StreamAction::Wait);
        assert_eq!(stream.phase(), StreamPhase::Stopped(StopReason::ConnectFailed));
    }
    assert!(!stream.cancel_requested());
}

#[test]
fn events_out_of_place_change_nothing() {
    let mut stream = StreamOrchestrator::new(1);
    assert_eq!(stream.on_event(StreamEvent::FrameAcquired), StreamAction::Wait);
    assert_eq!(stream.on_event(StreamEvent::PayloadSent), StreamAction::Wait);
    assert_eq!(stream.phase(), StreamPhase::Connecting);
    let mut stream = running(1);
    assert_eq!(stream.on_event(StreamEvent::SessionOpened), StreamAction::Wait);
    assert_eq!(stream.on_event(StreamEvent::PayloadReady), StreamAction::Wait);
    assert_eq!(stream.phase(), StreamPhase::Acquiring { stale_left: 1 });
}
