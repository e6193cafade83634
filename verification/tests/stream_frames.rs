use oosc::callbacks::stream_callback::write_stereo_frames;
use oosc::error::Error;
use oosc::utils::sample_buffer::{SampleBuffer, SampleBufferBuilder};

fn buffer(channels: u32, samples: usize) -> SampleBuffer<i32> {
    let mut b: SampleBuffer<i32> = SampleBufferBuilder::new()
        .set_channels(channels)
        .set_samples(samples)
        .build()
        .unwrap();
    for c in 0..channels {
        for i in 0..samples {
            b.set_at(c, i, (c as i32 * 10 + 1) * (i as i32 + 1)).unwrap();
        }
    }
    b
}

fn message(e: Error) -> String {
    e.message()
}

#[test]
fn test_stereo_frames_interleaved() {
    let b = buffer(2, 3);
    let mut data = [0i32; 6];
    assert!(write_stereo_frames(&b, &mut data).is_ok());
    assert_eq!(data, [1, 11, 2, 22, 3, 33]);
}

#[test]
fn test_stereo_frames_odd_tail_kept() {
    let b = buffer(2, 3);
    let mut data = [-1i32; 7];
    assert!(write_stereo_frames(&b, &mut data).is_ok());
    assert_eq!(data, [1, 11, 2, 22, 3, 33, -1]);
}

#[test]
fn test_stereo_frames_short_buffer() {
    let b = buffer(2, 3);
    let mut data = [-1i32; 8];
    let r = write_stereo_frames(&b, &mut data);
    assert_eq!(message(r.unwrap_err()), "Cannot get next sample");
    assert_eq!(data, [1, 11, 2, 22, 3, 33, -1, -1]);
}

#[test]
fn test_stereo_frames_mono_buffer() {
    let b = buffer(1, 3);
    let mut data = [-1i32; 4];
    let r = write_stereo_frames(&b, &mut data);
    assert_eq!(message(r.unwrap_err()), "Channel index out of buffer size");
    assert_eq!(data, [-1; 4]);
}

#[test]
fn test_stereo_frames_extra_channels_ignored() {
    let b = buffer(3, 2);
    let mut data = [0i32; 4];
    assert!(write_stereo_frames(&b, &mut data).is_ok());
    assert_eq!(data, [1, 11, 2, 22]);
}
