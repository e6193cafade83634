use oosc::error::Error;
use oosc::utils::sample_buffer::{SampleBuffer, SampleBufferBuilder, SampleBufferMono};

fn stereo(samples: usize) -> SampleBuffer<f32> {
    SampleBufferBuilder::new()
        .set_channels(2)
        .set_samples(samples)
        .build()
        .unwrap()
}

#[test]
fn test_buffer_at() {
    let buffer = SampleBufferMono::from_array(&[0.1f32, 0.2, 0.95, -0.93, -0.934]);
    if let Ok(v) = buffer.at(1) {
        assert_eq!(v, 0.2)
    };
    if buffer.at(100).is_ok() {
        panic!("Index should be out of range")
    };
}

#[test]
fn test_buffer_set() {
    let mut buffer = SampleBufferMono::from_array(&[0.1f32, 0.2, 0.95, -0.93, -0.934]);
    buffer.set_at(0, 1.0).unwrap();
    assert_eq!(buffer.at(0).unwrap(), 1.0);
    let mut buffer = stereo(16);
    let set = buffer.set_at(2, 0, 0.);
    assert!(set.is_err());
    let set = buffer.set_at(0, 0, 0.);
    assert!(set.is_ok());
}

#[test]
fn test_buffer_add() {
    let mut buffer = stereo(16);
    buffer.add_at(0, 0, 2.).unwrap();
    assert_eq!(buffer.at(0, 0).unwrap(), 2.);
}

#[test]
fn test_buffer_combine() {
    let mut buffer = stereo(16);
    buffer.fill(1.0);
    let mut buffer2 = stereo(16);
    buffer2.fill(3.0);
    buffer.combine(&buffer2).unwrap();
    assert_eq!(buffer.at(0, 8).unwrap(), 4.);
}

#[test]
fn built_buffer_is_silent_and_shaped() {
    let buffer = stereo(4);
    assert_eq!(buffer.channels(), 2);
    assert_eq!(buffer.len(), 4);
    assert!(!buffer.is_empty());
    for c in 0..2 {
        for i in 0..4 {
            assert_eq!(buffer.at(c, i).unwrap(), 0.0);
        }
    }
    assert!(buffer.at(0, 4).is_err());
}

#[test]
fn builder_names_the_missing_part() {
    let built: Result<SampleBuffer<f32>, Error> = SampleBufferBuilder::new().set_samples(4).build();
    assert!(matches!(built, Err(Error::Specify("channels count"))));
    let built: Result<SampleBuffer<f32>, Error> = SampleBufferBuilder::new().set_channels(1).build();
    assert!(matches!(built, Err(Error::Specify("samples count"))));
    let built: Result<SampleBuffer<f32>, Error> = SampleBufferBuilder::new().build();
    assert_eq!(built.err().unwrap().message(), "Need to specify channels count first");
}

#[test]
fn set_then_at_reads_back_only_that_sample() {
    let mut buffer = stereo(3);
    buffer.set_at(1, 2, 0.5).unwrap();
    assert_eq!(buffer.at(1, 2).unwrap(), 0.5);
    assert_eq!(buffer.at(0, 2).unwrap(), 0.0);
    assert_eq!(buffer.at(1, 1).unwrap(), 0.0);
}

#[test]
fn out_of_range_errors_carry_their_messages() {
    let mut buffer = stereo(3);
    match buffer.at(2, 0) {
        Err(e) => assert_eq!(e.message(), "Channel index out of buffer size"),
        Ok(_) => panic!("channel 2 of 2"),
    }
    match buffer.at(0, 3) {
        Err(e) => assert_eq!(e.message(), "Index of sample out of buffer"),
        Ok(_) => panic!("sample 3 of 3"),
    }
    match buffer.set_at(0, 3, 1.0) {
        Err(e) => assert_eq!(e.message(), "Cannot get mutable sample by index"),
        Ok(_) => panic!("sample 3 of 3"),
    }
    match buffer.add_at(5, 0, 1.0) {
        Err(e) => assert_eq!(e.message(), "Channel index out of buffer size"),
        Ok(_) => panic!("channel 5 of 2"),
    }
}

#[test]
fn combine_refuses_different_lengths() {
    let mut buffer = stereo(3);
    let other = stereo(4);
    match buffer.combine(&other) {
        Err(e) => assert_eq!(e.message(), "Buffers has different length"),
        Ok(_) => panic!("lengths differ"),
    }
}

#[test]
fn from_vec_and_from_array_make_one_channel() {
    let buffer = SampleBufferBuilder::from_vec(vec![1.0f32, 2.0]);
    assert_eq!(buffer.channels(), 1);
    assert_eq!(buffer.len(), 2);
    assert_eq!(buffer.at(0, 1).unwrap(), 2.0);
    let buffer = SampleBufferBuilder::from_array(&[7i32, 8, 9]);
    assert_eq!(buffer.len(), 3);
    let read: Vec<i32> = buffer.iter(0).unwrap().copied().collect();
    assert_eq!(read, vec![7, 8, 9]);
    assert!(buffer.iter(1).is_err());
}

#[test]
fn mono_fill_counts_and_sets() {
    let mut mono = SampleBufferMono::<f32>::new(5);
    assert_eq!(mono.fill(0.25), 5);
    assert_eq!(mono.get_slice(), &[0.25f32; 5]);
    *mono.get_mut(4).unwrap() = 1.0;
    assert_eq!(mono.at(4).unwrap(), 1.0);
    assert!(mono.get_mut(5).is_err());
    mono.get_slice_mut()[0] = 2.0;
    assert_eq!(mono.at(0).unwrap(), 2.0);
    assert_eq!(mono.len(), 5);
    assert!(!mono.is_empty());
}

#[test]
fn mono_iter_reads_in_order() {
    let buffer = SampleBufferMono::from_array(&[3i32, 1, 2]);
    let read: Vec<i32> = buffer.iter().copied().collect();
    assert_eq!(read, vec![3, 1, 2]);
    let empty = SampleBufferMono::<i32>::from_vec(vec![]);
    assert_eq!(empty.iter().count(), 0);
}
