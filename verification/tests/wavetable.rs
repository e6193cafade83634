use oosc::error::Error;
use oosc::synth::wavetable::{WaveTable, WaveTableBuilder};
use oosc::utils::sample_buffer::SampleBufferMono;

#[derive(Clone, Copy, Debug, PartialEq)]
enum Method {
    Floor,
    Linear,
}

impl Default for Method {
    fn default() -> Self {
        Method::Floor
    }
}

#[test]
fn test_wavetable_array() {
    let samples = [0.1f32, -0.2, 0.6, 0.96, 0.3, 0.55];
    let _ = WaveTableBuilder::<f32, Method>::new()
        .from_array(&samples, 2)
        .build()
        .unwrap();
    let _ = WaveTableBuilder::<f32, Method>::new()
        .from_array(&samples, 3)
        .build()
        .unwrap();
    let table = WaveTableBuilder::<f32, Method>::new().from_array(&samples, 4).build();
    assert!(table.is_err());
}

#[test]
fn test_wavetable_builder() {
    let samples = [0.1f32, -0.2, 0.6, 0.96, 0.3, 0.55];
    WaveTableBuilder::<f32, Method>::new()
        .set_buffer(SampleBufferMono::from_array(&samples))
        .set_chunk_size(2)
        .set_position(0)
        .build()
        .unwrap();
}

fn three_chunks() -> WaveTable<f32, Method> {
    let samples = [0.1f32, -0.2, 0.6, 0.96, 0.3, 0.55];
    WaveTableBuilder::new()
        .from_array(&samples, 2)
        .set_interpolation(Method::Linear)
        .build()
        .unwrap()
}

#[test]
fn positions_select_chunks() {
    let mut table = three_chunks();
    assert_eq!(table.chunks(), 3);
    assert_eq!(table.len(), 6);
    assert_eq!(table.chunk_len(), 2);
    assert_eq!(table.interpolation(), Method::Linear);
    assert_eq!(table.position_range(), (0, 2));
    table.set_position(0).unwrap();
    assert_eq!(table.get_slice().unwrap(), &[0.1f32, -0.2]);
    table.set_position(1).unwrap();
    assert_eq!(table.get_slice().unwrap(), &[0.6f32, 0.96]);
    assert_eq!(table.position(), 1);
    match table.set_position(3) {
        Err(e) => assert_eq!(e.message(), "Position should be less than chunks count"),
        Ok(_) => panic!("only three chunks"),
    }
    assert_eq!(table.position(), 1);
}

#[test]
fn writing_a_chunk_changes_only_that_chunk() {
    let mut table = three_chunks();
    table.set_position(2).unwrap();
    table.get_slice_mut().unwrap()[1] = 9.0;
    table.set_position(1).unwrap();
    assert_eq!(table.get_slice().unwrap(), &[0.6f32, 0.96]);
    table.set_position(2).unwrap();
    assert_eq!(table.get_slice().unwrap(), &[0.3f32, 9.0]);
}

#[test]
fn load_new_resets_position_and_reports_missing_chunks() {
    let mut table = three_chunks();
    table.set_position(2).unwrap();
    table.load_new(vec![1.0, 2.0, 3.0], 2);
    assert_eq!(table.position(), 0);
    assert_eq!(table.chunks(), 1);
    assert_eq!(table.get_slice().unwrap(), &[1.0f32, 2.0]);
    table.load_new(vec![1.0], 2);
    assert!(table.is_empty() == false);
    match table.get_slice() {
        Err(e) => assert_eq!(e.message(), "Cannot get 0 position of wavetable"),
        Ok(_) => panic!("no whole chunk"),
    }
}

#[test]
fn builder_defaults_and_errors() {
    let table: WaveTable<f32, Method> = WaveTableBuilder::new().from_array(&[1.0f32, 2.0], 1).build().unwrap();
    assert_eq!(table.interpolation(), Method::Floor);
    assert_eq!(table.position(), 0);
    let missing: Result<WaveTable<f32, Method>, Error> = WaveTableBuilder::new().set_chunk_size(2).build();
    assert!(matches!(missing, Err(Error::Specify("buffer"))));
    let missing: Result<WaveTable<f32, Method>, Error> = WaveTableBuilder::new()
        .set_buffer(SampleBufferMono::from_vec(vec![1.0f32]))
        .build();
    assert!(matches!(missing, Err(Error::Specify("chunk size"))));
    let uneven: Result<WaveTable<f32, Method>, Error> = WaveTableBuilder::new().from_array(&[1.0f32, 2.0, 3.0], 2).build();
    assert_eq!(uneven.err().unwrap().message(), "Cannot split sample buffer into the same length chunks");
}
