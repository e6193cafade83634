use oosc::utils::interpolation::{bound_index, get_sample_at_chunk, get_samples_points_ranged, get_samples_ranged};

fn close(a: f32, b: f32, eps: f32) -> bool {
    (a - b).abs() <= eps
}

#[test]
fn test_interpolation_get_ranged() {
    let samples = 10;
    let step = 2.0 * std::f32::consts::PI / samples as f32;
    let data: Vec<f32> = (0..samples).map(|f| (f as f32 * step).sin()).collect();
    let slice = data.as_slice();
    let points = get_samples_points_ranged(slice, slice.len(), 0, 3);
    let mut samples = points.iter();
    assert!(close(samples.next().unwrap().1, (0. * step).sin(), 10e-3));
    assert!(close(samples.next().unwrap().1, (1. * step).sin(), 10e-3));
    assert!(close(samples.next().unwrap().1, (2. * step).sin(), 10e-3));
    assert!(samples.next().is_none());
}

#[test]
fn bound_index_wraps_one_chunk() {
    assert_eq!(bound_index(4, -1), 3);
    assert_eq!(bound_index(4, -4), 0);
    assert_eq!(bound_index(4, 0), 0);
    assert_eq!(bound_index(4, 3), 3);
    assert_eq!(bound_index(4, 4), 0);
    assert_eq!(bound_index(4, 7), 3);
}

#[test]
fn ranges_wrap_around_the_chunk() {
    let chunk = [10, 20, 30, 40];
    assert_eq!(get_samples_ranged(&chunk, 4, -1, 3), vec![40, 10, 20]);
    assert_eq!(get_samples_ranged(&chunk, 4, 3, 2), vec![40, 10]);
    assert_eq!(get_samples_ranged(&chunk, 4, 2, 0), Vec::<i32>::new());
    assert_eq!(get_samples_points_ranged(&chunk, 4, 3, 2), vec![(3, 40), (0, 10)]);
}

#[test]
fn sample_at_chunk_reports_the_index() {
    let chunk = [1.5f32, 2.5];
    assert_eq!(get_sample_at_chunk(&chunk, 1).unwrap(), 2.5);
    assert_eq!(
        get_sample_at_chunk(&chunk, 2).err().unwrap().message(),
        "Index out of bounds of wavetable chunk. Found 2, expected < 2"
    );
}
