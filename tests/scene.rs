use raytracer::scene::{output_file_name, progress_percent, RowCollector};

#[test]
fn rows_placed_by_index_whatever_the_order() {
    let mut c: RowCollector<u32> = RowCollector::new(3);
    assert_eq!(c.height(), 3);
    assert_eq!(c.collected(), 0);
    assert!(!c.is_complete());
    c.receive(2, vec![20, 21]);
    c.receive(0, vec![0, 1]);
    assert!(c.has_row(0));
    assert!(!c.has_row(1));
    assert!(!c.is_complete());
    c.receive(1, vec![10, 11]);
    assert_eq!(c.collected(), 3);
    assert!(c.is_complete());
    let image = c.into_image();
    assert_eq!(image, vec![vec![20, 21], vec![10, 11], vec![0, 1]]);
}

#[test]
fn same_image_in_another_order() {
    let mut a: RowCollector<u8> = RowCollector::new(2);
    a.receive(0, vec![1]);
    a.receive(1, vec![2]);
    let mut b: RowCollector<u8> = RowCollector::new(2);
    b.receive(1, vec![2]);
    b.receive(0, vec![1]);
    assert_eq!(a.into_image(), b.into_image());
}

#[test]
fn row_received_twice_is_counted_once() {
    let mut c: RowCollector<u8> = RowCollector::new(2);
    c.receive(0, vec![1]);
    c.receive(0, vec![3]);
    assert_eq!(c.collected(), 1);
    c.receive(1, vec![2]);
    assert_eq!(c.into_image(), vec![vec![2], vec![3]]);
}

#[test]
fn empty_image() {
    let c: RowCollector<u8> = RowCollector::new(0);
    assert!(c.is_complete());
    assert!(c.into_image().is_empty());
}

#[test]
fn progress_every_tenth() {
    assert_eq!(progress_percent(40, 400), Some(10));
    assert_eq!(progress_percent(400, 400), Some(100));
    assert_eq!(progress_percent(41, 400), None);
    assert_eq!(progress_percent(19, 19), Some(190));
    assert_eq!(progress_percent(18, 19), Some(180));
    assert_eq!(progress_percent(5, 9), None);
}

#[test]
fn progress_from_collector() {
    let mut c: RowCollector<u8> = RowCollector::new(20);
    assert_eq!(c.receive(5, vec![]), None);
    assert_eq!(c.receive(6, vec![]), Some(10));
}

#[test]
fn file_name_has_extension() {
    assert_eq!(output_file_name(&String::from("scene")), "scene.ppm");
    assert_eq!(output_file_name(&String::new()), ".ppm");
}
