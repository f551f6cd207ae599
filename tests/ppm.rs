use raytracer::scene::encode_image;
use raytracer::utils::ppm::PPM;
use raytracer::utils::text::push_decimal;

#[test]
fn create_ppm_image() {
    let mut file = PPM::from(String::from("test.ppm"), 256, 256);

    for x in 0..=255 {
        for y in 0..=255 {
            file.push(x, y, 0);
        }
    }
    let text = file.contents();
    assert!(text.starts_with("P3\n256\n256\n255\n"));
    assert_eq!(text.lines().count(), 4 + 256 * 256);
    assert!(text.contains("\n0 0 0\n"));
    assert!(text.ends_with("\n255 255 0\n"));
    assert_eq!(file.name(), "test.ppm");
    assert_eq!(file.width(), 256);
    assert_eq!(file.height(), 256);
}

#[test]
fn two_by_two_image() {
    let mut file = PPM::from(String::from("small.ppm"), 2, 2);
    file.push(255, 0, 0);
    file.push(0, 255, 0);
    file.push(0, 0, 255);
    file.push(255, 255, 255);
    assert_eq!(
        file.contents(),
        "P3\n2\n2\n255\n255 0 0\n0 255 0\n0 0 255\n255 255 255\n"
    );
}

#[test]
fn header_only() {
    let file = PPM::from(String::from("empty"), 1920, 1080);
    assert_eq!(file.contents(), "P3\n1920\n1080\n255\n");
}

#[test]
fn header_of_zero_size() {
    let file = PPM::from(String::new(), 0, 0);
    assert_eq!(file.contents(), "P3\n0\n0\n255\n");
}

#[test]
fn decimal_notation() {
    let mut s = String::from("x");
    push_decimal(&mut s, 0);
    push_decimal(&mut s, 7);
    push_decimal(&mut s, 10);
    push_decimal(&mut s, 4294967295);
    assert_eq!(s, "x0710" .to_string() + "4294967295");
}

#[test]
fn encode_rows_in_order() {
    let rows = vec![
        vec![(1u8, 2u8, 3u8), (4, 5, 6)],
        vec![(7, 8, 9), (10, 11, 12)],
    ];
    let file = encode_image(&String::from("scene"), 2, 2, &rows);
    assert_eq!(file.name(), "scene.ppm");
    assert_eq!(
        file.contents(),
        "P3\n2\n2\n255\n1 2 3\n4 5 6\n7 8 9\n10 11 12\n"
    );
}

#[test]
fn push_rows_appends() {
    let mut file = PPM::from(String::from("a"), 1, 2);
    file.push(9, 9, 9);
    file.push_rows(&vec![vec![], vec![(0, 1, 2)]]);
    assert_eq!(file.contents(), "P3\n1\n2\n255\n9 9 9\n0 1 2\n");
}
