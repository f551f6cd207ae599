use raytracer::materials::mirror::Mirror;
use raytracer::ray::{after, start, Bounce, Source, Step};

#[test]
fn no_depth_is_black() {
    assert_eq!(start(0), Step::Finish(Source::Black));
}

#[test]
fn depth_starts_tracing() {
    assert_eq!(start(5), Step::Trace(5));
}

#[test]
fn outcomes_of_a_bounce() {
    assert_eq!(after(3, Bounce::Miss), Step::Finish(Source::Background));
    assert_eq!(after(3, Bounce::Absorbed), Step::Finish(Source::Black));
    assert_eq!(after(3, Bounce::Emitted), Step::Finish(Source::Emission));
    assert_eq!(after(3, Bounce::Scattered), Step::Trace(2));
    assert_eq!(after(1, Bounce::Scattered), Step::Finish(Source::Black));
}

#[test]
fn path_ends_within_depth() {
    let mut step = start(4);
    let mut traced = 0;
    while let Step::Trace(left) = step {
        traced += 1;
        step = after(left, Bounce::Scattered);
    }
    assert_eq!(traced, 4);
    assert_eq!(step, Step::Finish(Source::Black));
}

#[test]
fn light_reached_after_scattering() {
    let mut step = start(10);
    let bounces = [Bounce::Scattered, Bounce::Scattered, Bounce::Emitted];
    let mut k = 0;
    while let Step::Trace(left) = step {
        step = after(left, bounces[k]);
        k += 1;
    }
    assert_eq!(k, 3);
    assert_eq!(step, Step::Finish(Source::Emission));
}

#[test]
fn mirror_new() {
    let _m: Mirror = Mirror::new();
}
