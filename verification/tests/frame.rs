use raytracer::colorf::ColorF;
use raytracer::frame::Frame;
use raytracer::sampler::pixel_coords;
use raytracer::scalar::Scalar;

fn s(v: f32) -> Scalar {
    Scalar::from_bits(v.to_bits())
}

fn channels(c: &ColorF) -> [f32; 4] {
    [
        f32::from_bits(c.r.bits),
        f32::from_bits(c.g.bits),
        f32::from_bits(c.b.bits),
        f32::from_bits(c.a.bits),
    ]
}

#[test]
fn colour_constructors() {
    assert_eq!(channels(&ColorF::new()), [0.0, 0.0, 0.0, 1.0]);
    assert_eq!(channels(&ColorF::rgb(s(0.4), s(0.4), s(0.3))), [0.4, 0.4, 0.3, 1.0]);
    assert_eq!(channels(&ColorF::rgba(s(0.1), s(0.2), s(0.3), s(0.4))), [0.1, 0.2, 0.3, 0.4]);
}

#[test]
fn named_colours() {
    assert_eq!(channels(&ColorF::black()), [0.0, 0.0, 0.0, 1.0]);
    assert_eq!(channels(&ColorF::white()), [1.0, 1.0, 1.0, 1.0]);
    assert_eq!(channels(&ColorF::red()), [1.0, 0.0, 0.0, 1.0]);
    assert_eq!(channels(&ColorF::green()), [0.0, 1.0, 0.0, 1.0]);
    assert_eq!(channels(&ColorF::blue()), [0.0, 0.0, 1.0, 1.0]);
}

#[test]
fn a_new_frame_is_black() {
    let frame = Frame::new(4, 3);
    assert_eq!(frame.width(), 4);
    assert_eq!(frame.height(), 3);
    assert_eq!(frame.data().len(), 12);
    for c in frame.data() {
        assert_eq!(channels(c), [0.0, 0.0, 0.0, 1.0]);
    }
}

#[test]
fn an_empty_frame() {
    let frame = Frame::new(0, 7);
    assert_eq!(frame.width(), 0);
    assert_eq!(frame.height(), 7);
    assert!(frame.data().is_empty());
}

#[test]
fn set_pixel_writes_one_slot_in_row_major_order() {
    let mut frame = Frame::new(4, 3);
    let c = ColorF::rgb(s(0.25), s(0.5), s(0.75));
    frame.set_pixel(1, 2, &c);
    assert_eq!(channels(frame.get_pixel(1, 2)), [0.25, 0.5, 0.75, 1.0]);
    for (i, p) in frame.data().iter().enumerate() {
        if i == 4 * 2 + 1 {
            assert_eq!(channels(p), [0.25, 0.5, 0.75, 1.0]);
        } else {
            assert_eq!(channels(p), [0.0, 0.0, 0.0, 1.0]);
        }
    }
}

#[test]
fn get_pixel_reads_what_set_pixel_wrote() {
    let mut frame = Frame::new(5, 4);
    for y in 0..4 {
        for x in 0..5 {
            frame.set_pixel(x, y, &ColorF::rgb(s(x as f32), s(y as f32), s(0.0)));
        }
    }
    for y in 0..4 {
        for x in 0..5 {
            assert_eq!(channels(frame.get_pixel(x, y)), [x as f32, y as f32, 0.0, 1.0]);
        }
    }
}

#[test]
fn a_column_past_the_width_is_the_next_row() {
    let mut frame = Frame::new(4, 3);
    frame.set_pixel(1, 1, &ColorF::red());
    assert_eq!(channels(frame.get_pixel(5, 0)), [1.0, 0.0, 0.0, 1.0]);
}

#[test]
fn fill_writes_every_pixel() {
    let mut frame = Frame::new(3, 2);
    frame.fill(&ColorF::rgba(s(0.2), s(0.7), s(0.8), s(0.5)));
    assert_eq!(frame.width(), 3);
    assert_eq!(frame.height(), 2);
    assert_eq!(frame.data().len(), 6);
    for c in frame.data() {
        assert_eq!(channels(c), [0.2, 0.7, 0.8, 0.5]);
    }
}

#[test]
fn data_mut_writes_through() {
    let mut frame = Frame::new(2, 2);
    frame.data_mut()[3] = ColorF::green();
    assert_eq!(channels(frame.get_pixel(1, 1)), [0.0, 1.0, 0.0, 1.0]);
    assert_eq!(frame.width(), 2);
    assert_eq!(frame.height(), 2);
}

#[test]
fn clone_copies_size_and_pixels() {
    let mut frame = Frame::new(2, 3);
    frame.set_pixel(1, 2, &ColorF::blue());
    let copy = frame.clone();
    frame.set_pixel(1, 2, &ColorF::red());
    assert_eq!(copy.width(), 2);
    assert_eq!(copy.height(), 3);
    assert_eq!(channels(copy.get_pixel(1, 2)), [0.0, 0.0, 1.0, 1.0]);
    assert_eq!(channels(frame.get_pixel(1, 2)), [1.0, 0.0, 0.0, 1.0]);
}

#[test]
fn pixel_coords_inverts_the_row_major_index() {
    assert_eq!(pixel_coords(0, 1024), (0, 0));
    assert_eq!(pixel_coords(1023, 1024), (1023, 0));
    assert_eq!(pixel_coords(1024, 1024), (0, 1));
    assert_eq!(pixel_coords(1024 * 767 + 5, 1024), (5, 767));
    assert_eq!(pixel_coords(7, 1), (0, 7));
    let width = 7;
    for i in 0..70 {
        let (x, y) = pixel_coords(i, width);
        assert!(x < width);
        assert_eq!(width * y + x, i);
    }
}

#[test]
fn every_place_of_the_data_is_one_pixel() {
    let mut frame = Frame::new(6, 5);
    for i in 0..30 {
        let (x, y) = pixel_coords(i, frame.width());
        frame.set_pixel(x, y, &ColorF::rgb(s(i as f32), s(0.0), s(0.0)));
    }
    for (i, c) in frame.data().iter().enumerate() {
        assert_eq!(f32::from_bits(c.r.bits), i as f32);
    }
}
