use uavled::led::{effect_rainbow, Rgb, FRAME_BYTES};
use uavled::strip_test::{StripStep, StripTest};

#[test]
fn strip_test_shows_colours_and_then_effects() {
    let mut t = StripTest::new();
    for color in 0..6 {
        for send in 0..3 {
            assert_eq!(t.step, StripStep::Color { color, send });
            t.next();
        }
        assert_eq!(t.step, StripStep::Hold { color });
        t.next();
    }
    for _ in 0..2 {
        for effect in 0..4 {
            for frame in 0..180 {
                assert_eq!(t.step, StripStep::Effect { effect, frame });
                t.next();
            }
        }
    }
}

#[test]
fn strip_test_draws_each_step() {
    let shown: [(usize, [u8; 4]); 6] = [
        (0, [0, 0, 0, 0]),
        (1, [0, 255, 0, 0]),
        (2, [255, 0, 0, 0]),
        (3, [0, 0, 255, 0]),
        (4, [255, 255, 255, 0]),
        (5, [0, 1, 0, 0]),
    ];
    let mut buf = [9u8; FRAME_BYTES];
    for (color, bytes) in shown {
        StripTest { step: StripStep::Color { color, send: 0 } }.draw(&mut buf);
        assert!(buf.chunks(4).all(|led| led == bytes));
        let before = buf;
        StripTest { step: StripStep::Hold { color } }.draw(&mut buf);
        assert_eq!(buf, before);
    }
    assert_eq!(StripTest::color(5), Rgb { r: 1, g: 0, b: 0 });

    let leds: [[u8; 4]; 4] = [[0, 255, 0, 0], [0, 0, 0, 0], [0, 28, 28, 0], [14, 241, 0, 0]];
    for (effect, first) in leds.iter().enumerate() {
        StripTest { step: StripStep::Effect { effect, frame: 7 } }.draw(&mut buf);
        assert_eq!(&buf[..4], first);
    }
    let mut rainbow = [0u8; FRAME_BYTES];
    effect_rainbow(&mut rainbow, 7);
    assert_eq!(buf, rainbow);
    StripTest { step: StripStep::Effect { effect: 1, frame: 7 } }.draw(&mut buf);
    assert_eq!(&buf[28..], &[255, 255, 255, 0]);
}
