use scratchpad::Binary32;

fn number(value: f32) -> Binary32 {
    Binary32::from_bits(value.to_bits())
}

/// What the hardware makes of `extent` pixels times `share`.
fn by_hardware(extent: u32, share: f32) -> u32 {
    (extent as f32 * share) as u32
}

/// A sequence of numbers that looks random and is the same on every run.
struct Numbers(u64);

impl Numbers {
    fn next(&mut self) -> u32 {
        self.0 = self.0.wrapping_mul(6364136223846793005).wrapping_add(1442695040888963407);
        (self.0 >> 32) as u32
    }
}

#[test]
fn bits_are_kept() {
    for bits in [0u32, 1, 0x3f80_0000, 0x8000_0000, 0x7fc0_0000, u32::MAX] {
        assert_eq!(Binary32::from_bits(bits).to_bits(), bits);
        assert_eq!(Binary32::from_bits(bits).bits, bits);
    }
    assert_eq!(number(0.8).to_bits(), 0x3f4c_cccd);
}

#[test]
fn numbers_from_zero_to_one_are_unit_fractions() {
    for value in [0.0f32, -0.0, f32::MIN_POSITIVE, 1.0e-45, 0.1, 0.5, 0.8, 0.999_999_94, 1.0] {
        assert!(number(value).in_unit_interval(), "{value}");
    }
}

#[test]
fn numbers_outside_zero_to_one_are_no_unit_fractions() {
    for value in [
        1.000_000_1f32,
        1.5,
        2.0,
        f32::MAX,
        f32::INFINITY,
        -1.0e-45,
        -0.5,
        -1.0,
        f32::NEG_INFINITY,
        f32::NAN,
        -f32::NAN,
    ] {
        assert!(!number(value).in_unit_interval(), "{value}");
    }
    assert!(!Binary32::from_bits(0x7f80_0001).in_unit_interval());
    assert!(!Binary32::from_bits(0xffff_ffff).in_unit_interval());
}

#[test]
fn unit_fractions_are_those_that_compare_within_zero_and_one() {
    let mut numbers = Numbers(1);
    for _ in 0..200_000 {
        let bits = numbers.next();
        let value = f32::from_bits(bits);
        assert_eq!(Binary32::from_bits(bits).in_unit_interval(), 0.0 <= value && value <= 1.0);
    }
    for bits in 0x3f7f_ff00u32..0x3f80_0100 {
        let value = f32::from_bits(bits);
        assert_eq!(Binary32::from_bits(bits).in_unit_interval(), 0.0 <= value && value <= 1.0);
    }
}

#[test]
fn scaling_gives_whole_pixels() {
    assert_eq!(number(0.8).scale(1000), 800);
    assert_eq!(number(0.8).scale(800), 640);
    assert_eq!(number(0.5).scale(1000), 500);
    assert_eq!(number(0.5).scale(1001), 500);
    assert_eq!(number(0.25).scale(1023), 255);
    assert_eq!(number(1.0).scale(1920), 1920);
    assert_eq!(number(0.0).scale(1920), 0);
    assert_eq!(number(-0.0).scale(1920), 0);
    assert_eq!(number(0.5).scale(0), 0);
    assert_eq!(number(0.5).scale(1), 0);
    assert_eq!(number(1.0).scale(1), 1);
}

#[test]
fn scaling_rounds_the_product_before_it_cuts_off() {
    // 0.7 in single precision lies below seven tenths, and so does its exact
    // product with 1000; rounded to single precision the product is 700.
    assert_eq!(number(0.7).scale(1000), 700);
    assert_eq!(by_hardware(1000, 0.7), 700);
    assert_eq!(number(0.7).scale(10), 7);
    assert_eq!(by_hardware(10, 0.7), 7);
    // just below one: the product with 2^24 is held exactly and stays below
    assert_eq!(number(0.999_999_94).scale(16_777_216), 16_777_215);
    // the product with 3 lies nearer to the number below 3 than to 3
    assert_eq!(number(0.999_999_94).scale(3), 2);
    assert_eq!(by_hardware(3, 0.999_999_94), 2);
}

#[test]
fn scaling_rounds_a_large_extent_to_single_precision() {
    // 2^24 + 1 is rounded down to 2^24, 2^24 + 3 is rounded up to 2^24 + 4
    assert_eq!(number(1.0).scale(16_777_217), 16_777_216);
    assert_eq!(number(1.0).scale(16_777_219), 16_777_220);
    assert_eq!(by_hardware(16_777_219, 1.0), 16_777_220);
    assert_eq!(number(0.5).scale(16_777_219), 8_388_610);
    // the largest extent is rounded up to 2^32, which no longer fits
    assert_eq!(number(1.0).scale(u32::MAX), u32::MAX);
    assert_eq!(number(0.5).scale(u32::MAX), 0x8000_0000);
}

#[test]
fn scaling_by_the_smallest_fractions_gives_nothing() {
    assert_eq!(number(1.0e-45).scale(u32::MAX), 0);
    assert_eq!(number(f32::MIN_POSITIVE).scale(u32::MAX), 0);
    assert_eq!(Binary32::from_bits(0x007f_ffff).scale(u32::MAX), 0);
    // 2^-30 times 2^30 - 64 and times 2^30
    let tiny = Binary32::from_bits(0x3080_0000);
    assert_eq!(tiny.scale(0x3fff_ffc0), 0);
    assert_eq!(tiny.scale(0x4000_0000), 1);
    assert_eq!(by_hardware(0x3fff_ffc0, f32::from_bits(0x3080_0000)), 0);
    assert_eq!(by_hardware(0x4000_0000, f32::from_bits(0x3080_0000)), 1);
}

#[test]
fn scaling_agrees_with_the_hardware_on_screen_sizes() {
    let shares = [0.0f32, 0.01, 0.1, 0.2, 0.25, 0.3, 1.0 / 3.0, 0.4, 0.5, 0.6, 2.0 / 3.0, 0.7, 0.75,
        0.8, 0.9, 0.95, 0.99, 1.0];
    for share in shares {
        for extent in 0..=8192u32 {
            assert_eq!(number(share).scale(extent), by_hardware(extent, share), "{extent} {share}");
        }
    }
}

#[test]
fn scaling_agrees_with_the_hardware_on_every_kind_of_input() {
    let mut numbers = Numbers(7);
    let mut checked = 0;
    while checked < 300_000 {
        let bits = numbers.next() % 0x3f80_0001;
        let extent = match numbers.next() % 4 {
            0 => numbers.next(),
            1 => numbers.next() >> 8,
            2 => numbers.next() >> 20,
            _ => 0x0100_0000 + (numbers.next() >> 26),
        };
        let share = f32::from_bits(bits);
        assert_eq!(
            Binary32::from_bits(bits).scale(extent),
            by_hardware(extent, share),
            "{extent} {bits:#x}"
        );
        checked += 1;
    }
}

#[test]
fn scaling_agrees_with_the_hardware_near_one() {
    let mut numbers = Numbers(11);
    for bits in 0x3f7f_fff0u32..=0x3f80_0000 {
        for _ in 0..2_000 {
            let extent = numbers.next() >> (numbers.next() % 32);
            assert_eq!(
                Binary32::from_bits(bits).scale(extent),
                by_hardware(extent, f32::from_bits(bits)),
                "{extent} {bits:#x}"
            );
        }
        for extent in [0, 1, 2, 3, 0x00ff_ffff, 0x0100_0000, 0x0100_0001, 0x0100_0003, u32::MAX] {
            assert_eq!(
                Binary32::from_bits(bits).scale(extent),
                by_hardware(extent, f32::from_bits(bits)),
                "{extent} {bits:#x}"
            );
        }
    }
}

#[test]
fn a_fraction_of_an_extent_up_to_two_to_the_24_is_no_more_than_the_extent() {
    let mut numbers = Numbers(13);
    for _ in 0..200_000 {
        let bits = numbers.next() % 0x3f80_0001;
        let extent = numbers.next() % 0x0100_0001;
        assert!(Binary32::from_bits(bits).scale(extent) <= extent);
    }
    assert!(number(1.0).scale(0x0100_0000) <= 0x0100_0000);
}
