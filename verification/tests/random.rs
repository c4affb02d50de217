use lifesim::util::random::{scalar_from_clock, SEED_DIVISOR, SEED_MAX};
use lifesim::util::{random, random_range, RangeLimit, Scalar};

#[test]
fn seed_divisor_is_the_double_nearest_ten_to_the_29() {
    assert_eq!(SEED_DIVISOR, 10e+28_f64 as u128);
    assert_eq!(SEED_MAX, u128::MAX / SEED_DIVISOR);
}

fn reversed_low_bits(x: u128, width: u32) -> u128 {
    if width == 0 {
        0
    } else {
        ((x & 1) << (width - 1)) | reversed_low_bits(x >> 1, width - 1)
    }
}

#[test]
fn reversing_bits_moves_each_bit_to_the_mirrored_place() {
    let mut x: u128 = 0x0123_4567_89ab_cdef_0f1e_2d3c_4b5a_6978;
    for _ in 0..200 {
        assert_eq!(x.reverse_bits(), reversed_low_bits(x, 128));
        x = x.wrapping_mul(6364136223846793005).wrapping_add(1442695040888963407).rotate_left(17);
    }
    for x in [0u128, 1, 2, u128::MAX, 1 << 127, 1_761_688_800_123_456_789] {
        assert_eq!(x.reverse_bits(), reversed_low_bits(x, 128));
    }
}

#[test]
fn clock_readings_give_the_expected_scalars() {
    assert_eq!(scalar_from_clock(0), Scalar { numerator: 0, denominator: 10 });
    assert_eq!(scalar_from_clock(1), Scalar { numerator: 1701411834, denominator: 10000000000 });
    assert_eq!(scalar_from_clock(2), Scalar { numerator: 850705917, denominator: 1000000000 });
    assert_eq!(
        scalar_from_clock(1_700_000_000_000_000_000),
        Scalar { numerator: 17123, denominator: 100000 }
    );
    assert_eq!(
        scalar_from_clock(12345678901234567890),
        Scalar { numerator: 1001125305, denominator: 10000000000 }
    );
    assert_eq!(
        scalar_from_clock(u128::MAX),
        Scalar { numerator: 3402823669, denominator: 10000000000 }
    );
}

#[test]
fn a_seed_of_nines_stays_below_one() {
    let nine = scalar_from_clock(207421874904760479537174580986315276288);
    assert_eq!(nine, Scalar { numerator: 9, denominator: 10 });
    let ninety_nine = scalar_from_clock(207421874904764069396453893325262422016);
    assert_eq!(ninety_nine, Scalar { numerator: 99, denominator: 100 });
}

#[test]
fn the_seed_is_set_over_the_power_of_ten_of_its_length() {
    for nanos in [0u128, 1, 2, 3, 1_761_688_800_123_456_789, 987_654_321_987_654_321] {
        let seed = nanos.reverse_bits() / 10e+28_f64 as u128;
        let scale = 10u128.pow(seed.to_string().len() as u32);
        let scalar = scalar_from_clock(nanos);
        assert_eq!(scalar.numerator, seed as i128);
        assert_eq!(scalar.denominator as u128, scale);
        assert!(seed < scale);
    }
}

#[test]
fn random_stays_in_the_unit_interval() {
    for _ in 0..1000 {
        let draw = random().expect("Time went backwards");
        assert!(draw.denominator > 0);
        assert!(0 <= draw.numerator);
        assert!(draw.numerator < draw.denominator as i128);
    }
}

#[test]
fn a_draw_is_mapped_onto_the_range() {
    let half = Scalar { numerator: 5, denominator: 10 };
    let point = half.scale_into_range(RangeLimit::Included(17), RangeLimit::Included(30));
    assert_eq!(point, Scalar { numerator: 235, denominator: 10 });
    assert_eq!(point.truncate(), 23);
    let zero = Scalar { numerator: 0, denominator: 10 };
    assert_eq!(
        zero.scale_into_range(RangeLimit::Included(17), RangeLimit::Included(30)).truncate(),
        17
    );
    let most = Scalar { numerator: 9999999999, denominator: 10000000000 };
    assert_eq!(
        most.scale_into_range(RangeLimit::Included(17), RangeLimit::Included(30)).truncate(),
        29
    );
}

#[test]
fn an_open_end_counts_like_a_closed_one() {
    let draw = Scalar { numerator: 3, denominator: 4 };
    let closed = draw.scale_into_range(RangeLimit::Included(-8), RangeLimit::Included(8));
    let open = draw.scale_into_range(RangeLimit::Excluded(-8), RangeLimit::Excluded(8));
    assert_eq!(closed, open);
    assert_eq!(closed, Scalar { numerator: 16, denominator: 4 });
}

#[test]
fn an_absent_end_is_the_least_or_greatest_number() {
    let zero = Scalar { numerator: 0, denominator: 10 };
    let half = Scalar { numerator: 1, denominator: 2 };
    assert_eq!(
        zero.scale_into_range(RangeLimit::Unbounded, RangeLimit::Unbounded).truncate(),
        i64::MIN as i128
    );
    assert_eq!(
        zero.scale_into_range(RangeLimit::Unbounded, RangeLimit::Included(7)).truncate(),
        i64::MIN as i128
    );
    assert_eq!(
        half.scale_into_range(RangeLimit::Unbounded, RangeLimit::Unbounded),
        Scalar { numerator: -1, denominator: 2 }
    );
    assert_eq!(
        half.scale_into_range(RangeLimit::Included(1), RangeLimit::Unbounded).truncate(),
        (i64::MAX as i128 + 1) / 2
    );
}

#[test]
fn a_range_given_backwards_is_still_kept_to() {
    let draw = Scalar { numerator: 1, denominator: 4 };
    let point = draw.scale_into_range(RangeLimit::Included(30), RangeLimit::Included(10));
    assert_eq!(point, Scalar { numerator: 100, denominator: 4 });
    assert_eq!(point.truncate(), 25);
}

#[test]
fn random_range_stays_within_its_ends() {
    for _ in 0..1000 {
        let point = random_range(RangeLimit::Included(17), RangeLimit::Included(30))
            .expect("Time went backwards");
        let whole = point.truncate();
        assert!((17..=30).contains(&whole));
        let back = random_range(RangeLimit::Excluded(5), RangeLimit::Included(-5))
            .expect("Time went backwards");
        assert!((-5..=5).contains(&back.truncate()));
    }
}

#[test]
fn truncation_rounds_toward_zero() {
    assert_eq!(Scalar { numerator: 7, denominator: 2 }.truncate(), 3);
    assert_eq!(Scalar { numerator: -7, denominator: 2 }.truncate(), -3);
    assert_eq!(Scalar { numerator: -1, denominator: 2 }.truncate(), 0);
    assert_eq!(Scalar { numerator: 0, denominator: 5 }.truncate(), 0);
}

#[test]
fn the_whole_part_is_kept_to_a_byte() {
    assert_eq!(Scalar { numerator: 47, denominator: 10 }.to_u8(), 4);
    assert_eq!(Scalar { numerator: 300, denominator: 1 }.to_u8(), 255);
    assert_eq!(Scalar { numerator: -300, denominator: 1 }.to_u8(), 0);
    assert_eq!(Scalar { numerator: 255, denominator: 1 }.to_u8(), 255);
}

#[test]
fn a_draw_is_at_least_half_from_one_half_up() {
    assert!(Scalar { numerator: 5, denominator: 10 }.at_least_half());
    assert!(Scalar { numerator: 99, denominator: 100 }.at_least_half());
    assert!(!Scalar { numerator: 49, denominator: 100 }.at_least_half());
    assert!(!Scalar { numerator: 0, denominator: 10 }.at_least_half());
}

#[test]
fn a_draw_picks_a_place_in_a_list() {
    assert_eq!(Scalar { numerator: 0, denominator: 10 }.index_into(4), 0);
    assert_eq!(Scalar { numerator: 5, denominator: 10 }.index_into(4), 2);
    assert_eq!(Scalar { numerator: 99, denominator: 100 }.index_into(4), 3);
    assert_eq!(Scalar { numerator: 9999999999, denominator: 10000000000 }.index_into(4), 3);
    assert_eq!(Scalar { numerator: 5, denominator: 10 }.index_into(0), 0);
    assert_eq!(Scalar { numerator: 1, denominator: 2 }.index_into(usize::MAX), usize::MAX / 2);
}
