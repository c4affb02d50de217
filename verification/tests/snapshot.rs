use lifesim::util::snapshot::{
    put_byte, put_long, put_text, put_word, take_byte, take_long, take_text, take_word,
};
use lifesim::util::SnapshotError;

#[test]
fn fields_are_written_in_fixed_width_little_endian() {
    let mut out = vec![0xee];
    put_byte(&mut out, 0x7f);
    put_word(&mut out, 0x0403_0201);
    put_long(&mut out, 0x0807_0605_0403_0201);
    put_text(&mut out, "hé");
    assert_eq!(
        out,
        vec![
            0xee, 0x7f, 1, 2, 3, 4, 1, 2, 3, 4, 5, 6, 7, 8, 3, 0, 0, 0, 0, 0, 0, 0, b'h', 0xc3,
            0xa9,
        ]
    );
}

#[test]
fn fields_are_read_back_from_their_places() {
    let mut out = Vec::new();
    put_text(&mut out, "");
    put_long(&mut out, u64::MAX);
    put_word(&mut out, 7);
    put_byte(&mut out, 255);
    put_text(&mut out, "東京 tower");
    let (text, at) = take_text(&out, 0).unwrap();
    assert_eq!((text.as_str(), at), ("", 8));
    let (long, at) = take_long(&out, at).unwrap();
    assert_eq!((long, at), (u64::MAX, 16));
    let (word, at) = take_word(&out, at).unwrap();
    assert_eq!((word, at), (7, 20));
    let (byte, at) = take_byte(&out, at).unwrap();
    assert_eq!((byte, at), (255, 21));
    let (text, at) = take_text(&out, at).unwrap();
    assert_eq!((text.as_str(), at), ("東京 tower", out.len()));
}

#[test]
fn a_field_that_runs_past_the_end_is_refused() {
    let bytes = [1u8, 2, 3, 4, 5, 6, 7];
    assert_eq!(take_byte(&bytes, 7), Err(SnapshotError::Decode));
    assert_eq!(take_byte(&bytes, 6), Ok((7, 7)));
    assert_eq!(take_word(&bytes, 4), Err(SnapshotError::Decode));
    assert_eq!(take_word(&bytes, 3), Ok((0x0706_0504, 7)));
    assert_eq!(take_long(&bytes, 0), Err(SnapshotError::Decode));
    assert_eq!(take_text(&bytes, 0), Err(SnapshotError::Decode));
}

#[test]
fn a_text_must_be_there_in_full_and_be_well_formed() {
    let mut out = Vec::new();
    put_text(&mut out, "abc");
    assert_eq!(take_text(&out[..10], 0), Err(SnapshotError::Decode));
    let mut broken = out.clone();
    broken[9] = 0x80;
    assert_eq!(take_text(&broken, 0), Err(SnapshotError::Decode));
    let mut huge = out.clone();
    huge[7] = 0xff;
    assert_eq!(take_text(&huge, 0), Err(SnapshotError::Decode));
    out.push(0xff);
    assert_eq!(take_text(&out, 0), Ok(("abc".to_string(), 11)));
}
