use lilygo_rs::types::{Error, FrameRate};

#[test]
fn frame_rate_round_trip() {
    let rates = [
        FrameRate::Half,
        FrameRate::One,
        FrameRate::Two,
        FrameRate::Four,
        FrameRate::Eight,
        FrameRate::Sixteen,
        FrameRate::ThirtyTwo,
        FrameRate::SixtyFour,
    ];
    for &rate in &rates {
        assert_eq!(FrameRate::try_from(u16::from(rate)), Ok(rate));
    }
}

#[test]
fn frame_rate_out_of_range() {
    assert_eq!(FrameRate::try_from(8u16), Err(()));
    assert_eq!(FrameRate::try_from(255u16), Err(()));
}

#[test]
fn frame_rate_to_f32() {
    let hz = |fr: FrameRate| f32::from(fr.half_hz()) / 2.0;
    assert_eq!(hz(FrameRate::Half), 0.5);
    assert_eq!(hz(FrameRate::One), 1.0);
    assert_eq!(hz(FrameRate::Two), 2.0);
    assert_eq!(hz(FrameRate::Four), 4.0);
    assert_eq!(hz(FrameRate::Eight), 8.0);
    assert_eq!(hz(FrameRate::Sixteen), 16.0);
    assert_eq!(hz(FrameRate::ThirtyTwo), 32.0);
    assert_eq!(hz(FrameRate::SixtyFour), 64.0);
}

#[test]
fn frame_rate_codes() {
    assert_eq!(u16::from(FrameRate::Half), 0);
    assert_eq!(u16::from(FrameRate::Eight), 4);
    assert_eq!(u16::from(FrameRate::SixtyFour), 7);
    assert_eq!(FrameRate::try_from(3u16), Ok(FrameRate::Four));
    for raw in 0u16..8 {
        assert_eq!(u16::from(FrameRate::try_from(raw).unwrap()), raw);
    }
}

#[test]
fn errors_compare() {
    assert_eq!(Error::Timeout, Error::Timeout);
    assert_ne!(Error::Timeout, Error::FrameDataError);
}
