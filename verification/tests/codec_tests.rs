use bili::codec::av_to_bv;
use bili::codec::bv_to_av;
use bili::codec::CodecError;

#[test]
fn test_av_to_bv() {
    assert_eq!("BV17x411w7KC", av_to_bv(170001));
    assert_eq!("BV1xx411c7mC", av_to_bv(9));
}

#[test]
fn test_bv_to_av() {
    assert_eq!(170001, bv_to_av(String::from("BV17x411w7KC")).unwrap());
    assert_eq!(9, bv_to_av(String::from("BV1xx411c7mC")).unwrap());
    assert_eq!(170001, bv_to_av(String::from("BV7x411w7KC")).unwrap());
    assert_eq!(9, bv_to_av(String::from("BVxx411c7mC")).unwrap());
}

#[test]
fn test_codec_round_trip_samples() {
    for av in [1usize, 9, 170001, 207281893, 999999999] {
        let bv = av_to_bv(av);
        assert_eq!(av, bv_to_av(bv).unwrap());
    }
}

#[test]
fn test_bv_to_av_bad_length() {
    assert_eq!(Err(CodecError::BadLength), bv_to_av(String::from("BV2331")));
    assert_eq!(Err(CodecError::BadLength), bv_to_av(String::new()));
}

#[test]
fn test_bv_to_av_bad_char() {
    // 'l' and '0' are outside the alphabet
    assert_eq!(Err(CodecError::BadChar), bv_to_av(String::from("BV1lllll4ll7")));
    assert_eq!(Err(CodecError::BadChar), bv_to_av(String::from("BV1004100700")));
}

#[test]
fn test_bv_to_av_bad_value() {
    // all six symbols at index zero decode to a sum below the additive key
    assert_eq!(Err(CodecError::BadValue), bv_to_av(String::from("BVffffffffff")));
}
