use apple_drivers::av_parser::{
    select_cookie, DcpAvAudioCookie, OSSERIALIZE_MAGIC, OS_TYPE_ARRAY, OS_TYPE_BLOB, OS_TYPE_BOOL,
    OS_TYPE_DICTIONARY, OS_TYPE_INT64, OS_TYPE_STRING,
};

fn align(bytes: &mut Vec<u8>) {
    while bytes.len() % 4 != 0 {
        bytes.push(0);
    }
}

fn tag(bytes: &mut Vec<u8>, kind: u8, size: usize) {
    align(bytes);
    bytes.extend_from_slice(&(((kind as u32) << 24) | size as u32).to_le_bytes());
}

fn string(bytes: &mut Vec<u8>, value: &[u8]) {
    tag(bytes, OS_TYPE_STRING, value.len());
    bytes.extend_from_slice(value);
}

fn int64(bytes: &mut Vec<u8>, value: i64) {
    tag(bytes, OS_TYPE_INT64, 64);
    bytes.extend_from_slice(&value.to_le_bytes());
}

fn fixture(cookie: DcpAvAudioCookie) -> Vec<u8> {
    let mut bytes = OSSERIALIZE_MAGIC.to_le_bytes().to_vec();
    tag(&mut bytes, OS_TYPE_ARRAY, 1);
    tag(&mut bytes, OS_TYPE_DICTIONARY, 5);

    string(&mut bytes, b"StreamSampleRate");
    int64(&mut bytes, 48_000);
    string(&mut bytes, b"SampleSize");
    int64(&mut bytes, 16);

    string(&mut bytes, b"AudioChannelLayoutElements");
    tag(&mut bytes, OS_TYPE_ARRAY, 1);
    tag(&mut bytes, OS_TYPE_DICTIONARY, 2);
    string(&mut bytes, b"ActiveChannelCount");
    int64(&mut bytes, 2);
    string(&mut bytes, b"ChannelLayout");
    tag(&mut bytes, OS_TYPE_ARRAY, 2);
    string(&mut bytes, b"Front Left");
    string(&mut bytes, b"Front Right");

    string(&mut bytes, b"ElementData");
    tag(&mut bytes, OS_TYPE_BLOB, cookie.len());
    bytes.extend_from_slice(&cookie);

    // Exercise skipping of an unknown dictionary value.
    string(&mut bytes, b"Ignored");
    tag(&mut bytes, OS_TYPE_DICTIONARY, 1);
    string(&mut bytes, b"Flag");
    tag(&mut bytes, OS_TYPE_BOOL, 1);
    bytes
}

#[test]
fn selects_exact_stereo_cookie() {
    let expected = core::array::from_fn(|index| index as u8 ^ 0xa5);
    let elements = fixture(expected);
    assert_eq!(select_cookie(&elements, 48_000, 16, 2), Ok(expected));
    assert!(select_cookie(&elements, 48_000, 32, 2).is_err());
    assert!(select_cookie(&elements, 44_100, 16, 2).is_err());
    assert!(select_cookie(&elements, 48_000, 16, 6).is_err());
}

#[test]
fn rejects_truncated_serialization() {
    let mut elements = fixture([0x5a; 24]);
    elements.truncate(elements.len() - 8);
    assert!(select_cookie(&elements, 48_000, 16, 2).is_err());
}

#[test]
fn each_fault_of_a_list_has_its_error() {
    let elements = fixture([1; 24]);
    for channels in [0, 17] {
        assert_eq!(
            select_cookie(&elements, 48_000, 16, channels),
            Err("apple-dcpext: invalid DisplayPort audio channel count")
        );
    }
    assert_eq!(
        select_cookie(&elements[..3], 48_000, 16, 2),
        Err("apple-dcpext: truncated audio elements header")
    );
    assert_eq!(
        select_cookie(&[0, 0, 0, 0], 48_000, 16, 2),
        Err("apple-dcpext: invalid audio elements serialization")
    );
    assert_eq!(
        select_cookie(&elements[..4], 48_000, 16, 2),
        Err("apple-dcpext: truncated audio elements object")
    );
    assert_eq!(
        select_cookie(&elements, 48_000, 24, 2),
        Err("apple-dcpext: requested DisplayPort audio mode is unsupported")
    );

    let mut padded = OSSERIALIZE_MAGIC.to_le_bytes().to_vec();
    padded.extend_from_slice(&0x2200_0001u32.to_le_bytes());
    assert_eq!(
        select_cookie(&padded, 48_000, 16, 2),
        Err("apple-dcpext: unsupported audio elements tag padding")
    );

    let mut no_array = OSSERIALIZE_MAGIC.to_le_bytes().to_vec();
    tag(&mut no_array, OS_TYPE_DICTIONARY, 1);
    assert_eq!(
        select_cookie(&no_array, 48_000, 16, 2),
        Err("apple-dcpext: unexpected audio elements object type")
    );

    let mut short_cookie = OSSERIALIZE_MAGIC.to_le_bytes().to_vec();
    tag(&mut short_cookie, OS_TYPE_ARRAY, 1);
    tag(&mut short_cookie, OS_TYPE_DICTIONARY, 1);
    string(&mut short_cookie, b"ElementData");
    tag(&mut short_cookie, OS_TYPE_BLOB, 4);
    short_cookie.extend_from_slice(&[0; 4]);
    assert_eq!(
        select_cookie(&short_cookie, 48_000, 16, 2),
        Err("apple-dcpext: short DCP audio cookie")
    );

    let mut unknown = OSSERIALIZE_MAGIC.to_le_bytes().to_vec();
    tag(&mut unknown, OS_TYPE_ARRAY, 1);
    tag(&mut unknown, OS_TYPE_DICTIONARY, 1);
    string(&mut unknown, b"Other");
    tag(&mut unknown, 7, 0);
    assert_eq!(
        select_cookie(&unknown, 48_000, 16, 2),
        Err("apple-dcpext: unsupported audio elements object type")
    );

    let mut ragged = OSSERIALIZE_MAGIC.to_le_bytes().to_vec();
    tag(&mut ragged, OS_TYPE_ARRAY, 1);
    tag(&mut ragged, OS_TYPE_DICTIONARY, 1);
    string(&mut ragged, b"Other");
    assert_eq!(
        select_cookie(&ragged, 48_000, 16, 2),
        Err("apple-dcpext: truncated audio elements padding")
    );
}

#[test]
fn the_first_matching_mode_wins() {
    let first = fixture([1; 24]);
    let second = fixture([2; 24]);
    let mut both = OSSERIALIZE_MAGIC.to_le_bytes().to_vec();
    tag(&mut both, OS_TYPE_ARRAY, 2);
    both.extend_from_slice(&first[8..]);
    align(&mut both);
    both.extend_from_slice(&second[8..]);
    assert_eq!(select_cookie(&both, 48_000, 16, 2), Ok([1; 24]));
}

#[test]
fn what_follows_the_chosen_mode_does_not_matter() {
    let cookie = [7u8; 24];
    let mut bytes = fixture(cookie);
    bytes.extend_from_slice(&[0xff; 9]);
    assert_eq!(select_cookie(&bytes, 48_000, 16, 2), Ok(cookie));
}
