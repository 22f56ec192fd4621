use gics::errors::ErrorKind;
use gics::version::{
    blk_encryption_key, definite_version_keys, file_name_encryption_key, find_key,
    find_version_keys, split_key, Data,
};

fn keyring() -> Vec<Data> {
    vec![
        Data::new(
            "1.0".to_string(),
            vec!["Cs_Intro".to_string(), "AB".to_string()],
            0x1122_3344_5566_7788,
        ),
        Data::new("1.1".to_string(), vec!["Cs_Other".to_string()], 0xFFFF_FFFF_FFFF_FFFF),
        Data::new("1.2".to_string(), vec!["AB".to_string()], 7),
    ]
}

#[test]
fn trivial_filename_key() {
    // bytes 0x41, 0x42 folded by acc <- 3 acc + byte
    assert_eq!(file_name_encryption_key("AB.usm"), 3 * (3 * 0 + 0x41) + 0x42);
    assert_eq!(file_name_encryption_key("AB.usm"), 0x105);
}

#[test]
fn filename_key_stops_at_first_dot() {
    assert_eq!(file_name_encryption_key("AB.tar.usm"), 0x105);
    assert_eq!(file_name_encryption_key("AB"), 0x105);
}

#[test]
fn empty_stem_gives_the_zero_key() {
    assert_eq!(file_name_encryption_key(".usm"), 0x0100_0000_0000_0000);
    assert_eq!(file_name_encryption_key(""), 0x0100_0000_0000_0000);
}

#[test]
fn intro_substitution() {
    let expected = file_name_encryption_key("MDAQ001_OP");
    assert_eq!(expected, 0x21477e);
    assert_eq!(file_name_encryption_key("MDAQ001_OPNew_Part1.usm"), expected);
    assert_eq!(file_name_encryption_key("MDAQ001_OPNew_Part2_PlayerBoy.usm"), expected);
    assert_eq!(file_name_encryption_key("MDAQ001_OPNew_Part2_PlayerGirl.usm"), expected);
}

#[test]
fn near_intro_names_are_not_substituted() {
    assert_eq!(
        file_name_encryption_key("MDAQ001_OPNew_Part1.usm2"),
        file_name_encryption_key("MDAQ001_OPNew_Part1")
    );
    assert_ne!(
        file_name_encryption_key("MDAQ001_OPNew_Part1.usm2"),
        file_name_encryption_key("MDAQ001_OP")
    );
}

#[test]
fn split_key_halves() {
    assert_eq!(split_key(0x0123_4567_89AB_CDEF), (0x0123_4567, 0x89AB_CDEF));
    assert_eq!(split_key(0), (0, 0));
    assert_eq!(split_key(u64::MAX), (0xFFFF_FFFF, 0xFFFF_FFFF));
}

#[test]
fn explicit_keys_win() {
    let ring = keyring();
    let r = definite_version_keys("AB.usm", Some(&ring), Some(0x89AB_CDEF), Some(0x0123_4567));
    assert_eq!(r.unwrap(), (0x0123_4567, 0x89AB_CDEF));
    let r = definite_version_keys("nothing.usm", None, Some(1), Some(2));
    assert_eq!(r.unwrap(), (2, 1));
}

#[test]
fn missing_keyring_is_a_missing_key() {
    let e = definite_version_keys("AB.usm", None, Some(1), None).unwrap_err();
    assert_eq!(e.kind(), ErrorKind::MissingKey);
    assert_eq!(
        e.message(),
        "No key file provided and at least one of the keys missing : unable to extract keys."
    );
    let e = definite_version_keys("AB.usm", None, None, None).unwrap_err();
    assert_eq!(e.kind(), ErrorKind::MissingKey);
}

#[test]
fn key_combination() {
    let ring = keyring();
    let combined = find_key("AB.usm", &ring).unwrap();
    assert_eq!(combined, (0x105u64 + 0x1122_3344_5566_7788) & 0xFF_FFFF_FFFF_FFFF);
    assert_eq!(combined, 0x2233445566788d);
    assert_eq!(find_version_keys(&ring, "AB.usm").unwrap(), split_key(combined));
    assert_eq!(
        definite_version_keys("AB.usm", Some(&ring), None, Some(9)).unwrap(),
        split_key(combined)
    );
}

#[test]
fn key_combination_wraps_and_never_gives_zero() {
    // the second entry holds 2^64 - 1: the sum wraps to the file-name key less one
    let ring = keyring();
    let name_key = file_name_encryption_key("Cs_Other.usm");
    let combined = find_key("Cs_Other.usm", &ring).unwrap();
    assert_eq!(combined, name_key - 1);
    // a version key that cancels the file-name key gives the zero key
    let cancel = vec![Data::new(
        "x".to_string(),
        vec!["AB".to_string()],
        0x0100_0000_0000_0000 - 0x105,
    )];
    assert_eq!(find_key("AB.usm", &cancel).unwrap(), 0x0100_0000_0000_0000);
}

#[test]
fn first_matching_entry_gives_the_version_key() {
    let ring = keyring();
    assert_eq!(blk_encryption_key("AB.usm", &ring).unwrap(), 0x1122_3344_5566_7788);
    assert_eq!(blk_encryption_key("Cs_Other.usm", &ring).unwrap(), 0xFFFF_FFFF_FFFF_FFFF);
    assert!(ring[0].contains_video("Cs_Intro"));
    assert!(!ring[0].contains_video("Cs_Intro.usm"));
    assert_eq!(ring[2].get_key(), 7);
}

#[test]
fn video_without_entry() {
    let ring = keyring();
    let e = blk_encryption_key("Cs_Missing.usm", &ring).unwrap_err();
    assert_eq!(e.kind(), ErrorKind::NoKeyForVideo);
    assert_eq!(
        e.message(),
        "Unable to find decryption key for \"Cs_Missing\" in version keys file"
    );
    let e = find_version_keys(&ring, "Cs_Missing.usm").unwrap_err();
    assert_eq!(e.kind(), ErrorKind::NoKeyForVideo);
    let e = definite_version_keys("Cs_Missing.usm", Some(&ring), None, None).unwrap_err();
    assert_eq!(e.kind(), ErrorKind::MissingKey);
    assert_eq!(
        e.message(),
        "Unable to find decryption key for \"Cs_Missing\" in version keys file"
    );
}

#[test]
fn names_beyond_ascii_are_cut_at_the_dot() {
    let ring = vec![Data::new("x".to_string(), vec!["日本語".to_string()], 5)];
    assert_eq!(blk_encryption_key("日本語.usm", &ring).unwrap(), 5);
    let e = blk_encryption_key("한국어.usm", &ring).unwrap_err();
    assert_eq!(
        e.message(),
        "Unable to find decryption key for \"한국어\" in version keys file"
    );
}
