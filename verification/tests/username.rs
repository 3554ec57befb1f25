use diverter::{Username, UsernameError};

#[test]
fn accepts_and_lowercases_valid_names() {
    let u = Username::try_from(b"Alice_99").unwrap();
    assert_eq!(u.as_bytes(), b"alice_99");
    let u = Username::try_from(b"abc").unwrap();
    assert_eq!(u.as_bytes(), b"abc");
    let u = Username::try_from(b"ABCDEFGHIJKLMNOPQRSTUVWXYZ_01234").unwrap();
    assert_eq!(u.as_bytes(), b"abcdefghijklmnopqrstuvwxyz_01234");
}

#[test]
fn accepts_all_lengths_from_3_to_32() {
    for len in 3..=32usize {
        let name = vec![b'A'; len];
        let u = Username::try_from(name.as_slice()).unwrap();
        assert_eq!(u.as_bytes(), vec![b'a'; len].as_slice());
    }
}

#[test]
fn rejects_short_names() {
    assert!(matches!(
        Username::try_from(b"ab"),
        Err(UsernameError::TooShort)
    ));
    assert!(matches!(Username::try_from(b""), Err(UsernameError::TooShort)));
}

#[test]
fn rejects_long_names() {
    let name = vec![b'a'; 33];
    assert!(matches!(
        Username::try_from(name.as_slice()),
        Err(UsernameError::TooLong)
    ));
}

#[test]
fn rejects_illegal_characters() {
    assert!(matches!(
        Username::try_from(b"has space"),
        Err(UsernameError::IllegalCharacters)
    ));
    assert!(matches!(
        Username::try_from(b"dash-ed"),
        Err(UsernameError::IllegalCharacters)
    ));
    assert!(matches!(
        Username::try_from(b"nul\0byte"),
        Err(UsernameError::IllegalCharacters)
    ));
}

#[test]
fn too_long_wins_over_illegal_characters() {
    let name = vec![b'-'; 40];
    assert!(matches!(
        Username::try_from(name.as_slice()),
        Err(UsernameError::TooLong)
    ));
}

#[test]
fn with_nul_round_trip() {
    let u = Username::try_from(b"Carol").unwrap();
    let with_nul = u.as_bytes_with_nul();
    let bare = u.as_bytes();
    assert_eq!(with_nul.len(), bare.len() + 1);
    assert_eq!(*with_nul.last().unwrap(), 0u8);
    assert_eq!(&with_nul[..bare.len()], bare);
    assert!(bare.iter().all(|&b| b != 0));
}

#[test]
fn len_counts_the_nul_terminator() {
    let u = Username::try_from(b"dave").unwrap();
    assert_eq!(u.len(), 5);
    assert_eq!(u.as_bytes_with_nul().len(), 5);
    assert_eq!(u.as_bytes().len(), 4);
}

#[test]
fn username_is_copied_by_value() {
    let u = Username::try_from(b"erin").unwrap();
    let v = u;
    assert_eq!(u.as_bytes(), v.as_bytes());
}
