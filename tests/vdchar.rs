use vds::{VDChar, ALPHABET_SIZE, VDS_ALLOWED};

#[test]
fn valid_vdchar_constructs() {
    assert!(VDChar::new('A').is_some());
    assert!(VDChar::new('Z').is_some());
    assert!(VDChar::new('2').is_some());
    assert!(VDChar::new('9').is_some());
}

#[test]
fn excluded_chars_are_rejected() {
    assert!(VDChar::new('O').is_none());
    assert!(VDChar::new('I').is_none());
    assert!(VDChar::new('0').is_none());
    assert!(VDChar::new('1').is_none());
}

#[test]
fn lowercase_chars_are_rejected() {
    assert!(VDChar::new('a').is_none());
    assert!(VDChar::new('z').is_none());
    assert!(VDChar::new('o').is_none());
}

#[test]
fn as_char_returns_original_char() {
    for &c in VDS_ALLOWED.iter() {
        let vd = VDChar::new(c).expect("should be allowed");
        assert_eq!(vd.as_char(), c);
    }
}

#[test]
fn display_matches_as_char() {
    let ch = VDChar::new('X').unwrap();
    assert_eq!(ch.to_string(), "X");
}

#[test]
fn alphabet_has_expected_members_in_order() {
    let expected = "ABCDEFGHJKMNPQRSTUVWXYZ23456789";
    let listed: String = VDS_ALLOWED.iter().collect();
    assert_eq!(listed, expected);
    assert_eq!(VDS_ALLOWED.len(), ALPHABET_SIZE);
    assert_eq!(ALPHABET_SIZE, 31);
}

#[test]
fn membership_matches_alphabet_for_all_ascii() {
    for b in 0u8..128 {
        let c = b as char;
        assert_eq!(VDChar::new(c).is_some(), VDS_ALLOWED.contains(&c), "char {:?}", c);
    }
    for c in ['é', 'Ω', '\u{0}', '\u{10FFFF}'] {
        assert!(VDChar::new(c).is_none());
    }
}

#[test]
fn every_lowercase_letter_is_rejected() {
    for c in 'a'..='z' {
        assert!(VDChar::new(c).is_none(), "char {:?}", c);
    }
}

#[test]
fn equality_and_order_follow_the_index() {
    let a = VDChar::new('A').unwrap();
    let b = VDChar::new('B').unwrap();
    let nine = VDChar::new('9').unwrap();
    assert_eq!(a, VDChar::new('A').unwrap());
    assert_ne!(a, b);
    assert!(a < b);
    assert!(b < nine);
}
