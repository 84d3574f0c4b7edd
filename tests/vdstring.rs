use std::str::FromStr;
use vds::{VDChar, VDString, VDStringError};

fn vd(c: char) -> VDChar {
    VDChar::new(c).unwrap()
}

#[test]
fn construct_from_vec() {
    let chars = vec![vd('A'), vd('B'), vd('2')];
    let s = VDString::new(chars.clone());
    assert_eq!(s.as_vdchars(), &chars[..]);
    assert_eq!(&*s, "AB2");
}

#[test]
fn parse_valid_string() {
    let s: VDString = "M29W".parse().unwrap();
    assert_eq!(&*s, "M29W");
    assert_eq!(s.len(), 4);
    assert_eq!(s.symbol_at(0), vd('M'));
    assert_eq!(s.symbol_at(3).as_char(), 'W');
}

#[test]
fn parse_invalid_string() {
    let err = "HELLO!".parse::<VDString>();
    assert!(err.is_err());

    let err2 = "O0I1".parse::<VDString>();
    assert!(err2.is_err());
}

#[test]
fn index_returns_correct_char() {
    let s: VDString = "5K7".parse().unwrap();
    assert_eq!(s.symbol_at(0), vd('5'));
    assert_eq!(s.symbol_at(1).as_char(), 'K');
    assert_eq!(s.symbol_at(2).to_string(), "7");
}

#[test]
fn iterates_over_chars() {
    let s: VDString = "X2Z".parse().unwrap();
    let collected: Vec<char> = s.iter().map(|c| c.as_char()).collect();
    assert_eq!(collected, vec!['X', '2', 'Z']);
}

#[test]
fn from_str_and_try_from_match() {
    let a = "Q4V";
    let parsed = a.parse::<VDString>().unwrap();
    let tried = VDString::try_from(a).unwrap();
    assert_eq!(parsed, tried);
}

#[test]
fn parse_round_trip_reference_code() {
    let s = VDString::parse("AB29XY").unwrap();
    assert_eq!(s.as_str(), "AB29XY");
    assert_eq!(s.len(), 6);
}

#[test]
fn parse_reports_first_invalid_char() {
    assert_eq!(VDString::parse("HELLO!"), Err(VDStringError::InvalidChar('L')));
    assert_eq!(VDString::parse("O0I1"), Err(VDStringError::InvalidChar('O')));
    assert_eq!(VDString::parse("ABCO"), Err(VDStringError::InvalidChar('O')));
    assert_eq!(VDString::parse("abc"), Err(VDStringError::InvalidChar('a')));
    assert_eq!(VDString::parse("AB2!x"), Err(VDStringError::InvalidChar('!')));
}

#[test]
fn parse_empty_text_gives_empty_code() {
    let s = VDString::parse("").unwrap();
    assert!(s.is_empty());
    assert_eq!(s.len(), 0);
    assert_eq!(s.as_str(), "");
    assert_eq!(s.as_vdchars().len(), 0);
}

#[test]
fn new_from_empty_vec() {
    let s = VDString::new(Vec::new());
    assert!(s.is_empty());
    assert_eq!(&*s, "");
}

#[test]
fn text_of_symbols_parses_back_to_them() {
    let chars = vec![vd('9'), vd('A'), vd('A'), vd('Z'), vd('3')];
    let s = VDString::new(chars.clone());
    assert_eq!(s.as_str(), "9AAZ3");
    let back = VDString::parse(s.as_str()).unwrap();
    assert_eq!(back.as_vdchars(), &chars[..]);
    assert_eq!(back, s);
}

#[test]
fn clone_keeps_symbols_and_text() {
    let s = VDString::parse("K2Z7").unwrap();
    let c = s.clone();
    assert_eq!(c, s);
    assert_eq!(c.as_str(), "K2Z7");
}

#[test]
fn iteration_restarts() {
    let s = VDString::parse("3MV").unwrap();
    let first: Vec<char> = s.iter().map(|c| c.as_char()).collect();
    let second: Vec<char> = s.iter().map(|c| c.as_char()).collect();
    assert_eq!(first, vec!['3', 'M', 'V']);
    assert_eq!(first, second);
}

#[test]
fn try_from_reports_invalid_char() {
    assert_eq!(VDString::try_from("A1"), Err(VDStringError::InvalidChar('1')));
}

#[test]
fn from_str_deref_and_try_from_agree_with_parse() {
    let a = VDString::from_str("AB29XY").unwrap();
    assert_eq!(&*a, "AB29XY");
    assert_eq!(a.as_vdchars().len(), 6);
    assert_eq!(VDString::from_str("HELLO!"), Err(VDStringError::InvalidChar('L')));
    assert_eq!(VDString::try_from("O0I1"), Err(VDStringError::InvalidChar('O')));
    assert_eq!(VDString::try_from("Q4V").unwrap(), VDString::parse("Q4V").unwrap());
}
