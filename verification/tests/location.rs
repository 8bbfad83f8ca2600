use solc_ast::misc::{MalformedLocation, SourceLocation};

fn loc(start: Option<usize>, length: Option<usize>, index: Option<usize>) -> SourceLocation {
    SourceLocation { start, length, index }
}

fn refused(text: &str) {
    assert_eq!(
        SourceLocation::from_str(text),
        Err(MalformedLocation { text: text.to_string() }),
        "{:?}",
        text
    );
}

#[test]
fn reads_three_numbers() {
    assert_eq!(SourceLocation::from_str("10:5:0"), Ok(loc(Some(10), Some(5), Some(0))));
    assert_eq!(SourceLocation::from_str("0:0:0"), Ok(loc(Some(0), Some(0), Some(0))));
    assert_eq!(SourceLocation::from_str("1234:56789:12"), Ok(loc(Some(1234), Some(56789), Some(12))));
}

#[test]
fn minus_one_is_unknown() {
    assert_eq!(SourceLocation::from_str("-1:-1:-1"), Ok(loc(None, None, None)));
    assert_eq!(SourceLocation::from_str("3:-1:2"), Ok(loc(Some(3), None, Some(2))));
    assert_eq!(SourceLocation::from_str("-1:7:-1"), Ok(loc(None, Some(7), None)));
}

#[test]
fn any_negative_number_is_unknown() {
    assert_eq!(SourceLocation::from_str("-5:-20:-300"), Ok(loc(None, None, None)));
    let lowest = format!("{}:0:0", isize::MIN);
    assert_eq!(SourceLocation::from_str(&lowest), Ok(loc(None, Some(0), Some(0))));
}

#[test]
fn minus_zero_is_zero() {
    assert_eq!(SourceLocation::from_str("-0:0:-0"), Ok(loc(Some(0), Some(0), Some(0))));
}

#[test]
fn a_plus_sign_and_leading_zeros_are_read() {
    assert_eq!(SourceLocation::from_str("+1:+2:+3"), Ok(loc(Some(1), Some(2), Some(3))));
    assert_eq!(SourceLocation::from_str("007:000:010"), Ok(loc(Some(7), Some(0), Some(10))));
    assert_eq!(SourceLocation::from_str("-007:1:1"), Ok(loc(None, Some(1), Some(1))));
}

#[test]
fn further_integer_fields_are_read_and_not_kept() {
    assert_eq!(SourceLocation::from_str("1:2:3:4"), Ok(loc(Some(1), Some(2), Some(3))));
    assert_eq!(SourceLocation::from_str("1:2:3:4:-5:+6"), Ok(loc(Some(1), Some(2), Some(3))));
}

#[test]
fn a_further_field_that_is_no_integer_is_refused() {
    refused("1:2:3:x");
    refused("1:2:3:");
    refused("1:2:3:not a number:é");
    refused("1:2:3:4:");
    refused("1:2:3:4:five");
    refused("1:2:3::4");
    refused("1:2:3: 4");
}

#[test]
fn the_largest_signed_number_is_read() {
    let text = format!("{}:{}:{}", isize::MAX, isize::MAX, isize::MAX);
    let max = Some(isize::MAX as usize);
    assert_eq!(SourceLocation::from_str(&text), Ok(loc(max, max, max)));
}

#[test]
fn too_few_fields_are_refused() {
    refused("10:5");
    refused("10");
    refused("");
    refused(":");
    refused("10:5 0");
}

#[test]
fn a_field_that_is_no_integer_is_refused() {
    refused("a:b:c");
    refused("1:b:3");
    refused("1:2:c");
    refused("x:2:3");
    refused("1.5:2:3");
    refused("0x10:2:3");
    refused("1:2:3a");
    refused("1:2:é");
}

#[test]
fn an_empty_field_is_refused() {
    refused("::");
    refused(":2:3");
    refused("1::3");
    refused("1:2:");
}

#[test]
fn a_lone_sign_is_refused() {
    refused("-:2:3");
    refused("+:2:3");
    refused("1:--2:3");
    refused("1:+-2:3");
    refused("1:2:3-");
}

#[test]
fn blanks_are_refused() {
    refused(" 1:2:3");
    refused("1 :2:3");
    refused("1: 2:3");
    refused("1:2:3 ");
    refused("1:2:3\n");
}

#[test]
fn a_number_out_of_range_is_refused() {
    let above = format!("{}:0:0", isize::MAX as u128 + 1);
    refused(&above);
    let below = format!("-{}:0:0", isize::MAX as u128 + 2);
    refused(&below);
    refused("99999999999999999999999999999999999999999999:0:0");
    refused("0:0:-99999999999999999999999999999999999999999999");
    refused("0:340282366920938463463374607431768211456:0");
}

#[test]
fn many_leading_zeros_do_not_overflow() {
    assert_eq!(
        SourceLocation::from_str("0000000000000000000000000000000000000000000000000000000007:1:2"),
        Ok(loc(Some(7), Some(1), Some(2)))
    );
}

#[test]
fn the_error_carries_the_text() {
    match SourceLocation::from_str("10:5") {
        Err(e) => assert_eq!(e.text, "10:5"),
        Ok(l) => panic!("read {:?}", l),
    }
}

#[test]
fn the_error_says_what_is_wrong() {
    match SourceLocation::from_str("a:b:c") {
        Err(e) => assert_eq!(e.message(), "a:b:c invalid source location"),
        Ok(l) => panic!("read {:?}", l),
    }
    assert_eq!(MalformedLocation { text: String::new() }.message(), " invalid source location");
}

#[test]
fn writes_numbers_and_minus_one() {
    assert_eq!(loc(Some(10), Some(5), Some(0)).to_string(), "10:5:0");
    assert_eq!(loc(None, None, None).to_string(), "-1:-1:-1");
    assert_eq!(loc(Some(10), None, Some(3)).to_string(), "10:-1:3");
    assert_eq!(loc(Some(0), Some(100), Some(9)).to_string(), "0:100:9");
    assert_eq!(loc(Some(1234567890), Some(10), Some(11)).to_string(), "1234567890:10:11");
}

#[test]
fn writes_the_largest_number() {
    let text = format!("{}:-1:0", usize::MAX);
    assert_eq!(loc(Some(usize::MAX), None, Some(0)).to_string(), text);
}

#[test]
fn reading_what_was_written_gives_the_location_again() {
    let samples = vec![
        loc(None, None, None),
        loc(Some(0), Some(0), Some(0)),
        loc(Some(1), None, Some(2)),
        loc(None, Some(99), None),
        loc(Some(9), Some(10), Some(11)),
        loc(Some(100), Some(1000), Some(10000)),
        loc(Some(isize::MAX as usize), Some(isize::MAX as usize - 1), None),
    ];
    for l in samples {
        assert_eq!(SourceLocation::from_str(&l.to_string()), Ok(l.clone()), "{:?}", l);
    }
}

#[test]
fn writing_what_was_read_from_a_canonical_text_gives_the_text_again() {
    let samples = vec!["0:0:0", "-1:-1:-1", "10:5:0", "1:-1:2", "123456:7:89", "9:99:999", "100:20:3"];
    for text in samples {
        match SourceLocation::from_str(text) {
            Ok(l) => assert_eq!(l.to_string(), text),
            Err(e) => panic!("refused {:?}", e),
        }
    }
}

#[test]
fn a_text_that_is_not_canonical_is_normalised() {
    let pairs = vec![("007:+5:-0", "7:5:0"), ("-5:1:2", "-1:1:2"), ("1:2:3:4", "1:2:3")];
    for (text, written) in pairs {
        match SourceLocation::from_str(text) {
            Ok(l) => assert_eq!(l.to_string(), written),
            Err(e) => panic!("refused {:?}", e),
        }
    }
}

#[test]
fn a_number_above_the_signed_range_is_written_but_not_read_back() {
    let l = loc(Some(usize::MAX), Some(0), Some(0));
    let text = l.to_string();
    assert_eq!(SourceLocation::from_str(&text), Err(MalformedLocation { text: text.clone() }));
}
