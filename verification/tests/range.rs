use acdatservice::range::parse_range_header;

#[test]
fn range_with_both_ends() {
    assert_eq!(parse_range_header("bytes=0-499"), Some((0, 499)));
    assert_eq!(parse_range_header("bytes=1-23"), Some((1, 23)));
    assert_eq!(parse_range_header("bytes=500-0"), Some((500, 0)));
}

#[test]
fn range_with_plus_signs_and_zeros() {
    assert_eq!(parse_range_header("bytes=+1-+2"), Some((1, 2)));
    assert_eq!(parse_range_header("bytes=007-0010"), Some((7, 10)));
}

#[test]
fn range_at_the_limit_of_u64() {
    assert_eq!(
        parse_range_header("bytes=0-18446744073709551615"),
        Some((0, u64::MAX))
    );
    assert_eq!(parse_range_header("bytes=0-18446744073709551616"), None);
    assert_eq!(parse_range_header("bytes=18446744073709551616-1"), None);
    assert_eq!(parse_range_header("bytes=0-99999999999999999999999"), None);
}

#[test]
fn range_of_another_shape_is_none() {
    for header in [
        "",
        "bytes",
        "bytes=",
        "bytes=-",
        "bytes=1-",
        "bytes=-1",
        "bytes=1",
        "bytes=1-2-3",
        "bytes=1--2",
        "bytes=1-2=",
        "bytes==1-2",
        "bytes=a-b",
        "bytes=1 - 2",
        "bytes= 1-2",
        "Bytes=1-2",
        "items=1-2",
        "xbytes=1-2",
        "bytes=1-2 ",
        "bytes=+-1",
        "bytes=1.0-2",
        "bytes=\u{e9}-2",
        "bytes=1-\u{663}",
    ] {
        assert_eq!(parse_range_header(header), None, "{:?}", header);
    }
}
