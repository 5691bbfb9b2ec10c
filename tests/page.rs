use drivers::page::{parse_pagination, parse_range, Page, Pagination, ACCEPT_RANGES};

#[test]
fn test_parse_range() {
    let p = Page::from_range_header(None).unwrap();
    assert_eq!(p.num, 1);
    assert_eq!(p.per, 20);

    let p = Page::from_range_header(Some("page=2")).unwrap();
    assert_eq!(p.num, 2);
    assert_eq!(p.per, 20);

    let p = Page::from_range_header(Some("page=3-50")).unwrap();
    assert_eq!(p.num, 3);
    assert_eq!(p.per, 50);

    let res = Page::from_range_header(Some("2"));
    assert!(res.is_err());
    assert_eq!(res.unwrap_err().to_string(), "Invalid range type: 2");

    let res = Page::from_range_header(Some("bytes=2-10,33-"));
    assert!(res.is_err());
    assert_eq!(res.unwrap_err().to_string(), "Invalid range type: bytes");

    let res = Page::from_range_header(Some("page=2-10,33-"));
    assert!(res.is_err());
    assert_eq!(res.unwrap_err().to_string(), "Extra invalid range: 33-");
}

#[test]
fn test_pagination() {
    let p = Page::default();
    assert_eq!(p.start(), 0);
    assert_eq!(p.stop(), 19);

    let p = Page { num: 1, per: 2 };
    assert_eq!(p.start(), 0);
    assert_eq!(p.stop(), 1);

    let p = Page { num: 2, per: 10 };
    assert_eq!(p.start(), 10);
    assert_eq!(p.stop(), 19);

    let mut p = Page::default();
    p.num = 2;

    assert_eq!(p.start(), 20);
    assert_eq!(p.stop(), 39);
}

#[test]
fn page_zero_counts_as_first() {
    let p = Page { num: 0, per: 20 };
    assert_eq!(p.start(), 0);
    assert_eq!(p.stop(), 19);
}

#[test]
fn largest_page_bounds() {
    let p = Page { num: u32::MAX, per: u16::MAX };
    assert_eq!(p.start(), (u32::MAX as i64 - 1) * u16::MAX as i64);
    assert_eq!(p.stop(), (u32::MAX as i64 - 1) * u16::MAX as i64 + u16::MAX as i64 - 1);
}

#[test]
fn range_parts_are_optional() {
    let p = parse_range("page=-50").unwrap();
    assert_eq!((p.num, p.per), (1, 50));
    let p = parse_range("page=4-").unwrap();
    assert_eq!((p.num, p.per), (4, 20));
    let p = parse_range("page=").unwrap();
    assert_eq!((p.num, p.per), (1, 20));
    let p = parse_range("page=+7-+8").unwrap();
    assert_eq!((p.num, p.per), (7, 8));
}

#[test]
fn range_errors() {
    assert_eq!(parse_range("page").unwrap_err().to_string(), "Invalid range");
    assert_eq!(parse_range("").unwrap_err().to_string(), "Invalid range type: ");
    assert_eq!(parse_range("page=a-2").unwrap_err().to_string(), "invalid digit found in string");
    assert_eq!(parse_range("page=1-70000").unwrap_err().to_string(), "number too large to fit in target type");
    assert_eq!(parse_range("page=1-2-3").unwrap_err().to_string(), "invalid digit found in string");
    assert_eq!(parse_range("page=+-2").unwrap_err().to_string(), "invalid digit found in string");
    assert_eq!(parse_range("page=1,2,3").unwrap_err().to_string(), "Extra invalid range: 2");
}

#[test]
fn pagination_recomputes_last_page() {
    let p = Page { num: 5, per: 10 }.to_pagination(23);
    assert_eq!((p.page.num, p.page.per, p.total), (3, 10, 23));
    let p = Page { num: 2, per: 10 }.to_pagination(23);
    assert_eq!((p.page.num, p.page.per, p.total), (2, 10, 23));
    let p = Page { num: 3, per: 10 }.to_pagination(25);
    assert_eq!((p.page.num, p.page.per), (3, 10));
    let p = Page { num: 1, per: 20 }.to_pagination(0);
    assert_eq!((p.page.num, p.page.per, p.total), (1, 20, 0));
}

#[test]
fn content_range_reads_back() {
    let p = Pagination { page: Page { num: 2, per: 40 }, total: 81 };
    assert_eq!(p.content_range(), "page 2-40/81");
    assert_eq!(ACCEPT_RANGES, "page");
    let back = parse_pagination(&p.content_range()).unwrap();
    assert_eq!(back, p);
    let q = Pagination { page: Page { num: u32::MAX, per: 0 }, total: i64::MIN };
    assert_eq!(parse_pagination(&q.content_range()).unwrap(), q);
}

#[test]
fn content_range_errors() {
    assert_eq!(parse_pagination("bytes 1-2/3").unwrap_err().to_string(), "Invalid range type: bytes");
    assert_eq!(parse_pagination("page").unwrap_err().to_string(), "Invalid range");
    assert_eq!(parse_pagination("page 1-2").unwrap_err().to_string(), "Invalid range");
    assert_eq!(parse_pagination("page -2/3").unwrap_err().to_string(), "cannot parse integer from empty string");
    let p = parse_pagination("page 3/9").unwrap();
    assert_eq!((p.page.num, p.page.per, p.total), (3, 20, 9));
}
