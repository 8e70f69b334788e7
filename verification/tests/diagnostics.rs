//! Tests of the furthest-progress error tracker, ranges, and error
//! reporting helpers.

use piston_meta::ParseError;
use piston_meta::ParseErrorHandler;
use piston_meta::Range;
use piston_meta::err_update;
use piston_meta::ret_err;

#[test]
fn ret_err_keeps_furthest() {
    let shallow = (Range::new(0, 2), ParseError::ExpectedWhitespace(1));
    let deep = (Range::new(5, 0), ParseError::ExpectedNumber(2));
    // The recorded candidate ends further: it wins.
    assert_eq!(ret_err(shallow.clone(), Some(deep.clone())), deep);
    // The new candidate ends further: it wins.
    assert_eq!(ret_err(deep.clone(), Some(shallow.clone())), deep);
    // No recorded candidate: the new one is returned.
    assert_eq!(ret_err(shallow.clone(), None), shallow);
}

#[test]
fn ret_err_tie_keeps_recorded() {
    let first = (Range::new(1, 2), ParseError::ExpectedNumber(1));
    let second = (Range::new(3, 0), ParseError::ExpectedText(2));
    // Both end at offset three; the previously recorded one is kept.
    assert_eq!(ret_err(second.clone(), Some(first.clone())), first);
}

#[test]
fn err_update_keeps_furthest() {
    let shallow = (Range::new(0, 1), ParseError::ExpectedWhitespace(1));
    let deep = (Range::new(4, 1), ParseError::ExpectedNumber(2));

    let mut opt_error = None;
    err_update(Some(shallow.clone()), &mut opt_error);
    assert_eq!(opt_error, Some(shallow.clone()));

    err_update(Some(deep.clone()), &mut opt_error);
    assert_eq!(opt_error, Some(deep.clone()));

    // A shallower candidate does not replace a deeper one.
    err_update(Some(shallow.clone()), &mut opt_error);
    assert_eq!(opt_error, Some(deep.clone()));

    // No candidate leaves the record alone.
    err_update(None, &mut opt_error);
    assert_eq!(opt_error, Some(deep));
}

#[test]
fn ends_intersect() {
    let a: Range = Range::new(2, 3);
    let b = Range::new(5, 3);
    let c = a.ends_intersect(&b);
    assert_eq!(c, Some(Range::new(5, 0)));
    let c = b.ends_intersect(&a);
    assert_eq!(c, Some(Range::new(5, 0)));
    // Strictly apart ranges do not intersect.
    let d = Range::new(9, 1);
    assert_eq!(a.ends_intersect(&d), None);
}

#[test]
fn error_handler_lines() {
    let handler = ParseErrorHandler::new("ab\ncd\n\nx");
    assert_eq!(
        handler.lines,
        vec![
            Range::new(0, 2),
            Range::new(3, 2),
            Range::new(6, 0),
            Range::new(7, 1),
        ]
    );
    // A trailing newline yields a final empty line.
    let handler = ParseErrorHandler::new("a\n");
    assert_eq!(handler.lines, vec![Range::new(0, 1), Range::new(2, 0)]);
}
