use eurocore::error::Error;
use eurocore::identifier::{dispatch_id, rmbpost_id};

fn none() -> Result<i32, Error> {
    Err(Error::ParseInt("no identifier found".to_string()))
}

fn too_large() -> Result<i32, Error> {
    Err(Error::ParseInt("number too large to fit in target type".to_string()))
}

#[test]
fn dispatch_id_is_the_first_run_of_digits() {
    assert_eq!(dispatch_id("id=42 created"), Ok(42));
    assert_eq!(dispatch_id("42"), Ok(42));
    assert_eq!(dispatch_id("New factbook posted! <a href=\"/page=dispatch/id=1234567\">View</a>"), Ok(1234567));
    assert_eq!(dispatch_id("a1b22"), Ok(1));
    assert_eq!(dispatch_id("007"), Ok(7));
    assert_eq!(dispatch_id("x0"), Ok(0));
    assert_eq!(dispatch_id("2147483647"), Ok(i32::MAX));
}

#[test]
fn dispatch_id_fails_without_a_fitting_number() {
    assert_eq!(dispatch_id(""), none());
    assert_eq!(dispatch_id("created"), none());
    assert_eq!(dispatch_id("2147483648"), too_large());
    assert_eq!(dispatch_id("id=99999999999999999999999999 and 5"), too_large());
}

#[test]
fn rmbpost_id_stands_between_equals_and_hash() {
    assert_eq!(rmbpost_id("Your message has been lodged! <a href=\"/region=x/page=display_region_rmb?postid=567#p567\">"), Ok(567));
    assert_eq!(rmbpost_id("=1#"), Ok(1));
    assert_eq!(rmbpost_id("a=b=12#c=3#"), Ok(12));
    assert_eq!(rmbpost_id("=12 =34# =56#"), Ok(34));
    assert_eq!(rmbpost_id("==7#"), Ok(7));
}

#[test]
fn rmbpost_id_fails_without_a_fitting_number() {
    assert_eq!(rmbpost_id(""), none());
    assert_eq!(rmbpost_id("id=42 created"), none());
    assert_eq!(rmbpost_id("=#"), none());
    assert_eq!(rmbpost_id("=12"), none());
    assert_eq!(rmbpost_id("12#"), none());
    assert_eq!(rmbpost_id("=1a#"), none());
    assert_eq!(rmbpost_id("=2147483648#"), too_large());
    assert_eq!(rmbpost_id("=99999999999999999999# =1#"), too_large());
}
