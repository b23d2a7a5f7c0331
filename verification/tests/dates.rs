use qif_parser::{parse_date, QifParsingError};

fn invalid(text: &str, pattern: &str) -> Result<String, QifParsingError> {
    Err(QifParsingError::InvalidDate(text.to_string(), pattern.to_string()))
}

fn date(text: &str) -> Result<String, QifParsingError> {
    Ok(text.to_string())
}

#[test]
fn day_and_month_follow_the_pattern() {
    assert_eq!(parse_date("03/03/10", "%d/%m/%y"), date("2010-03-03"));
    assert_eq!(parse_date("03/03/10", "%m/%d/%y"), date("2010-03-03"));
    assert_eq!(parse_date("04/03/10", "%d/%m/%y"), date("2010-03-04"));
    assert_eq!(parse_date("04/03/10", "%m/%d/%y"), date("2010-04-03"));
    assert_eq!(parse_date("25/12/2021", "%d/%m/%Y"), date("2021-12-25"));
}

#[test]
fn two_digit_years_turn_at_sixty_nine() {
    assert_eq!(parse_date("01/01/00", "%d/%m/%y"), date("2000-01-01"));
    assert_eq!(parse_date("01/01/68", "%d/%m/%y"), date("2068-01-01"));
    assert_eq!(parse_date("01/01/69", "%d/%m/%y"), date("1969-01-01"));
    assert_eq!(parse_date("01/01/99", "%d/%m/%y"), date("1999-01-01"));
}

#[test]
fn canonical_dates_read_as_themselves() {
    for text in ["2010-03-03", "1969-12-31", "2068-02-29", "0000-01-01", "9999-12-31"] {
        assert_eq!(parse_date(text, "%Y-%m-%d"), date(text));
    }
    let once = parse_date("7/4/76", "%m/%d/%y").unwrap();
    assert_eq!(once, "1976-07-04");
    assert_eq!(parse_date(&once, "%Y-%m-%d"), date("1976-07-04"));
}

#[test]
fn one_digit_days_and_months_are_read() {
    assert_eq!(parse_date("3/4/2010", "%d/%m/%Y"), date("2010-04-03"));
    assert_eq!(parse_date("3/12/10", "%m/%d/%y"), date("2010-03-12"));
    assert_eq!(parse_date("030410", "%d%m%y"), date("2010-04-03"));
}

#[test]
fn text_that_does_not_follow_the_pattern_is_refused() {
    assert_eq!(parse_date("", "%d/%m/%Y"), invalid("", "%d/%m/%Y"));
    assert_eq!(parse_date("03/03", "%d/%m/%y"), invalid("03/03", "%d/%m/%y"));
    assert_eq!(parse_date("03/03/10/1", "%d/%m/%y"), invalid("03/03/10/1", "%d/%m/%y"));
    assert_eq!(parse_date("03-03-10", "%d/%m/%y"), invalid("03-03-10", "%d/%m/%y"));
    assert_eq!(parse_date("03/03/2010", "%d/%m/%y"), invalid("03/03/2010", "%d/%m/%y"));
    assert_eq!(parse_date("03/03/10", "%d/%m/%Y"), invalid("03/03/10", "%d/%m/%Y"));
    assert_eq!(parse_date("03/03/1", "%d/%m/%y"), invalid("03/03/1", "%d/%m/%y"));
    assert_eq!(parse_date("aa/03/10", "%d/%m/%y"), invalid("aa/03/10", "%d/%m/%y"));
    assert_eq!(parse_date(" 03/03/10", "%d/%m/%y"), invalid(" 03/03/10", "%d/%m/%y"));
    assert_eq!(parse_date("03/03/10 ", "%d/%m/%y"), invalid("03/03/10 ", "%d/%m/%y"));
}

#[test]
fn days_that_the_calendar_lacks_are_refused() {
    assert_eq!(parse_date("01/13/10", "%d/%m/%y"), invalid("01/13/10", "%d/%m/%y"));
    assert_eq!(parse_date("31/04/10", "%d/%m/%y"), invalid("31/04/10", "%d/%m/%y"));
    assert_eq!(parse_date("00/04/10", "%d/%m/%y"), invalid("00/04/10", "%d/%m/%y"));
    assert_eq!(parse_date("04/00/10", "%d/%m/%y"), invalid("04/00/10", "%d/%m/%y"));
    assert_eq!(parse_date("32/01/10", "%d/%m/%y"), invalid("32/01/10", "%d/%m/%y"));
    assert_eq!(parse_date("30/04/10", "%d/%m/%y"), date("2010-04-30"));
    assert_eq!(parse_date("31/12/10", "%d/%m/%y"), date("2010-12-31"));
}

#[test]
fn the_twenty_ninth_of_february_needs_a_leap_year() {
    assert_eq!(parse_date("29/02/2012", "%d/%m/%Y"), date("2012-02-29"));
    assert_eq!(parse_date("29/02/2000", "%d/%m/%Y"), date("2000-02-29"));
    assert_eq!(parse_date("29/02/1900", "%d/%m/%Y"), invalid("29/02/1900", "%d/%m/%Y"));
    assert_eq!(parse_date("29/02/2011", "%d/%m/%Y"), invalid("29/02/2011", "%d/%m/%Y"));
    assert_eq!(parse_date("28/02/2011", "%d/%m/%Y"), date("2011-02-28"));
}

#[test]
fn a_pattern_must_read_day_month_and_year_once() {
    assert_eq!(parse_date("03/03", "%d/%m"), invalid("03/03", "%d/%m"));
    assert_eq!(parse_date("03/03/10/10", "%d/%m/%y/%y"), invalid("03/03/10/10", "%d/%m/%y/%y"));
    assert_eq!(parse_date("03/03/10", "%d/%d/%y"), invalid("03/03/10", "%d/%d/%y"));
    assert_eq!(parse_date("03/03/10", "%d/%m/%x"), invalid("03/03/10", "%d/%m/%x"));
    assert_eq!(parse_date("03/03/10%", "%d/%m/%y%"), invalid("03/03/10%", "%d/%m/%y%"));
    assert_eq!(parse_date("", ""), invalid("", ""));
}
