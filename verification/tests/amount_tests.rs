use money_monitor::Amount;

#[test]
fn parse_reads_dot_decimals_into_cents() {
    assert_eq!(Some(Amount::from_cents(-1250)), Amount::parse_euro("-12.50"));
    assert_eq!(Some(Amount::from_cents(1250)), Amount::parse_euro("12.50"));
    assert_eq!(Some(Amount::from_cents(1250)), Amount::parse_euro("+12.50"));
    assert_eq!(Some(Amount::from_cents(1200)), Amount::parse_euro("12"));
    assert_eq!(Some(Amount::from_cents(-1200)), Amount::parse_euro("-12"));
    assert_eq!(Some(Amount::from_cents(350)), Amount::parse_euro("3.5"));
    assert_eq!(Some(Amount::from_cents(105724)), Amount::parse_euro("1057.24"));
    assert_eq!(Some(Amount::from_cents(0)), Amount::parse_euro("0.00"));
}

#[test]
fn parse_rejects_malformed_text() {
    assert_eq!(None, Amount::parse_euro("abc"));
    assert_eq!(None, Amount::parse_euro(""));
    assert_eq!(None, Amount::parse_euro("-"));
    assert_eq!(None, Amount::parse_euro("."));
    assert_eq!(None, Amount::parse_euro("12."));
    assert_eq!(None, Amount::parse_euro(".50"));
    assert_eq!(None, Amount::parse_euro("1.234"));
    assert_eq!(None, Amount::parse_euro("1.2.3"));
    assert_eq!(None, Amount::parse_euro("-101,00"));
    assert_eq!(None, Amount::parse_euro("12 "));
}

#[test]
fn parse_rejects_magnitudes_beyond_the_cent_count() {
    assert_eq!(None, Amount::parse_euro("92233720368547758.08"));
    assert_eq!(
        Some(Amount::from_cents(i64::MAX)),
        Amount::parse_euro("92233720368547758.07")
    );
    assert_eq!(
        Some(Amount::from_cents(-i64::MAX)),
        Amount::parse_euro("-92233720368547758.07")
    );
    assert_eq!(None, Amount::parse_euro("99999999999999999999999999"));
}

#[test]
fn display_always_shows_two_fraction_digits() {
    assert_eq!("1057.20€", Amount::from_cents(105720).to_display_string());
    assert_eq!("-101.00€", Amount::from_cents(-10100).to_display_string());
    assert_eq!("0.00€", Amount::from_cents(0).to_display_string());
    assert_eq!("-0.05€", Amount::from_cents(-5).to_display_string());
    assert_eq!("3.50€", Amount::parse_euro("3.5").unwrap().to_display_string());
}

#[test]
fn cents_round_trip_through_the_accessor() {
    assert_eq!(-1250, Amount::from_cents(-1250).cents());
    assert_eq!(-1250, Amount::parse_euro("-12.50").unwrap().cents());
}
