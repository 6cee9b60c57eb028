use money_monitor::date::Date;
use money_monitor::date::Month;
use money_monitor::from_boursobank_csv;
use money_monitor::Amount;
use money_monitor::BankLine;

fn line(
    label: &str,
    category: Vec<&str>,
    supplier: &str,
    amount_cents: i64,
    account_number: u32,
) -> BankLine {
    BankLine::new(
        Date::new(26, Month::August, 2025).unwrap(),
        Date::new(26, Month::August, 2025).unwrap(),
        label.to_string(),
        category.into_iter().map(|c| c.to_string()).collect(),
        supplier.to_string(),
        Amount::from_cents(amount_cents),
        "".to_string(),
        account_number,
        "BoursoBank".to_string(),
        Amount::from_cents(105724),
    )
}

#[test]
fn boursobank_export_with_header_yields_its_data_rows() {
    let csv = "dateOp;dateVal;label;category;categoryParent;supplierFound;amount;comment;accountNum;accountLabel;accountbalance
2025-08-26;2025-08-26;\"FOO1\";\"Bâr\";\"Bâr\";\"BAZ\";-101,00;;42;BoursoBank;1057.24
2025-08-26;2025-08-26;\"FOO2\";\"Bär\";\"Bäär\";\"baz\";-12,50;;42;BoursoBank;1057.24";

    let lines = from_boursobank_csv(csv.as_bytes());

    let line1 = line("FOO1", vec!["Bâr", "Bâr"], "BAZ", -10100, 42);
    let line2 = line("FOO2", vec!["Bäär", "Bär"], "baz", -1250, 42);
    assert_eq!(vec![line1, line2], lines);
}

#[test]
fn one_valid_row_among_two_yields_one_record() {
    let csv = "2025-08-26;2025-08-26;\"FOO1\";\"Bâr\";\"Bâr\";\"BAZ\";-101,00;;42;BoursoBank;1057.24
not;a;valid;row";

    let lines = from_boursobank_csv(csv.as_bytes());

    assert_eq!(1, lines.len());
    let got = &lines[0];
    assert_eq!(&Date::new(26, Month::August, 2025).unwrap(), got.get_date_op());
    assert_eq!("FOO1", got.get_label());
    assert_eq!(
        &vec!["Bâr".to_string(), "Bâr".to_string()],
        got.get_category()
    );
    assert_eq!(Amount::from_cents(-10100), got.get_amount());
    assert_eq!(42, got.get_account_number());
}

#[test]
fn a_non_numeric_account_number_drops_only_its_row() {
    let csv = "2025-08-26;2025-08-26;\"FOO1\";\"Bâr\";\"Bâr\";\"BAZ\";-101,00;;42;BoursoBank;1057.24
2025-08-26;2025-08-26;\"FOO2\";\"Bär\";\"Bäär\";\"baz\";-12,50;;4x2;BoursoBank;1057.24
2025-08-26;2025-08-26;\"FOO3\";\"Bâr\";\"Bâr\";\"BAZ\";5,00;;7;BoursoBank;1057.24";

    let lines = from_boursobank_csv(csv.as_bytes());

    let line1 = line("FOO1", vec!["Bâr", "Bâr"], "BAZ", -10100, 42);
    let line3 = line("FOO3", vec!["Bâr", "Bâr"], "BAZ", 500, 7);
    assert_eq!(vec![line1, line3], lines);
}

#[test]
fn empty_input_yields_an_empty_result_not_a_failure() {
    let lines = from_boursobank_csv(b"");
    assert!(lines.is_empty());
}

#[test]
fn garbage_input_yields_an_empty_result() {
    let lines = from_boursobank_csv(b"this is not a bank export\nnot;even;close");
    assert!(lines.is_empty());
}

#[test]
fn quoted_fields_keep_embedded_delimiters_and_quotes() {
    let csv = "2025-08-26;2025-08-26;\"a;b\";\"say \"\"hi\"\"\";\"Bâr\";\"BAZ\";-101,00;;42;BoursoBank;1057.24";

    let lines = from_boursobank_csv(csv.as_bytes());

    assert_eq!(1, lines.len());
    assert_eq!("a;b", lines[0].get_label());
    assert_eq!(
        &vec!["Bâr".to_string(), "say \"hi\"".to_string()],
        lines[0].get_category()
    );
}

#[test]
fn a_record_hands_back_what_it_was_built_from() {
    let built = BankLine::new(
        Date::new(1, Month::January, 2020).unwrap(),
        Date::new(2, Month::January, 2020).unwrap(),
        "label".to_string(),
        vec!["parent".to_string(), "child".to_string()],
        "shop".to_string(),
        Amount::from_cents(-999),
        "a note".to_string(),
        123,
        "Main".to_string(),
        Amount::from_cents(100000),
    );
    assert_eq!(&Date::new(1, Month::January, 2020).unwrap(), built.get_date_op());
    assert_eq!(&Date::new(2, Month::January, 2020).unwrap(), built.get_date_val());
    assert_eq!("label", built.get_label());
    assert_eq!(
        &vec!["parent".to_string(), "child".to_string()],
        built.get_category()
    );
    assert_eq!("shop", built.get_sender_reciever());
    assert_eq!(Amount::from_cents(-999), built.get_amount());
    assert_eq!("a note", built.get_comment());
    assert_eq!(123, built.get_account_number());
    assert_eq!("Main", built.get_account_label());
    assert_eq!(Amount::from_cents(100000), built.get_account_balance());
}
