use invoicemd_cli::date::Date;
use invoicemd_cli::decimal::Dec;
use invoicemd_cli::invoice::{
    InvoiceDocument, InvoiceMeta, LineItem, OutputOptions, Party, Totals, ValidationError,
};
use rust_decimal::Decimal;
use std::str::FromStr;

fn dec(value: &str) -> Dec {
    let d = Decimal::from_str(value).unwrap();
    Dec::new(d.mantissa(), d.scale()).unwrap()
}

fn decimal(d: &Dec) -> Decimal {
    Decimal::from_i128_with_scale(d.mantissa(), d.scale())
}

fn party(name: &str, address: &str) -> Party {
    Party {
        name: name.into(),
        address: address.into(),
        email: None,
        phone: None,
        tax_id: None,
    }
}

fn sample_doc() -> InvoiceDocument {
    InvoiceDocument {
        invoice: InvoiceMeta {
            number: 7,
            date: Date::from_ymd_opt(2026, 3, 15).unwrap(),
            due_date: None,
            currency: Some("USD".into()),
            payment_terms: None,
        },
        company: party("Acme Corporation", "123 Main St"),
        client: party("Client Co", "456 Oak Ave"),
        line_items: vec![LineItem {
            description: "Consulting".into(),
            quantity: dec("2"),
            unit_price: dec("100"),
            amount: None,
        }],
        totals: Totals::default(),
        notes: vec![],
        output: OutputOptions::default(),
    }
}

fn error_of(doc: &InvoiceDocument) -> ValidationError {
    doc.validate().unwrap_err()
}

#[test]
fn validates_happy_path() {
    sample_doc().validate().unwrap();
}

#[test]
fn company_slug_is_first_five_alnum_chars() {
    let doc = sample_doc();
    assert_eq!(doc.company_slug(), "acmec");
}

#[test]
fn rejects_empty_line_items() {
    let mut doc = sample_doc();
    doc.line_items.clear();
    let err = error_of(&doc);
    assert!(err.message().contains("line_items"));
}

#[test]
fn rejects_blank_company_name() {
    let mut doc = sample_doc();
    doc.company.name = "   ".into();
    let err = error_of(&doc);
    assert!(err.message().contains("company.name"));
}

#[test]
fn rejects_due_date_before_issue_date() {
    let mut doc = sample_doc();
    doc.invoice.due_date = Some(Date::from_ymd_opt(2026, 3, 14).unwrap());
    let err = error_of(&doc);
    assert!(err.message().contains("due_date"));
}

#[test]
fn rejects_mismatched_line_item_amount() {
    let mut doc = sample_doc();
    doc.line_items[0].amount = Some(dec("999"));
    let err = error_of(&doc);
    assert!(err.message().contains("line_items[0].amount"));
}

#[test]
fn rejects_zero_quantity() {
    let mut doc = sample_doc();
    doc.line_items[0].quantity = dec("0");
    let err = error_of(&doc);
    assert!(err.message().contains("quantity"));
}

#[test]
fn computed_subtotal_sums_line_items() {
    let doc = sample_doc();
    assert_eq!(decimal(&doc.computed_subtotal()), Decimal::from_str("200").unwrap());
}

#[test]
fn computed_tax_applies_rate_when_tax_not_declared() {
    let mut doc = sample_doc();
    doc.totals.tax_rate = Some(dec("0.10"));
    let subtotal = doc.computed_subtotal();
    assert_eq!(decimal(&doc.computed_tax(subtotal)), Decimal::from_str("20").unwrap());
}

#[test]
fn padded_invoice_number_zero_fills_to_four_digits() {
    let doc = sample_doc();
    assert_eq!(doc.padded_invoice_number(4), "0007");
    assert_eq!(doc.invoice_date_compact(), "20260315");
}

// Further cases of the same functions.

#[test]
fn blank_client_name_is_refused() {
    let mut doc = sample_doc();
    doc.client.name = "\t\n".into();
    assert_eq!(
        error_of(&doc).message(),
        "client.name is required and cannot be blank"
    );
}

#[test]
fn blank_addresses_are_refused_company_first() {
    let mut doc = sample_doc();
    doc.company.address = " ".into();
    doc.client.address = "".into();
    assert_eq!(
        error_of(&doc).message(),
        "company.address is required and cannot be blank"
    );
    doc.company.address = "1 Road".into();
    assert_eq!(
        error_of(&doc).message(),
        "client.address is required and cannot be blank"
    );
}

#[test]
fn unicode_whitespace_counts_as_blank() {
    let mut doc = sample_doc();
    doc.company.name = "\u{3000}\u{a0}".into();
    assert!(matches!(error_of(&doc), ValidationError::BlankCompanyName));
}

#[test]
fn blank_description_names_its_line() {
    let mut doc = sample_doc();
    doc.line_items.push(LineItem {
        description: " ".into(),
        quantity: dec("1"),
        unit_price: dec("1"),
        amount: None,
    });
    assert_eq!(
        error_of(&doc).message(),
        "line_items[1].description cannot be blank"
    );
}

#[test]
fn negative_unit_price_is_refused_but_zero_is_not() {
    let mut doc = sample_doc();
    doc.line_items[0].unit_price = dec("-0.01");
    assert_eq!(
        error_of(&doc).message(),
        "line_items[0].unit_price cannot be negative"
    );
    doc.line_items[0].unit_price = dec("0");
    doc.validate().unwrap();
}

#[test]
fn negative_quantity_is_refused() {
    let mut doc = sample_doc();
    doc.line_items[0].quantity = dec("-1");
    assert_eq!(
        error_of(&doc).message(),
        "line_items[0].quantity must be greater than zero"
    );
}

#[test]
fn amount_mismatch_message_shows_both_values() {
    let mut doc = sample_doc();
    doc.line_items[0].amount = Some(dec("999"));
    assert_eq!(
        error_of(&doc).message(),
        "line_items[0].amount (999) does not match quantity * unit_price (200)"
    );
}

#[test]
fn matching_amount_with_other_scale_is_accepted() {
    let mut doc = sample_doc();
    doc.line_items[0].amount = Some(dec("200.00"));
    doc.validate().unwrap();
}

#[test]
fn due_date_on_issue_date_is_accepted() {
    let mut doc = sample_doc();
    doc.invoice.due_date = Some(Date::from_ymd_opt(2026, 3, 15).unwrap());
    doc.validate().unwrap();
    doc.invoice.due_date = Some(Date::from_ymd_opt(2026, 4, 14).unwrap());
    doc.validate().unwrap();
}

#[test]
fn mismatched_subtotal_is_refused() {
    let mut doc = sample_doc();
    doc.totals.subtotal = Some(dec("150"));
    assert_eq!(
        error_of(&doc).message(),
        "totals.subtotal (150) does not match sum of line items (200)"
    );
    doc.totals.subtotal = Some(dec("200.0"));
    doc.validate().unwrap();
}

#[test]
fn declared_tax_must_match_rate() {
    let mut doc = sample_doc();
    doc.totals.tax_rate = Some(dec("0.10"));
    doc.totals.tax = Some(dec("25"));
    assert_eq!(
        error_of(&doc).message(),
        "totals.tax (25) does not match computed tax (20.00)"
    );
    doc.totals.tax = Some(dec("20"));
    doc.validate().unwrap();
}

#[test]
fn declared_total_must_be_subtotal_plus_tax() {
    let mut doc = sample_doc();
    doc.totals.tax_rate = Some(dec("0.10"));
    doc.totals.total = Some(dec("219.99"));
    assert_eq!(
        error_of(&doc).message(),
        "totals.total (219.99) does not match computed total (220.00)"
    );
    doc.totals.total = Some(dec("220"));
    doc.validate().unwrap();
}

#[test]
fn subtotal_uses_declared_amounts() {
    let mut doc = sample_doc();
    doc.line_items.push(LineItem {
        description: "Travel".into(),
        quantity: dec("1"),
        unit_price: dec("50"),
        amount: Some(dec("50.00")),
    });
    let subtotal = doc.computed_subtotal();
    assert_eq!(subtotal.mantissa(), 25000);
    assert_eq!(subtotal.scale(), 2);
}

#[test]
fn tax_without_rate_is_zero_and_declared_tax_wins() {
    let mut doc = sample_doc();
    let subtotal = doc.computed_subtotal();
    assert_eq!(decimal(&doc.computed_tax(subtotal)), Decimal::ZERO);
    doc.totals.tax = Some(dec("3.5"));
    assert_eq!(decimal(&doc.computed_tax(subtotal)), Decimal::from_str("3.5").unwrap());
}

#[test]
fn total_is_declared_or_sum() {
    let mut doc = sample_doc();
    let total = doc.computed_total(dec("200"), dec("20.00"));
    assert_eq!(total.mantissa(), 22000);
    assert_eq!(total.scale(), 2);
    doc.totals.total = Some(dec("1"));
    assert_eq!(decimal(&doc.computed_total(dec("200"), dec("20"))), Decimal::ONE);
}

#[test]
fn overflowing_arithmetic_is_reported_as_none() {
    let mut doc = sample_doc();
    let huge = Dec::new(79_228_162_514_264_337_593_543_950_335, 0).unwrap();
    doc.line_items[0].quantity = huge;
    doc.line_items[0].unit_price = dec("2");
    assert!(doc.checked_subtotal().is_none());
    assert!(doc.try_validate().is_none());
    doc.line_items[0].amount = Some(dec("1"));
    assert!(doc.try_validate().is_none());
}

#[test]
fn try_validate_agrees_with_validate() {
    let doc = sample_doc();
    assert!(matches!(doc.try_validate(), Some(Ok(()))));
    let mut bad = sample_doc();
    bad.line_items.clear();
    assert!(matches!(bad.try_validate(), Some(Err(ValidationError::NoLineItems))));
}

#[test]
fn slug_skips_punctuation_and_short_names() {
    let mut doc = sample_doc();
    doc.company.name = "123 Numbers, Inc.".into();
    assert_eq!(doc.company_slug(), "123nu");
    doc.company.name = "A-B".into();
    assert_eq!(doc.company_slug(), "ab");
    doc.company.name = "Élan Ünited".into();
    assert_eq!(doc.company_slug(), "lanni");
}

#[test]
fn padded_number_keeps_long_numbers() {
    let mut doc = sample_doc();
    doc.invoice.number = 123456;
    assert_eq!(doc.padded_invoice_number(4), "123456");
    doc.invoice.number = 0;
    assert_eq!(doc.padded_invoice_number(4), "0000");
    assert_eq!(doc.padded_invoice_number(0), "0");
}

#[test]
fn regression_invalid_fixtures_fail_validation() {
    let mut empty_line_items = sample_doc();
    empty_line_items.line_items.clear();

    let mut due_before_issue = sample_doc();
    due_before_issue.invoice.due_date = Some(Date::from_ymd_opt(2026, 3, 1).unwrap());

    let mut mismatched_subtotal = sample_doc();
    mismatched_subtotal.totals.subtotal = Some(dec("250.00"));

    let mut mismatched_line_amount = sample_doc();
    mismatched_line_amount.line_items[0].amount = Some(dec("150.00"));

    for (name, doc) in [
        ("invalid/empty-line-items.yaml", empty_line_items),
        ("invalid/due-before-issue.yaml", due_before_issue),
        ("invalid/mismatched-subtotal.yaml", mismatched_subtotal),
        ("invalid/mismatched-line-amount.yaml", mismatched_line_amount),
    ] {
        let err = doc
            .validate()
            .err()
            .unwrap_or_else(|| panic!("expected validation failure for {}", name));
        let message = err.message();
        assert!(!message.is_empty(), "expected non-empty error for {}", name);
    }
}
