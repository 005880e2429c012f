use invoicemd_cli::date::Date;
use invoicemd_cli::decimal::Dec;
use invoicemd_cli::invoice::{
    InvoiceDocument, InvoiceMeta, LineItem, OutputOptions, Party, Totals,
};
use invoicemd_cli::render::{
    build_context, build_renderer, filename_template, party_view,
    render_invoice_html, render_output_filename, sanitize_filename, try_build_context,
    try_render_output_filename, FilenameError, RenderError, DEFAULT_FILENAME_TEMPLATE,
};
use rust_decimal::Decimal;
use std::str::FromStr;

fn dec(value: &str) -> Dec {
    let d = Decimal::from_str(value).unwrap();
    Dec::new(d.mantissa(), d.scale()).unwrap()
}

fn party(name: &str, address: &str) -> Party {
    Party {
        name: name.into(),
        address: address.into(),
        email: None,
        phone: None,
        tax_id: None,
    }
}

fn sample_doc() -> InvoiceDocument {
    InvoiceDocument {
        invoice: InvoiceMeta {
            number: 7,
            date: Date::from_ymd_opt(2026, 3, 15).unwrap(),
            due_date: None,
            currency: Some("USD".into()),
            payment_terms: None,
        },
        company: party("Acme Corporation", "123 Main St"),
        client: party("Client Co", "456 Oak Ave"),
        line_items: vec![LineItem {
            description: "Consulting".into(),
            quantity: dec("2"),
            unit_price: dec("100"),
            amount: None,
        }],
        totals: Totals::default(),
        notes: vec![],
        output: OutputOptions::default(),
    }
}

/// The document as `minimal.yaml` describes it: Beta Labs LLC, invoice 42 of
/// 2026-01-15, 450.00 of work taxed at 8.25%.
fn minimal_doc() -> InvoiceDocument {
    let mut doc = sample_doc();
    doc.invoice.number = 42;
    doc.invoice.date = Date::from_ymd_opt(2026, 1, 15).unwrap();
    doc.company = party("Beta Labs LLC", "1 Beta Way");
    doc.line_items = vec![LineItem {
        description: "Research".into(),
        quantity: dec("3"),
        unit_price: dec("150.00"),
        amount: None,
    }];
    doc.totals.tax_rate = Some(dec("0.0825"));
    doc
}

#[test]
fn default_filename_template_matches_spec() {
    let doc = sample_doc();
    let filename = render_output_filename(&doc, DEFAULT_FILENAME_TEMPLATE).unwrap();
    assert_eq!(filename, "acmec-20260315-0007.html");
}

#[test]
fn regression_filename_template_rejects_path_separators() {
    let doc = minimal_doc();
    let err = render_output_filename(&doc, "{{ company_slug }}/{{ invoice_number }}.html")
        .err()
        .expect("path separators should be rejected");
    match err {
        RenderError::Filename(e) => assert!(e.message().contains("path separators")),
        other => panic!("unexpected error: {other:?}"),
    }
}

#[test]
fn regression_company_slug_strips_non_alphanumeric_prefix() {
    let mut doc = sample_doc();
    doc.company.name = "123 Numbers Unlimited".into();
    doc.invoice.number = 9;
    doc.invoice.date = Date::from_ymd_opt(2026, 5, 1).unwrap();
    assert_eq!(doc.company_slug(), "123nu");
    let filename = render_output_filename(&doc, DEFAULT_FILENAME_TEMPLATE).unwrap();
    assert_eq!(filename, "123nu-20260501-0009.html");
}

#[test]
fn context_holds_computed_totals() {
    let c = build_context(&minimal_doc());
    assert_eq!(c.totals.subtotal.to_text(), "450.00");
    assert_eq!(c.totals.tax.to_text(), "37.125000");
    assert_eq!(c.totals.total.to_text(), "487.125000");
    assert!(c.totals.has_tax);
    assert_eq!(c.line_items[0].amount.to_text(), "450.00");
    assert_eq!(c.invoice.currency, "USD");
    assert_eq!(c.company.name, "Beta Labs LLC");
    assert_eq!(c.invoice_number, "0042");
    assert_eq!(c.invoice_date, "20260115");
    assert_eq!(c.company_slug, "betal");
}

#[test]
fn context_defaults_currency_and_has_no_tax_without_rate() {
    let mut doc = sample_doc();
    doc.invoice.currency = None;
    let c = try_build_context(&doc).unwrap();
    assert_eq!(c.invoice.currency, "USD");
    assert!(!c.totals.has_tax);
    assert_eq!(c.totals.tax.to_text(), "0");
    assert_eq!(c.totals.total.to_text(), "200");
}

#[test]
fn context_overflow_is_none() {
    let mut doc = sample_doc();
    doc.line_items[0].quantity = Dec::new(79_228_162_514_264_337_593_543_950_335, 0).unwrap();
    assert!(try_build_context(&doc).is_none());
}

#[test]
fn party_view_copies_fields() {
    let mut p = party("N", "A");
    p.email = Some("e@x".into());
    let v = party_view(&p);
    assert_eq!(v.name, "N");
    assert_eq!(v.address, "A");
    assert_eq!(v.email.as_deref(), Some("e@x"));
    assert_eq!(v.phone, None);
}

#[test]
fn filename_template_priority() {
    let mut doc = sample_doc();
    assert_eq!(filename_template(None, &doc), DEFAULT_FILENAME_TEMPLATE);
    doc.output.filename = Some("{{ invoice.number }}.html".into());
    assert_eq!(filename_template(None, &doc), "{{ invoice.number }}.html");
    assert_eq!(filename_template(Some("g.html"), &doc), "g.html");
}

#[test]
fn sanitize_filename_trims_and_refuses() {
    assert_eq!(sanitize_filename("  a.html \n").unwrap(), "a.html");
    assert!(matches!(sanitize_filename(" \t "), Err(FilenameError::Empty)));
    let err = sanitize_filename(" a\\b.html ").err().unwrap();
    assert_eq!(
        err.message(),
        "rendered output filename must not contain path separators: a\\b.html"
    );
    assert_eq!(
        sanitize_filename("").err().unwrap().message(),
        "rendered output filename is empty"
    );
}

#[test]
fn renders_default_html_template() {
    let doc = sample_doc();
    let renderer = build_renderer(None).unwrap();
    let html = render_invoice_html(&renderer, &doc).unwrap();
    assert!(html.contains("Acme Corporation"));
    assert!(html.contains("Invoice #7"));
}

#[test]
fn renderer_names_its_template() {
    assert_eq!(build_renderer(None).unwrap().template_name(), "default.html");
    let custom = build_renderer(Some("<p>{{ client.name }}</p>")).unwrap();
    assert_eq!(custom.template_name(), "invoice.html");
}

#[test]
fn custom_html_template_renders_company_name() {
    let doc = minimal_doc();
    let renderer = build_renderer(Some("<html><body><h1>{{ company.name }}</h1></body></html>")).unwrap();
    let html = render_invoice_html(&renderer, &doc).unwrap();
    assert_eq!(html, "<html><body><h1>Beta Labs LLC</h1></body></html>");
}

#[test]
fn custom_template_that_does_not_parse_is_refused() {
    let err = build_renderer(Some("{% if %}")).err().unwrap();
    assert!(matches!(err, RenderError::Template(_)));
}

#[test]
fn computed_tax_appears_in_rendered_html() {
    let doc = minimal_doc();
    let renderer = build_renderer(None).unwrap();
    let html = render_invoice_html(&renderer, &doc).unwrap();
    assert!(html.contains("USD 450.00"), "expected subtotal in HTML");
    assert!(html.contains("USD 37.125000"), "expected tax in HTML");
    assert!(html.contains("USD 487.125000"), "expected total in HTML");
}

#[test]
fn filename_template_sees_the_whole_context() {
    let mut doc = minimal_doc();
    doc.invoice.number = 12;
    let name = render_output_filename(&doc, "global-{{ invoice.number }}.html").unwrap();
    assert_eq!(name, "global-12.html");
    let name = render_output_filename(&doc, "{{ totals.total }}-{{ invoice.date }}.html").unwrap();
    assert_eq!(name, "487.125000-2026-01-15.html");
    let name = render_output_filename(&doc, "{% if totals.has_tax %}taxed{% endif %}.html").unwrap();
    assert_eq!(name, "taxed.html");
}

#[test]
fn filename_template_errors() {
    let doc = minimal_doc();
    let err = render_output_filename(&doc, "{{ unclosed").err().unwrap();
    assert!(matches!(err, RenderError::FilenameTemplate(_)));
    let err = render_output_filename(&doc, "   ").err().unwrap();
    assert!(matches!(err, RenderError::Filename(FilenameError::Empty)));
    let mut big = sample_doc();
    big.line_items[0].quantity = Dec::new(79_228_162_514_264_337_593_543_950_335, 0).unwrap();
    assert!(try_render_output_filename(&big, DEFAULT_FILENAME_TEMPLATE).is_none());
}

#[test]
fn values_are_not_escaped() {
    let mut doc = sample_doc();
    doc.company.name = "Smith & Sons <Ltd>".into();
    let renderer = build_renderer(Some("{{ company.name }}|{{ client.name }}")).unwrap();
    let html = render_invoice_html(&renderer, &doc).unwrap();
    assert_eq!(html, "Smith & Sons <Ltd>|Client Co");
}
