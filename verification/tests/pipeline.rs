use std::io::Write;

use satr::amount::{parse_amount, Amount};
use satr::bill::{Tax, TaxType};
use satr::bill_extractor::{sort_by_date, BillExtractor, Config, DateConfig, SubjectType};
use satr::datetime::{parse_datetime, Date, DateTime};
use satr::parse::{
    parse_bill, ParseError, RawBill, RawConcept, RawConcepts, RawTax, RawTaxes,
};
use satr::reporter::{get_result, Reporter, ReportType};
use satr::reporter_factory::{ReportArgs, ReportTypeSubCommand, ReporterFactory, Subject};
use satr::xml_extractor::{classify_name, FileKind, SourceFile, XmlExtractor};

fn make_zip_bytes(entries: &[(&str, &[u8])]) -> Vec<u8> {
    let cursor = std::io::Cursor::new(Vec::new());
    let mut w = zip::ZipWriter::new(cursor);
    for (name, content) in entries {
        w.start_file(*name, zip::write::SimpleFileOptions::default())
            .expect("start entry");
        w.write_all(content).expect("write entry");
    }
    w.finish().expect("finish archive").into_inner()
}

fn make_zip(entries: &[(&str, &str)]) -> Vec<u8> {
    let byte_entries: Vec<(&str, &[u8])> =
        entries.iter().map(|(n, c)| (*n, c.as_bytes())).collect();
    make_zip_bytes(&byte_entries)
}

fn amount(units: u128) -> Amount {
    Amount { units }
}

fn dt(year: u32, month: u32, day: u32, hour: u32, minute: u32, second: u32) -> DateTime {
    DateTime {
        year,
        month,
        day,
        hour,
        minute,
        second,
    }
}

fn raw_bill(emisor_rfc: &str, receptor_rfc: &str, date: &str, subtotal: &str, total: &str) -> RawBill {
    RawBill {
        version: "4.0".to_string(),
        date: date.to_string(),
        pay_form: "01".to_string(),
        subtotal: subtotal.to_string(),
        currency: "MXN".to_string(),
        total: total.to_string(),
        receipt_type: "I".to_string(),
        exportation: "01".to_string(),
        pay_method: "PUE".to_string(),
        expedition_place: "45000".to_string(),
        emisor: satr::bill::Emisor {
            rfc: emisor_rfc.to_string(),
            name: "Issuer SA".to_string(),
            fiscal_regiment: "601".to_string(),
        },
        recipient: satr::bill::Recipient {
            rfc: receptor_rfc.to_string(),
            name: "Receiver SA".to_string(),
            zip_code: "45000".to_string(),
            fiscal_regiment: "601".to_string(),
            cfdi_use: "G03".to_string(),
        },
        concepts: RawConcepts {
            list: vec![RawConcept {
                key: "01010101".to_string(),
                quantity: "1".to_string(),
                unity_key: "H87".to_string(),
                unity: "Pieza".to_string(),
                description: "Servicio".to_string(),
                unitary_price: subtotal.to_string(),
                value: subtotal.to_string(),
            }],
        },
        taxes: RawTaxes {
            withheld: None,
            carried_forward: Some(vec![RawTax {
                ty: "002".to_string(),
                value: "16.00".to_string(),
            }]),
        },
    }
}

fn config(rfc: &str, subject: SubjectType, start: Date, end: Date) -> Config {
    Config {
        subject_rfc: rfc.to_string(),
        subject_type: subject,
        dates: DateConfig {
            date_start: start.start_of_day(),
            date_end: end.start_of_day(),
        },
    }
}

#[test]
fn zip_extract_works() {
    let bytes = make_zip(&[("factura.xml", "<Comprobante/>")]);
    let files_content =
        XmlExtractor::extract_from_zip(&bytes).expect("Error al extraer los  archivos XML");
    assert!(files_content.len() > 0);
}

#[test]
fn date_time_parse_works() {
    let datetime_str = "2024-04-05T18:09:06";
    let datetime = parse_datetime(datetime_str).expect("Error al parsear la fecha");
    println!("{:?}", datetime);
}

#[test]
fn archive_unwrap_yields_exactly_documents() {
    let doc_a = "<Comprobante Version=\"4.0\"/>";
    let doc_b = "<Comprobante Version=\"3.3\"/>";
    let bytes = make_zip(&[
        ("a.xml", doc_a),
        ("notes.txt", "not a document"),
        ("b.xml", doc_b),
        ("image.png", "binary-ish"),
    ]);
    let texts = XmlExtractor::extract_from_zip(&bytes).expect("extract");
    assert_eq!(texts.len(), 2);
    assert_eq!(texts[0], doc_a);
    assert_eq!(texts[1], doc_b);
}

#[test]
fn load_all_xmls_mixes_documents_and_archives() {
    let inner = "<Comprobante Total=\"1.00\"/>";
    let bytes = make_zip(&[("inner.xml", inner), ("skip.bin", "xx")]);
    let files = vec![
        SourceFile::Document("<Comprobante Total=\"2.00\"/>".to_string()),
        SourceFile::Archive(bytes),
        SourceFile::Document("<Comprobante Total=\"3.00\"/>".to_string()),
    ];
    let texts = XmlExtractor::load_all_xmls(files).expect("load");
    assert_eq!(texts.len(), 3);
    assert_eq!(texts[0], "<Comprobante Total=\"2.00\"/>");
    assert_eq!(texts[1], inner);
    assert_eq!(texts[2], "<Comprobante Total=\"3.00\"/>");
}

#[test]
fn binary_ineligible_member_is_skipped_not_fatal() {
    let doc = "<Comprobante Version=\"4.0\"/>";
    let binary: &[u8] = &[0xffu8, 0xfe, 0x00, 0x89, 0x50, 0x4e, 0x47, 0x80];
    let bytes = make_zip_bytes(&[("image.png", binary), ("factura.xml", doc.as_bytes())]);
    let texts = XmlExtractor::extract_from_zip(&bytes).expect("extract");
    assert_eq!(texts.len(), 1);
    assert_eq!(texts[0], doc);
}

#[test]
fn non_text_document_entry_is_fatal() {
    let binary: &[u8] = &[0xffu8, 0xfe, 0x00, 0x89];
    let bytes = make_zip_bytes(&[("mangled.xml", binary)]);
    assert!(XmlExtractor::extract_from_zip(&bytes).is_err());
}

#[test]
fn corrupt_archive_is_fatal() {
    let bytes = vec![0x50u8, 0x4b, 0x03, 0x04, 0x00];
    assert!(XmlExtractor::extract_from_zip(&bytes).is_err());
}

#[test]
fn unknown_tax_kind_drops_single_document() {
    let good_one = raw_bill("AAA010101AAA", "BBB010101BBB", "2024-01-10T00:00:00", "100.00", "116.00");
    let mut bad = raw_bill("AAA010101AAA", "BBB010101BBB", "2024-01-11T00:00:00", "100.00", "116.00");
    bad.taxes.carried_forward = Some(vec![RawTax {
        ty: "003".to_string(),
        value: "16.00".to_string(),
    }]);
    let good_two = raw_bill("AAA010101AAA", "BBB010101BBB", "2024-01-12T00:00:00", "100.00", "116.00");

    match parse_bill(bad.clone()) {
        Err(ParseError::UnknownTaxKind) => {}
        other => panic!("expected UnknownTaxKind, got {:?}", other.map(|_| ())),
    }

    let cfg = config(
        "AAA010101AAA",
        SubjectType::Emisor,
        Date { year: 2024, month: 1, day: 1 },
        Date { year: 2024, month: 12, day: 31 },
    );
    let extractor = BillExtractor::new(cfg);
    let bills = extractor.extract_bills(vec![good_one, bad, good_two]);
    assert_eq!(bills.len(), 2);
    assert_eq!(bills[0].date.day, 10);
    assert_eq!(bills[1].date.day, 12);
}

#[test]
fn end_to_end_report_totals() {
    let raws = || {
        vec![
            raw_bill("AAA010101AAA", "CCC010101CCC", "2024-01-10T00:00:00", "100.00", "116.00"),
            raw_bill("AAA010101AAA", "CCC010101CCC", "2024-06-01T00:00:00", "200.00", "232.00"),
        ]
    };
    let wide = Reporter::new(satr::reporter::Config {
        extractor_config: config(
            "AAA010101AAA",
            SubjectType::Emisor,
            Date { year: 2024, month: 1, day: 1 },
            Date { year: 2024, month: 12, day: 31 },
        ),
        report_type: ReportType::Total,
    });
    let result = wide.money_report(raws()).expect("report");
    assert_eq!(result, amount(348_000000));

    let narrow = Reporter::new(satr::reporter::Config {
        extractor_config: config(
            "AAA010101AAA",
            SubjectType::Emisor,
            Date { year: 2024, month: 1, day: 1 },
            Date { year: 2024, month: 2, day: 1 },
        ),
        report_type: ReportType::Total,
    });
    let result = narrow.money_report(raws()).expect("report");
    assert_eq!(result, amount(116_000000));
}

#[test]
fn tax_amounts_sum_both_groups() {
    let mut raw = raw_bill("AAA010101AAA", "BBB010101BBB", "2024-03-01T12:00:00", "100.00", "116.00");
    raw.taxes = RawTaxes {
        withheld: Some(vec![
            RawTax { ty: "001".to_string(), value: "10.00".to_string() },
            RawTax { ty: "002".to_string(), value: "16.00".to_string() },
        ]),
        carried_forward: Some(vec![RawTax { ty: "002".to_string(), value: "8.00".to_string() }]),
    };
    let bill = parse_bill(raw).expect("parse");
    assert_eq!(bill.iva(), amount(24_000000));
    assert_eq!(bill.isr(), amount(10_000000));
    assert_eq!(bill.total(), amount(116_000000));
    assert_eq!(bill.subtotal(), amount(100_000000));

    let mut no_groups = raw_bill("AAA010101AAA", "BBB010101BBB", "2024-03-01T12:00:00", "1.00", "1.00");
    no_groups.taxes = RawTaxes { withheld: None, carried_forward: None };
    let empty_bill = parse_bill(no_groups).expect("parse");
    assert_eq!(empty_bill.iva(), amount(0));
    assert_eq!(empty_bill.isr(), amount(0));
}

#[test]
fn date_filter_inclusive_bounds() {
    let cfg = Config {
        subject_rfc: "AAA010101AAA".to_string(),
        subject_type: SubjectType::Emisor,
        dates: DateConfig {
            date_start: dt(2024, 1, 1, 0, 0, 0),
            date_end: dt(2024, 6, 30, 23, 59, 59),
        },
    };
    let extractor = BillExtractor::new(cfg);
    let at = |date: &str| {
        parse_bill(raw_bill("AAA010101AAA", "BBB010101BBB", date, "1.00", "1.16")).expect("parse")
    };
    assert!(extractor.filter(at("2024-01-01T00:00:00")).is_some());
    assert!(extractor.filter(at("2024-06-30T23:59:59")).is_some());
    assert!(extractor.filter(at("2023-12-31T23:59:59")).is_none());
    assert!(extractor.filter(at("2024-07-01T00:00:00")).is_none());
    assert!(extractor.filter(at("2024-03-15T10:30:00")).is_some());
}

#[test]
fn rfc_must_match_selected_subject() {
    let cfg = config(
        "AAA010101AAA",
        SubjectType::Receptor,
        Date { year: 2024, month: 1, day: 1 },
        Date { year: 2024, month: 12, day: 31 },
    );
    let extractor = BillExtractor::new(cfg);
    let issued_by = parse_bill(raw_bill(
        "AAA010101AAA",
        "BBB010101BBB",
        "2024-01-10T00:00:00",
        "1.00",
        "1.16",
    ))
    .expect("parse");
    let received_by = parse_bill(raw_bill(
        "BBB010101BBB",
        "AAA010101AAA",
        "2024-01-10T00:00:00",
        "1.00",
        "1.16",
    ))
    .expect("parse");
    assert!(extractor.filter(issued_by).is_none());
    assert!(extractor.filter(received_by).is_some());
}

#[test]
fn aggregation_order_independent() {
    let bills: Vec<satr::bill::Bill> = vec![
        parse_bill(raw_bill("A", "B", "2024-01-01T00:00:00", "1.50", "1.74")).unwrap(),
        parse_bill(raw_bill("A", "B", "2024-02-01T00:00:00", "2.25", "2.61")).unwrap(),
        parse_bill(raw_bill("A", "B", "2024-03-01T00:00:00", "3.00", "3.48")).unwrap(),
    ];
    let shuffled = vec![bills[2].clone(), bills[0].clone(), bills[1].clone()];
    let a = get_result(&bills, ReportType::Subtotal).expect("sum");
    let b = get_result(&shuffled, ReportType::Subtotal).expect("sum");
    assert_eq!(a, b);
    assert_eq!(a, amount(6_750000));
}

#[test]
fn parse_amount_exact_values() {
    assert_eq!(parse_amount("116.00"), Some(amount(116_000000)));
    assert_eq!(parse_amount("0.000001"), Some(amount(1)));
    assert_eq!(parse_amount("7"), Some(amount(7_000000)));
    assert_eq!(parse_amount("0.5"), Some(amount(500000)));
    assert_eq!(parse_amount("000116.0"), Some(amount(116_000000)));
}

#[test]
fn parse_amount_rejects_malformed() {
    assert_eq!(parse_amount(""), None);
    assert_eq!(parse_amount("1."), None);
    assert_eq!(parse_amount(".5"), None);
    assert_eq!(parse_amount("1.2345678"), None);
    assert_eq!(parse_amount("12a"), None);
    assert_eq!(parse_amount("-1.00"), None);
    assert_eq!(parse_amount("1 000"), None);
    // one past the largest representable whole value
    assert_eq!(parse_amount("100000000000000000000000001"), None);
    assert_eq!(parse_amount("100000000000000000000000000"), Some(amount(satr::amount::AMOUNT_LIMIT)));
}

#[test]
fn parse_datetime_fields() {
    let d = parse_datetime("2024-04-05T18:09:06").expect("parse");
    assert_eq!(d, dt(2024, 4, 5, 18, 9, 6));
    assert_eq!(parse_datetime("2024-02-29T00:00:00"), Some(dt(2024, 2, 29, 0, 0, 0)));
    assert_eq!(parse_datetime("2023-02-29T00:00:00"), None);
    assert_eq!(parse_datetime("2024-13-01T00:00:00"), None);
    assert_eq!(parse_datetime("2024-04-31T00:00:00"), None);
    assert_eq!(parse_datetime("2024-04-05T24:00:00"), None);
    assert_eq!(parse_datetime("2024-04-05 18:09:06"), None);
    assert_eq!(parse_datetime("2024-4-5T18:09:06"), None);
}

#[test]
fn parse_bill_error_variants() {
    let bad_date = raw_bill("A", "B", "not-a-date", "1.00", "1.16");
    assert_eq!(parse_bill(bad_date).err(), Some(ParseError::BadTimestamp));

    let bad_total = raw_bill("A", "B", "2024-01-01T00:00:00", "1.00", "lots");
    assert_eq!(parse_bill(bad_total).err(), Some(ParseError::BadAmount));

    let mut bad_tax_value = raw_bill("A", "B", "2024-01-01T00:00:00", "1.00", "1.16");
    bad_tax_value.taxes.carried_forward =
        Some(vec![RawTax { ty: "002".to_string(), value: "x".to_string() }]);
    assert_eq!(parse_bill(bad_tax_value).err(), Some(ParseError::BadAmount));

    let mut too_many = raw_bill("A", "B", "2024-01-01T00:00:00", "1.00", "1.16");
    let mut lines = Vec::new();
    for _ in 0..65537 {
        lines.push(RawTax { ty: "002".to_string(), value: "0.01".to_string() });
    }
    too_many.taxes.carried_forward = Some(lines);
    assert_eq!(parse_bill(too_many).err(), Some(ParseError::TooManyTaxes));
}

#[test]
fn tax_type_codes() {
    assert_eq!(TaxType::from_code("001"), Some(TaxType::Isr));
    assert_eq!(TaxType::from_code("002"), Some(TaxType::Iva));
    assert_eq!(TaxType::from_code("003"), None);
    assert_eq!(TaxType::from_code(""), None);
    assert_eq!(TaxType::Isr.code(), "001");
    assert_eq!(TaxType::Iva.code(), "002");
    let t = Tax { ty: TaxType::Iva, value: amount(5) };
    assert_eq!(t.ty, TaxType::Iva);
}

#[test]
fn classify_name_suffixes() {
    assert_eq!(classify_name("factura.xml"), FileKind::Document);
    assert_eq!(classify_name("backup.zip"), FileKind::Archive);
    assert_eq!(classify_name("readme.md"), FileKind::Other);
    assert_eq!(classify_name("xml"), FileKind::Other);
    assert_eq!(classify_name(".xml"), FileKind::Document);
    assert_eq!(classify_name("nested/dir/f.xml"), FileKind::Document);
}

#[test]
fn sort_by_date_orders_ascending() {
    let mk = |date: &str| parse_bill(raw_bill("A", "B", date, "1.00", "1.16")).unwrap();
    let bills = vec![
        mk("2024-06-01T00:00:00"),
        mk("2024-01-10T00:00:00"),
        mk("2024-03-05T12:00:00"),
        mk("2024-01-10T00:00:00"),
    ];
    let sorted = sort_by_date(bills);
    assert_eq!(sorted.len(), 4);
    assert_eq!(sorted[0].date, dt(2024, 1, 10, 0, 0, 0));
    assert_eq!(sorted[1].date, dt(2024, 1, 10, 0, 0, 0));
    assert_eq!(sorted[2].date, dt(2024, 3, 5, 12, 0, 0));
    assert_eq!(sorted[3].date, dt(2024, 6, 1, 0, 0, 0));
}

#[test]
fn date_config_defaults() {
    let now = dt(2025, 10, 12, 9, 30, 0);
    let open_window = DateConfig::init(None, None, now);
    assert_eq!(open_window.date_start, dt(1900, 1, 1, 0, 0, 0));
    assert_eq!(open_window.date_end, now);

    let bounded = DateConfig::init(
        Some(Date { year: 2024, month: 1, day: 1 }),
        Some(Date { year: 2024, month: 12, day: 31 }),
        now,
    );
    assert_eq!(bounded.date_start, dt(2024, 1, 1, 0, 0, 0));
    assert_eq!(bounded.date_end, dt(2024, 12, 31, 0, 0, 0));
}

#[test]
fn from_subject_builds_reporter() {
    let now = dt(2025, 10, 12, 9, 30, 0);
    let subject = Subject::Emisor {
        emisor_rfc: "AAA010101AAA".to_string(),
        report_type: ReportTypeSubCommand::Iva(ReportArgs {
            date_start: Some(Date { year: 2024, month: 1, day: 1 }),
            date_end: None,
        }),
    };
    let reporter = ReporterFactory::from_subject(subject, now);
    assert_eq!(reporter.config.report_type, ReportType::Iva);
    assert_eq!(reporter.config.extractor_config.subject_rfc, "AAA010101AAA");
    assert_eq!(reporter.config.extractor_config.subject_type, SubjectType::Emisor);
    assert_eq!(reporter.config.extractor_config.dates.date_start, dt(2024, 1, 1, 0, 0, 0));
    assert_eq!(reporter.config.extractor_config.dates.date_end, now);

    let receptor = Subject::Receptor {
        receptor_rfc: "BBB010101BBB".to_string(),
        report_type: ReportTypeSubCommand::Total(ReportArgs { date_start: None, date_end: None }),
    };
    assert_eq!(receptor.sub_command().args().date_start, None);
    let reporter = ReporterFactory::from_subject(receptor, now);
    assert_eq!(reporter.config.report_type, ReportType::Total);
    assert_eq!(reporter.config.extractor_config.subject_type, SubjectType::Receptor);
}

#[test]
fn report_equals_fold_of_materialized_listing() {
    let raws = vec![
        raw_bill("AAA010101AAA", "X", "2024-01-10T00:00:00", "100.00", "116.00"),
        raw_bill("ZZZ010101ZZZ", "X", "2024-01-11T00:00:00", "50.00", "58.00"),
        raw_bill("AAA010101AAA", "X", "2024-06-01T00:00:00", "200.00", "232.00"),
    ];
    let cfg = config(
        "AAA010101AAA",
        SubjectType::Emisor,
        Date { year: 2024, month: 1, day: 1 },
        Date { year: 2024, month: 12, day: 31 },
    );
    let materialized = BillExtractor::new(cfg.clone()).extract_bills(raws.clone());
    let folded = get_result(&materialized, ReportType::Total).expect("sum");
    let reporter = Reporter::new(satr::reporter::Config {
        extractor_config: cfg,
        report_type: ReportType::Total,
    });
    let fused = reporter.money_report(raws).expect("report");
    assert_eq!(folded, fused);
    assert_eq!(fused, amount(348_000000));
}

#[test]
fn iva_and_isr_report_selectors() {
    let mut one = raw_bill("A", "B", "2024-01-01T00:00:00", "100.00", "116.00");
    one.taxes = RawTaxes {
        withheld: Some(vec![RawTax { ty: "001".to_string(), value: "1.25".to_string() }]),
        carried_forward: Some(vec![RawTax { ty: "002".to_string(), value: "16.00".to_string() }]),
    };
    let mut two = raw_bill("A", "B", "2024-01-02T00:00:00", "50.00", "58.00");
    two.taxes = RawTaxes {
        withheld: None,
        carried_forward: Some(vec![RawTax { ty: "002".to_string(), value: "8.00".to_string() }]),
    };
    let reporter = |rt: ReportType| {
        Reporter::new(satr::reporter::Config {
            extractor_config: config(
                "A",
                SubjectType::Emisor,
                Date { year: 2024, month: 1, day: 1 },
                Date { year: 2024, month: 12, day: 31 },
            ),
            report_type: rt,
        })
    };
    let raws = || vec![one.clone(), two.clone()];
    assert_eq!(reporter(ReportType::Iva).money_report(raws()).unwrap(), amount(24_000000));
    assert_eq!(reporter(ReportType::Isr).money_report(raws()).unwrap(), amount(1_250000));
    assert_eq!(reporter(ReportType::Subtotal).money_report(raws()).unwrap(), amount(150_000000));
    assert_eq!(reporter(ReportType::Total).money_report(raws()).unwrap(), amount(174_000000));
}
