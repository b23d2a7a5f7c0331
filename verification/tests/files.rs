use qif_parser::{
    classify_line, classify_lines, parse, parse_lenient, parse_strict, parse_with_format, Qif,
    QifItem, QifLine, QifParsingError, QifSplit, QifTransaction, RecordAssembler, RecordKind,
};

const BANK: &str = "!Type:Bank
D03/03/10
T-379.00
PCITY OF SPRINGFIELD
^
D03/04/10
T-20.28
PYOUR LOCAL SUPERMARKET
^
";

fn transaction(date: &str, amount: i64, payee: &str) -> QifItem {
    QifItem::Transaction(QifTransaction {
        date: date.to_string(),
        amount,
        payee: payee.to_string(),
        ..Default::default()
    })
}

fn field(tag: char, payload: &str) -> QifLine {
    QifLine::Field(tag, payload.to_string())
}

#[test]
fn a_bank_file_gives_its_transactions_in_order() {
    let expected = Qif {
        file_type: "Bank".to_string(),
        items: vec![
            transaction("2010-03-03", -37900, "CITY OF SPRINGFIELD"),
            transaction("2010-03-04", -2028, "YOUR LOCAL SUPERMARKET"),
        ],
    };
    assert_eq!(parse_with_format(BANK, "%m/%d/%y"), expected);
    assert_eq!(parse_strict(BANK, "%m/%d/%y", RecordKind::Transaction), Ok(expected.clone()));
    let report = parse_lenient(BANK, "%m/%d/%y", RecordKind::Transaction);
    assert_eq!(report.file, expected);
    assert!(report.errors.is_empty());
    assert_eq!(parse_with_format(BANK, "%m/%d/%y"), parse_with_format(BANK, "%m/%d/%y"));
}

#[test]
fn a_record_without_its_terminator_is_dropped() {
    let content = "!Type:Bank\nD03/03/10\nT-379.00\nPCITY OF SPRINGFIELD\n^\nD03/04/10\nT-20.28\nPYOUR LOCAL SUPERMARKET\n";
    let qif = parse_with_format(content, "%m/%d/%y");
    assert_eq!(qif.items.len(), 1);
    assert_eq!(qif.items, vec![transaction("2010-03-03", -37900, "CITY OF SPRINGFIELD")]);
    // not even an unreadable line after the last terminator is an error
    let content = "D03/03/10\nT1\n^\nTabc\nD99/99/99";
    let report = parse_lenient(content, "%m/%d/%y", RecordKind::Transaction);
    assert_eq!(report.file.items.len(), 1);
    assert!(report.errors.is_empty());
    assert!(parse_strict(content, "%m/%d/%y", RecordKind::Transaction).is_ok());
    assert!(parse_with_format("D03/03/10\nT1", "%m/%d/%y").items.is_empty());
}

#[test]
fn a_record_without_an_amount_is_an_error_or_is_left_out() {
    let content = "!Type:Bank\nD03/03/10\nPNOBODY\n^\nD03/04/10\nT-20.28\nPYOUR LOCAL SUPERMARKET\n^\n";
    let missing = QifParsingError::MissingRequiredField("amount".to_string());
    assert_eq!(parse_strict(content, "%m/%d/%y", RecordKind::Transaction), Err(missing.clone()));
    let report = parse_lenient(content, "%m/%d/%y", RecordKind::Transaction);
    assert_eq!(report.errors, vec![missing]);
    assert_eq!(
        report.file.items,
        vec![transaction("2010-03-04", -2028, "YOUR LOCAL SUPERMARKET")]
    );
    assert_eq!(report.file.file_type, "Bank");
    assert_eq!(parse_with_format(content, "%m/%d/%y"), report.file);
}

#[test]
fn the_first_error_of_each_record_is_kept() {
    let content = "Dxx\nTabc\n^\nT5\n^\n^\nD01/02/03\nT1.00\n^\nD01/02/03\nT1,00\nT2.00\n^";
    let report = parse_lenient(content, "%m/%d/%y", RecordKind::Transaction);
    assert_eq!(
        report.errors,
        vec![
            QifParsingError::InvalidDate("xx".to_string(), "%m/%d/%y".to_string()),
            QifParsingError::MissingRequiredField("date".to_string()),
            QifParsingError::MissingRequiredField("date".to_string()),
            QifParsingError::InvalidAmount("1,00".to_string()),
        ]
    );
    assert_eq!(report.file.items, vec![transaction("2003-01-02", 100, "")]);
    assert_eq!(
        parse_strict(content, "%m/%d/%y", RecordKind::Transaction),
        Err(QifParsingError::InvalidDate("xx".to_string(), "%m/%d/%y".to_string()))
    );
}

#[test]
fn splits_are_added_one_by_one() {
    let content = "D1/2/2003\nT-30.00\nSFood\nELunch\n$-10.00\nSRent\nEMarch\n$-20.00\n^\nD1/2/2003\nT5\n^\nD2/2/2003\nT-1\nSGift\nEflowers\n$-1\n^\n";
    let qif = parse(content);
    assert_eq!(qif.file_type, "");
    assert_eq!(qif.items.len(), 3);
    let splits: Vec<Vec<QifSplit>> = qif
        .items
        .iter()
        .map(|i| match i {
            QifItem::Transaction(t) => t.splits.clone(),
            QifItem::Investment(_) => panic!("a transaction was expected"),
        })
        .collect();
    assert_eq!(
        splits[0],
        vec![
            QifSplit { category: "Food".to_string(), memo: "Lunch".to_string(), amount: -1000 },
            QifSplit { category: "Rent".to_string(), memo: "March".to_string(), amount: -2000 },
        ]
    );
    assert!(splits[1].is_empty());
    assert_eq!(
        splits[2],
        vec![QifSplit { category: "Gift".to_string(), memo: "flowers".to_string(), amount: -100 }]
    );
}

#[test]
fn the_default_pattern_is_day_month_and_long_year() {
    let qif = parse("D04/03/2010\nT1\n^");
    assert_eq!(qif.items, vec![transaction("2010-03-04", 100, "")]);
    assert!(parse("D04/03/10\nT1\n^").items.is_empty());
}

#[test]
fn lines_end_at_any_of_the_three_breaks() {
    let unix = parse_with_format(BANK, "%m/%d/%y");
    assert_eq!(parse_with_format(&BANK.replace('\n', "\r\n"), "%m/%d/%y"), unix);
    assert_eq!(parse_with_format(&BANK.replace('\n', "\r"), "%m/%d/%y"), unix);
    assert_eq!(
        classify_lines("a\r\nb\rc\nd"),
        vec![field('a', ""), field('b', ""), field('c', ""), field('d', "")]
    );
    assert_eq!(classify_lines("a\n\rb"), vec![field('a', ""), QifLine::Blank, field('b', "")]);
    assert_eq!(classify_lines("a\n"), vec![field('a', "")]);
    assert_eq!(classify_lines("a\n\n"), vec![field('a', ""), QifLine::Blank]);
    assert_eq!(classify_lines("\n"), vec![QifLine::Blank]);
    assert_eq!(classify_lines(""), Vec::<QifLine>::new());
    assert_eq!(classify_lines("^"), vec![QifLine::Terminator]);
}

#[test]
fn each_line_is_header_terminator_blank_or_field() {
    assert_eq!(classify_line("!Type:Bank"), QifLine::Header("Bank".to_string()));
    assert_eq!(classify_line("!Type:Invst "), QifLine::Header("Invst ".to_string()));
    assert_eq!(classify_line("!Type:"), QifLine::Header("".to_string()));
    assert_eq!(classify_line("!Type"), QifLine::Header("".to_string()));
    assert_eq!(classify_line("!Type Cash"), QifLine::Header("Cash".to_string()));
    assert_eq!(classify_line("!type:Bank"), field('!', "type:Bank"));
    assert_eq!(classify_line("!Account"), field('!', "Account"));
    assert_eq!(classify_line("^"), QifLine::Terminator);
    assert_eq!(classify_line("^ "), field('^', " "));
    assert_eq!(classify_line(""), QifLine::Blank);
    assert_eq!(classify_line(" "), field(' ', ""));
    assert_eq!(classify_line("PCaf\u{e9} \u{4e2d}"), field('P', "Caf\u{e9} \u{4e2d}"));
    assert_eq!(classify_line("\u{e9}t\u{e9}"), field('\u{e9}', "t\u{e9}"));
    assert_eq!(classify_line("T-379.00"), field('T', "-379.00"));
}

#[test]
fn blank_lines_and_unknown_tags_change_nothing() {
    let content = "\n!Type:Bank\n\nD03/03/10\nXwhatever\n\nT-379.00\n#\nPCITY OF SPRINGFIELD\n^\n\n";
    assert_eq!(
        parse_with_format(content, "%m/%d/%y").items,
        vec![transaction("2010-03-03", -37900, "CITY OF SPRINGFIELD")]
    );
}

#[test]
fn the_last_header_names_the_type() {
    assert_eq!(parse("D1/1/2001\nT1\n^\n!Type:Cash\n!Type:CCard\nD1").file_type, "CCard");
    assert_eq!(parse("^").file_type, "");
    assert_eq!(parse("").items.len(), 0);
}

#[test]
fn a_file_can_be_read_as_investments() {
    let content = "!Type:Invst\nD8/25/93\nNShrsIn\nYACME\nI10\nQ5\nT50\nCc\nMgift\n^\nD8/26/93\nNBuy\nQx\n^\n";
    let report = parse_lenient(content, "%m/%d/%y", RecordKind::Investment);
    assert_eq!(report.file.file_type, "Invst");
    assert_eq!(report.errors, vec![QifParsingError::InvalidAmount("x".to_string())]);
    assert_eq!(report.file.items.len(), 1);
    match &report.file.items[0] {
        QifItem::Investment(i) => {
            assert_eq!(i.date, "1993-08-25");
            assert_eq!(i.action, "ShrsIn");
            assert_eq!(i.security_name, "ACME");
            assert_eq!(i.price, 1000);
            assert_eq!(i.quantity, 500);
            assert_eq!(i.amount, 5000);
            assert_eq!(i.cleared_status, "c");
            assert_eq!(i.memo, "gift");
            assert_eq!(i.commission_cost, 0);
            assert_eq!(i.amount_transferred, 0);
        }
        QifItem::Transaction(_) => panic!("an investment was expected"),
    }
    assert_eq!(report.file.items[0].to_text(), "1993-08-25 5000 ShrsIn ACME gift");
    assert_eq!(
        parse_strict(content, "%m/%d/%y", RecordKind::Investment),
        Err(QifParsingError::InvalidAmount("x".to_string()))
    );
}

#[test]
fn an_assembler_takes_lines_one_at_a_time() {
    let mut a = RecordAssembler::new(RecordKind::Transaction);
    for line in classify_lines(BANK) {
        a.line(&line, "%m/%d/%y");
    }
    assert_eq!(a.error_count(), 0);
    a.line(&QifLine::Terminator, "%m/%d/%y");
    assert_eq!(a.error_count(), 1);
    let report = a.finish();
    assert_eq!(report.file, parse_with_format(BANK, "%m/%d/%y"));
    assert_eq!(report.errors, vec![QifParsingError::MissingRequiredField("date".to_string())]);
}

#[test]
fn copies_hold_the_same() {
    let qif = parse_with_format(BANK, "%m/%d/%y");
    for item in &qif.items {
        assert_eq!(&item.duplicate(), item);
    }
    let e = QifParsingError::InvalidDate("a".to_string(), "b".to_string());
    assert_eq!(e.duplicate(), e);
    assert_eq!(qif.items[0].to_text(), "2010-03-03 -37900  CITY OF SPRINGFIELD");
}

#[test]
fn every_terminator_gives_an_item_or_an_error() {
    for content in [
        "",
        "^",
        "^\n^\n^",
        BANK,
        "D1/1/2001\nT1\n^\nT2\n^\nD1/1/2001\nT3",
        "Dxx\n^\nD1/1/2001\nT3\n^\n\n^ \n",
    ] {
        let ended = classify_lines(content).iter().filter(|l| **l == QifLine::Terminator).count();
        let report = parse_lenient(content, "%d/%m/%Y", RecordKind::Transaction);
        assert_eq!(report.file.items.len() + report.errors.len(), ended);
    }
}

#[test]
fn strict_and_lenient_agree_on_files_without_errors() {
    for content in ["", BANK, "D1/1/2001\nT1\n^\nT2\n^", "^"] {
        let report = parse_lenient(content, "%m/%d/%y", RecordKind::Transaction);
        match parse_strict(content, "%m/%d/%y", RecordKind::Transaction) {
            Ok(file) => {
                assert!(report.errors.is_empty());
                assert_eq!(file, report.file);
            }
            Err(e) => assert_eq!(e, report.errors[0]),
        }
    }
}
