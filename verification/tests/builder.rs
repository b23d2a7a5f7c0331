use qif_parser::{parse_date, parse_number, QifParsingError, QifTransactionBuilder};

#[test]
fn test_builder() -> Result<(), QifParsingError> {
    let tb = QifTransactionBuilder::default()
        .date("03/03/10".to_string())
        .amount(match parse_number("T-379.00") {
            Ok(it) => it,
            Err(err) => return Err(err),
        })
        .payee("CITY OF SPRINGFIELD")
        .memo("DUMMY")
        .category("DUMMY")
        .cleared_status("DUMMY")
        .address(vec!["DUMMY".to_string()])
        .number_of_the_check("DUMMY")
        .splits(vec![])
        .build()
        .or_else(|err: QifParsingError| return Err(err))
        .unwrap();
    assert_eq!(
        parse_date(&tb.date, "%m/%d/%y")
            .or_else(|err| return Err(err))
            .unwrap(),
        "2010-03-03"
    );
    assert_eq!(tb.amount, -37900);
    assert_eq!(tb.payee, "CITY OF SPRINGFIELD");
    Ok(())
}

#[test]
fn test_parsing_builder() {
    let date_format = "%m/%d/%y";
    let qif_content = "!Type:Bank
D03/03/10
T-379.00
PCITY OF SPRINGFIELD
^
D03/04/10
T-20.28
PYOUR LOCAL SUPERMARKET
^
D03/03/10
T-421.35
PSPRINGFIELD WATER UTILITY
^";
    let results = {
        let mut results: Vec<qif_parser::QifTransaction> = Vec::new();
        let mut item = QifTransactionBuilder::default();
        let lines: Vec<&str> = qif_content.lines().collect();

        for line in lines {
            if line.starts_with("^") {
                results.push(item.build().unwrap());
                item = QifTransactionBuilder::default();
            }
            match &line[..1] {
                "T" => item.amount(parse_number(line).unwrap()),
                "P" => item.payee(&line[1..]),
                "D" => item.date(parse_date(&line[1..], date_format).unwrap()),
                _ => &mut item,
            };

            ()
        }
        results
    };
    assert_eq!(results.len(), 3);
    println!("{:?}", results);
    assert_eq!(results[2].date, "2010-03-03");
    assert_eq!(results[2].amount, -42135);
    assert_eq!(results[2].payee, "SPRINGFIELD WATER UTILITY");
}

fn missing(name: &str) -> QifParsingError {
    QifParsingError::MissingRequiredField(name.to_string())
}

#[test]
fn a_transaction_needs_its_date_and_then_its_amount() {
    assert_eq!(QifTransactionBuilder::default().build(), Err(missing("date")));
    assert_eq!(
        QifTransactionBuilder::default().amount(5).payee("X").build(),
        Err(missing("date"))
    );
    assert_eq!(
        QifTransactionBuilder::default().date("2010-03-03".to_string()).build(),
        Err(missing("amount"))
    );
    let built = QifTransactionBuilder::default()
        .date("2010-03-03".to_string())
        .amount(5)
        .build()
        .unwrap();
    assert_eq!(
        built,
        qif_parser::QifTransaction {
            date: "2010-03-03".to_string(),
            amount: 5,
            ..Default::default()
        }
    );
    assert_eq!(built.payee, "");
    assert!(built.address.is_empty());
    assert!(built.splits.is_empty());
}

#[test]
fn tagged_lines_fill_a_transaction() {
    let mut b = QifTransactionBuilder::default();
    for (tag, payload) in [
        ('D', "25/12/2021"),
        ('T', "-1,5"),
    ] {
        let r = b.field(tag, payload, "%d/%m/%Y");
        if tag == 'T' {
            assert_eq!(r, Err(QifParsingError::InvalidAmount("-1,5".to_string())));
        } else {
            assert_eq!(r, Ok(()));
        }
    }
    assert_eq!(b.build(), Err(missing("amount")));
    for (tag, payload) in [
        ('U', "-1.5"),
        ('P', "Payee"),
        ('M', "Memo"),
        ('L', "Category"),
        ('C', "X"),
        ('N', "1001"),
        ('A', "1 Main St"),
        ('A', "Springfield"),
        ('Z', "ignored"),
        ('S', "Food"),
        ('E', "Lunch"),
        ('$', "-1.00"),
        ('S', "Drink"),
        ('$', "-0.50"),
        ('E', "left over"),
    ] {
        assert_eq!(b.field(tag, payload, "%d/%m/%Y"), Ok(()));
    }
    let t = b.build().unwrap();
    assert_eq!(t.date, "2021-12-25");
    assert_eq!(t.amount, -150);
    assert_eq!(t.payee, "Payee");
    assert_eq!(t.memo, "Memo");
    assert_eq!(t.category, "Category");
    assert_eq!(t.cleared_status, "X");
    assert_eq!(t.number_of_the_check, "1001");
    assert_eq!(t.address, vec!["1 Main St".to_string(), "Springfield".to_string()]);
    assert_eq!(
        t.splits,
        vec![
            qif_parser::QifSplit { category: "Food".to_string(), memo: "Lunch".to_string(), amount: -100 },
            qif_parser::QifSplit { category: "Drink".to_string(), memo: "".to_string(), amount: -50 },
        ]
    );
    assert_eq!(t.to_text(), "2021-12-25 -150 Memo Payee");
}

#[test]
fn a_line_that_cannot_be_read_leaves_the_builder_as_it_was() {
    let mut b = QifTransactionBuilder::default();
    assert_eq!(b.field('D', "03/03/10", "%m/%d/%y"), Ok(()));
    assert_eq!(b.field('T', "12.00", "%m/%d/%y"), Ok(()));
    assert_eq!(
        b.field('D', "31/31/10", "%m/%d/%y"),
        Err(QifParsingError::InvalidDate("31/31/10".to_string(), "%m/%d/%y".to_string()))
    );
    assert_eq!(
        b.field('$', "x", "%m/%d/%y"),
        Err(QifParsingError::InvalidAmount("x".to_string()))
    );
    let t = b.build().unwrap();
    assert_eq!(t.date, "2010-03-03");
    assert_eq!(t.amount, 1200);
    assert!(t.splits.is_empty());
}

#[test]
fn a_split_needs_its_amount() {
    let mut sb = qif_parser::QifSplitBuilder::default();
    sb.category("Food").memo("Lunch");
    assert_eq!(sb.build(), Err(missing("amount")));
    sb.amount(-100);
    assert_eq!(
        sb.build(),
        Ok(qif_parser::QifSplit { category: "Food".to_string(), memo: "Lunch".to_string(), amount: -100 })
    );
}

#[test]
fn tagged_lines_fill_an_investment() {
    let mut b = qif_parser::QifInvestmentBuilder::default();
    assert_eq!(b.build(), Err(missing("date")));
    for (tag, payload) in [
        ('D', "8/25/93"),
        ('N', "Buy"),
        ('Y', "ACME"),
        ('I', "10.5"),
        ('Q', "100"),
        ('O', "9.995"),
        ('C', "*"),
        ('M', "first lot"),
        ('$', "1059.99"),
        ('P', "ignored"),
    ] {
        assert_eq!(b.field(tag, payload, "%m/%d/%y"), Ok(()));
    }
    assert_eq!(b.build(), Err(missing("amount")));
    assert_eq!(b.field('T', "-1059.99", "%m/%d/%y"), Ok(()));
    assert_eq!(
        b.field('Q', "1o0", "%m/%d/%y"),
        Err(QifParsingError::InvalidAmount("1o0".to_string()))
    );
    let i = b.build().unwrap();
    assert_eq!(
        i,
        qif_parser::QifInvestment {
            date: "1993-08-25".to_string(),
            amount: -105999,
            memo: "first lot".to_string(),
            cleared_status: "*".to_string(),
            action: "Buy".to_string(),
            security_name: "ACME".to_string(),
            price: 1050,
            quantity: 10000,
            commission_cost: 1000,
            amount_transferred: 105999,
        }
    );
    assert_eq!(i.to_text(), "1993-08-25 -105999 Buy ACME first lot");
}

#[test]
fn investment_fields_can_be_set_by_name() {
    let i = qif_parser::QifInvestmentBuilder::default()
        .date("2020-01-02".to_string())
        .amount(i64::MIN)
        .memo("m")
        .cleared_status("c")
        .action("Sell")
        .security_name("S")
        .price(1)
        .quantity(2)
        .commission_cost(3)
        .amount_transferred(4)
        .build()
        .unwrap();
    assert_eq!(i.price, 1);
    assert_eq!(i.quantity, 2);
    assert_eq!(i.commission_cost, 3);
    assert_eq!(i.amount_transferred, 4);
    assert_eq!(i.to_text(), "2020-01-02 -9223372036854775808 Sell S m");
}
