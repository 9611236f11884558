use es_data_parser::start::{parse_account, parse_mortgage, parse_start};
use es_data_parser::{Account, DataError, Date, Failure, Mortgage, Start};

#[test]
fn can_parse_start() {
    let data = r#"start
	system "my system"
	planet "this planet"
    date 01 07 2020
	set "my license"
	account
		credits 5000
		score 100
		mortgage Mortgage
			principal 33333
			interest 0.005
            term 365
"#;

    let parsed = parse_start(&data);
    assert!(parsed.is_ok());
    let start = parsed.unwrap().1;
    assert_eq!(start.system, String::from("my system"));
    assert_eq!(start.planet, String::from("this planet"));
    assert_eq!(start.set, String::from("my license"));
    assert_eq!(
        start.date,
        Date {
            day: 1,
            month: 7,
            year: 2020
        }
    );
    assert_eq!(start.account.credits, 5000);
    assert_eq!(start.account.score, 100);
    assert_eq!(start.account.mortgage.principal, 33333);
    assert_eq!(start.account.mortgage.interest.parse::<f32>().unwrap(), 0.005);
    assert_eq!(start.account.mortgage.term, 365);
}

#[test]
fn start_with_tabs_only() {
    let data = "start\n\tsystem \"s\"\n\tplanet \"p\"\n\tdate 01 07 2020\n\tset \"lic\"\n\taccount\n\t\tcredits 5000\n\t\tscore 100\n\t\tmortgage Mortgage\n\t\t\tprincipal 33333\n\t\t\tinterest 0.005\n\t\t\tterm 365\n";
    assert_eq!(
        parse_start(data),
        Ok((
            "",
            Start {
                date: Date {
                    year: 2020,
                    month: 7,
                    day: 1
                },
                system: "s",
                planet: "p",
                account: Account {
                    credits: 5000,
                    score: 100,
                    mortgage: Mortgage {
                        principal: 33333,
                        interest: "0.005",
                        term: 365,
                    },
                },
                set: "lic",
            }
        ))
    );
}

#[test]
fn start_fields_in_any_order() {
    let sorted = "start\n\tsystem s\n\tplanet p\n\tdate 1 2 3\n\tset l\n\taccount\n\t\tcredits 1\n\t\tscore 2\n\t\tmortgage Mortgage\n\t\t\tprincipal 3\n\t\t\tinterest 4\n\t\t\tterm 5\n";
    let mixed = "start\n\taccount\n\t\tmortgage Mortgage\n\t\t\tterm 5\n\t\t\tprincipal 3\n\t\t\tinterest 4\n\t\tscore 2\n\t\tcredits 1\n\tset l\n\tdate 1 2 3\n\tplanet p\n\tsystem s\n";
    let first = parse_start(sorted);
    assert!(first.is_ok());
    assert_eq!(first, parse_start(mixed));
}

#[test]
fn start_names_the_first_missing_field() {
    assert_eq!(
        parse_start("start\n\tsystem s\n\tplanet p\n\tdate 1 2 3\n\tset l\n"),
        Err(Failure::Hard(DataError::Validation {
            remaining: 0,
            data_type: "start",
            field: "account",
        }))
    );
    assert_eq!(
        parse_start("start\n\tset l\n"),
        Err(Failure::Hard(DataError::Validation {
            remaining: 0,
            data_type: "start",
            field: "date",
        }))
    );
    assert_eq!(
        parse_start("start\n\tdate 1 2 3\n\tset l\nrest"),
        Err(Failure::Hard(DataError::Validation {
            remaining: 4,
            data_type: "start",
            field: "system",
        }))
    );
}

#[test]
fn account_without_mortgage_is_invalid() {
    assert_eq!(
        parse_account("\taccount\n\t\tcredits 1\n\t\tscore 2\n"),
        Err(Failure::Hard(DataError::Validation {
            remaining: 0,
            data_type: "account",
            field: "mortgage",
        }))
    );
}

#[test]
fn mortgage_without_term_is_invalid() {
    assert_eq!(
        parse_mortgage("\t\tmortgage Mortgage\n\t\t\tprincipal 3\n\t\t\tinterest 4\n\t\tscore 2\n"),
        Err(Failure::Hard(DataError::Validation {
            remaining: 10,
            data_type: "mortgage",
            field: "term",
        }))
    );
}

#[test]
fn mortgage_values_must_fit() {
    assert_eq!(
        parse_mortgage("\t\tmortgage Mortgage\n\t\t\tprincipal 18446744073709551615\n\t\t\tinterest 4\n\t\t\tterm 65535\n"),
        Ok((
            "",
            Mortgage {
                principal: u64::MAX,
                interest: "4",
                term: 65535
            }
        ))
    );
    assert_eq!(
        parse_mortgage("\t\tmortgage Mortgage\n\t\t\tprincipal 3\n\t\t\tinterest 4\n\t\t\tterm 65536\n"),
        Err(Failure::Hard(DataError::Validation {
            remaining: 14,
            data_type: "mortgage",
            field: "term",
        }))
    );
}

#[test]
fn broken_invalid_account_fails_the_start() {
    assert_eq!(
        parse_start("start\n\tsystem s\n\taccount\n\t\tcredits 1\n"),
        Err(Failure::Hard(DataError::Validation {
            remaining: 0,
            data_type: "account",
            field: "score",
        }))
    );
}
