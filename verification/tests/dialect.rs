use sqlparser::dialect::Dialect;
use sqlparser::parser::Parser;
use thumbor::dialect::QueryerDialect;

/// The library's rules behind the parser's trait.
#[derive(Debug, Default)]
struct Rules(QueryerDialect);

impl Dialect for Rules {
    fn is_identifier_start(&self, ch: char) -> bool {
        self.0.is_identifier_start(ch)
    }

    fn is_identifier_part(&self, ch: char) -> bool {
        self.0.is_identifier_part(ch)
    }
}

pub fn example_sql() -> String {
    let url = "https://raw.githubusercontent.com/owid/covid-19-data/master/public/data/latest/owid-covid-latest.csv";

    let sql = format!(
        "SELECT location name, total_cases, new_cases, total_deaths, new_deaths \
        FROM {} where new_death >= 500 ORDER BY new_cases DESC LIMIT 6 OFFSET 5",
        url
    );

    sql
}

#[test]
fn it_works() {
    assert!(Parser::parse_sql(&Rules::default(), &example_sql()).is_ok());
}

#[test]
fn url_is_read_as_one_table_name() {
    let parsed = Parser::parse_sql(&Rules::default(), "SELECT a FROM https://example.com/a.csv").unwrap();
    assert_eq!(parsed.len(), 1);
    assert!(format!("{}", parsed[0]).contains("https://example.com/a.csv"));
}

#[test]
fn identifier_starts_with_a_letter_or_underscore() {
    let dialect = QueryerDialect::default();
    assert!(dialect.is_identifier_start('a'));
    assert!(dialect.is_identifier_start('z'));
    assert!(dialect.is_identifier_start('A'));
    assert!(dialect.is_identifier_start('Y'));
    assert!(dialect.is_identifier_start('_'));
    assert!(!dialect.is_identifier_start('0'));
    assert!(!dialect.is_identifier_start(':'));
    assert!(!dialect.is_identifier_start('/'));
    assert!(!dialect.is_identifier_start(' '));
    assert!(!dialect.is_identifier_start('é'));
}

#[test]
fn upper_case_letters_end_before_z() {
    let dialect = QueryerDialect::default();
    assert!(!dialect.is_identifier_start('Z'));
    assert!(!dialect.is_identifier_part('Z'));
    assert!(!dialect.is_identifier_start('['));
    assert!(!dialect.is_identifier_start('@'));
    assert!(!dialect.is_identifier_start('`'));
    assert!(!dialect.is_identifier_start('{'));
}

#[test]
fn identifier_goes_on_with_digits_and_url_marks() {
    let dialect = QueryerDialect::default();
    for ch in [':', '/', '?', '&', '=', '-', '_', '.', '0', '5', '9', 'a', 'z', 'A', 'Y'] {
        assert!(dialect.is_identifier_part(ch));
    }
    for ch in [' ', ',', ';', '(', ')', '\'', '"', '+', '*', '#', '%', '\n'] {
        assert!(!dialect.is_identifier_part(ch));
    }
}

#[test]
fn whatever_starts_an_identifier_goes_on_in_it() {
    let dialect = QueryerDialect::default();
    let mut code: u32 = 0;
    while code < 0x300 {
        if let Some(ch) = char::from_u32(code) {
            if dialect.is_identifier_start(ch) {
                assert!(dialect.is_identifier_part(ch));
            }
        }
        code += 1;
    }
}
