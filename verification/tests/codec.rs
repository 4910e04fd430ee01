use phonebook::config::ConfigError;
use phonebook::config::connection_info;
use phonebook::json::encode_record;
use phonebook::json::encode_records;
use phonebook::json::parse_record_body;
use phonebook::nums::i32_to_string;
use phonebook::nums::parse_i32;
use phonebook::nums::parse_u16;
use phonebook::query::parse_query;
use phonebook::record::Record;
use phonebook::sql::create_table_sql;
use phonebook::sql::delete_sql;
use phonebook::sql::insert_sql;
use phonebook::sql::select_by_id_sql;
use phonebook::sql::show_query;
use phonebook::sql::update_sql;

fn rec(id: Option<i32>, name: &str, phone: &str) -> Record {
    Record { id, name: name.to_string(), phone: phone.to_string() }
}

#[test]
fn encode_record_with_id() {
    let out = encode_record(&rec(Some(1), "Ann", "555"));
    assert_eq!(out, "{\"id\":1,\"name\":\"Ann\",\"phone\":\"555\"}");
}

#[test]
fn encode_record_without_id_writes_null() {
    let out = encode_record(&rec(None, "Ann", "555"));
    assert_eq!(out, "{\"id\":null,\"name\":\"Ann\",\"phone\":\"555\"}");
}

#[test]
fn encode_record_escapes_quotes_and_backslashes() {
    let out = encode_record(&rec(Some(2), "A\"B\\C", "5\n5\t5\r"));
    assert_eq!(out, "{\"id\":2,\"name\":\"A\\\"B\\\\C\",\"phone\":\"5\\n5\\t5\\r\"}");
}

#[test]
fn encode_records_joins_with_commas() {
    let rs = vec![rec(Some(1), "A", "1"), rec(Some(2), "B", "2")];
    assert_eq!(
        encode_records(&rs),
        "[{\"id\":1,\"name\":\"A\",\"phone\":\"1\"},{\"id\":2,\"name\":\"B\",\"phone\":\"2\"}]"
    );
    assert_eq!(encode_records(&Vec::new()), "[]");
}

#[test]
fn parse_body_plain() {
    let (n, p) = parse_record_body("{\"name\":\"Ann\",\"phone\":\"555\"}").unwrap();
    assert_eq!(n, "Ann");
    assert_eq!(p, "555");
}

#[test]
fn parse_body_any_member_order_and_whitespace() {
    let (n, p) =
        parse_record_body("  { \"phone\" : \"555\" ,\n\t\"name\" : \"Ann\" }  ").unwrap();
    assert_eq!(n, "Ann");
    assert_eq!(p, "555");
}

#[test]
fn parse_body_ignores_id_member() {
    let (n, p) = parse_record_body("{\"id\":null,\"name\":\"A\",\"phone\":\"5\"}").unwrap();
    assert_eq!(n, "A");
    assert_eq!(p, "5");
    let (n, _) = parse_record_body("{\"id\":-17,\"name\":\"B\",\"phone\":\"5\"}").unwrap();
    assert_eq!(n, "B");
}

#[test]
fn parse_body_unescapes() {
    let (n, p) = parse_record_body("{\"name\":\"A\\\"B\\\\C\\/D\",\"phone\":\"5\\n\\r\\t\"}")
        .unwrap();
    assert_eq!(n, "A\"B\\C/D");
    assert_eq!(p, "5\n\r\t");
}

#[test]
fn parse_body_last_occurrence_wins() {
    let (n, _) = parse_record_body("{\"name\":\"A\",\"name\":\"B\",\"phone\":\"5\"}").unwrap();
    assert_eq!(n, "B");
}

#[test]
fn parse_body_rejects_what_is_not_a_record() {
    assert!(parse_record_body("").is_none());
    assert!(parse_record_body("{}").is_none());
    assert!(parse_record_body("[]").is_none());
    assert!(parse_record_body("{\"name\":\"A\"}").is_none());
    assert!(parse_record_body("{\"phone\":\"5\"}").is_none());
    assert!(parse_record_body("{\"name\":3,\"phone\":\"5\"}").is_none());
    assert!(parse_record_body("{\"name\":\"A\",\"phone\":\"5\"} trailing").is_none());
    assert!(parse_record_body("{\"name\":\"A\",\"phone\":\"5\"").is_none());
    assert!(parse_record_body("{\"name\":\"A\" \"phone\":\"5\"}").is_none());
    assert!(parse_record_body("{\"name\":\"A\\qB\",\"phone\":\"5\"}").is_none());
}

#[test]
fn parse_i32_accepts_integer_literals_in_range() {
    assert_eq!(parse_i32("0"), Some(0));
    assert_eq!(parse_i32("17"), Some(17));
    assert_eq!(parse_i32("-17"), Some(-17));
    assert_eq!(parse_i32("+5"), Some(5));
    assert_eq!(parse_i32("0012"), Some(12));
    assert_eq!(parse_i32("2147483647"), Some(i32::MAX));
    assert_eq!(parse_i32("-2147483648"), Some(i32::MIN));
}

#[test]
fn parse_i32_rejects_everything_else() {
    assert_eq!(parse_i32(""), None);
    assert_eq!(parse_i32("-"), None);
    assert_eq!(parse_i32("+"), None);
    assert_eq!(parse_i32("1x"), None);
    assert_eq!(parse_i32(" 1"), None);
    assert_eq!(parse_i32("2147483648"), None);
    assert_eq!(parse_i32("-2147483649"), None);
    assert_eq!(parse_i32("99999999999999999999"), None);
}

#[test]
fn parse_u16_bounds() {
    assert_eq!(parse_u16("5432"), Some(5432));
    assert_eq!(parse_u16("65535"), Some(65535));
    assert_eq!(parse_u16("65536"), None);
    assert_eq!(parse_u16("-1"), None);
    assert_eq!(parse_u16("+80"), Some(80));
}

#[test]
fn i32_to_string_round_trips() {
    assert_eq!(i32_to_string(0), "0");
    assert_eq!(i32_to_string(120), "120");
    assert_eq!(i32_to_string(-45), "-45");
    assert_eq!(i32_to_string(i32::MIN), "-2147483648");
}

#[test]
fn query_pairs_split_on_ampersands() {
    let ps = parse_query("name=ana");
    assert_eq!(ps, vec![("name".to_string(), "ana".to_string())]);
    let ps = parse_query("a=1&b=2");
    assert_eq!(ps.len(), 2);
    assert_eq!(ps[1], ("b".to_string(), "2".to_string()));
    let ps = parse_query("name=");
    assert_eq!(ps, vec![("name".to_string(), "".to_string())]);
    let ps = parse_query("name");
    assert_eq!(ps, vec![("name".to_string(), "".to_string())]);
    let ps = parse_query("&&name=x&");
    assert_eq!(ps, vec![("name".to_string(), "x".to_string())]);
    assert_eq!(parse_query(""), Vec::new());
}

#[test]
fn query_pairs_are_form_urldecoded() {
    let ps = parse_query("name=a%20b");
    assert_eq!(ps, vec![("name".to_string(), "a b".to_string())]);
    let ps = parse_query("name=a+b");
    assert_eq!(ps, vec![("name".to_string(), "a b".to_string())]);
    let ps = parse_query("na%6De=%41nn");
    assert_eq!(ps, vec![("name".to_string(), "Ann".to_string())]);
    // malformed and non-ASCII escapes stand for themselves
    let ps = parse_query("name=%zz%1");
    assert_eq!(ps, vec![("name".to_string(), "%zz%1".to_string())]);
    let ps = parse_query("name=%C3%A9");
    assert_eq!(ps, vec![("name".to_string(), "%C3%A9".to_string())]);
}

#[test]
fn sql_statement_texts() {
    assert_eq!(insert_sql(), "INSERT INTO phonebook VALUES (default, $1, $2)");
    assert_eq!(delete_sql(), "DELETE FROM phonebook WHERE id=$1");
    assert_eq!(update_sql(), "UPDATE phonebook SET name = $1, phone = $2 WHERE id = $3");
    assert_eq!(select_by_id_sql(), "SELECT * FROM phonebook WHERE id = $1");
    assert_eq!(
        create_table_sql(),
        "CREATE TABLE IF NOT EXISTS phonebook(\"id\" SERIAL PRIMARY KEY, \"name\" varchar(50), \"phone\" varchar(100))"
    );
}

#[test]
fn show_query_builds_the_like_pattern() {
    assert_eq!(show_query(None), "SELECT * FROM phonebook  ORDER BY id");
    assert_eq!(
        show_query(Some("ana")),
        "SELECT * FROM phonebook WHERE name LIKE '%ana%' ORDER BY id"
    );
}

#[test]
fn connection_info_accepts_disable_only() {
    let ok = connection_info(
        Some("localhost"),
        Some("5432"),
        Some("disable"),
        Some("phonebook"),
        Some("pg"),
        Some("secret"),
    )
    .unwrap();
    assert_eq!(ok.host, "localhost");
    assert_eq!(ok.port, 5432);
    assert_eq!(ok.dbname, "phonebook");
    assert_eq!(ok.user, "pg");
    assert_eq!(ok.pass, "secret");
}

#[test]
fn connection_info_errors() {
    let e = connection_info(None, Some("1"), Some("disable"), Some("d"), Some("u"), Some("p"));
    assert!(matches!(e, Err(ConfigError::MissingHost)));
    let e = connection_info(Some("h"), Some("1"), Some("enable"), Some("d"), Some("u"), Some("p"));
    assert!(matches!(e, Err(ConfigError::SslUnimplemented)));
    let e = connection_info(Some("h"), Some("1"), Some("verify"), Some("d"), Some("u"), Some("p"));
    assert!(matches!(e, Err(ConfigError::BadSslMode)));
    let e = connection_info(Some("h"), Some("hi"), Some("disable"), Some("d"), Some("u"), Some("p"));
    assert!(matches!(e, Err(ConfigError::BadPort)));
    let e = connection_info(Some("h"), Some("1"), Some("disable"), Some("d"), None, Some("p"));
    assert!(matches!(e, Err(ConfigError::MissingUser)));
}
