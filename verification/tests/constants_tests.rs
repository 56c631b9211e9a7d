use irc::constants::{generate_reply_codes, parse_u32, reply_codes_from_rows, ReplyCode};
use irc::error::{ConfigReadError, IrcCommandError};

#[test]
fn reply_codes_come_from_delimited_text() {
    let text = "code,reply\n001,Welcome\n002,YourHost\n433,ERR_NICKNAMEINUSE\n";
    let codes = generate_reply_codes(text).unwrap();
    assert_eq!(codes.len(), 3);
    assert_eq!(codes[0].code, 1);
    assert_eq!(codes[0].reply, "Welcome");
    assert_eq!(codes[1].code, 2);
    assert_eq!(codes[1].reply, "YourHost");
    assert_eq!(codes[2].code, 433);
    assert_eq!(codes[2].reply, "ERR_NICKNAMEINUSE");
}

#[test]
fn header_only_text_gives_no_codes() {
    let codes = generate_reply_codes("code,reply\n").unwrap();
    assert!(codes.is_empty());
}

#[test]
fn malformed_code_is_a_config_error() {
    let text = "code,reply\nabc,NotANumber\n";
    assert!(generate_reply_codes(text).is_err());
}

#[test]
fn malformed_delimited_text_is_a_config_error() {
    // a record with more fields than the header row is refused
    let text = "code,reply\n001,Welcome,extra\n";
    assert!(generate_reply_codes(text).is_err());
}

#[test]
fn short_record_is_a_config_error() {
    let rows = vec![vec!["001".to_string()]];
    assert!(reply_codes_from_rows(&rows).is_err());
}

#[test]
fn rows_become_reply_codes() {
    let rows = vec![
        vec!["375".to_string(), "RPL_MOTDSTART".to_string()],
        vec!["376".to_string(), "RPL_ENDOFMOTD".to_string()],
    ];
    let codes = reply_codes_from_rows(&rows).unwrap();
    assert_eq!(codes.len(), 2);
    assert_eq!(codes[0].code, 375);
    assert_eq!(codes[1].reply, "RPL_ENDOFMOTD");
}

#[test]
fn decimal_parsing_is_exact() {
    assert_eq!(parse_u32("0"), Some(0));
    assert_eq!(parse_u32("433"), Some(433));
    assert_eq!(parse_u32("4294967295"), Some(4294967295));
    assert_eq!(parse_u32("4294967296"), None);
    assert_eq!(parse_u32(""), None);
    assert_eq!(parse_u32("12a"), None);
    assert_eq!(parse_u32("-1"), None);
    assert_eq!(parse_u32(" 1"), None);
}

#[test]
fn reply_code_pairs_its_parts() {
    let rc = ReplyCode::new(401, "ERR_NOSUCHNICK");
    assert_eq!(rc.code, 401);
    assert_eq!(rc.reply, "ERR_NOSUCHNICK");
}

#[test]
fn error_texts_name_their_parts() {
    let e = ConfigReadError::new("codes.csv", "invalid record");
    assert_eq!(e.description(), "Error parsing config codes.csv: invalid record");
    let e = IrcCommandError::new("wrong command");
    assert_eq!(e.description(), "Error: wrong command");
}
