use irc::codec::{
    CodecError, CommandSpec, ConfigurationError, FieldRole, FieldSpec, FieldValue, Record,
    RecordEntry,
};
use irc::default_messages::{
    cnotice_spec, encap_spec, join_spec, privmsg_spec, who_is_spec,
};
use irc::error::IrcCommandError;
use irc::message::{BaseMessage, IrcMessage};

fn field(id: &str, role: FieldRole, optional: bool) -> FieldSpec {
    FieldSpec {
        id: id.to_string(),
        role,
        optional,
    }
}

/// The TEST command type: an optional prefix, one optional
/// positional argument, an optional comma-joined list, and an
/// optional trailing argument.
#[derive(Debug, PartialEq)]
struct TestMessage {
    prefix: Option<String>,
    test: Option<String>,
    arg_list: Option<Vec<String>>,
    trailing: Option<String>,
}

fn test_spec() -> CommandSpec {
    CommandSpec::new(
        "TEST".to_string(),
        vec![
            field("prefix", FieldRole::Prefix, true),
            field("test", FieldRole::PositionalArg, true),
            field("arg_list", FieldRole::SeparatedList(",".to_string()), true),
            field("trailing", FieldRole::Trailing, true),
        ],
    )
    .unwrap()
}

fn text_of(v: Option<&FieldValue>) -> Option<String> {
    match v {
        Some(FieldValue::Text(s)) => Some(s.clone()),
        _ => None,
    }
}

fn list_of(v: Option<&FieldValue>) -> Option<Vec<String>> {
    match v {
        Some(FieldValue::List(l)) => Some(l.clone()),
        _ => None,
    }
}

impl IrcMessage for TestMessage {
    fn parse_message(message: BaseMessage) -> Result<TestMessage, IrcCommandError> {
        let spec = test_spec();
        match spec.decode(&message) {
            Ok(record) => Ok(TestMessage {
                prefix: text_of(record.get("prefix")),
                test: text_of(record.get("test")),
                arg_list: list_of(record.get("arg_list")),
                trailing: text_of(record.get("trailing")),
            }),
            Err(_) => Err(IrcCommandError::new("message does not decode as TEST")),
        }
    }

    fn create_message(&self) -> String {
        let spec = test_spec();
        let opt_text = |v: &Option<String>| match v {
            Some(s) => FieldValue::Text(s.clone()),
            None => FieldValue::Absent,
        };
        let record = Record {
            entries: vec![
                RecordEntry {
                    id: "prefix".to_string(),
                    value: opt_text(&self.prefix),
                },
                RecordEntry {
                    id: "test".to_string(),
                    value: opt_text(&self.test),
                },
                RecordEntry {
                    id: "arg_list".to_string(),
                    value: match &self.arg_list {
                        Some(l) => FieldValue::List(l.clone()),
                        None => FieldValue::Absent,
                    },
                },
                RecordEntry {
                    id: "trailing".to_string(),
                    value: opt_text(&self.trailing),
                },
            ],
        };
        spec.encode(&record)
    }
}

#[test]
fn irc_command_derive_test() {
    let good_commands = vec![
        ":testprefix TEST testarg testlist1,testlist2 :testtrailing",
        "TEST testarg testlist1,testlist2 :testtrailing",
        ":testprefix TEST testlist1,testlist2 :testtrailing",
        ":testprefix TEST testarg testlist1,testlist2",
        "TEST testarg testlist1,testlist2",
        ":testprefix TEST :testtrailing",
        "TEST",
    ];
    let bad_command = String::from("NOTTEST");

    for command in &good_commands {
        println!("Testing: {}", command);

        let line = format!("{}\r\n", command);

        let base_message = BaseMessage::from_str(&line);
        assert!(base_message.is_ok());

        let test_message = TestMessage::parse_message(base_message.unwrap());
        if let Err(ref msg) = test_message {
            println!("{}", msg.description());
        }
        assert!(test_message.is_ok());

        // the encoding carries no line terminator: that is the
        // transport's to add
        let test_str = test_message.unwrap().create_message();
        assert_eq!(&test_str, command);
    }

    let base_message = BaseMessage::from_str(&bad_command);
    assert!(base_message.is_ok());

    let test_message = TestMessage::parse_message(base_message.unwrap());
    assert!(test_message.is_err());
}

#[test]
fn decode_is_case_insensitive() {
    let spec = join_spec();
    let mut records = Vec::new();
    for line in ["join #main", "JOIN #main", "Join #main"] {
        let bm = BaseMessage::from_str(line).unwrap();
        records.push(spec.decode(&bm).unwrap());
    }
    assert_eq!(records[0], records[1]);
    assert_eq!(records[1], records[2]);
}

#[test]
fn minimum_count_is_enforced() {
    let spec = CommandSpec::new(
        "CMD".to_string(),
        vec![
            field("first", FieldRole::PositionalArg, false),
            field("second", FieldRole::PositionalArg, false),
            field("third", FieldRole::PositionalArg, true),
        ],
    )
    .unwrap();

    let bm = BaseMessage::from_str("CMD one").unwrap();
    match spec.decode(&bm) {
        Err(CodecError::InsufficientParameterCount {
            found,
            required,
            command,
        }) => {
            assert_eq!(found, 1);
            assert_eq!(required, 2);
            assert_eq!(command, "CMD");
        }
        other => panic!("expected an insufficient parameter count, got {:?}", other),
    }

    let bm = BaseMessage::from_str("CMD one two").unwrap();
    let record = spec.decode(&bm).unwrap();
    assert_eq!(record.get("third"), Some(&FieldValue::Absent));

    let bm = BaseMessage::from_str("CMD one two three").unwrap();
    let record = spec.decode(&bm).unwrap();
    assert_eq!(
        record.get("third"),
        Some(&FieldValue::Text("three".to_string()))
    );
}

#[test]
fn trailing_field_keeps_colons_and_spaces() {
    let spec = CommandSpec::new(
        "PRIVMSG".to_string(),
        vec![
            field("target", FieldRole::PositionalArg, false),
            field("message", FieldRole::Trailing, false),
        ],
    )
    .unwrap();
    let bm = BaseMessage::from_str("PRIVMSG #main :hello : world").unwrap();
    let record = spec.decode(&bm).unwrap();
    assert_eq!(
        record.get("message"),
        Some(&FieldValue::Text("hello : world".to_string()))
    );
}

#[test]
fn space_separator_takes_the_suffix() {
    let spec = CommandSpec::new(
        "CMD".to_string(),
        vec![field("all", FieldRole::SeparatedList(" ".to_string()), false)],
    )
    .unwrap();
    let bm = BaseMessage::from_str("CMD a b c").unwrap();
    let record = spec.decode(&bm).unwrap();
    assert_eq!(
        record.get("all"),
        Some(&FieldValue::List(vec![
            "a".to_string(),
            "b".to_string(),
            "c".to_string()
        ]))
    );
}

#[test]
fn comma_separator_splits_one_parameter() {
    let spec = join_spec();
    let bm = BaseMessage::from_str("JOIN #a,#b key1,key2").unwrap();
    let record = spec.decode(&bm).unwrap();
    assert_eq!(
        record.get("channels"),
        Some(&FieldValue::List(vec!["#a".to_string(), "#b".to_string()]))
    );
    assert_eq!(
        record.get("keys"),
        Some(&FieldValue::List(vec![
            "key1".to_string(),
            "key2".to_string()
        ]))
    );
}

#[test]
fn decode_reports_each_error() {
    // the command does not match the spec
    let bm = BaseMessage::from_str("NOTTEST arg").unwrap();
    match privmsg_spec().decode(&bm) {
        Err(CodecError::CommandMismatch { found, expected }) => {
            assert_eq!(found, "NOTTEST");
            assert_eq!(expected, "PRIVMSG");
        }
        other => panic!("expected a command mismatch, got {:?}", other),
    }

    // a required prefix is missing
    let bm = BaseMessage::from_str("ENCAP dest params").unwrap();
    assert_eq!(encap_spec().decode(&bm), Err(CodecError::MissingPrefix));

    // a required trailing parameter is missing
    let bm = BaseMessage::from_str("CNOTICE nick #chan").unwrap();
    assert_eq!(cnotice_spec().decode(&bm), Err(CodecError::MissingTrailing));
}

#[test]
fn spec_construction_reports_each_error() {
    let two_prefixes = CommandSpec::new(
        "CMD".to_string(),
        vec![
            field("a", FieldRole::Prefix, true),
            field("b", FieldRole::Prefix, true),
        ],
    );
    assert_eq!(two_prefixes.err(), Some(ConfigurationError::MultiplePrefixFields));

    let two_trailings = CommandSpec::new(
        "CMD".to_string(),
        vec![
            field("a", FieldRole::Trailing, true),
            field("b", FieldRole::Trailing, true),
        ],
    );
    assert_eq!(two_trailings.err(), Some(ConfigurationError::MultipleTrailingFields));

    let empty_sep = CommandSpec::new(
        "CMD".to_string(),
        vec![field("a", FieldRole::SeparatedList("".to_string()), false)],
    );
    assert_eq!(empty_sep.err(), Some(ConfigurationError::EmptySeparator));

    let space_list_first = CommandSpec::new(
        "CMD".to_string(),
        vec![
            field("a", FieldRole::SeparatedList(" ".to_string()), false),
            field("b", FieldRole::PositionalArg, false),
        ],
    );
    assert_eq!(space_list_first.err(), Some(ConfigurationError::SpaceListNotLast));

    let optional_first = CommandSpec::new(
        "CMD".to_string(),
        vec![
            field("a", FieldRole::PositionalArg, true),
            field("b", FieldRole::PositionalArg, false),
        ],
    );
    assert_eq!(optional_first.err(), Some(ConfigurationError::OptionalBeforeRequired));

    assert_eq!(who_is_spec().err(), Some(ConfigurationError::OptionalBeforeRequired));
}

#[test]
fn encode_round_trips_through_parse_and_decode() {
    let lines = [
        "JOIN #a,#b key1,key2",
        "join #main",
        ":server.example JOIN #main",
    ];
    let spec = join_spec();
    for line in lines {
        let bm = BaseMessage::from_str(line).unwrap();
        let record = spec.decode(&bm).unwrap();
        let encoded = spec.encode(&record);
        let bm2 = BaseMessage::from_str(&encoded).unwrap();
        let record2 = spec.decode(&bm2).unwrap();
        assert_eq!(record, record2);
    }
    // the command is re-encoded under the spec's declared name
    let bm = BaseMessage::from_str("join #main").unwrap();
    let record = spec.decode(&bm).unwrap();
    assert_eq!(spec.encode(&record), "JOIN #main");
}

#[test]
fn encode_is_total_on_records() {
    let spec = join_spec();
    // a record with everything absent still encodes
    let record = Record {
        entries: vec![
            RecordEntry {
                id: "channels".to_string(),
                value: FieldValue::Absent,
            },
            RecordEntry {
                id: "keys".to_string(),
                value: FieldValue::Absent,
            },
        ],
    };
    assert_eq!(spec.encode(&record), "JOIN");
}

#[test]
fn spec_accessors_expose_the_declaration() {
    let spec = join_spec();
    assert_eq!(spec.name(), "JOIN");
    assert_eq!(spec.fields().len(), 2);
    assert_eq!(spec.fields()[0].id, "channels");
}

#[test]
fn prefix_and_space_list_round_trips() {
    // a required prefix field
    let spec = encap_spec();
    let bm = BaseMessage::from_str(":src ENCAP dest params\r\n").unwrap();
    let record = spec.decode(&bm).unwrap();
    assert_eq!(spec.encode(&record), ":src ENCAP dest params");

    // a single-space list as the only field
    let spec = CommandSpec::new(
        "ISON".to_string(),
        vec![field("nicknames", FieldRole::SeparatedList(" ".to_string()), false)],
    )
    .unwrap();
    let bm = BaseMessage::from_str("ISON alice bob carol").unwrap();
    let record = spec.decode(&bm).unwrap();
    assert_eq!(spec.encode(&record), "ISON alice bob carol");

    // a trailing field with spaces and colons
    let spec = cnotice_spec();
    let bm = BaseMessage::from_str("CNOTICE nick #chan :see: this message").unwrap();
    let record = spec.decode(&bm).unwrap();
    assert_eq!(spec.encode(&record), "CNOTICE nick #chan :see: this message");
}

#[test]
fn numeric_replies_decode_too() {
    let spec = CommandSpec::new(
        "001".to_string(),
        vec![
            field("client", FieldRole::PositionalArg, false),
            field("welcome", FieldRole::Trailing, true),
        ],
    )
    .unwrap();
    let bm = BaseMessage::from_str(":server.example 001 alice :Welcome to the network").unwrap();
    let record = spec.decode(&bm).unwrap();
    assert_eq!(
        record.get("client"),
        Some(&FieldValue::Text("alice".to_string()))
    );
    assert_eq!(
        record.get("welcome"),
        Some(&FieldValue::Text("Welcome to the network".to_string()))
    );
    assert_eq!(spec.encode(&record), "001 alice :Welcome to the network");
}
