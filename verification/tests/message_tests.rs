use irc::message::{BaseMessage, Command, Parameters, Prefix, UserPrefix};

#[test]
fn lib_privmsg_test() {
    let message = "PRIVMSG #main testing\r\n";
    let bm = BaseMessage::from_str(message).unwrap();

    assert!(bm.prefix.is_none());

    match bm.command {
        Command::IrcCommand(cmd) => {
            assert_eq!(cmd, "PRIVMSG");
        }
        Command::IrcResponse(_) => {
            assert!(false);
        }
    }

    assert!(bm.parameters.is_some());

    let param = bm.parameters.unwrap();

    assert!(param.trailing.is_none());
    assert_eq!(param.middle.len(), 2);

    assert_eq!(param.middle[0], "#main");
    assert_eq!(param.middle[1], "testing");
}

#[test]
fn test_privmsg_test() {
    let message = "PRIVMSG #main testing\r\n";
    let bm = BaseMessage::from_str(message).unwrap();

    assert!(bm.prefix.is_none());

    match bm.command {
        Command::IrcCommand(cmd) => {
            assert_eq!(cmd, "PRIVMSG");
        }
        Command::IrcResponse(_) => {
            assert!(false);
        }
    }

    assert!(bm.parameters.is_some());

    let param = bm.parameters.unwrap();

    assert!(param.trailing.is_none());
    assert_eq!(param.middle.len(), 2);

    assert_eq!(param.middle[0], "#main");
    assert_eq!(param.middle[1], "testing");
}

#[test]
fn it_works() {
    assert_eq!(2 + 2, 4);
}

#[test]
fn lib_it_works() {
    assert_eq!(2 + 2, 4);
}

#[test]
fn trailing_keeps_colons_and_spaces() {
    let bm = BaseMessage::from_str("PRIVMSG #main :hello : world").unwrap();
    let params = bm.parameters.unwrap();
    assert_eq!(params.middle, vec!["#main".to_string()]);
    assert_eq!(params.trailing.as_deref(), Some("hello : world"));
}

#[test]
fn prefix_user_parts_and_text_form() {
    let bm = BaseMessage::from_str(":nick!user@host COMMAND arg").unwrap();
    match bm.prefix.as_ref().unwrap() {
        Prefix::UserName(u) => {
            assert_eq!(u.nickname, "nick");
            assert_eq!(u.user.as_deref(), Some("user"));
            assert_eq!(u.host.as_deref(), Some("host"));
        }
        Prefix::ServerName(_) => panic!("expected a user prefix"),
    }
    assert_eq!(bm.prefix.as_ref().unwrap().to_text(), "nick!user@host");
}

#[test]
fn prefix_without_user_or_host_is_server_name() {
    let bm = BaseMessage::from_str(":irc.example.org 001 welcome").unwrap();
    match bm.prefix.as_ref().unwrap() {
        Prefix::ServerName(s) => assert_eq!(s, "irc.example.org"),
        Prefix::UserName(_) => panic!("expected a server name"),
    }
    match &bm.command {
        Command::IrcResponse(code) => assert_eq!(code, "001"),
        Command::IrcCommand(_) => panic!("expected a numeric reply"),
    }
}

#[test]
fn prefix_host_without_user() {
    let bm = BaseMessage::from_str(":nick@host AWAY").unwrap();
    match bm.prefix.as_ref().unwrap() {
        Prefix::UserName(u) => {
            assert_eq!(u.nickname, "nick");
            assert!(u.user.is_none());
            assert_eq!(u.host.as_deref(), Some("host"));
        }
        Prefix::ServerName(_) => panic!("expected a user prefix"),
    }
    assert_eq!(bm.prefix.as_ref().unwrap().to_text(), "nick@host");
}

#[test]
fn user_prefix_text_drops_user_without_host() {
    let p = UserPrefix {
        nickname: "nick".to_string(),
        user: Some("user".to_string()),
        host: None,
    };
    assert_eq!(p.to_text(), "nick");
}

#[test]
fn syntax_errors_are_reported() {
    // an empty line has no command
    assert!(BaseMessage::from_str("").is_err());
    // a command must be letters or exactly three digits
    assert!(BaseMessage::from_str("12").is_err());
    assert!(BaseMessage::from_str("1234").is_err());
    assert!(BaseMessage::from_str("PRIV1MSG arg").is_err());
    // a prefix must be followed by a command
    assert!(BaseMessage::from_str(":prefixonly").is_err());
    // prefix components must not be empty
    assert!(BaseMessage::from_str(":nick! CMD").is_err());
    assert!(BaseMessage::from_str(":@host CMD").is_err());
    // double spaces make an empty parameter
    assert!(BaseMessage::from_str("CMD  arg").is_err());
    // a dangling space matches no parameter
    assert!(BaseMessage::from_str("CMD arg ").is_err());
    // NUL is not allowed anywhere
    assert!(BaseMessage::from_str("CMD a\u{0}b").is_err());
    let e = BaseMessage::from_str("12").unwrap_err();
    assert!(!e.description().is_empty());
}

#[test]
fn at_most_fourteen_middles() {
    let line14 = "CMD a a a a a a a a a a a a a a";
    let bm = BaseMessage::from_str(line14).unwrap();
    assert_eq!(bm.parameters.unwrap().middle.len(), 14);
    let line15 = "CMD a a a a a a a a a a a a a a a";
    assert!(BaseMessage::from_str(line15).is_err());
    // a trailing parameter may still follow fourteen middles
    let line14t = "CMD a a a a a a a a a a a a a a :rest of it";
    let bm = BaseMessage::from_str(line14t).unwrap();
    let params = bm.parameters.unwrap();
    assert_eq!(params.middle.len(), 14);
    assert_eq!(params.trailing.as_deref(), Some("rest of it"));
}

#[test]
fn empty_trailing_is_kept() {
    let bm = BaseMessage::from_str("CMD :").unwrap();
    let params = bm.parameters.unwrap();
    assert!(params.middle.is_empty());
    assert_eq!(params.trailing.as_deref(), Some(""));
}

#[test]
fn bare_lf_is_stripped() {
    let bm = BaseMessage::from_str("PING server1\n").unwrap();
    let params = bm.parameters.unwrap();
    assert_eq!(params.middle, vec!["server1".to_string()]);
}

#[test]
fn message_text_forms() {
    let params = Parameters {
        middle: vec!["#main".to_string(), "testing".to_string()],
        trailing: None,
    };
    assert_eq!(params.to_text(), "#main testing");
    let params = Parameters {
        middle: vec!["#main".to_string()],
        trailing: Some("hello : world".to_string()),
    };
    assert_eq!(params.to_text(), "#main :hello : world");
    let bm = BaseMessage::from_str(":nick!user@host PRIVMSG #main :hi there").unwrap();
    assert_eq!(bm.to_text(), "nick!user@host PRIVMSG #main :hi there");
}

#[test]
fn parse_is_exact_on_the_privmsg_scenario() {
    let bm = BaseMessage::from_str("PRIVMSG #main testing\r\n").unwrap();
    assert!(bm.prefix.is_none());
    assert!(matches!(&bm.command, Command::IrcCommand(c) if c == "PRIVMSG"));
    let params = bm.parameters.unwrap();
    assert_eq!(params.middle, vec!["#main".to_string(), "testing".to_string()]);
    assert!(params.trailing.is_none());
}
