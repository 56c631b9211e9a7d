use irc::codec::ConfigurationError;
use irc::default_messages::{join_spec, part_spec, privmsg_spec};
use irc::registry::CommandRegistry;

#[test]
fn lookup_is_case_insensitive() {
    let mut registry = CommandRegistry::new();
    registry.register(join_spec()).unwrap();
    registry.register(privmsg_spec()).unwrap();

    assert_eq!(registry.lookup("join").unwrap().name(), "JOIN");
    assert_eq!(registry.lookup("JOIN").unwrap().name(), "JOIN");
    assert_eq!(registry.lookup("privmsg").unwrap().name(), "PRIVMSG");
}

#[test]
fn lookup_miss_is_an_error() {
    let mut registry = CommandRegistry::new();
    registry.register(part_spec()).unwrap();
    let err = registry.lookup("TOPIC").unwrap_err();
    assert_eq!(err.command(), "TOPIC");
}

#[test]
fn duplicate_registration_is_refused() {
    let mut registry = CommandRegistry::new();
    registry.register(join_spec()).unwrap();
    let again = registry.register(join_spec());
    assert_eq!(again.err(), Some(ConfigurationError::DuplicateCommandName));
    // the registry still resolves the first registration
    assert_eq!(registry.lookup("join").unwrap().name(), "JOIN");
}
