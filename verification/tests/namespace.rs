use bevy_server_browser::namespace::check_name;
use bevy_server_browser::namespace::service_type;
use bevy_server_browser::namespace::validate_name;
use bevy_server_browser::namespace::NameError;
use bevy_server_browser::ServerBrowserPlugin;

#[test]
fn hyphenated_name_gives_its_service_type() {
    let plugin = ServerBrowserPlugin::try_new("my-app").unwrap();
    assert_eq!(plugin.name(), "my-app");
    assert_eq!(plugin.service_type(), "_my-app._udp.local.");
}

#[test]
fn underscore_is_normalized_to_hyphen() {
    assert_eq!(check_name("my_app"), Ok("my-app".to_string()));
    let plugin = ServerBrowserPlugin::try_new("my_app").unwrap();
    assert_eq!(plugin.service_type(), "_my-app._udp.local.");
    assert_eq!(validate_name("my_app"), "my-app");
    assert_eq!(ServerBrowserPlugin::new("my_app").name(), "my-app");
}

#[test]
fn leading_hyphen_is_refused() {
    assert_eq!(check_name("-bad"), Err(NameError::LeadingHyphen));
    assert_eq!(check_name("_bad"), Err(NameError::LeadingHyphen));
    assert!(ServerBrowserPlugin::try_new("-bad").is_err());
}

#[test]
fn trailing_hyphen_is_refused() {
    assert_eq!(check_name("bad-"), Err(NameError::TrailingHyphen));
    assert_eq!(check_name("bad_"), Err(NameError::TrailingHyphen));
}

#[test]
fn lone_hyphen_breaks_the_first_rule() {
    assert_eq!(check_name("-"), Err(NameError::LeadingHyphen));
    assert_eq!(check_name("_"), Err(NameError::LeadingHyphen));
}

#[test]
fn doubled_hyphen_is_refused() {
    assert_eq!(check_name("a--b"), Err(NameError::DoubleHyphen));
    assert_eq!(check_name("a__b"), Err(NameError::DoubleHyphen));
    assert_eq!(check_name("a-_b"), Err(NameError::DoubleHyphen));
    assert_eq!(check_name("a_-b"), Err(NameError::DoubleHyphen));
}

#[test]
fn name_over_fifteen_bytes_is_refused() {
    assert_eq!(check_name("toolongnamespace1"), Err(NameError::TooLong));
    assert_eq!(check_name("abcdefghijklmnop"), Err(NameError::TooLong));
    assert_eq!(check_name("abcdefghijklmno"), Ok("abcdefghijklmno".to_string()));
}

#[test]
fn length_is_counted_in_bytes() {
    assert_eq!(check_name("éééééééé"), Err(NameError::TooLong));
    assert_eq!(check_name("ééééééé"), Err(NameError::InvalidCharacter));
}

#[test]
fn empty_name_is_refused() {
    assert_eq!(check_name(""), Err(NameError::Empty));
}

#[test]
fn foreign_character_is_refused() {
    assert_eq!(check_name("my app"), Err(NameError::InvalidCharacter));
    assert_eq!(check_name("my.app"), Err(NameError::InvalidCharacter));
    assert_eq!(check_name("app!"), Err(NameError::InvalidCharacter));
}

#[test]
fn name_without_letter_is_refused() {
    assert_eq!(check_name("123"), Err(NameError::NoLetter));
    assert_eq!(check_name("1-2"), Err(NameError::NoLetter));
    assert_eq!(check_name("1a2"), Ok("1a2".to_string()));
}

#[test]
fn rules_are_tried_in_order() {
    assert_eq!(check_name("-toolongnamespace--!"), Err(NameError::LeadingHyphen));
    assert_eq!(check_name("toolongnamespace--!-"), Err(NameError::TrailingHyphen));
    assert_eq!(check_name("toolongnamespace--!"), Err(NameError::DoubleHyphen));
    assert_eq!(check_name("toolongnamespace!"), Err(NameError::TooLong));
    assert_eq!(check_name("12!"), Err(NameError::InvalidCharacter));
}

#[test]
fn validation_is_idempotent_on_its_output() {
    for name in ["my_app", "my-app", "a", "A1-b2_c3", "test_id", "abcdefghijklmno"] {
        let once = check_name(name).unwrap();
        assert_eq!(check_name(&once), Ok(once.clone()));
    }
}

#[test]
fn validation_gives_the_same_answer_each_time() {
    for name in ["", "-bad", "bad-", "a--b", "toolongnamespace1", "a b", "42", "fine"] {
        assert_eq!(check_name(name), check_name(name));
    }
}

#[test]
fn service_type_wraps_the_namespace() {
    assert_eq!(service_type("test-id"), "_test-id._udp.local.");
    assert_eq!(service_type("a"), "_a._udp.local.");
}

#[test]
fn each_rule_has_its_message() {
    assert_eq!(NameError::LeadingHyphen.message(), "Name cannot start with hyphen or underscore");
    assert_eq!(NameError::TrailingHyphen.message(), "Name cannot end with hyphen or underscore");
    assert_eq!(
        NameError::DoubleHyphen.message(),
        "Name cannot contains double hyphens or double underscores"
    );
    assert_eq!(NameError::TooLong.message(), "Name cannot be longer than 15 bytes");
    assert_eq!(NameError::Empty.message(), "Name cannot be empty");
    assert_eq!(
        NameError::InvalidCharacter.message(),
        "Name can only contain a-zA-Z, hyphens ('-') and underscores ('_')"
    );
    assert_eq!(NameError::NoLetter.message(), "Name must contains at least one letter (a-zA-Z)");
}
