use bevy_server_browser::register_server;
use bevy_server_browser::unregister_server;
use bevy_server_browser::DiscoverableServer;
use bevy_server_browser::MetadataShape;
use bevy_server_browser::RegistrationError;
use bevy_server_browser::RegistrationState;
use bevy_server_browser::ServerBrowserPlugin;
use bevy_server_browser::ServerMetadata;
use bevy_server_browser::TransportCommand;
use std::collections::HashMap;

fn advertisement() -> DiscoverableServer {
    DiscoverableServer { port: 1234, metadata: ServerMetadata::new().with("name", "TestServer") }
}

fn registered_name(state: &RegistrationState) -> Option<&str> {
    match state {
        RegistrationState::Registered(fullname) => Some(fullname.as_str()),
        RegistrationState::Unregistered => None,
    }
}

#[test]
fn advertise_then_withdraw() {
    let plugin = ServerBrowserPlugin::new("test_id");
    let mut state = RegistrationState::Unregistered;

    let calls = register_server(&mut state, &plugin, &advertisement(), 4242, "myhost").unwrap();
    assert_eq!(calls.len(), 2);
    match &calls[0] {
        TransportCommand::Register(descriptor) => {
            assert_eq!(descriptor.service_type, "_test-id._udp.local.");
            assert_eq!(descriptor.instance_name, "4242");
            assert_eq!(descriptor.host_name, "myhost.local.");
            assert_eq!(descriptor.port, 1234);
            assert!(descriptor.properties == ServerMetadata::new().with("name", "TestServer"));
        }
        other => panic!("expected a registration, got {:?}", other),
    }
    assert!(matches!(calls[1], TransportCommand::OpenMonitor));
    assert_eq!(registered_name(&state), Some("4242._test-id._udp.local."));

    let calls = unregister_server(&mut state);
    assert_eq!(calls.len(), 2);
    match &calls[0] {
        TransportCommand::Unregister(fullname) => assert_eq!(fullname, "4242._test-id._udp.local."),
        other => panic!("expected an unregistration, got {:?}", other),
    }
    assert!(matches!(calls[1], TransportCommand::CloseMonitor));
    assert_eq!(registered_name(&state), None);
}

#[test]
fn the_kept_name_is_the_one_that_the_transport_gives() {
    let plugin = ServerBrowserPlugin::new("test_id");
    let mut state = RegistrationState::Unregistered;
    register_server(&mut state, &plugin, &advertisement(), 77, "myhost").unwrap();
    let mut properties = HashMap::new();
    properties.insert("name".to_string(), "TestServer".to_string());
    let info = mdns_sd::ServiceInfo::new("_test-id._udp.local.", "77", "myhost.local.", "", 1234, properties)
        .unwrap();
    assert_eq!(registered_name(&state), Some(info.get_fullname()));
}

#[test]
fn withdrawing_without_registration_asks_nothing() {
    let mut state = RegistrationState::Unregistered;
    assert!(unregister_server(&mut state).is_empty());
    assert_eq!(registered_name(&state), None);
}

#[test]
fn replacing_an_advertisement_unregisters_the_old_one_first() {
    let plugin = ServerBrowserPlugin::new("test_id");
    let mut state = RegistrationState::Unregistered;
    register_server(&mut state, &plugin, &advertisement(), 1, "myhost").unwrap();

    let replacement = DiscoverableServer { port: 4321, metadata: ServerMetadata::new() };
    let calls = register_server(&mut state, &plugin, &replacement, 2, "myhost").unwrap();
    assert_eq!(calls.len(), 4);
    match &calls[0] {
        TransportCommand::Unregister(fullname) => assert_eq!(fullname, "1._test-id._udp.local."),
        other => panic!("expected an unregistration, got {:?}", other),
    }
    assert!(matches!(calls[1], TransportCommand::CloseMonitor));
    match &calls[2] {
        TransportCommand::Register(descriptor) => {
            assert_eq!(descriptor.port, 4321);
            assert_eq!(descriptor.instance_name, "2");
            assert!(descriptor.properties == ServerMetadata::new());
        }
        other => panic!("expected a registration, got {:?}", other),
    }
    assert!(matches!(calls[3], TransportCommand::OpenMonitor));
    assert_eq!(registered_name(&state), Some("2._test-id._udp.local."));
}

#[test]
fn key_with_equals_sign_is_refused() {
    let plugin = ServerBrowserPlugin::new("test_id");
    let mut state = RegistrationState::Unregistered;
    let server = DiscoverableServer {
        port: 1234,
        metadata: ServerMetadata::new().with("name", "ok").with("a=b", "value"),
    };
    let refused = register_server(&mut state, &plugin, &server, 4242, "myhost");
    assert_eq!(refused.unwrap_err(), RegistrationError::InvalidMetadataKey);
    assert_eq!(registered_name(&state), None);
}

#[test]
fn key_outside_ascii_is_refused_and_the_registration_is_kept() {
    let plugin = ServerBrowserPlugin::new("test_id");
    let mut state = RegistrationState::Unregistered;
    register_server(&mut state, &plugin, &advertisement(), 4242, "myhost").unwrap();
    let server = DiscoverableServer { port: 1, metadata: ServerMetadata::new().with("clé", "value") };
    let refused = register_server(&mut state, &plugin, &server, 4242, "myhost");
    assert_eq!(refused.unwrap_err(), RegistrationError::InvalidMetadataKey);
    assert_eq!(registered_name(&state), Some("4242._test-id._udp.local."));
}

#[test]
fn values_may_hold_what_keys_may_not() {
    let plugin = ServerBrowserPlugin::new("test_id");
    let mut state = RegistrationState::Unregistered;
    let server = DiscoverableServer {
        port: 1234,
        metadata: ServerMetadata::new().with("motd", "a=b, é"),
    };
    assert!(register_server(&mut state, &plugin, &server, 4242, "myhost").is_ok());
}

#[test]
fn metadata_shape_is_full_unless_set() {
    let plugin = ServerBrowserPlugin::new("test_id");
    assert_eq!(plugin.metadata_shape(), MetadataShape::Full);
    let plugin = plugin.with_metadata_shape(MetadataShape::NameOnly);
    assert_eq!(plugin.metadata_shape(), MetadataShape::NameOnly);
    assert_eq!(plugin.name(), "test-id");
}
