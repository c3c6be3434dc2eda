//! Advertising the local server: what to ask of the transport when the
//! application sets, replaces or withdraws its advertisement.
//!
//! At most one registration is kept with the transport. An advertisement
//! that replaces another is registered only after the other was
//! unregistered. Events of the daemon are monitored for as long as a
//! registration is kept.

use crate::metadata::enumerates;
use crate::metadata::pair_views;
use crate::metadata::Entries;
use crate::metadata::ServerMetadata;
use crate::namespace::is_label_char;
use crate::namespace::is_namespace;
use crate::namespace::service_domain;
use crate::namespace::service_type_of;
use crate::plugin::ServerBrowserPlugin;
use crate::server::AdvertisedRecord;
use crate::server::DiscoverableServer;
use crate::text::decimal;
use crate::text::decimal_string;
use crate::text::local_suffix;
use crate::text::with_local_suffix;
use vstd::prelude::*;

verus! {

/// `mdns_sd::Error`, of which the verifier sees nothing.
#[verifier::external_type_specification]
#[verifier::external_body]
pub struct ExServiceError(mdns_sd::Error);

/// Whether the transport keeps a registration of the local server.
#[derive(Debug)]
pub enum RegistrationState {
    /// No registration is kept.
    Unregistered,
    /// A registration is kept, under this fully-qualified name.
    Registered(String),
}

/// What is registered with the transport to advertise a server.
#[derive(Debug)]
pub struct ServiceDescriptor {
    /// The service type, which the namespace gives.
    pub service_type: String,
    /// The name of the instance, which tells this process's server from
    /// others of the same service type.
    pub instance_name: String,
    /// The name of the host in the local domain.
    pub host_name: String,
    /// The port that clients are told to use.
    pub port: u16,
    /// The properties that are advertised.
    pub properties: ServerMetadata,
}

/// A call to make on the transport.
#[derive(Debug)]
pub enum TransportCommand {
    /// Unregister the service instance of this fully-qualified name.
    Unregister(String),
    /// Stop monitoring the daemon's events.
    CloseMonitor,
    /// Register a service instance. The addresses are left to the transport,
    /// which keeps them in step with the host's.
    Register(ServiceDescriptor),
    /// Start monitoring the daemon's events.
    OpenMonitor,
}

/// Why an advertisement cannot be registered.
#[derive(Clone, Copy, Debug, PartialEq, Eq, Structural)]
pub enum RegistrationError {
    /// A key of the metadata holds `=` or a character outside ASCII.
    InvalidMetadataKey,
}

/// What a [`ServiceDescriptor`] holds.
pub struct Descriptor {
    /// The service type.
    pub service_type: Seq<char>,
    /// The name of the instance.
    pub instance_name: Seq<char>,
    /// The name of the host in the local domain.
    pub host_name: Seq<char>,
    /// The port that clients are told to use.
    pub port: u16,
    /// The advertised properties, by key.
    pub properties: Entries,
}

/// What a [`TransportCommand`] holds.
pub enum Command {
    /// Unregister the instance of this fully-qualified name.
    Unregister(Seq<char>),
    /// Stop monitoring the daemon's events.
    CloseMonitor,
    /// Register an instance.
    Register(Descriptor),
    /// Start monitoring the daemon's events.
    OpenMonitor,
}

impl View for RegistrationState {
    type V = Option<Seq<char>>;

    open spec fn view(&self) -> Option<Seq<char>> {
        match self {
            RegistrationState::Unregistered => None,
            RegistrationState::Registered(fullname) => Some(fullname@),
        }
    }
}

impl View for ServiceDescriptor {
    type V = Descriptor;

    open spec fn view(&self) -> Descriptor {
        Descriptor {
            service_type: self.service_type@,
            instance_name: self.instance_name@,
            host_name: self.host_name@,
            port: self.port,
            properties: self.properties@,
        }
    }
}

impl View for TransportCommand {
    type V = Command;

    open spec fn view(&self) -> Command {
        match self {
            TransportCommand::Unregister(fullname) => Command::Unregister(fullname@),
            TransportCommand::CloseMonitor => Command::CloseMonitor,
            TransportCommand::Register(descriptor) => Command::Register(descriptor@),
            TransportCommand::OpenMonitor => Command::OpenMonitor,
        }
    }
}

/// What each of `commands` holds.
pub open spec fn command_views(commands: Seq<TransportCommand>) -> Seq<Command> {
    Seq::new(commands.len(), |i: int| commands[i]@)
}

/// Whether `key` can be the key of an advertised property: it holds neither
/// `=` nor a character outside ASCII.
pub open spec fn is_property_key(key: Seq<char>) -> bool {
    forall|i: int| 0 <= i < key.len() ==> (#[trigger] key[i]) <= '\u{7f}' && key[i] != '='
}

/// Whether every key of `metadata` can be the key of an advertised property.
pub open spec fn is_advertisable(metadata: Entries) -> bool {
    forall|key: Seq<char>| #[trigger] metadata.dom().contains(key) ==> is_property_key(key)
}

/// What marks a service type as a subtype of another.
pub open spec fn subtype_marker() -> Seq<char> {
    seq!['.', '_', 's', 'u', 'b', '.']
}

/// Whether `service_type` names a subtype.
pub open spec fn has_subtype(service_type: Seq<char>) -> bool {
    exists|i: int|
        0 <= i && i + 6 <= service_type.len() && #[trigger] service_type.subrange(i, i + 6)
            == subtype_marker()
}

/// The fully-qualified name of the instance `instance_name` of
/// `service_type`: the two, with a dot between them.
pub open spec fn instance_fullname(instance_name: Seq<char>, service_type: Seq<char>) -> Seq<char> {
    instance_name + seq!['.'] + service_type
}

/// What is registered for the advertisement `record` of the process
/// `process_id` on the host `hostname`, in `namespace`.
pub open spec fn descriptor_of(
    namespace: Seq<char>,
    record: AdvertisedRecord,
    process_id: u32,
    hostname: Seq<char>,
) -> Descriptor {
    Descriptor {
        service_type: service_type_of(namespace),
        instance_name: decimal(process_id as nat),
        host_name: hostname + local_suffix(),
        port: record.port,
        properties: record.metadata,
    }
}

/// The calls that end the registration of `state`, if it keeps one.
pub open spec fn unregistration(state: Option<Seq<char>>) -> Seq<Command> {
    match state {
        Some(fullname) => seq![Command::Unregister(fullname), Command::CloseMonitor],
        None => seq![],
    }
}

/// The calls that register `descriptor` from `state`: first those that end
/// the registration of `state`, if it keeps one.
pub open spec fn registration(state: Option<Seq<char>>, descriptor: Descriptor) -> Seq<Command> {
    unregistration(state) + seq![Command::Register(descriptor), Command::OpenMonitor]
}

/// What the application does to its advertisement.
pub enum HostTrigger {
    /// It sets or replaces the advertisement, for which this is registered.
    Advertise(Descriptor),
    /// It withdraws the advertisement.
    Withdraw,
}

/// The state after `trigger`.
pub open spec fn state_after_trigger(trigger: HostTrigger) -> Option<Seq<char>> {
    match trigger {
        HostTrigger::Advertise(descriptor) => Some(
            instance_fullname(descriptor.instance_name, descriptor.service_type),
        ),
        HostTrigger::Withdraw => None,
    }
}

/// The calls that `trigger` leads to in `state`.
pub open spec fn calls_for_trigger(state: Option<Seq<char>>, trigger: HostTrigger) -> Seq<Command> {
    match trigger {
        HostTrigger::Advertise(descriptor) => registration(state, descriptor),
        HostTrigger::Withdraw => unregistration(state),
    }
}

/// The state after `triggers`, starting without a registration.
pub open spec fn state_after(triggers: Seq<HostTrigger>) -> Option<Seq<char>> {
    if triggers.len() == 0 {
        None
    } else {
        state_after_trigger(triggers.last())
    }
}

/// All calls that `triggers` lead to, in order, starting without a
/// registration.
pub open spec fn calls_after(triggers: Seq<HostTrigger>) -> Seq<Command>
    decreases triggers.len(),
{
    if triggers.len() == 0 {
        seq![]
    } else {
        calls_after(triggers.drop_last()) + calls_for_trigger(
            state_after(triggers.drop_last()),
            triggers.last(),
        )
    }
}

/// What the transport keeps: the fully-qualified name of the registered
/// instance, if one is registered, and whether the daemon is monitored.
pub struct Transport {
    /// The fully-qualified name of the registered instance, if there is one.
    pub registered: Option<Seq<char>>,
    /// Whether the daemon's events are monitored.
    pub monitored: bool,
}

/// What the transport keeps after `call`, where it kept `kept` before; `None`
/// where the call is out of place: a registration beside another, an
/// unregistration of an instance that is not the registered one, a monitor
/// opened twice or closed when none is open.
pub open spec fn transport_after_call(kept: Transport, call: Command) -> Option<Transport> {
    match call {
        Command::Register(descriptor) => if kept.registered is None {
            Some(
                Transport {
                    registered: Some(
                        instance_fullname(descriptor.instance_name, descriptor.service_type),
                    ),
                    monitored: kept.monitored,
                },
            )
        } else {
            None
        },
        Command::Unregister(fullname) => if kept.registered == Some(fullname) {
            Some(Transport { registered: None, monitored: kept.monitored })
        } else {
            None
        },
        Command::OpenMonitor => if !kept.monitored {
            Some(Transport { registered: kept.registered, monitored: true })
        } else {
            None
        },
        Command::CloseMonitor => if kept.monitored {
            Some(Transport { registered: kept.registered, monitored: false })
        } else {
            None
        },
    }
}

/// What the transport keeps after `calls`, made in order, where it kept
/// `kept` before; `None` where one of the calls is out of place.
pub open spec fn transport_after(kept: Transport, calls: Seq<Command>) -> Option<Transport>
    decreases calls.len(),
{
    if calls.len() == 0 {
        Some(kept)
    } else {
        match transport_after(kept, calls.drop_last()) {
            Some(before) => transport_after_call(before, calls.last()),
            None => None,
        }
    }
}

/// Making `first` and then `second` leaves the transport as making `second`
/// does from where `first` left it.
pub proof fn lemma_transport_after_both(kept: Transport, first: Seq<Command>, second: Seq<Command>)
    ensures
        transport_after(kept, first + second) == match transport_after(kept, first) {
            Some(between) => transport_after(between, second),
            None => None,
        },
    decreases second.len(),
{
    if second.len() == 0 {
        assert(first + second =~= first);
    } else {
        assert((first + second).drop_last() =~= first + second.drop_last());
        lemma_transport_after_both(kept, first, second.drop_last());
    }
}

/// Whatever the application does to its advertisement, and in whatever
/// order, no call on the transport is out of place: an instance is
/// registered only while none is, an instance is unregistered under the name
/// that it was registered with, and the daemon is monitored exactly while an
/// instance is registered. After the calls the transport keeps the
/// registration that the state says.
pub proof fn lemma_calls_are_in_place(triggers: Seq<HostTrigger>)
    ensures
        transport_after(Transport { registered: None, monitored: false }, calls_after(triggers))
            == Some(
            Transport {
                registered: state_after(triggers),
                monitored: state_after(triggers) is Some,
            },
        ),
    decreases triggers.len(),
{
    let idle = Transport { registered: None, monitored: false };
    if triggers.len() > 0 {
        let earlier = triggers.drop_last();
        let state = state_after(earlier);
        let calls = calls_for_trigger(state, triggers.last());
        lemma_calls_are_in_place(earlier);
        lemma_transport_after_both(idle, calls_after(earlier), calls);
        let kept = Transport { registered: state, monitored: state is Some };
        let ended = unregistration(state);
        assert(transport_after(kept, ended) == Some(idle)) by {
            reveal_with_fuel(transport_after, 3);
            if state is Some {
                assert(ended.drop_last() =~= seq![Command::Unregister(state->Some_0)]);
                assert(ended.drop_last().drop_last() =~= Seq::<Command>::empty());
            }
        }
        match triggers.last() {
            HostTrigger::Advertise(descriptor) => {
                let added = seq![Command::Register(descriptor), Command::OpenMonitor];
                lemma_transport_after_both(kept, ended, added);
                assert(transport_after(idle, added) == Some(
                    Transport { registered: state_after(triggers), monitored: true },
                )) by {
                    reveal_with_fuel(transport_after, 3);
                    assert(added.drop_last() =~= seq![Command::Register(descriptor)]);
                    assert(added.drop_last().drop_last() =~= Seq::<Command>::empty());
                }
            },
            HostTrigger::Withdraw => {},
        }
    }
}

/// The service type of a namespace names no subtype.
pub proof fn lemma_service_type_has_no_subtype(namespace: Seq<char>)
    requires
        is_namespace(namespace),
    ensures
        !has_subtype(service_type_of(namespace)),
{
    let service = service_type_of(namespace);
    let domain = service_domain();
    let start = 1 + namespace.len();
    assert forall|i: int| 0 <= i && i + 6 <= service.len() implies #[trigger] service.subrange(
        i,
        i + 6,
    ) != subtype_marker() by {
        let part = service.subrange(i, i + 6);
        if part == subtype_marker() {
            assert(part[0] == '.' && part[1] == '_' && part[2] == 's');
            assert(service[i] == '.' && service[i + 1] == '_' && service[i + 2] == 's');
            if i == 0 {
            } else if i < start {
                assert(service[i] == namespace[i - 1]);
                assert(is_label_char(namespace[i - 1]));
            } else {
                assert(service[i] == domain[i - start]);
                assert(service[i + 1] == domain[i + 1 - start]);
                assert(service[i + 2] == domain[i + 2 - start]);
            }
        }
    }
}

/// `mdns_sd::ServiceInfo::new`, with no address given, then `get_fullname`.
/// The properties are accepted if and only if no key holds `=` or a character
/// outside ASCII. Where `service_type` names no subtype, the fully-qualified
/// name is the instance name, a dot and the service type.
#[verifier::external_body]
fn service_fullname(
    service_type: &str,
    instance_name: &str,
    host_name: &str,
    port: u16,
    properties: &Vec<(&str, &str)>,
) -> (fullname: Result<String, mdns_sd::Error>)
    ensures
        fullname is Ok <==> forall|i: int|
            0 <= i < properties@.len() ==> is_property_key(#[trigger] properties@[i].0@),
        fullname matches Ok(name) ==> has_subtype(service_type@) || name@ == instance_fullname(
            instance_name@,
            service_type@,
        ),
{
    let advertised: std::collections::HashMap<String, String> = properties.iter().map(
        |(key, value)| (key.to_string(), value.to_string()),
    ).collect();
    match mdns_sd::ServiceInfo::new(service_type, instance_name, host_name, "", port, advertised) {
        Ok(info) => Ok(info.get_fullname().to_string()),
        Err(error) => Err(error),
    }
}

/// Ends the registration, if one is kept: asks the transport to unregister
/// the instance under the name that it was registered with, and to stop
/// monitoring. Without a registration, nothing is asked.
pub fn unregister_server(state: &mut RegistrationState) -> (commands: Vec<TransportCommand>)
    ensures
        command_views(commands@) == unregistration(old(state)@),
        final(state)@ == None::<Seq<char>>,
{
    let mut previous = RegistrationState::Unregistered;
    core::mem::swap(state, &mut previous);
    let mut commands: Vec<TransportCommand> = Vec::new();
    match previous {
        RegistrationState::Registered(fullname) => {
            commands.push(TransportCommand::Unregister(fullname));
            commands.push(TransportCommand::CloseMonitor);
        },
        RegistrationState::Unregistered => {},
    }
    assert(command_views(commands@) =~= unregistration(old(state)@));
    commands
}

/// Registers the advertisement `server` for the process `process_id` on the
/// host `hostname`. Where a registration is kept, it is ended first. The
/// calls to make on the transport are returned in the order in which to make
/// them, and the state then keeps the fully-qualified name of the new
/// instance.
///
/// An advertisement whose metadata has a key with `=` or a character outside
/// ASCII is refused: nothing is asked of the transport and the state stays
/// as it is.
pub fn register_server(
    state: &mut RegistrationState,
    plugin: &ServerBrowserPlugin,
    server: &DiscoverableServer,
    process_id: u32,
    hostname: &str,
) -> (commands: Result<Vec<TransportCommand>, RegistrationError>)
    ensures
        match commands {
            Ok(calls) => {
                let descriptor = descriptor_of(
                    plugin.namespace(),
                    server@,
                    process_id,
                    hostname@,
                );
                &&& is_advertisable(server.metadata@)
                &&& command_views(calls@) == registration(old(state)@, descriptor)
                &&& final(state)@ == Some(
                    instance_fullname(descriptor.instance_name, descriptor.service_type),
                )
            },
            Err(error) => {
                &&& !is_advertisable(server.metadata@)
                &&& error == RegistrationError::InvalidMetadataKey
                &&& *final(state) == *old(state)
            },
        },
{
    let service_type = plugin.service_type();
    let instance_name = decimal_string(process_id);
    let host_name = with_local_suffix(hostname);
    let properties = server.metadata.pairs();
    proof {
        lemma_service_type_has_no_subtype(plugin.namespace());
        lemma_advertisable_by_listing(pair_views(properties@), server.metadata@);
        if is_advertisable(server.metadata@) {
            assert forall|i: int| 0 <= i < properties@.len() implies is_property_key(
                #[trigger] properties@[i].0@,
            ) by {
                assert(pair_views(properties@)[i].0 == properties@[i].0@);
            }
        }
    }
    match service_fullname(
        service_type.as_str(),
        instance_name.as_str(),
        host_name.as_str(),
        server.port,
        &properties,
    ) {
        Ok(fullname) => {
            let mut calls = unregister_server(state);
            let ghost ended = calls@;
            let descriptor = ServiceDescriptor {
                service_type,
                instance_name,
                host_name,
                port: server.port,
                properties: server.metadata.clone(),
            };
            calls.push(TransportCommand::Register(descriptor));
            calls.push(TransportCommand::OpenMonitor);
            *state = RegistrationState::Registered(fullname);
            assert(command_views(calls@) =~= command_views(ended) + seq![
                Command::Register(descriptor@),
                Command::OpenMonitor,
            ]);
            Ok(calls)
        },
        Err(_) => Err(RegistrationError::InvalidMetadataKey),
    }
}

/// The keys of a map can all be advertised if and only if those of a listing
/// of its entries can.
pub proof fn lemma_advertisable_by_listing(
    pairs: Seq<(Seq<char>, Seq<char>)>,
    metadata: Entries,
)
    requires
        enumerates(pairs, metadata),
    ensures
        is_advertisable(metadata) <==> forall|i: int|
            0 <= i < pairs.len() ==> is_property_key((#[trigger] pairs[i]).0),
{
    if is_advertisable(metadata) {
        assert forall|i: int| 0 <= i < pairs.len() implies is_property_key(
            (#[trigger] pairs[i]).0,
        ) by {
            assert(metadata.contains_pair(pairs[i].0, pairs[i].1));
            assert(metadata.dom().contains(pairs[i].0));
        }
    }
    if forall|i: int| 0 <= i < pairs.len() ==> is_property_key((#[trigger] pairs[i]).0) {
        assert forall|key: Seq<char>| #[trigger] metadata.dom().contains(key) implies is_property_key(
            key,
        ) by {
            let i = choose|i: int| 0 <= i < pairs.len() && (#[trigger] pairs[i]).0 == key;
            assert(is_property_key(pairs[i].0));
        }
    }
}

} // verus!
