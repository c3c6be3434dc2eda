//! Keeping the list of discovered servers in step with the events of a browse.
//!
//! A resolved service replaces what the list holds under its fully-qualified
//! name; the addresses reported earlier are not kept. The list counts as
//! changed only where an event left it different from what it was.

use crate::events::derived_record;
use crate::events::BrowseEvent;
use crate::events::MetadataShape;
use crate::events::ResolvedService;
use crate::list::DiscoveredServerList;
use crate::list::Peers;
use crate::namespace::service_type_of;
use crate::plugin::ServerBrowserPlugin;
use crate::server::DiscoveredServer;
use vstd::prelude::*;

verus! {

/// The signal that clears all discovered servers and starts a new search.
/// Send it for the first search and whenever the list is to be refreshed.
#[derive(Clone, Copy, Debug, PartialEq, Eq, Structural)]
pub struct SearchServers;

impl Default for SearchServers {
    fn default() -> (signal: Self)
        ensures
            signal == SearchServers,
    {
        SearchServers
    }
}

/// What a search asks of the transport: to drop the browse that is under way,
/// if there is one, and to browse for `service_type`.
#[derive(Debug)]
pub struct SearchRequest {
    /// The service type to browse for.
    pub service_type: String,
    /// Whether the search took servers off the list.
    pub cleared: bool,
}

/// The records after `event`, where `peers` holds the records before it.
pub open spec fn apply_event(peers: Peers, event: BrowseEvent, shape: MetadataShape) -> Peers {
    match event {
        BrowseEvent::ServiceResolved(info) => peers.insert(
            info.fullname@,
            derived_record(info, shape),
        ),
        BrowseEvent::ServiceRemoved(_, fullname) => peers.remove(fullname@),
        _ => peers,
    }
}

/// Whether `event` leaves the records different from `peers`.
pub open spec fn event_alters(peers: Peers, event: BrowseEvent, shape: MetadataShape) -> bool {
    apply_event(peers, event, shape) != peers
}

/// The records after `events`, applied in order to `peers`.
pub open spec fn apply_events(peers: Peers, events: Seq<BrowseEvent>, shape: MetadataShape) -> Peers
    decreases events.len(),
{
    if events.len() == 0 {
        peers
    } else {
        apply_event(apply_events(peers, events.drop_last(), shape), events.last(), shape)
    }
}

/// Whether one of `events`, applied in order to `peers`, leaves the records
/// different from what they were just before it.
pub open spec fn events_alter(peers: Peers, events: Seq<BrowseEvent>, shape: MetadataShape) -> bool
    decreases events.len(),
{
    if events.len() == 0 {
        false
    } else {
        events_alter(peers, events.drop_last(), shape) || event_alters(
            apply_events(peers, events.drop_last(), shape),
            events.last(),
            shape,
        )
    }
}

/// Applies one event of a browse to the list. Returns whether the list
/// changed.
pub fn apply_browse_event(
    servers: &mut DiscoveredServerList,
    event: &BrowseEvent,
    shape: MetadataShape,
) -> (changed: bool)
    ensures
        final(servers)@ == apply_event(old(servers)@, *event, shape),
        changed == event_alters(old(servers)@, *event, shape),
{
    let ghost before = servers@;
    match event {
        BrowseEvent::ServiceResolved(info) => {
            let server = DiscoveredServer::from_resolved(info, shape);
            let known = match servers.find(info.fullname.as_str()) {
                Some(stored) => stored == &server,
                None => false,
            };
            if known {
                assert(before.insert(info.fullname@, server@) =~= before);
                false
            } else {
                servers.put(info.fullname.as_str(), server);
                assert(servers@.contains_pair(info.fullname@, derived_record(*info, shape)));
                true
            }
        },
        BrowseEvent::ServiceRemoved(_, fullname) => {
            match servers.take(fullname.as_str()) {
                Some(_) => {
                    assert(!servers@.dom().contains(fullname@));
                    true
                },
                None => {
                    assert(before.remove(fullname@) =~= before);
                    false
                },
            }
        },
        _ => false,
    }
}

/// Applies the events of one cycle to the list, in the order in which they
/// arrived. Returns whether the list changed: whether at least one event
/// left it different from what it was just before that event.
pub fn update_discovered_servers(
    servers: &mut DiscoveredServerList,
    events: &Vec<BrowseEvent>,
    shape: MetadataShape,
) -> (changed: bool)
    ensures
        final(servers)@ == apply_events(old(servers)@, events@, shape),
        changed == events_alter(old(servers)@, events@, shape),
{
    let ghost before = servers@;
    let mut changed = false;
    let mut index: usize = 0;
    while index < events.len()
        invariant
            index <= events.len(),
            servers@ == apply_events(before, events@.take(index as int), shape),
            changed == events_alter(before, events@.take(index as int), shape),
        decreases events.len() - index,
    {
        assert(events@.take(index + 1).drop_last() =~= events@.take(index as int));
        if apply_browse_event(servers, &events[index], shape) {
            changed = true;
        }
        index += 1;
    }
    assert(events@.take(index as int) =~= events@);
    changed
}

/// Starts a new search if one was asked for. `signals` holds the signals
/// that arrived since the last call; they are taken out, and however many
/// there were, they start one search. A search takes every server off the
/// list and asks the transport to browse for the namespace's service type, in
/// place of any browse that is under way.
pub fn search_servers(
    plugin: &ServerBrowserPlugin,
    servers: &mut DiscoveredServerList,
    signals: &mut Vec<SearchServers>,
) -> (request: Option<SearchRequest>)
    ensures
        final(signals)@.len() == 0,
        match request {
            Some(search) => {
                &&& old(signals)@.len() > 0
                &&& final(servers)@ == Peers::empty()
                &&& search.service_type@ == service_type_of(plugin.namespace())
                &&& search.cleared == (old(servers)@ != Peers::empty())
            },
            None => old(signals)@.len() == 0 && final(servers)@ == old(servers)@,
        },
{
    if signals.len() == 0 {
        return None;
    }
    signals.clear();
    let cleared = !servers.is_empty();
    if cleared {
        servers.wipe();
    }
    Some(SearchRequest { service_type: plugin.service_type(), cleared })
}

/// Resolving a server again, with nothing changed, neither changes the list
/// nor counts as a change.
pub proof fn lemma_resolving_again_changes_nothing(
    peers: Peers,
    first: ResolvedService,
    second: ResolvedService,
    shape: MetadataShape,
)
    requires
        first.fullname@ == second.fullname@,
        derived_record(first, shape) == derived_record(second, shape),
    ensures
        ({
            let resolved = apply_event(peers, BrowseEvent::ServiceResolved(first), shape);
            &&& apply_event(resolved, BrowseEvent::ServiceResolved(second), shape) == resolved
            &&& !event_alters(resolved, BrowseEvent::ServiceResolved(second), shape)
        }),
{
    let resolved = apply_event(peers, BrowseEvent::ServiceResolved(first), shape);
    assert(resolved.insert(second.fullname@, derived_record(second, shape)) =~= resolved);
}

/// Resolving a server whose record differs from the one that the list holds
/// under its name puts the new record in place of the old one, leaves the
/// other servers as they are, and counts as a change.
pub proof fn lemma_resolving_differently_updates(
    peers: Peers,
    info: ResolvedService,
    shape: MetadataShape,
)
    requires
        !peers.contains_pair(info.fullname@, derived_record(info, shape)),
    ensures
        ({
            let resolved = apply_event(peers, BrowseEvent::ServiceResolved(info), shape);
            &&& resolved.contains_pair(info.fullname@, derived_record(info, shape))
            &&& forall|name: Seq<char>|
                name != info.fullname@ ==> (resolved.dom().contains(name) <==> peers.dom().contains(
                    name,
                ))
            &&& forall|name: Seq<char>|
                name != info.fullname@ && peers.dom().contains(name) ==> resolved[name]
                    == peers[name]
            &&& event_alters(peers, BrowseEvent::ServiceResolved(info), shape)
        }),
{
    let resolved = apply_event(peers, BrowseEvent::ServiceResolved(info), shape);
    assert(resolved.contains_pair(info.fullname@, derived_record(info, shape)));
}

/// The list counts as changed by a cycle's events if and only if at least
/// one of them left it different from what it was just before that event,
/// however many of them did.
pub proof fn lemma_changed_iff_some_event_alters(
    peers: Peers,
    events: Seq<BrowseEvent>,
    shape: MetadataShape,
)
    ensures
        events_alter(peers, events, shape) <==> exists|i: int|
            0 <= i < events.len() && #[trigger] event_alters(
                apply_events(peers, events.take(i), shape),
                events[i],
                shape,
            ),
    decreases events.len(),
{
    if events.len() > 0 {
        let earlier = events.drop_last();
        let last = events.len() - 1;
        lemma_changed_iff_some_event_alters(peers, earlier, shape);
        assert(events.take(last) =~= earlier);
        assert forall|i: int| 0 <= i < last implies events.take(i) == earlier.take(i)
            && events[i] == earlier[i] by {
            assert(events.take(i) =~= earlier.take(i));
        }
        if events_alter(peers, events, shape) {
            if events_alter(peers, earlier, shape) {
                let i = choose|i: int|
                    0 <= i < earlier.len() && #[trigger] event_alters(
                        apply_events(peers, earlier.take(i), shape),
                        earlier[i],
                        shape,
                    );
                assert(event_alters(apply_events(peers, events.take(i), shape), events[i], shape));
            } else {
                assert(event_alters(
                    apply_events(peers, events.take(last), shape),
                    events[last],
                    shape,
                ));
            }
        }
        if exists|i: int|
            0 <= i < events.len() && #[trigger] event_alters(
                apply_events(peers, events.take(i), shape),
                events[i],
                shape,
            ) {
            let i = choose|i: int|
                0 <= i < events.len() && #[trigger] event_alters(
                    apply_events(peers, events.take(i), shape),
                    events[i],
                    shape,
                );
            if i < last {
                assert(event_alters(apply_events(peers, earlier.take(i), shape), earlier[i], shape));
            }
        }
    }
}

/// How a stream of events is cut into cycles makes no difference: applying
/// `earlier` and then `later` leaves the list as applying all of them at once
/// does, and the list counts as changed by all of them if and only if it
/// counts as changed by `earlier` or, from where they left it, by `later`.
pub proof fn lemma_cycles_compose(
    peers: Peers,
    earlier: Seq<BrowseEvent>,
    later: Seq<BrowseEvent>,
    shape: MetadataShape,
)
    ensures
        apply_events(peers, earlier + later, shape) == apply_events(
            apply_events(peers, earlier, shape),
            later,
            shape,
        ),
        events_alter(peers, earlier + later, shape) == (events_alter(peers, earlier, shape)
            || events_alter(apply_events(peers, earlier, shape), later, shape)),
    decreases later.len(),
{
    if later.len() == 0 {
        assert(earlier + later =~= earlier);
    } else {
        assert((earlier + later).drop_last() =~= earlier + later.drop_last());
        lemma_cycles_compose(peers, earlier, later.drop_last(), shape);
    }
}

/// Removing a server that the list does not hold neither changes the list
/// nor counts as a change. Removing one that it holds takes that server off
/// the list, leaves the others as they are, and counts as a change.
pub proof fn lemma_removing(
    peers: Peers,
    service_type: String,
    fullname: String,
    shape: MetadataShape,
)
    ensures
        ({
            let event = BrowseEvent::ServiceRemoved(service_type, fullname);
            let removed = apply_event(peers, event, shape);
            &&& !peers.dom().contains(fullname@) ==> removed == peers && !event_alters(
                peers,
                event,
                shape,
            )
            &&& peers.dom().contains(fullname@) ==> !removed.dom().contains(fullname@)
                && event_alters(peers, event, shape)
            &&& forall|name: Seq<char>|
                name != fullname@ ==> (removed.dom().contains(name) <==> peers.dom().contains(name))
            &&& forall|name: Seq<char>|
                name != fullname@ && peers.dom().contains(name) ==> removed[name] == peers[name]
        }),
{
    let event = BrowseEvent::ServiceRemoved(service_type, fullname);
    let removed = apply_event(peers, event, shape);
    if !peers.dom().contains(fullname@) {
        assert(removed =~= peers);
    }
}

/// Whether `event` reports that the service instance `fullname` was resolved.
pub open spec fn resolves(event: BrowseEvent, fullname: Seq<char>) -> bool {
    event matches BrowseEvent::ServiceResolved(info) && info.fullname@ == fullname
}

/// After a search, the list holds only servers that were resolved after it:
/// whatever the list held when the search began, a server on the list after
/// the events that follow was resolved by one of them.
pub proof fn lemma_search_forgets_earlier_servers(
    events: Seq<BrowseEvent>,
    shape: MetadataShape,
    fullname: Seq<char>,
)
    requires
        apply_events(Peers::empty(), events, shape).dom().contains(fullname),
    ensures
        exists|i: int| 0 <= i < events.len() && resolves(#[trigger] events[i], fullname),
    decreases events.len(),
{
    if events.len() > 0 {
        let earlier = events.drop_last();
        if resolves(events.last(), fullname) {
            assert(resolves(events[events.len() - 1], fullname));
        } else {
            assert(apply_events(Peers::empty(), earlier, shape).dom().contains(fullname));
            lemma_search_forgets_earlier_servers(earlier, shape, fullname);
            let i = choose|i: int| 0 <= i < earlier.len() && resolves(#[trigger] earlier[i], fullname);
            assert(resolves(events[i], fullname));
        }
    }
}

} // verus!
