//! Discovery bookkeeping: how presence on the local network becomes registry
//! state and UI events.
//!
//! The service advertiser/browser itself lives outside this crate; it feeds
//! `handle_discovery_event` one event at a time. A resolved peer is created
//! `Unlinked` or has its addresses replaced — rediscovery never demotes a
//! `Linked` record — and the local instance's own hostname is filtered out:
//! self is never discovered as a peer. A removed peer leaves the table.

use vstd::prelude::*;
use vstd::string::StringExecFns;

use crate::registry::{admin_unchanged, others_unchanged, ConnectionInfo, ConnectionManager};
use crate::relay::Transfer;

verus! {

/// The fixed service-type string every instance advertises under.
pub open spec fn spec_service_type() -> Seq<char> {
    "_fdrop._tcp.local."@
}

pub fn service_type() -> (s: &'static str)
    ensures
        s@ == spec_service_type(),
{
    "_fdrop._tcp.local."
}

/// The fully qualified service name of an instance: its name, a dot, the
/// service type.
pub open spec fn spec_full_name(instance: Seq<char>) -> Seq<char> {
    instance + "."@ + spec_service_type()
}

pub fn full_service_name(instance: &str) -> (r: String)
    ensures
        r@ == spec_full_name(instance@),
{
    let mut s = instance.to_owned();
    s.append(".");
    s.append(service_type());
    s
}

/// The mDNS hostname of a machine: its bare hostname with the local domain
/// suffix.
pub open spec fn spec_local_hostname(host: Seq<char>) -> Seq<char> {
    host + ".local."@
}

pub fn local_hostname(host: &str) -> (r: String)
    ensures
        r@ == spec_local_hostname(host@),
{
    let mut s = host.to_owned();
    s.append(".local.");
    s
}

/// One event from the service browser.
pub enum DiscoveryEvent {
    /// An instance became visible, with the machine it runs on and its
    /// candidate addresses.
    Resolved { fullname: String, hostname: String, addresses: Vec<String> },
    /// An instance's advertisement disappeared.
    Removed { fullname: String },
    /// Browsing stopped; the consuming loop ends.
    SearchStopped,
}

/// One event for the UI-facing event sink.
pub enum SinkEvent {
    DeviceDiscovered(ConnectionInfo),
    DeviceRemoved(ConnectionInfo),
    DeviceLinked(String),
    TransferReceived(Transfer),
}

/// Applies one discovery event to the registry and says what, if anything, to
/// surface to the event sink.
pub fn handle_discovery_event(
    reg: &mut ConnectionManager,
    event: DiscoveryEvent,
    local: &String,
) -> (r: Option<SinkEvent>)
    requires
        old(reg).wf(),
    ensures
        final(reg).wf(),
        admin_unchanged(*old(reg), *final(reg)),
        match event {
            DiscoveryEvent::Resolved { fullname, hostname, addresses } => {
                if hostname@ == local@ {
                    *final(reg) == *old(reg) && r is None
                } else {
                    &&& final(reg).contains_name(fullname@)
                    &&& final(reg).addrs_of(fullname@) == addresses.deep_view()
                    &&& final(reg).state_of(fullname@) == old(reg).state_of(fullname@)
                    &&& others_unchanged(*old(reg), *final(reg), fullname@)
                    &&& r is Some && r->Some_0 is DeviceDiscovered
                    &&& r->Some_0->DeviceDiscovered_0.name@ == fullname@
                    &&& (r->Some_0->DeviceDiscovered_0.linked <==> final(reg).is_linked(fullname@))
                }
            },
            DiscoveryEvent::Removed { fullname } => {
                &&& !final(reg).contains_name(fullname@)
                &&& others_unchanged(*old(reg), *final(reg), fullname@)
                &&& (r is Some <==> old(reg).contains_name(fullname@))
                &&& (r is Some ==> r->Some_0 is DeviceRemoved
                    && r->Some_0->DeviceRemoved_0.name@ == fullname@
                    && (r->Some_0->DeviceRemoved_0.linked <==> old(reg).is_linked(fullname@)))
            },
            DiscoveryEvent::SearchStopped => *final(reg) == *old(reg) && r is None,
        },
{
    match event {
        DiscoveryEvent::Resolved { fullname, hostname, addresses } => {
            if hostname == *local {
                None
            } else {
                reg.upsert(fullname.clone(), addresses);
                let linked = reg.linked(&fullname);
                Some(SinkEvent::DeviceDiscovered(ConnectionInfo { name: fullname, linked }))
            }
        },
        DiscoveryEvent::Removed { fullname } => {
            match reg.remove(&fullname) {
                Some(info) => Some(SinkEvent::DeviceRemoved(info)),
                None => None,
            }
        },
        DiscoveryEvent::SearchStopped => None,
    }
}

} // verus!
