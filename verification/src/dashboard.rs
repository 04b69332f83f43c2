//! What the controller's dashboard exchanges: the module graph, sensors and
//! hosts, and the host listing it shows.
#![allow(non_snake_case)]
use vstd::prelude::*;
use crate::host::HEARTBEAT_INTERVAL;

verus! {

pub struct GraphJson {
    /// sensors indexed 0 to n-1, where n is the number of sensors
    pub sensors: Vec<SensorJson>,
    /// modules indexed n to n+m-1, where m is the number of modules
    pub moduleIds: Vec<ModuleJson>,
    /// stateless, out_id, out_red, module_id, module_param
    pub dataEdges: Vec<(bool, u32, u32, u32, u32)>,
    /// module_id, module_ret, sensor_id, sensor_key
    pub stateEdges: Vec<(u32, u32, u32, u32)>,
    /// module_id, domain
    pub networkEdges: Vec<(u32, String)>,
    /// module_id, duration_s
    pub intervals: Vec<(u32, u32)>,
}

pub struct SensorJson {
    pub id: String,
    pub stateKeys: Vec<(String, String)>,
    pub returns: Vec<(String, String)>,
}

pub struct ModuleJson {
    pub localId: String,
    pub globalId: String,
    pub params: Vec<String>,
    pub returns: Vec<String>,
}

pub struct SensorResultJson {
    pub sensor: SensorJson,
    pub attestation: String,
}

pub struct HostResultJson {
    pub confirmed: Vec<HostJson>,
    pub unconfirmed: Vec<String>,
}

pub struct HostJson {
    pub id: String,
    pub activeModules: u32,
    pub online: bool,
}

/// A host as the dashboard lists it.
pub struct HostJsonView {
    pub id: Seq<char>,
    pub activeModules: u32,
    pub online: bool,
}

impl View for HostJson {
    type V = HostJsonView;

    open spec fn view(&self) -> HostJsonView {
        HostJsonView { id: self.id@, activeModules: self.activeModules, online: self.online }
    }
}

/// What the dashboard reads of a host that the scheduler knows.
pub struct HostStatus {
    /// The host's ID.
    pub id: String,
    /// Whether the user confirmed the host.
    pub confirmed: bool,
    /// The number of requests the host is processing.
    pub active_requests: usize,
    /// Whole seconds since the host's last message.
    pub secs_since_last_msg: u64,
}

/// A host is online if it sent a message within two heartbeat intervals.
pub open spec fn is_online(secs_since_last_msg: u64) -> bool {
    secs_since_last_msg <= 2 * HEARTBEAT_INTERVAL
}

/// The listing of a confirmed host.
pub open spec fn host_json_of(h: HostStatus) -> HostJsonView {
    HostJsonView {
        id: h.id@,
        activeModules: h.active_requests as u32,
        online: is_online(h.secs_since_last_msg),
    }
}

/// The listings of the confirmed hosts, in order.
pub open spec fn confirmed_listing(hosts: Seq<HostStatus>) -> Seq<HostJsonView>
    decreases hosts.len(),
{
    if hosts.len() == 0 {
        Seq::empty()
    } else if hosts.last().confirmed {
        confirmed_listing(hosts.drop_last()).push(host_json_of(hosts.last()))
    } else {
        confirmed_listing(hosts.drop_last())
    }
}

/// The IDs of the unconfirmed hosts, in order.
pub open spec fn unconfirmed_listing(hosts: Seq<HostStatus>) -> Seq<Seq<char>>
    decreases hosts.len(),
{
    if hosts.len() == 0 {
        Seq::empty()
    } else if !hosts.last().confirmed {
        unconfirmed_listing(hosts.drop_last()).push(hosts.last().id@)
    } else {
        unconfirmed_listing(hosts.drop_last())
    }
}

/// A confirmed host is listed online exactly when its last message came at
/// most two heartbeat intervals (20 seconds) ago: online for every delay up
/// to 20 seconds, offline for every longer one.
pub proof fn lemma_online_within_two_intervals(h: HostStatus)
    ensures
        host_json_of(h).online <==> h.secs_since_last_msg <= 20,
{
}

/// Being online only ever ends as time passes: a host online after a
/// longer silence is online after any shorter one.
pub proof fn lemma_online_monotone(h: HostStatus, secs: u64)
    requires
        secs <= h.secs_since_last_msg,
        host_json_of(h).online,
    ensures
        host_json_of(HostStatus { secs_since_last_msg: secs, ..h }).online,
{
}

/// Every host is listed exactly once: as confirmed or as unconfirmed.
pub proof fn lemma_listing_covers_hosts(hosts: Seq<HostStatus>)
    ensures
        confirmed_listing(hosts).len() + unconfirmed_listing(hosts).len() == hosts.len(),
    decreases hosts.len(),
{
    if hosts.len() > 0 {
        lemma_listing_covers_hosts(hosts.drop_last());
    }
}

/// The hosts listing: each confirmed host with its number of active
/// modules and whether it is online, and the IDs of the unconfirmed hosts,
/// both in the order of `hosts`.
pub fn get_hosts(hosts: &Vec<HostStatus>) -> (res: HostResultJson)
    ensures
        res.confirmed@.map_values(|j: HostJson| j@) == confirmed_listing(hosts@),
        res.unconfirmed@.map_values(|s: String| s@) == unconfirmed_listing(hosts@),
{
    let mut res = HostResultJson { confirmed: Vec::new(), unconfirmed: Vec::new() };
    let mut i: usize = 0;
    assert(hosts@.take(0) =~= Seq::<HostStatus>::empty());
    while i < hosts.len()
        invariant
            i <= hosts.len(),
            res.confirmed@.map_values(|j: HostJson| j@) == confirmed_listing(hosts@.take(i as int)),
            res.unconfirmed@.map_values(|s: String| s@) == unconfirmed_listing(
                hosts@.take(i as int),
            ),
        decreases hosts.len() - i,
    {
        let host = &hosts[i];
        let ghost prefix = hosts@.take(i + 1);
        assert(prefix.drop_last() =~= hosts@.take(i as int));
        assert(prefix.last() == hosts@[i as int]);
        if host.confirmed {
            let online = host.secs_since_last_msg <= 2 * HEARTBEAT_INTERVAL;
            let entry = HostJson {
                id: host.id.clone(),
                activeModules: host.active_requests as u32,
                online,
            };
            let ghost before = res.confirmed@;
            res.confirmed.push(entry);
            assert(res.confirmed@.map_values(|j: HostJson| j@) =~= before.map_values(
                |j: HostJson| j@,
            ).push(host_json_of(*host)));
        } else {
            let ghost before = res.unconfirmed@;
            res.unconfirmed.push(host.id.clone());
            assert(res.unconfirmed@.map_values(|s: String| s@) =~= before.map_values(
                |s: String| s@,
            ).push(host.id@));
        }
        i = i + 1;
    }
    assert(hosts@.take(hosts.len() as int) =~= hosts@);
    res
}

/// The HTTP status answering a request to cancel a host: 200 (OK) if the
/// host was removed, 404 (Not Found) if it was not known.
pub fn cancel_host(removed: bool) -> (status: u16)
    ensures
        status == if removed {
            200u16
        } else {
            404u16
        },
{
    if removed {
        200
    } else {
        404
    }
}

} // verus!
