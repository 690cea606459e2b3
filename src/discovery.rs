//! Peer discovery: the beacon that each instance sends, and the table of
//! peers that the beacons it hears build up and that ages them out.
use vstd::prelude::*;
use crate::text::{
    fields_of, free_of, lemma_fields_extend, lemma_fields_separator, same_text, split_fields,
    starts_with_text, views,
};

verus! {

/// UDP port of the beacons.
pub const DISCOVERY_PORT: u16 = 37821;

/// Seconds between two beacons.
pub const BEACON_INTERVAL_SECS: u64 = 3;

/// Seconds between two eviction sweeps.
pub const SWEEP_INTERVAL_SECS: u64 = 10;

/// A peer not heard from for longer than this many seconds is dropped.
pub const PEER_TIMEOUT_SECS: u64 = 30;

/// A peer, as last heard.
pub struct Device {
    pub ip: String,
    pub hostname: String,
    /// Tells instances on one host apart.
    pub instance_id: String,
    /// Seconds since the Unix epoch when its last beacon arrived.
    pub last_seen: u64,
}

/// The content of one beacon.
pub struct Beacon {
    pub ip: String,
    pub hostname: String,
    pub instance_id: String,
}

/// The text of a beacon.
pub open spec fn beacon_text(ip: Seq<char>, hostname: Seq<char>, instance_id: Seq<char>) -> Seq<
    char,
> {
    "DISCOVER:"@ + ip + seq![':'] + hostname + seq![':'] + instance_id
}

/// What a received beacon announces: the text after `DISCOVER:` split at
/// each `:`, of which the first three fields are the address, the host name
/// and the instance id; `None` for any other text.
pub open spec fn beacon_fields(msg: Seq<char>) -> Option<(Seq<char>, Seq<char>, Seq<char>)> {
    if msg.len() >= 9 && msg.subrange(0, 9) == "DISCOVER:"@ {
        let parts = fields_of(msg.subrange(9, msg.len() as int), ':', ':');
        if parts.len() >= 3 {
            Some((parts[0], parts[1], parts[2]))
        } else {
            None
        }
    } else {
        None
    }
}

/// The beacon that announces this instance.
pub fn format_beacon(ip: &str, hostname: &str, instance_id: &str) -> (r: String)
    ensures
        r@ == beacon_text(ip@, hostname@, instance_id@),
{
    let mut out = String::from_str("DISCOVER:");
    out.append(ip);
    out.append(":");
    out.append(hostname);
    out.append(":");
    out.append(instance_id);
    proof {
        reveal_strlit(":");
    }
    out
}

/// Reads a received beacon (see `beacon_fields`).
pub fn parse_beacon(msg: &str) -> (r: Option<Beacon>)
    ensures
        r is Some <==> beacon_fields(msg@) is Some,
        r matches Some(b) ==> beacon_fields(msg@) == Some((b.ip@, b.hostname@, b.instance_id@)),
{
    proof {
        reveal_strlit("DISCOVER:");
    }
    if !starts_with_text(msg, "DISCOVER:") {
        return None;
    }
    let n = msg.unicode_len();
    let rest = msg.substring_char(9, n);
    let parts = split_fields(rest, ':', ':');
    if parts.len() < 3 {
        return None;
    }
    assert(views(parts@)[0] == parts@[0]@);
    assert(views(parts@)[1] == parts@[1]@);
    assert(views(parts@)[2] == parts@[2]@);
    Some(
        Beacon {
            ip: parts[0].clone(),
            hostname: parts[1].clone(),
            instance_id: parts[2].clone(),
        },
    )
}

/// A peer heard at `last_seen` is still kept at `now`.
pub open spec fn is_fresh(last_seen: u64, now: u64) -> bool {
    now - last_seen <= PEER_TIMEOUT_SECS
}

/// The devices that are still fresh at `now`, in order.
pub open spec fn fresh_only(devices: Seq<Device>, now: u64) -> Seq<Device>
    decreases devices.len(),
{
    if devices.len() == 0 {
        devices
    } else if is_fresh(devices.last().last_seen, now) {
        fresh_only(devices.drop_last(), now).push(devices.last())
    } else {
        fresh_only(devices.drop_last(), now)
    }
}

pub open spec fn is_peer(d: Device, ip: Seq<char>, instance_id: Seq<char>) -> bool {
    d.ip@ == ip && d.instance_id@ == instance_id
}

/// The table after a beacon of a foreign instance heard at `now`: the entry
/// of the same address and instance is refreshed where there is one, else
/// the peer is appended.
pub open spec fn upserted(devices: Seq<Device>, b: Beacon, now: u64) -> Seq<Device> {
    let d = Device {
        ip: b.ip,
        hostname: b.hostname,
        instance_id: b.instance_id,
        last_seen: now,
    };
    if exists|i: int| 0 <= i < devices.len() && is_peer(#[trigger] devices[i], b.ip@, b.instance_id@) {
        let i = choose|i: int|
            0 <= i < devices.len() && is_peer(#[trigger] devices[i], b.ip@, b.instance_id@);
        devices.update(i, d)
    } else {
        devices.push(d)
    }
}

/// No two devices share address and instance id.
pub open spec fn distinct_peers(s: Seq<Device>) -> bool {
    forall|i: int, j: int|
        0 <= i < s.len() && 0 <= j < s.len() && i != j ==> !is_peer(
            #[trigger] s[i],
            (#[trigger] s[j]).ip@,
            s[j].instance_id@,
        )
}

/// The table after a beacon heard at `now` by the instance `local`: its own
/// beacons change nothing.
pub open spec fn observed(devices: Seq<Device>, b: Beacon, local: Seq<char>, now: u64) -> Seq<
    Device,
> {
    if b.instance_id@ == local {
        devices
    } else {
        upserted(devices, b, now)
    }
}

/// The table after a run of beacons, each with the time it was heard.
pub open spec fn observed_all(devices: Seq<Device>, beacons: Seq<(Beacon, u64)>, local: Seq<char>) -> Seq<
    Device,
>
    decreases beacons.len(),
{
    if beacons.len() == 0 {
        devices
    } else {
        observed(
            observed_all(devices, beacons.drop_last(), local),
            beacons.last().0,
            local,
            beacons.last().1,
        )
    }
}

/// No device of the table is the instance `local`.
pub open spec fn excludes_instance(devices: Seq<Device>, local: Seq<char>) -> bool {
    forall|i: int| 0 <= i < devices.len() ==> (#[trigger] devices[i]).instance_id@ != local
}

/// The peers heard so far, each once per address and instance id.
pub struct PeerTable {
    devices: Vec<Device>,
}

fn copy_device(d: &Device) -> (r: Device)
    ensures
        r == *d,
{
    Device {
        ip: d.ip.clone(),
        hostname: d.hostname.clone(),
        instance_id: d.instance_id.clone(),
        last_seen: d.last_seen,
    }
}

impl PeerTable {
    pub closed spec fn view(&self) -> Seq<Device> {
        self.devices@
    }

    /// No two entries share address and instance id.
    pub open spec fn wf(&self) -> bool {
        distinct_peers(self.view())
    }

    pub fn new() -> (r: PeerTable)
        ensures
            r.wf(),
            r.view() == Seq::<Device>::empty(),
    {
        PeerTable { devices: Vec::new() }
    }

    /// Takes a beacon heard at `now`. One that `local_instance` sent itself
    /// is ignored, whatever its address. Returns whether the table changed.
    pub fn observe(&mut self, b: Beacon, local_instance: &str, now: u64) -> (r: bool)
        requires
            old(self).wf(),
        ensures
            final(self).wf(),
            r == (b.instance_id@ != local_instance@),
            final(self).view() == observed(old(self).view(), b, local_instance@, now),
    {
        if same_text(b.instance_id.as_str(), local_instance) {
            return false;
        }
        let ghost old_devs = self.devices@;
        let n = self.devices.len();
        let mut i: usize = 0;
        while i < n
            invariant
                n == self.devices@.len(),
                self.devices@ == old_devs,
                old_devs == old(self).view(),
                distinct_peers(old_devs),
                b.instance_id@ != local_instance@,
                i <= n,
                forall|j: int| 0 <= j < i ==> !is_peer(#[trigger] old_devs[j], b.ip@, b.instance_id@),
            decreases n - i,
        {
            if same_text(self.devices[i].ip.as_str(), b.ip.as_str()) && same_text(
                self.devices[i].instance_id.as_str(),
                b.instance_id.as_str(),
            ) {
                proof {
                    assert(distinct_peers(old_devs));
                    let k = choose|k: int|
                        0 <= k < old_devs.len() && is_peer(#[trigger] old_devs[k], b.ip@, b.instance_id@);
                    if k != i {
                        assert(!is_peer(old_devs[i as int], old_devs[k].ip@, old_devs[k].instance_id@));
                    }
                }
                let ghost bb = b;
                let d = Device { ip: b.ip, hostname: b.hostname, instance_id: b.instance_id, last_seen: now };
                self.devices.set(i, d);
                assert(self.devices@ == upserted(old_devs, bb, now));
                proof {
                    let nd = self.devices@;
                    assert(distinct_peers(old_devs));
                    assert forall|x: int, y: int|
                        0 <= x < nd.len() && 0 <= y < nd.len() && x != y implies !is_peer(
                        #[trigger] nd[x],
                        (#[trigger] nd[y]).ip@,
                        nd[y].instance_id@,
                    ) by {
                        assert(!is_peer(old_devs[x], old_devs[y].ip@, old_devs[y].instance_id@));
                        assert(!is_peer(old_devs[y], old_devs[x].ip@, old_devs[x].instance_id@));
                    }
                }
                return true;
            }
            i += 1;
        }
        let ghost bb = b;
        let d = Device { ip: b.ip, hostname: b.hostname, instance_id: b.instance_id, last_seen: now };
        self.devices.push(d);
        assert(self.devices@ == upserted(old_devs, bb, now));
        proof {
            let nd = self.devices@;
            assert(distinct_peers(old_devs));
            assert forall|x: int, y: int|
                0 <= x < nd.len() && 0 <= y < nd.len() && x != y implies !is_peer(
                #[trigger] nd[x],
                (#[trigger] nd[y]).ip@,
                nd[y].instance_id@,
            ) by {
                if x < n && y < n {
                    assert(!is_peer(old_devs[x], old_devs[y].ip@, old_devs[y].instance_id@));
                } else if x < n {
                    assert(!is_peer(old_devs[x], bb.ip@, bb.instance_id@));
                } else {
                    assert(!is_peer(old_devs[y], bb.ip@, bb.instance_id@));
                }
            }
        }
        true
    }

    /// Takes a datagram's text heard at `now`: a beacon of another instance
    /// is observed; any other text is ignored. Returns whether the table
    /// changed.
    pub fn on_datagram(&mut self, msg: &str, local_instance: &str, now: u64) -> (r: bool)
        requires
            old(self).wf(),
        ensures
            final(self).wf(),
            r <==> (beacon_fields(msg@) matches Some(f) && f.2 != local_instance@),
            !r ==> final(self).view() == old(self).view(),
            r ==> (exists|b: Beacon|
                beacon_fields(msg@) == Some((b.ip@, b.hostname@, b.instance_id@))
                    && #[trigger] upserted(old(self).view(), b, now) == final(self).view()),
    {
        match parse_beacon(msg) {
            Some(b) => {
                let ghost bb = b;
                let r = self.observe(b, local_instance, now);
                proof {
                    if r {
                        assert(upserted(old(self).view(), bb, now) == self.view());
                    }
                }
                r
            },
            None => false,
        }
    }

    /// Drops every peer not heard from for longer than the timeout at `now`.
    pub fn evict(&mut self, now: u64)
        requires
            old(self).wf(),
        ensures
            final(self).wf(),
            final(self).view() == fresh_only(old(self).view(), now),
    {
        let ghost old_devs = self.devices@;
        let mut kept: Vec<Device> = Vec::new();
        let n = self.devices.len();
        let mut i: usize = 0;
        while i < n
            invariant
                n == old_devs.len(),
                self.devices@ == old_devs,
                i <= n,
                kept@ == fresh_only(old_devs.subrange(0, i as int), now),
            decreases n - i,
        {
            let ghost next = old_devs.subrange(0, i + 1);
            assert(next.drop_last() =~= old_devs.subrange(0, i as int));
            if now <= self.devices[i].last_seen || now - self.devices[i].last_seen <= PEER_TIMEOUT_SECS {
                kept.push(copy_device(&self.devices[i]));
            }
            i += 1;
        }
        assert(old_devs.subrange(0, n as int) =~= old_devs);
        proof {
            assert(distinct_peers(old_devs));
            lemma_fresh_only_distinct(old_devs, now);
        }
        self.devices = kept;
    }

    /// The peers, in the order they were first heard.
    pub fn snapshot(&self) -> (r: Vec<Device>)
        ensures
            r@ == self.view(),
    {
        let mut out: Vec<Device> = Vec::new();
        let n = self.devices.len();
        let mut i: usize = 0;
        while i < n
            invariant
                n == self.devices@.len(),
                i <= n,
                out@ == self.devices@.subrange(0, i as int),
            decreases n - i,
        {
            out.push(copy_device(&self.devices[i]));
            assert(out@ =~= self.devices@.subrange(0, i + 1));
            i += 1;
        }
        assert(out@ =~= self.devices@);
        out
    }

    /// Addresses to which the beacon is also sent directly.
    pub fn known_addresses(&self) -> (r: Vec<String>)
        ensures
            views(r@) == self.view().map_values(|d: Device| d.ip@),
    {
        let mut out: Vec<String> = Vec::new();
        let n = self.devices.len();
        let mut i: usize = 0;
        while i < n
            invariant
                n == self.devices@.len(),
                i <= n,
                views(out@) == self.devices@.subrange(0, i as int).map_values(|d: Device| d.ip@),
            decreases n - i,
        {
            let ghost before = views(out@);
            out.push(self.devices[i].ip.clone());
            assert(views(out@) =~= before.push(self.devices@[i as int].ip@));
            assert(self.devices@.subrange(0, i + 1) =~= self.devices@.subrange(0, i as int).push(
                self.devices@[i as int],
            ));
            assert(views(out@) =~= self.devices@.subrange(0, i + 1).map_values(|d: Device| d.ip@));
            i += 1;
        }
        assert(self.devices@.subrange(0, n as int) =~= self.devices@);
        out
    }
}

/// Every device that `fresh_only` keeps was in the table, so no pair of them
/// is one peer twice.
proof fn lemma_fresh_only_sub(devices: Seq<Device>, now: u64)
    ensures
        forall|i: int|
            0 <= i < fresh_only(devices, now).len() ==> exists|j: int|
                0 <= j < devices.len() && devices[j] == #[trigger] fresh_only(devices, now)[i],
    decreases devices.len(),
{
    if devices.len() > 0 {
        lemma_fresh_only_sub(devices.drop_last(), now);
        let f = fresh_only(devices, now);
        let g = fresh_only(devices.drop_last(), now);
        assert forall|i: int| 0 <= i < f.len() implies exists|j: int|
            0 <= j < devices.len() && devices[j] == #[trigger] f[i] by {
            if i < g.len() {
                let j = choose|j: int|
                    0 <= j < devices.drop_last().len() && devices.drop_last()[j] == #[trigger] g[i];
                assert(devices[j] == f[i]);
            } else {
                assert(devices[devices.len() - 1] == f[i]);
            }
        }
    }
}

proof fn lemma_fresh_only_distinct(devices: Seq<Device>, now: u64)
    requires
        distinct_peers(devices),
    ensures
        distinct_peers(fresh_only(devices, now)),
    decreases devices.len(),
{
    if devices.len() > 0 {
        let init = devices.drop_last();
        assert(distinct_peers(init)) by {
            assert forall|x: int, y: int|
                0 <= x < init.len() && 0 <= y < init.len() && x != y implies !is_peer(
                #[trigger] init[x],
                (#[trigger] init[y]).ip@,
                init[y].instance_id@,
            ) by {
                assert(!is_peer(devices[x], devices[y].ip@, devices[y].instance_id@));
            }
        }
        lemma_fresh_only_distinct(init, now);
        lemma_fresh_only_sub(init, now);
        let g = fresh_only(init, now);
        let f = fresh_only(devices, now);
        let last = devices.len() - 1;
        if is_fresh(devices.last().last_seen, now) {
            assert forall|x: int, y: int|
                0 <= x < f.len() && 0 <= y < f.len() && x != y implies !is_peer(
                #[trigger] f[x],
                (#[trigger] f[y]).ip@,
                f[y].instance_id@,
            ) by {
                if x < g.len() && y < g.len() {
                    assert(f[x] == g[x] && f[y] == g[y]);
                } else if x < g.len() {
                    let j = choose|j: int| 0 <= j < init.len() && init[j] == #[trigger] g[x];
                    assert(!is_peer(devices[j], devices[last].ip@, devices[last].instance_id@));
                } else {
                    let j = choose|j: int| 0 <= j < init.len() && init[j] == #[trigger] g[y];
                    assert(!is_peer(devices[last], devices[j].ip@, devices[j].instance_id@));
                }
            }
        }
    }
}

/// Beacons that carry the local instance id are never added to the table,
/// whatever their address: a table without the local instance stays
/// without it after any run of beacons, and the local instance's own
/// beacons leave the table exactly as it was.
pub proof fn lemma_own_beacons_ignored(
    devices: Seq<Device>,
    beacons: Seq<(Beacon, u64)>,
    local: Seq<char>,
)
    requires
        excludes_instance(devices, local),
    ensures
        excludes_instance(observed_all(devices, beacons, local), local),
        (forall|i: int| 0 <= i < beacons.len() ==> (#[trigger] beacons[i]).0.instance_id@ == local)
            ==> observed_all(devices, beacons, local) == devices,
    decreases beacons.len(),
{
    if beacons.len() > 0 {
        let init = beacons.drop_last();
        lemma_own_beacons_ignored(devices, init, local);
        if forall|i: int| 0 <= i < beacons.len() ==> (#[trigger] beacons[i]).0.instance_id@ == local {
            assert forall|i: int| 0 <= i < init.len() implies (#[trigger] init[i]).0.instance_id@
                == local by {
                assert(init[i] == beacons[i]);
            }
            assert(beacons.last() == beacons[beacons.len() - 1]);
        }
        let prev = observed_all(devices, init, local);
        let b = beacons.last().0;
        let next = observed_all(devices, beacons, local);
        if b.instance_id@ != local {
            assert forall|i: int| 0 <= i < next.len() implies (#[trigger] next[i]).instance_id@
                != local by {
                if exists|k: int|
                    0 <= k < prev.len() && is_peer(#[trigger] prev[k], b.ip@, b.instance_id@) {
                    let k = choose|k: int|
                        0 <= k < prev.len() && is_peer(#[trigger] prev[k], b.ip@, b.instance_id@);
                    if i != k {
                        assert(next[i] == prev[i]);
                    }
                } else if i < prev.len() {
                    assert(next[i] == prev[i]);
                }
            }
        }
    }
}

/// After an eviction sweep at `now`, the table holds exactly the devices of
/// before that were heard within the timeout: one heard longer ago is gone.
pub proof fn lemma_eviction(devices: Seq<Device>, now: u64, d: Device)
    ensures
        fresh_only(devices, now).contains(d) <==> devices.contains(d) && is_fresh(
            d.last_seen,
            now,
        ),
    decreases devices.len(),
{
    if devices.len() > 0 {
        let init = devices.drop_last();
        lemma_eviction(init, now, d);
        let f = fresh_only(devices, now);
        let g = fresh_only(init, now);
        if devices.contains(d) && is_fresh(d.last_seen, now) {
            let j = choose|j: int| 0 <= j < devices.len() && devices[j] == d;
            if j < init.len() {
                assert(init[j] == d);
                let k = choose|k: int| 0 <= k < g.len() && g[k] == d;
                assert(f[k] == d);
            } else {
                assert(f[f.len() - 1] == d);
            }
        }
        if f.contains(d) {
            let k = choose|k: int| 0 <= k < f.len() && f[k] == d;
            if k < g.len() {
                assert(g[k] == d);
                let j = choose|j: int| 0 <= j < init.len() && init[j] == d;
                assert(devices[j] == d);
            } else {
                assert(devices[devices.len() - 1] == d);
            }
        }
    }
}

/// A beacon reads back as the address, host name and instance id it was
/// made of, where none of them holds a `:`.
pub proof fn lemma_beacon_round_trip(ip: Seq<char>, hostname: Seq<char>, instance_id: Seq<char>)
    requires
        free_of(ip, ':', ':'),
        free_of(hostname, ':', ':'),
        free_of(instance_id, ':', ':'),
    ensures
        beacon_fields(beacon_text(ip, hostname, instance_id)) == Some((ip, hostname, instance_id)),
{
    reveal_strlit("DISCOVER:");
    let e = Seq::<char>::empty();
    let x1 = e + ip;
    let x2 = x1.push(':');
    let x3 = x2 + hostname;
    let x4 = x3.push(':');
    let x5 = x4 + instance_id;
    assert(fields_of(e, ':', ':') == seq![e]);
    lemma_fields_extend(e, ip, ':', ':');
    assert(fields_of(x1, ':', ':') =~= seq![ip]);
    lemma_fields_separator(x1, ':', ':');
    lemma_fields_extend(x2, hostname, ':', ':');
    assert(fields_of(x3, ':', ':') =~= seq![ip, hostname]);
    lemma_fields_separator(x3, ':', ':');
    lemma_fields_extend(x4, instance_id, ':', ':');
    assert(fields_of(x5, ':', ':') =~= seq![ip, hostname, instance_id]);
    let msg = beacon_text(ip, hostname, instance_id);
    assert(msg.subrange(0, 9) =~= "DISCOVER:"@);
    assert(msg.subrange(9, msg.len() as int) =~= x5);
}

} // verus!
