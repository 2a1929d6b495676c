//! The broadcast hub: subscriber pools, the known-device set, and the
//! liveness sweep.
//!
//! A subscriber is one outbound push stream; the hub identifies it by the
//! numeric id handed out when it was registered. The runtime keeps the actual
//! channel for each id and performs the sends; every membership decision is
//! made here. Three pools exist: the global pool, one pool per known device
//! port, and the directory pool.

use vstd::prelude::*;

verus! {

/// The subscribers of one device feed, keyed by the device's port.
pub struct DevicePool {
    pub port: u16,
    pub subs: Vec<u64>,
}

/// The hub: three subscriber pools and the set of device ports ever seen.
///
/// Subscriber ids are handed out from `next_id`, so every id in any pool is
/// below it and a fresh id is never already a member.
pub struct Broadcaster {
    /// The global feed's subscribers.
    pub clients: Vec<u64>,
    /// Per-device feeds; one entry per port, never empty.
    pub device_clients: Vec<DevicePool>,
    /// The device-directory feed's subscribers.
    pub device_list_clients: Vec<u64>,
    /// Every device port ever observed, in order of first sight; never pruned.
    pub known_devices: Vec<u16>,
    /// The next subscriber id to hand out.
    pub next_id: u64,
}

/// No two pools are for the same port.
pub open spec fn ports_unique(pools: Seq<DevicePool>) -> bool {
    forall|i: int, j: int| 0 <= i < j < pools.len() ==> pools[i].port != pools[j].port
}

/// Whether some pool is keyed by `port`.
pub open spec fn has_pool(pools: Seq<DevicePool>, port: u16) -> bool {
    exists|i: int| 0 <= i < pools.len() && pools[i].port == port
}

/// The members of the pool keyed by `port`, or the empty sequence if there is
/// no such pool. With unique ports this is the contents of the one entry.
pub open spec fn subs_for(pools: Seq<DevicePool>, port: u16) -> Seq<u64>
    decreases pools.len(),
{
    if pools.len() == 0 {
        Seq::empty()
    } else if pools[0].port == port {
        pools[0].subs@
    } else {
        subs_for(pools.drop_first(), port)
    }
}

proof fn lemma_ports_unique_drop_first(pools: Seq<DevicePool>)
    requires
        ports_unique(pools),
        pools.len() >= 1,
    ensures
        ports_unique(pools.drop_first()),
{
    assert forall|i: int, j: int|
        0 <= i < j < pools.drop_first().len() implies pools.drop_first()[i].port
        != pools.drop_first()[j].port by {
        assert(pools.drop_first()[i] == pools[i + 1]);
        assert(pools.drop_first()[j] == pools[j + 1]);
    }
}

/// With unique ports, `subs_for` at a port present at index `i` is exactly
/// that entry's members.
pub proof fn lemma_subs_for_at(pools: Seq<DevicePool>, port: u16, i: int)
    requires
        ports_unique(pools),
        0 <= i < pools.len(),
        pools[i].port == port,
    ensures
        subs_for(pools, port) == pools[i].subs@,
    decreases pools.len(),
{
    if i > 0 {
        lemma_ports_unique_drop_first(pools);
        assert(pools.drop_first()[i - 1] == pools[i]);
        lemma_subs_for_at(pools.drop_first(), port, i - 1);
    }
}

/// Where no pool is keyed by `port`, `subs_for` is empty.
pub proof fn lemma_subs_for_absent(pools: Seq<DevicePool>, port: u16)
    requires
        !has_pool(pools, port),
    ensures
        subs_for(pools, port) == Seq::<u64>::empty(),
    decreases pools.len(),
{
    if pools.len() > 0 {
        assert(pools[0].port != port);
        assert forall|i: int| 0 <= i < pools.drop_first().len() implies pools.drop_first()[i].port
            != port by {
            assert(pools.drop_first()[i] == pools[i + 1]);
        }
        lemma_subs_for_absent(pools.drop_first(), port);
    }
}

/// Replacing the entry at `i` by one with the same port changes `subs_for`
/// only at that port.
proof fn lemma_subs_for_update(pools: Seq<DevicePool>, i: int, np: DevicePool)
    requires
        ports_unique(pools),
        0 <= i < pools.len(),
        pools[i].port == np.port,
    ensures
        ports_unique(pools.update(i, np)),
        subs_for(pools.update(i, np), np.port) == np.subs@,
        forall|p: u16| p != np.port ==> subs_for(pools.update(i, np), p) == subs_for(pools, p),
{
    let upd = pools.update(i, np);
    assert forall|a: int, b: int| 0 <= a < b < upd.len() implies upd[a].port != upd[b].port by {
        assert(pools[a].port != pools[b].port);
    }
    lemma_subs_for_at(upd, np.port, i);
    assert forall|p: u16| p != np.port implies subs_for(upd, p) == subs_for(pools, p) by {
        if has_pool(pools, p) {
            let j = choose|j: int| 0 <= j < pools.len() && pools[j].port == p;
            assert(upd[j].port == p);
            lemma_subs_for_at(pools, p, j);
            lemma_subs_for_at(upd, p, j);
        } else {
            assert(!has_pool(upd, p)) by {
                if has_pool(upd, p) {
                    let j = choose|j: int| 0 <= j < upd.len() && upd[j].port == p;
                    assert(pools[j].port == p);
                }
            }
            lemma_subs_for_absent(pools, p);
            lemma_subs_for_absent(upd, p);
        }
    }
}

/// Appending a pool for a new port changes `subs_for` only at that port.
proof fn lemma_subs_for_push(pools: Seq<DevicePool>, np: DevicePool)
    requires
        ports_unique(pools),
        !has_pool(pools, np.port),
    ensures
        ports_unique(pools.push(np)),
        subs_for(pools.push(np), np.port) == np.subs@,
        forall|p: u16| p != np.port ==> subs_for(pools.push(np), p) == subs_for(pools, p),
        forall|p: u16| #[trigger] has_pool(pools.push(np), p) <==> has_pool(pools, p) || p
            == np.port,
{
    let ext = pools.push(np);
    assert forall|p: u16| #[trigger] has_pool(ext, p) <==> has_pool(pools, p) || p
        == np.port by {
        if has_pool(ext, p) {
            let j = choose|j: int| 0 <= j < ext.len() && ext[j].port == p;
            if j < pools.len() {
                assert(pools[j].port == p);
            }
        }
        if has_pool(pools, p) {
            let j = choose|j: int| 0 <= j < pools.len() && pools[j].port == p;
            assert(ext[j].port == p);
        }
        if p == np.port {
            assert(ext[pools.len() as int].port == p);
        }
    }
    assert forall|a: int, b: int| 0 <= a < b < ext.len() implies ext[a].port != ext[b].port by {
        if b < pools.len() {
            assert(pools[a].port != pools[b].port);
        } else {
            assert(ext[b] == np);
            assert(pools[a].port != np.port);
        }
    }
    lemma_subs_for_at(ext, np.port, pools.len() as int);
    assert forall|p: u16| p != np.port implies subs_for(ext, p) == subs_for(pools, p) by {
        if has_pool(pools, p) {
            let j = choose|j: int| 0 <= j < pools.len() && pools[j].port == p;
            assert(ext[j].port == p);
            lemma_subs_for_at(pools, p, j);
            lemma_subs_for_at(ext, p, j);
        } else {
            assert(!has_pool(ext, p)) by {
                if has_pool(ext, p) {
                    let j = choose|j: int| 0 <= j < ext.len() && ext[j].port == p;
                    assert(j < pools.len() ==> pools[j].port == p);
                }
            }
            lemma_subs_for_absent(pools, p);
            lemma_subs_for_absent(ext, p);
        }
    }
}

/// One fan-out, ready to perform: the payload and the ids of every
/// subscriber it goes to. The runtime attempts each delivery exactly once;
/// failures are swallowed there and repaired at the next sweep.
pub struct Delivery {
    pub payload: String,
    pub targets: Vec<u64>,
}

impl Broadcaster {
    /// Well-formedness: no pool holds a subscriber twice, per-device pools
    /// are keyed uniquely and never empty, and every id is below `next_id`.
    pub open spec fn wf(self) -> bool {
        &&& self.clients@.no_duplicates()
        &&& self.device_list_clients@.no_duplicates()
        &&& self.known_devices@.no_duplicates()
        &&& ports_unique(self.device_clients@)
        &&& forall|i: int|
            0 <= i < self.device_clients@.len() ==> (#[trigger] self.device_clients@[i]).subs@.no_duplicates()
        &&& forall|i: int|
            0 <= i < self.device_clients@.len() ==> (#[trigger] self.device_clients@[i]).subs@.len() > 0
        &&& forall|j: int| 0 <= j < self.clients@.len() ==> #[trigger] self.clients@[j] < self.next_id
        &&& forall|j: int|
            0 <= j < self.device_list_clients@.len() ==> #[trigger] self.device_list_clients@[j]
                < self.next_id
        &&& forall|i: int, j: int|
            0 <= i < self.device_clients@.len() && 0 <= j
                < self.device_clients@[i].subs@.len() ==> #[trigger] self.device_clients@[i].subs@[j]
                < self.next_id
    }

    /// The set of device ports ever observed.
    pub open spec fn known(self) -> Set<u16> {
        self.known_devices@.to_set()
    }

    /// Constructs a hub with no subscribers and no known devices.
    pub fn create() -> (r: Broadcaster)
        ensures
            r.wf(),
            r.clients@.len() == 0,
            r.device_clients@.len() == 0,
            r.device_list_clients@.len() == 0,
            r.known_devices@.len() == 0,
            r.next_id == 0,
    {
        Broadcaster {
            clients: Vec::new(),
            device_clients: Vec::new(),
            device_list_clients: Vec::new(),
            known_devices: Vec::new(),
            next_id: 0,
        }
    }

    /// Records that `port` was observed. Returns true only the first time a
    /// given port is seen; the known-device set grows monotonically and is
    /// never shrunk, so every later call with the same port returns false.
    pub fn device_seen(&mut self, port: u16) -> (newly: bool)
        requires
            old(self).wf(),
        ensures
            final(self).wf(),
            newly == !old(self).known_devices@.contains(port),
            final(self).known_devices@ == if newly {
                old(self).known_devices@.push(port)
            } else {
                old(self).known_devices@
            },
            final(self).known() == old(self).known().insert(port),
            final(self).clients == old(self).clients,
            final(self).device_clients == old(self).device_clients,
            final(self).device_list_clients == old(self).device_list_clients,
            final(self).next_id == old(self).next_id,
    {
        let mut i: usize = 0;
        while i < self.known_devices.len()
            invariant
                self == old(self),
                old(self).wf(),
                i <= self.known_devices@.len(),
                forall|j: int| 0 <= j < i ==> self.known_devices@[j] != port,
            decreases self.known_devices@.len() - i,
        {
            if self.known_devices[i] == port {
                proof {
                    assert(self.known_devices@.contains(port));
                    assert(self.known().insert(port) =~= self.known());
                }
                return false;
            }
            i = i + 1;
        }
        self.known_devices.push(port);
        proof {
            assert(final(self).known_devices@.last() == port);
            assert(final(self).known_devices@.contains(port));
            assert(final(self).known() =~= old(self).known().insert(port)) by {
                assert forall|p: u16| final(self).known().contains(p) implies old(self).known().insert(
                    port,
                ).contains(p) by {
                    let k = choose|k: int|
                        0 <= k < final(self).known_devices@.len() && final(self).known_devices@[k]
                            == p;
                    if k < old(self).known_devices@.len() {
                        assert(old(self).known_devices@.contains(p));
                    }
                }
                assert forall|p: u16|
                    old(self).known().insert(port).contains(p) implies final(self).known().contains(
                    p,
                ) by {
                    if p == port {
                        assert(final(self).known_devices@.contains(p));
                    } else {
                        let k = choose|k: int|
                            0 <= k < old(self).known_devices@.len() && old(
                                self,
                            ).known_devices@[k] == p;
                        assert(final(self).known_devices@[k] == p);
                        assert(final(self).known_devices@.contains(p));
                    }
                }
            }
        }
        true
    }

    /// A snapshot of the known-device set, in order of first sight.
    pub fn known_ports(&self) -> (r: Vec<u16>)
        ensures
            r@ == self.known_devices@,
            r@.to_set() == self.known(),
    {
        let mut out: Vec<u16> = Vec::new();
        let mut i: usize = 0;
        while i < self.known_devices.len()
            invariant
                i <= self.known_devices@.len(),
                out@ == self.known_devices@.take(i as int),
            decreases self.known_devices@.len() - i,
        {
            out.push(self.known_devices[i]);
            proof {
                assert(out@ =~= self.known_devices@.take(i + 1 as int));
            }
            i = i + 1;
        }
        proof {
            assert(out@ =~= self.known_devices@);
        }
        out
    }

    /// Observes `port` and, exactly when it is newly seen, returns the one
    /// directory fan-out: the full known-port list as a JSON array, addressed
    /// to every directory subscriber. An already-seen port produces nothing.
    pub fn register_port(&mut self, port: u16) -> (d: Option<Delivery>)
        requires
            old(self).wf(),
        ensures
            final(self).wf(),
            d is Some <==> !old(self).known_devices@.contains(port),
            final(self).known_devices@ == if old(self).known_devices@.contains(port) {
                old(self).known_devices@
            } else {
                old(self).known_devices@.push(port)
            },
            final(self).known() == old(self).known().insert(port),
            d is Some ==> d.unwrap().payload@ == crate::json::json_u16_list(
                final(self).known_devices@,
            ) && d.unwrap().targets@ == final(self).device_list_clients@,
            final(self).clients == old(self).clients,
            final(self).device_clients == old(self).device_clients,
            final(self).device_list_clients == old(self).device_list_clients,
            final(self).next_id == old(self).next_id,
    {
        if !self.device_seen(port) {
            return None;
        }
        let ports = self.known_ports();
        let payload = crate::json::ports_json(&ports);
        Some(Delivery { payload, targets: copy_ids(&self.device_list_clients) })
    }

    /// The index of the pool keyed by `port`, if any.
    fn find_pool(&self, port: u16) -> (r: Option<usize>)
        ensures
            match r {
                Some(i) => i < self.device_clients@.len() && self.device_clients@[i as int].port
                    == port,
                None => !has_pool(self.device_clients@, port),
            },
    {
        let mut i: usize = 0;
        while i < self.device_clients.len()
            invariant
                i <= self.device_clients@.len(),
                forall|j: int| 0 <= j < i ==> self.device_clients@[j].port != port,
            decreases self.device_clients@.len() - i,
        {
            if self.device_clients[i].port == port {
                return Some(i);
            }
            i = i + 1;
        }
        None
    }

    /// Registers a fresh subscriber in the global pool and returns its id.
    /// Always succeeds; the id was in no pool before.
    pub fn new_client(&mut self) -> (id: u64)
        requires
            old(self).wf(),
            old(self).next_id < u64::MAX,
        ensures
            final(self).wf(),
            id == old(self).next_id,
            !old(self).clients@.contains(id),
            final(self).clients@ == old(self).clients@.push(id),
            final(self).next_id == old(self).next_id + 1,
            final(self).device_clients == old(self).device_clients,
            final(self).device_list_clients == old(self).device_list_clients,
            final(self).known_devices == old(self).known_devices,
    {
        let id = self.next_id;
        self.next_id = self.next_id + 1;
        self.clients.push(id);
        id
    }

    /// Registers a fresh subscriber in the pool of device `port`, creating
    /// the pool if this is the port's first subscriber. Always succeeds.
    pub fn new_device_client(&mut self, port: u16) -> (id: u64)
        requires
            old(self).wf(),
            old(self).next_id < u64::MAX,
        ensures
            final(self).wf(),
            id == old(self).next_id,
            !subs_for(old(self).device_clients@, port).contains(id),
            subs_for(final(self).device_clients@, port) == subs_for(
                old(self).device_clients@,
                port,
            ).push(id),
            forall|p: u16|
                p != port ==> subs_for(final(self).device_clients@, p) == subs_for(
                    old(self).device_clients@,
                    p,
                ),
            has_pool(final(self).device_clients@, port),
            final(self).next_id == old(self).next_id + 1,
            final(self).clients == old(self).clients,
            final(self).device_list_clients == old(self).device_list_clients,
            final(self).known_devices == old(self).known_devices,
    {
        let id = self.next_id;
        self.next_id = self.next_id + 1;
        match self.find_pool(port) {
            Some(i) => {
                proof {
                    lemma_subs_for_at(self.device_clients@, port, i as int);
                }
                let mut pool = self.device_clients.remove(i);
                pool.subs.push(id);
                self.device_clients.insert(i, pool);
                proof {
                    assert(self.device_clients@ =~= old(self).device_clients@.update(
                        i as int,
                        self.device_clients@[i as int],
                    ));
                    lemma_subs_for_update(
                        old(self).device_clients@,
                        i as int,
                        self.device_clients@[i as int],
                    );
                }
            },
            None => {
                proof {
                    lemma_subs_for_absent(self.device_clients@, port);
                }
                let mut subs: Vec<u64> = Vec::new();
                subs.push(id);
                let pool = DevicePool { port, subs };
                self.device_clients.push(pool);
                proof {
                    assert(subs_for(old(self).device_clients@, port).push(id)
                        =~= self.device_clients@.last().subs@);
                    lemma_subs_for_push(
                        old(self).device_clients@,
                        self.device_clients@.last(),
                    );
                }
            },
        }
        id
    }

    /// Registers a fresh subscriber in the directory pool and returns its
    /// id. Always succeeds; the id was in no pool before.
    pub fn new_device_list_client(&mut self) -> (id: u64)
        requires
            old(self).wf(),
            old(self).next_id < u64::MAX,
        ensures
            final(self).wf(),
            id == old(self).next_id,
            !old(self).device_list_clients@.contains(id),
            final(self).device_list_clients@ == old(self).device_list_clients@.push(id),
            final(self).next_id == old(self).next_id + 1,
            final(self).clients == old(self).clients,
            final(self).device_clients == old(self).device_clients,
            final(self).known_devices == old(self).known_devices,
    {
        let id = self.next_id;
        self.next_id = self.next_id + 1;
        self.device_list_clients.push(id);
        id
    }

    /// A fan-out of `msg` to the global pool: one delivery per registered
    /// subscriber, in pool order.
    pub fn broadcast(&self, msg: &str) -> (d: Delivery)
        ensures
            d.payload@ == msg@,
            d.targets@ == self.clients@,
    {
        Delivery { payload: String::from_str(msg), targets: copy_ids(&self.clients) }
    }

    /// A fan-out of `msg` to the pool of device `port`: one delivery per
    /// member, and none at all if the port has no pool.
    pub fn broadcast_device(&self, port: u16, msg: &str) -> (d: Delivery)
        requires
            self.wf(),
        ensures
            d.payload@ == msg@,
            d.targets@ == subs_for(self.device_clients@, port),
    {
        match self.find_pool(port) {
            Some(i) => {
                proof {
                    lemma_subs_for_at(self.device_clients@, port, i as int);
                }
                Delivery {
                    payload: String::from_str(msg),
                    targets: copy_ids(&self.device_clients[i].subs),
                }
            },
            None => {
                proof {
                    lemma_subs_for_absent(self.device_clients@, port);
                }
                Delivery { payload: String::from_str(msg), targets: Vec::new() }
            },
        }
    }

    /// A fan-out of `msg` to the directory pool: one delivery per registered
    /// subscriber, in pool order.
    pub fn broadcast_device_list(&self, msg: &str) -> (d: Delivery)
        ensures
            d.payload@ == msg@,
            d.targets@ == self.device_list_clients@,
    {
        Delivery { payload: String::from_str(msg), targets: copy_ids(&self.device_list_clients) }
    }
}

/// The survivors of a sweep: the ids whose heartbeat delivery succeeded.
pub open spec fn kept_by(ok: Seq<u64>) -> spec_fn(u64) -> bool {
    |id: u64| ok.contains(id)
}

/// Membership in a concatenation.
pub proof fn lemma_add_contains(a: Seq<u64>, b: Seq<u64>)
    ensures
        forall|x: u64| #[trigger] (a + b).contains(x) <==> a.contains(x) || b.contains(x),
{
    assert forall|x: u64| #[trigger] (a + b).contains(x) implies a.contains(x) || b.contains(
        x,
    ) by {
        let k = choose|k: int| 0 <= k < (a + b).len() && (a + b)[k] == x;
        if k < a.len() {
            assert(a[k] == x);
        } else {
            assert(b[k - a.len()] == x);
        }
    }
    assert forall|x: u64| a.contains(x) || b.contains(x) implies #[trigger] (a + b).contains(
        x,
    ) by {
        if a.contains(x) {
            let k = choose|k: int| 0 <= k < a.len() && a[k] == x;
            assert((a + b)[k] == x);
        } else {
            let k = choose|k: int| 0 <= k < b.len() && b[k] == x;
            assert((a + b)[k + a.len()] == x);
        }
    }
}

/// Membership in a filtered list, and preservation of uniqueness: an id
/// survives the filter exactly when it was present and satisfies the
/// predicate.
pub proof fn lemma_filter_membership(s: Seq<u64>, pred: spec_fn(u64) -> bool)
    ensures
        forall|x: u64| #[trigger] s.filter(pred).contains(x) <==> s.contains(x) && pred(x),
        s.no_duplicates() ==> s.filter(pred).no_duplicates(),
    decreases s.len(),
{
    reveal(Seq::filter);
    if s.len() != 0 {
        let rest = s.drop_last();
        lemma_filter_membership(rest, pred);
        assert(forall|x: u64| #[trigger] s.contains(x) <==> rest.contains(x) || x == s.last()) by {
            assert forall|x: u64| #[trigger] s.contains(x) implies rest.contains(x) || x
                == s.last() by {
                let k = choose|k: int| 0 <= k < s.len() && s[k] == x;
                if k < s.len() - 1 {
                    assert(rest[k] == x);
                }
            }
            assert forall|x: u64| rest.contains(x) implies s.contains(x) by {
                let k = choose|k: int| 0 <= k < rest.len() && rest[k] == x;
                assert(s[k] == x);
            }
            assert(s.contains(s.last()));
        }
        if pred(s.last()) {
            assert(s.filter(pred) == rest.filter(pred).push(s.last()));
            assert forall|x: u64| #[trigger] s.filter(pred).contains(x) implies s.contains(x)
                && pred(x) by {
                let k = choose|k: int| 0 <= k < s.filter(pred).len() && s.filter(pred)[k] == x;
                if k < rest.filter(pred).len() {
                    assert(rest.filter(pred).contains(x));
                }
            }
            assert forall|x: u64| s.contains(x) && pred(x) implies #[trigger] s.filter(
                pred,
            ).contains(x) by {
                if rest.contains(x) {
                    assert(rest.filter(pred).contains(x));
                    let k = choose|k: int|
                        0 <= k < rest.filter(pred).len() && rest.filter(pred)[k] == x;
                    assert(s.filter(pred)[k] == x);
                } else {
                    assert(s.filter(pred).last() == x);
                }
            }
            if s.no_duplicates() {
                assert forall|i: int, j: int|
                    0 <= i < s.filter(pred).len() && 0 <= j < s.filter(pred).len() && i
                        != j implies s.filter(pred)[i] != s.filter(pred)[j] by {
                    if i < rest.filter(pred).len() && j < rest.filter(pred).len() {
                    } else {
                        assert(!rest.contains(s.last())) by {
                            if rest.contains(s.last()) {
                                let k = choose|k: int|
                                    0 <= k < rest.len() && rest[k] == s.last();
                                assert(s[k] == s.last());
                                assert(s[s.len() - 1] == s.last());
                            }
                        }
                        assert(!rest.filter(pred).contains(s.last()));
                        if i < rest.filter(pred).len() {
                            assert(rest.filter(pred).contains(s.filter(pred)[i]));
                        } else {
                            assert(rest.filter(pred).contains(s.filter(pred)[j]));
                        }
                    }
                }
            }
        } else {
            assert(s.filter(pred) == rest.filter(pred));
        }
    }
}

/// Whether `v` holds `x`.
fn ids_contain(v: &Vec<u64>, x: u64) -> (b: bool)
    ensures
        b == v@.contains(x),
{
    let mut i: usize = 0;
    while i < v.len()
        invariant
            i <= v@.len(),
            forall|j: int| 0 <= j < i ==> v@[j] != x,
        decreases v@.len() - i,
    {
        if v[i] == x {
            return true;
        }
        i = i + 1;
    }
    false
}

/// The members of `v` whose heartbeat succeeded, in their original order.
fn retain_ok(v: &Vec<u64>, ok: &Vec<u64>) -> (r: Vec<u64>)
    ensures
        r@ == v@.filter(kept_by(ok@)),
{
    let pred = Ghost(kept_by(ok@));
    let mut out: Vec<u64> = Vec::new();
    let mut i: usize = 0;
    proof {
        reveal(Seq::filter);
        assert(v@.take(0).filter(pred@) =~= Seq::<u64>::empty());
    }
    while i < v.len()
        invariant
            i <= v@.len(),
            pred@ == kept_by(ok@),
            out@ == v@.take(i as int).filter(pred@),
        decreases v@.len() - i,
    {
        let keep = ids_contain(ok, v[i]);
        proof {
            reveal(Seq::filter);
            assert(v@.take(i + 1).drop_last() =~= v@.take(i as int));
            assert(v@.take(i + 1).last() == v@[i as int]);
        }
        if keep {
            out.push(v[i]);
        }
        i = i + 1;
    }
    proof {
        assert(v@.take(v@.len() as int) =~= v@);
    }
    out
}

impl Broadcaster {
    /// Whether `id` is registered in any pool.
    pub open spec fn is_member(self, id: u64) -> bool {
        self.clients@.contains(id) || self.device_list_clients@.contains(id) || exists|i: int|
            0 <= i < self.device_clients@.len() && (#[trigger] self.device_clients@[i]).subs@.contains(
                id,
            )
    }

    /// Every subscriber of every pool, for the sweep to heartbeat. Each
    /// registered id appears; nothing else does.
    pub fn sweep_targets(&self) -> (r: Vec<u64>)
        ensures
            forall|id: u64| #[trigger] r@.contains(id) <==> self.is_member(id),
    {
        let mut out = copy_ids(&self.clients);
        let mut i: usize = 0;
        while i < self.device_clients.len()
            invariant
                i <= self.device_clients@.len(),
                forall|id: u64| #[trigger]
                    out@.contains(id) <==> self.clients@.contains(id) || exists|j: int|
                        0 <= j < i && (#[trigger] self.device_clients@[j]).subs@.contains(id),
            decreases self.device_clients@.len() - i,
        {
            let ghost before = out@;
            let more = copy_ids(&self.device_clients[i].subs);
            append_ids(&mut out, &more);
            proof {
                lemma_add_contains(before, more@);
                assert forall|id: u64| #[trigger]
                    out@.contains(id) implies self.clients@.contains(id) || exists|j: int|
                    0 <= j < i + 1 && (#[trigger] self.device_clients@[j]).subs@.contains(id) by {
                    if !before.contains(id) {
                        assert(self.device_clients@[i as int].subs@.contains(id));
                    }
                }
            }
            i = i + 1;
        }
        let ghost before = out@;
        let more = copy_ids(&self.device_list_clients);
        append_ids(&mut out, &more);
        proof {
            lemma_add_contains(before, more@);
        }
        out
    }

    /// One sweep generation: every pool keeps exactly its members whose
    /// heartbeat succeeded (`ok`), in order; per-device pools left empty are
    /// removed outright; the known-device set is untouched.
    pub fn apply_sweep(&mut self, ok: &Vec<u64>)
        requires
            old(self).wf(),
        ensures
            final(self).wf(),
            final(self).clients@ == old(self).clients@.filter(kept_by(ok@)),
            final(self).device_list_clients@ == old(self).device_list_clients@.filter(
                kept_by(ok@),
            ),
            forall|p: u16|
                subs_for(#[trigger] final(self).device_clients@, p) == subs_for(
                    old(self).device_clients@,
                    p,
                ).filter(kept_by(ok@)),
            forall|p: u16| #[trigger]
                has_pool(final(self).device_clients@, p) <==> subs_for(
                    old(self).device_clients@,
                    p,
                ).filter(kept_by(ok@)).len() > 0,
            final(self).known_devices == old(self).known_devices,
            final(self).next_id == old(self).next_id,
    {
        let ghost pred = kept_by(ok@);
        let new_clients = retain_ok(&self.clients, ok);
        let new_dir = retain_ok(&self.device_list_clients, ok);
        proof {
            lemma_filter_membership(self.clients@, pred);
            lemma_filter_membership(self.device_list_clients@, pred);
            assert forall|j: int| 0 <= j < new_clients@.len() implies #[trigger] new_clients@[j]
                < self.next_id by {
                assert(new_clients@.contains(new_clients@[j]));
                let k = choose|k: int|
                    0 <= k < self.clients@.len() && self.clients@[k] == new_clients@[j];
            }
            assert forall|j: int| 0 <= j < new_dir@.len() implies #[trigger] new_dir@[j]
                < self.next_id by {
                assert(new_dir@.contains(new_dir@[j]));
                let k = choose|k: int|
                    0 <= k < self.device_list_clients@.len() && self.device_list_clients@[k]
                        == new_dir@[j];
            }
        }
        let ghost pools = self.device_clients@;
        let mut new_pools: Vec<DevicePool> = Vec::new();
        let mut i: usize = 0;
        proof {
            assert(pools.take(0) =~= Seq::<DevicePool>::empty());
            reveal(Seq::filter);
            assert forall|p: u16|
                #[trigger] subs_for(new_pools@, p) == subs_for(pools.take(0), p).filter(pred) by {
                assert(subs_for(pools.take(0), p) == Seq::<u64>::empty());
                assert(Seq::<u64>::empty().filter(pred) =~= Seq::<u64>::empty());
                assert(subs_for(new_pools@, p) == Seq::<u64>::empty());
            }
        }
        while i < self.device_clients.len()
            invariant
                self.wf(),
                pools == self.device_clients@,
                pred == kept_by(ok@),
                i <= pools.len(),
                ports_unique(new_pools@),
                forall|p: u16| #[trigger] has_pool(new_pools@, p) ==> has_pool(pools.take(i as int), p),
                forall|p: u16|
                    #[trigger] subs_for(new_pools@, p) == subs_for(pools.take(i as int), p).filter(
                        pred,
                    ),
                forall|p: u16| #[trigger]
                    has_pool(new_pools@, p) <==> subs_for(pools.take(i as int), p).filter(
                        pred,
                    ).len() > 0,
                forall|k: int|
                    0 <= k < new_pools@.len() ==> (#[trigger] new_pools@[k]).subs@.no_duplicates(),
                forall|k: int| 0 <= k < new_pools@.len() ==> (#[trigger] new_pools@[k]).subs@.len() > 0,
                forall|k: int, j: int|
                    0 <= k < new_pools@.len() && 0 <= j < new_pools@[k].subs@.len() ==> #[trigger] new_pools@[k].subs@[j]
                        < self.next_id,
            decreases pools.len() - i,
        {
            let ghost taken = pools.take(i as int);
            let ghost cur = pools[i as int];
            let q = self.device_clients[i].port;
            let fs = retain_ok(&self.device_clients[i].subs, ok);
            proof {
                assert(ports_unique(taken)) by {
                    assert forall|a: int, b: int| 0 <= a < b < taken.len() implies taken[a].port
                        != taken[b].port by {
                        assert(pools[a].port != pools[b].port);
                    }
                }
                assert(!has_pool(taken, q)) by {
                    if has_pool(taken, q) {
                        let k = choose|k: int| 0 <= k < taken.len() && taken[k].port == q;
                        assert(pools[k].port == pools[i as int].port);
                    }
                }
                lemma_subs_for_push(taken, cur);
                assert(pools.take(i + 1) =~= taken.push(cur));
                lemma_filter_membership(cur.subs@, pred);
                lemma_subs_for_absent(taken, q);
                assert(subs_for(taken, q).filter(pred) =~= Seq::<u64>::empty());
                assert(!has_pool(new_pools@, q));
            }
            let ghost nb = new_pools@;
            if fs.len() > 0 {
                let np = DevicePool { port: q, subs: fs };
                let ghost gnp = np;
                proof {
                    lemma_subs_for_push(nb, gnp);
                    assert forall|j: int| 0 <= j < np.subs@.len() implies #[trigger] np.subs@[j]
                        < self.next_id by {
                        assert(np.subs@.contains(np.subs@[j]));
                        let k = choose|k: int|
                            0 <= k < cur.subs@.len() && cur.subs@[k] == np.subs@[j];
                    }
                }
                new_pools.push(np);
                proof {
                    assert(new_pools@ == nb.push(gnp));
                    assert(subs_for(new_pools@, q) == cur.subs@.filter(pred));
                    assert forall|p: u16| p != q implies #[trigger] subs_for(new_pools@, p)
                        == subs_for(nb, p) by {
                        assert(subs_for(nb.push(gnp), p) == subs_for(nb, p));
                    }
                    assert forall|p: u16| #[trigger] has_pool(new_pools@, p) <==> has_pool(nb, p)
                        || p == q by {
                        assert(has_pool(nb.push(gnp), p) <==> has_pool(nb, p) || p == gnp.port);
                    }
                }
            } else {
                proof {
                    assert(cur.subs@.filter(pred) =~= Seq::<u64>::empty());
                    lemma_subs_for_absent(new_pools@, q);
                }
            }
            proof {
                assert forall|p: u16|
                    #[trigger] subs_for(new_pools@, p) == subs_for(pools.take(i + 1), p).filter(
                        pred,
                    ) by {
                    if p == q {
                        assert(subs_for(taken.push(cur), q) == cur.subs@);
                    } else {
                        assert(subs_for(taken.push(cur), p) == subs_for(taken, p));
                    }
                }
                assert forall|p: u16| #[trigger]
                    has_pool(new_pools@, p) <==> subs_for(pools.take(i + 1), p).filter(pred).len()
                        > 0 by {
                    if p == q {
                        assert(subs_for(taken.push(cur), q) == cur.subs@);
                    } else {
                        assert(subs_for(taken.push(cur), p) == subs_for(taken, p));
                    }
                }
                assert forall|p: u16| #[trigger] has_pool(new_pools@, p) implies has_pool(
                    pools.take(i + 1),
                    p,
                ) by {
                    assert(has_pool(taken.push(cur), p) <==> has_pool(taken, p) || p == cur.port);
                }
            }
            i = i + 1;
        }
        proof {
            assert(pools.take(pools.len() as int) =~= pools);
        }
        self.clients = new_clients;
        self.device_list_clients = new_dir;
        self.device_clients = new_pools;
    }
}

/// An element-for-element copy of a pool membership list.
fn copy_ids(v: &Vec<u64>) -> (r: Vec<u64>)
    ensures
        r@ == v@,
{
    let mut out: Vec<u64> = Vec::new();
    let mut i: usize = 0;
    while i < v.len()
        invariant
            i <= v@.len(),
            out@ == v@.take(i as int),
        decreases v@.len() - i,
    {
        out.push(v[i]);
        proof {
            assert(out@ =~= v@.take(i + 1 as int));
        }
        i = i + 1;
    }
    proof {
        assert(out@ =~= v@);
    }
    out
}

/// Appends every element of `src` to `dst`, in order.
fn append_ids(dst: &mut Vec<u64>, src: &Vec<u64>)
    ensures
        final(dst)@ == old(dst)@ + src@,
{
    let mut i: usize = 0;
    proof {
        assert(dst@ =~= old(dst)@ + src@.take(0));
    }
    while i < src.len()
        invariant
            i <= src@.len(),
            dst@ == old(dst)@ + src@.take(i as int),
        decreases src@.len() - i,
    {
        dst.push(src[i]);
        proof {
            assert(dst@ =~= old(dst)@ + src@.take(i + 1 as int));
        }
        i = i + 1;
    }
    proof {
        assert(dst@ =~= old(dst)@ + src@);
    }
}

/// After any sequence of subscriptions to a pool, one broadcast delivers to
/// every still-registered subscriber of that pool exactly once, and to
/// nobody else: each fan-out's target list is its pool itself (`broadcast`,
/// `broadcast_device`, `broadcast_device_list` all say so), and a
/// well-formed hub holds no subscriber in a pool twice. Whether one
/// attempted delivery lands is the mailbox's affair: a full or closed
/// mailbox swallows its single copy and nothing more.
pub proof fn lemma_broadcast_exactly_once(pool: Seq<u64>, targets: Seq<u64>)
    requires
        pool.no_duplicates(),
        targets == pool,
    ensures
        forall|id: u64| pool.contains(id) ==> #[trigger] targets.to_multiset().count(id) == 1,
        forall|id: u64| !pool.contains(id) ==> #[trigger] targets.to_multiset().count(id) == 0,
{
    pool.to_multiset_ensures();
    pool.lemma_multiset_has_no_duplicates();
}

/// A well-formed hub's per-device pool holds no subscriber twice, so
/// `lemma_broadcast_exactly_once` applies to a device fan-out as well.
pub proof fn lemma_device_pool_no_duplicates(h: Broadcaster, port: u16)
    requires
        h.wf(),
    ensures
        subs_for(h.device_clients@, port).no_duplicates(),
{
    if has_pool(h.device_clients@, port) {
        let i = choose|i: int|
            0 <= i < h.device_clients@.len() && h.device_clients@[i].port == port;
        lemma_subs_for_at(h.device_clients@, port, i);
    } else {
        lemma_subs_for_absent(h.device_clients@, port);
    }
}

/// A subscriber whose heartbeat delivery failed is in a pool right before a
/// sweep and out of it right after; one whose heartbeat succeeded remains.
/// This holds of the global pool, the directory pool, and every per-device
/// pool, with `ok` the ids whose heartbeat succeeded.
pub proof fn lemma_sweep_prunes(pre: Broadcaster, post: Broadcaster, ok: Seq<u64>)
    requires
        pre.wf(),
        post.clients@ == pre.clients@.filter(kept_by(ok)),
        post.device_list_clients@ == pre.device_list_clients@.filter(kept_by(ok)),
        forall|p: u16|
            #[trigger] subs_for(post.device_clients@, p) == subs_for(
                pre.device_clients@,
                p,
            ).filter(kept_by(ok)),
    ensures
        forall|id: u64|
            #[trigger] post.clients@.contains(id) <==> pre.clients@.contains(id) && ok.contains(
                id,
            ),
        forall|id: u64|
            #[trigger] post.device_list_clients@.contains(id)
                <==> pre.device_list_clients@.contains(id) && ok.contains(id),
        forall|p: u16, id: u64|
            #[trigger] subs_for(post.device_clients@, p).contains(id) <==> subs_for(
                pre.device_clients@,
                p,
            ).contains(id) && ok.contains(id),
{
    lemma_filter_membership(pre.clients@, kept_by(ok));
    lemma_filter_membership(pre.device_list_clients@, kept_by(ok));
    assert forall|p: u16, id: u64|
        #[trigger] subs_for(post.device_clients@, p).contains(id) <==> subs_for(
            pre.device_clients@,
            p,
        ).contains(id) && ok.contains(id) by {
        lemma_filter_membership(subs_for(pre.device_clients@, p), kept_by(ok));
    }
}

/// Marking a device as seen reports a first sight at most once: whatever the
/// hub held before, after one `device_seen(port)` the port is known, so by
/// that function's contract every further `device_seen(port)` answers false,
/// while a port not yet known still answers true exactly once.
pub proof fn lemma_device_seen_once(pre: Broadcaster, mid: Broadcaster, port: u16)
    requires
        mid.known_devices@ == if pre.known_devices@.contains(port) {
            pre.known_devices@
        } else {
            pre.known_devices@.push(port)
        },
    ensures
        mid.known_devices@.contains(port),
{
    if !pre.known_devices@.contains(port) {
        assert(mid.known_devices@.last() == port);
    }
}

} // verus!
