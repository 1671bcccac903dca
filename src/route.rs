use vstd::prelude::*;

verus! {

/// Socket address of a gateway client: an IPv6 address (IPv4 addresses in
/// their mapped form) and a port.
#[derive(Clone, Copy, Debug, PartialEq, Eq, Structural, Hash)]
pub struct PeerAddr {
    pub ip: u128,
    pub port: u16,
}

/// Failure of a routing table operation.
#[derive(Clone, Copy, Debug, PartialEq, Eq, Structural)]
pub enum RouteError {
    /// No entry for the process identifier or the address.
    NotFound,
}

/// The map that an association list stands for.
pub open spec fn assoc_map<K, V>(s: Seq<(K, V)>) -> Map<K, V> {
    Map::new(
        |k: K| exists|i: int| 0 <= i < s.len() && s[i].0 == k,
        |k: K| s[choose|i: int| 0 <= i < s.len() && s[i].0 == k].1,
    )
}

/// No key occurs twice in the association list.
pub open spec fn keys_unique<K, V>(s: Seq<(K, V)>) -> bool {
    forall|i: int, j: int| 0 <= i < s.len() && 0 <= j < s.len() && i != j ==> s[i].0 != s[j].0
}

proof fn lemma_assoc_at<K, V>(s: Seq<(K, V)>, i: int)
    requires
        keys_unique(s),
        0 <= i < s.len(),
    ensures
        assoc_map(s).contains_key(s[i].0),
        assoc_map(s)[s[i].0] == s[i].1,
{
    let k = s[i].0;
    assert(exists|j: int| 0 <= j < s.len() && s[j].0 == k);
    let j = choose|j: int| 0 <= j < s.len() && s[j].0 == k;
    assert(i == j);
}

proof fn lemma_assoc_absent<K, V>(s: Seq<(K, V)>, k: K)
    requires
        forall|i: int| 0 <= i < s.len() ==> s[i].0 != k,
    ensures
        !assoc_map(s).contains_key(k),
{
}

proof fn lemma_assoc_update<K, V>(s: Seq<(K, V)>, i: int, k: K, v: V)
    requires
        keys_unique(s),
        0 <= i < s.len(),
        s[i].0 == k,
    ensures
        keys_unique(s.update(i, (k, v))),
        assoc_map(s.update(i, (k, v))) == assoc_map(s).insert(k, v),
{
    let t = s.update(i, (k, v));
    assert forall|a: K| #[trigger] assoc_map(t).contains_key(a) == assoc_map(s).insert(
        k,
        v,
    ).contains_key(a) by {
        if exists|j: int| 0 <= j < s.len() && s[j].0 == a {
            let j = choose|j: int| 0 <= j < s.len() && s[j].0 == a;
            assert(t[j].0 == a);
        }
        if exists|j: int| 0 <= j < t.len() && t[j].0 == a {
            let j = choose|j: int| 0 <= j < t.len() && t[j].0 == a;
            assert(s[j].0 == a);
        }
    }
    assert forall|a: K| #[trigger] assoc_map(t).contains_key(a) implies assoc_map(t)[a]
        == assoc_map(s).insert(k, v)[a] by {
        let j = choose|j: int| 0 <= j < t.len() && t[j].0 == a;
        lemma_assoc_at(t, j);
        if a != k {
            lemma_assoc_at(s, j);
        }
    }
    assert(assoc_map(t) =~= assoc_map(s).insert(k, v));
}

proof fn lemma_assoc_push<K, V>(s: Seq<(K, V)>, k: K, v: V)
    requires
        keys_unique(s),
        forall|i: int| 0 <= i < s.len() ==> s[i].0 != k,
    ensures
        keys_unique(s.push((k, v))),
        assoc_map(s.push((k, v))) == assoc_map(s).insert(k, v),
{
    let t = s.push((k, v));
    assert forall|a: K| #[trigger] assoc_map(t).contains_key(a) == assoc_map(s).insert(
        k,
        v,
    ).contains_key(a) by {
        if exists|j: int| 0 <= j < s.len() && s[j].0 == a {
            let j = choose|j: int| 0 <= j < s.len() && s[j].0 == a;
            assert(t[j].0 == a);
        }
        if a == k {
            assert(t[s.len() as int].0 == a);
        }
        if exists|j: int| 0 <= j < t.len() && t[j].0 == a {
            let j = choose|j: int| 0 <= j < t.len() && t[j].0 == a;
            if j < s.len() {
                assert(s[j].0 == a);
            }
        }
    }
    assert forall|a: K| #[trigger] assoc_map(t).contains_key(a) implies assoc_map(t)[a]
        == assoc_map(s).insert(k, v)[a] by {
        let j = choose|j: int| 0 <= j < t.len() && t[j].0 == a;
        lemma_assoc_at(t, j);
        if a != k {
            lemma_assoc_at(s, j);
        }
    }
    assert(assoc_map(t) =~= assoc_map(s).insert(k, v));
}

proof fn lemma_assoc_remove_at<K, V>(s: Seq<(K, V)>, i: int)
    requires
        keys_unique(s),
        0 <= i < s.len(),
    ensures
        keys_unique(s.remove(i)),
        assoc_map(s.remove(i)) == assoc_map(s).remove(s[i].0),
{
    let t = s.remove(i);
    let k = s[i].0;
    assert forall|a: K| #[trigger] assoc_map(t).contains_key(a) == assoc_map(s).remove(
        k,
    ).contains_key(a) by {
        if exists|j: int| 0 <= j < s.len() && s[j].0 == a {
            let j = choose|j: int| 0 <= j < s.len() && s[j].0 == a;
            if j < i {
                assert(t[j].0 == a);
            } else if j > i {
                assert(t[j - 1].0 == a);
            }
        }
        if exists|j: int| 0 <= j < t.len() && t[j].0 == a {
            let j = choose|j: int| 0 <= j < t.len() && t[j].0 == a;
            if j < i {
                assert(s[j].0 == a);
            } else {
                assert(s[j + 1].0 == a);
            }
        }
    }
    assert forall|a: K| #[trigger] assoc_map(t).contains_key(a) implies assoc_map(t)[a]
        == assoc_map(s).remove(k)[a] by {
        let j = choose|j: int| 0 <= j < t.len() && t[j].0 == a;
        lemma_assoc_at(t, j);
        if j < i {
            lemma_assoc_at(s, j);
        } else {
            lemma_assoc_at(s, j + 1);
        }
    }
    assert(assoc_map(t) =~= assoc_map(s).remove(k));
}

/// `x` is an entry among the first `n` of `s` that does not point at `addr`.
pub open spec fn kept_from(s: Seq<(u32, PeerAddr)>, n: int, addr: PeerAddr, x: (u32, PeerAddr)) -> bool {
    exists|k: int| 0 <= k < n && s[k] == x && s[k].1 != addr
}

/// The process table without the entries that point at `addr`.
pub open spec fn without_target(m: Map<u32, PeerAddr>, addr: PeerAddr) -> Map<u32, PeerAddr> {
    Map::new(|p: u32| m.contains_key(p) && m[p] != addr, |p: u32| m[p])
}

/// The two maps of a routing table.
pub struct RouteState<P> {
    /// The client that each connected address belongs to.
    pub peers: Map<PeerAddr, P>,
    /// The address that each known process identifier was last seen from.
    pub pids: Map<u32, PeerAddr>,
}

/// An operation on a routing table.
pub enum RouteOp<P> {
    RegisterAddr(PeerAddr, P),
    RegisterPid(u32, PeerAddr),
    Remove(PeerAddr),
}

/// The table after an operation.
pub open spec fn apply_op<P>(t: RouteState<P>, op: RouteOp<P>) -> RouteState<P> {
    match op {
        RouteOp::RegisterAddr(a, p) => RouteState { peers: t.peers.insert(a, p), pids: t.pids },
        RouteOp::RegisterPid(pid, a) => if t.peers.contains_key(a) {
            RouteState { peers: t.peers, pids: t.pids.insert(pid, a) }
        } else {
            t
        },
        RouteOp::Remove(a) => RouteState {
            peers: t.peers.remove(a),
            pids: without_target(t.pids, a),
        },
    }
}

/// The table after a sequence of operations.
pub open spec fn apply_ops<P>(t: RouteState<P>, ops: Seq<RouteOp<P>>) -> RouteState<P>
    decreases ops.len(),
{
    if ops.len() == 0 {
        t
    } else {
        apply_op(apply_ops(t, ops.drop_last()), ops.last())
    }
}

/// What a lookup by process identifier gives in a table.
pub open spec fn lookup_outcome<P>(t: RouteState<P>, pid: u32) -> Option<P> {
    if t.pids.contains_key(pid) && t.peers.contains_key(t.pids[pid]) {
        Some(t.peers[t.pids[pid]])
    } else {
        None
    }
}

/// Once `pid` is registered from `addr`, a lookup of `pid` gives the client
/// registered at `addr`, after any operations that neither remove `addr`
/// nor register `pid` again.
pub proof fn lemma_route_persists<P>(t: RouteState<P>, pid: u32, addr: PeerAddr, ops: Seq<RouteOp<P>>)
    requires
        t.peers.contains_key(addr),
        forall|i: int|
            0 <= i < ops.len() ==> !(#[trigger] ops[i] matches RouteOp::Remove(a) && a == addr)
                && !(ops[i] matches RouteOp::RegisterPid(p, _) && p == pid),
    ensures
        ({
            let u = apply_ops(apply_op(t, RouteOp::RegisterPid(pid, addr)), ops);
            &&& u.pids[pid] == addr
            &&& lookup_outcome(u, pid) == Some(u.peers[addr])
        }),
{
    lemma_route_keeps(apply_op(t, RouteOp::RegisterPid(pid, addr)), pid, addr, ops);
}

proof fn lemma_route_keeps<P>(t: RouteState<P>, pid: u32, addr: PeerAddr, ops: Seq<RouteOp<P>>)
    requires
        t.peers.contains_key(addr),
        t.pids.contains_key(pid),
        t.pids[pid] == addr,
        forall|i: int|
            0 <= i < ops.len() ==> !(#[trigger] ops[i] matches RouteOp::Remove(a) && a == addr)
                && !(ops[i] matches RouteOp::RegisterPid(p, _) && p == pid),
    ensures
        apply_ops(t, ops).peers.contains_key(addr),
        apply_ops(t, ops).pids.contains_key(pid),
        apply_ops(t, ops).pids[pid] == addr,
    decreases ops.len(),
{
    if ops.len() > 0 {
        let init = ops.drop_last();
        assert forall|i: int| 0 <= i < init.len() implies !(#[trigger] init[i] matches RouteOp::Remove(
            a,
        ) && a == addr) && !(init[i] matches RouteOp::RegisterPid(p, _) && p == pid) by {
            assert(init[i] == ops[i]);
        }
        lemma_route_keeps(t, pid, addr, init);
        let last = ops[ops.len() - 1];
        assert(!(last matches RouteOp::Remove(a) && a == addr));
        assert(!(last matches RouteOp::RegisterPid(p, _) && p == pid));
    }
}

/// Removing an address that is not in a table whose process entries all
/// point at known addresses leaves the table as it was.
pub proof fn lemma_remove_absent<P>(t: RouteState<P>, addr: PeerAddr)
    requires
        !t.peers.contains_key(addr),
        forall|p: u32| #[trigger] t.pids.contains_key(p) ==> t.peers.contains_key(t.pids[p]),
    ensures
        apply_op(t, RouteOp::Remove(addr)) == t,
{
    assert(t.peers.remove(addr) =~= t.peers);
    assert(without_target(t.pids, addr) =~= t.pids);
}

/// The routing table of the gateway: which client each connected address
/// belongs to, and which address each process identifier was last seen
/// from.
pub struct GatewayLookupTable<P> {
    peers: Vec<(PeerAddr, P)>,
    pids: Vec<(u32, PeerAddr)>,
}

impl<P> GatewayLookupTable<P> {
    pub closed spec fn view_state(&self) -> RouteState<P> {
        RouteState { peers: assoc_map(self.peers@), pids: assoc_map(self.pids@) }
    }

    /// No address or process identifier occurs twice, and every process
    /// entry points at a connected address.
    pub closed spec fn wf(&self) -> bool {
        &&& keys_unique(self.peers@)
        &&& keys_unique(self.pids@)
        &&& forall|p: u32| #[trigger]
            assoc_map(self.pids@).contains_key(p) ==> assoc_map(self.peers@).contains_key(
                assoc_map(self.pids@)[p],
            )
    }

    /// An empty table.
    pub fn new() -> (r: GatewayLookupTable<P>)
        ensures
            r.wf(),
            r.view_state().peers == Map::<PeerAddr, P>::empty(),
            r.view_state().pids == Map::<u32, PeerAddr>::empty(),
    {
        let r = GatewayLookupTable { peers: Vec::new(), pids: Vec::new() };
        assert(assoc_map(r.peers@) =~= Map::<PeerAddr, P>::empty());
        assert(assoc_map(r.pids@) =~= Map::<u32, PeerAddr>::empty());
        r
    }

    fn find_addr(&self, addr: PeerAddr) -> (r: Option<usize>)
        ensures
            r matches Some(i) ==> i < self.peers@.len() && self.peers@[i as int].0 == addr,
            r is None ==> forall|i: int| 0 <= i < self.peers@.len() ==> self.peers@[i].0 != addr,
    {
        let mut i: usize = 0;
        while i < self.peers.len()
            invariant
                i <= self.peers@.len(),
                forall|j: int| 0 <= j < i ==> self.peers@[j].0 != addr,
            decreases self.peers@.len() - i,
        {
            if self.peers[i].0 == addr {
                return Some(i);
            }
            i = i + 1;
        }
        None
    }

    fn find_pid(&self, pid: u32) -> (r: Option<usize>)
        ensures
            r matches Some(i) ==> i < self.pids@.len() && self.pids@[i as int].0 == pid,
            r is None ==> forall|i: int| 0 <= i < self.pids@.len() ==> self.pids@[i].0 != pid,
    {
        let mut i: usize = 0;
        while i < self.pids.len()
            invariant
                i <= self.pids@.len(),
                forall|j: int| 0 <= j < i ==> self.pids@[j].0 != pid,
            decreases self.pids@.len() - i,
        {
            if self.pids[i].0 == pid {
                return Some(i);
            }
            i = i + 1;
        }
        None
    }

    /// Records that the client `peer` is connected at `addr`.
    pub fn register_addr(&mut self, addr: PeerAddr, peer: P)
        requires
            old(self).wf(),
        ensures
            final(self).wf(),
            final(self).view_state() == apply_op(old(self).view_state(), RouteOp::RegisterAddr(addr, peer)),
    {
        let ghost s0 = self.peers@;
        match self.find_addr(addr) {
            Some(i) => {
                proof {
                    lemma_assoc_update(s0, i as int, addr, peer);
                }
                self.peers.set(i, (addr, peer));
            },
            None => {
                proof {
                    lemma_assoc_push(s0, addr, peer);
                }
                self.peers.push((addr, peer));
            },
        }
        assert(self.view_state().peers == assoc_map(s0).insert(addr, peer));
        assert(self.view_state() == apply_op(old(self).view_state(), RouteOp::RegisterAddr(addr, peer)));
    }

    /// Records that messages for `pid` go to the client at `addr`; the last
    /// registration wins. Fails when no client is connected at `addr`.
    pub fn register_pid(&mut self, pid: u32, addr: PeerAddr) -> (r: Result<(), RouteError>)
        requires
            old(self).wf(),
        ensures
            final(self).wf(),
            final(self).view_state() == apply_op(old(self).view_state(), RouteOp::RegisterPid(pid, addr)),
            r is Ok <==> old(self).view_state().peers.contains_key(addr),
            r matches Err(e) ==> e == RouteError::NotFound,
    {
        match self.find_addr(addr) {
            None => {
                proof {
                    lemma_assoc_absent(self.peers@, addr);
                }
                return Err(RouteError::NotFound);
            },
            Some(k) => {
                proof {
                    lemma_assoc_at(self.peers@, k as int);
                }
            },
        }
        let ghost s0 = self.pids@;
        match self.find_pid(pid) {
            Some(i) => {
                proof {
                    lemma_assoc_update(s0, i as int, pid, addr);
                }
                self.pids.set(i, (pid, addr));
            },
            None => {
                proof {
                    lemma_assoc_push(s0, pid, addr);
                }
                self.pids.push((pid, addr));
            },
        }
        assert(self.view_state() == apply_op(old(self).view_state(), RouteOp::RegisterPid(pid, addr)));
        Ok(())
    }

    /// The client connected at `addr`.
    pub fn lookup_addr(&self, addr: PeerAddr) -> (r: Result<&P, RouteError>)
        requires
            self.wf(),
        ensures
            r is Ok <==> self.view_state().peers.contains_key(addr),
            r matches Ok(p) ==> *p == self.view_state().peers[addr],
            r matches Err(e) ==> e == RouteError::NotFound,
    {
        match self.find_addr(addr) {
            None => {
                proof {
                    lemma_assoc_absent(self.peers@, addr);
                }
                Err(RouteError::NotFound)
            },
            Some(i) => {
                proof {
                    lemma_assoc_at(self.peers@, i as int);
                }
                Ok(&self.peers[i].1)
            },
        }
    }

    /// The client that messages for `pid` go to.
    pub fn lookup_pid(&self, pid: u32) -> (r: Result<&P, RouteError>)
        requires
            self.wf(),
        ensures
            r is Ok <==> lookup_outcome(self.view_state(), pid) is Some,
            r matches Ok(p) ==> lookup_outcome(self.view_state(), pid) == Some(*p),
            r matches Err(e) ==> e == RouteError::NotFound,
    {
        match self.find_pid(pid) {
            None => {
                proof {
                    lemma_assoc_absent(self.pids@, pid);
                }
                Err(RouteError::NotFound)
            },
            Some(i) => {
                proof {
                    lemma_assoc_at(self.pids@, i as int);
                }
                let addr = self.pids[i].1;
                self.lookup_addr(addr)
            },
        }
    }

    /// Forgets the client at `addr` and every process identifier routed to
    /// it; nothing happens when no client is connected there.
    pub fn remove(&mut self, addr: PeerAddr)
        requires
            old(self).wf(),
        ensures
            final(self).wf(),
            final(self).view_state() == apply_op(old(self).view_state(), RouteOp::Remove(addr)),
    {
        let ghost p0 = self.peers@;
        if let Some(i) = self.find_addr(addr) {
            proof {
                lemma_assoc_remove_at(p0, i as int);
            }
            self.peers.remove(i);
        } else {
            proof {
                lemma_assoc_absent(p0, addr);
                assert(assoc_map(p0).remove(addr) =~= assoc_map(p0));
            }
        }
        let ghost s = self.pids@;
        let mut kept: Vec<(u32, PeerAddr)> = Vec::new();
        let mut i: usize = 0;
        while i < self.pids.len()
            invariant
                self.pids@ == s,
                keys_unique(s),
                i <= s.len(),
                forall|j: int| 0 <= j < kept@.len() ==> kept_from(s, i as int, addr, #[trigger] kept@[j]),
                forall|k: int|
                    0 <= k < i && #[trigger] s[k].1 != addr ==> exists|j: int|
                        0 <= j < kept@.len() && kept@[j] == s[k],
                keys_unique(kept@),
            decreases s.len() - i,
        {
            let ghost old_kept = kept@;
            let e = self.pids[i];
            if e.1 != addr {
                assert forall|j: int| 0 <= j < kept@.len() implies kept@[j].0 != e.0 by {
                    let k = choose|k: int| 0 <= k < i && s[k] == kept@[j] && s[k].1 != addr;
                    assert(k != i);
                }
                kept.push(e);
            }
            proof {
                assert forall|j: int| 0 <= j < kept@.len() implies kept_from(s, i + 1, addr, #[trigger] kept@[j]) by {
                    if j < old_kept.len() {
                        assert(kept@[j] == old_kept[j]);
                        let k = choose|k: int| 0 <= k < i && s[k] == old_kept[j] && s[k].1 != addr;
                        assert(s[k] == kept@[j]);
                    } else {
                        assert(e.1 != addr);
                        assert(kept@[j] == e);
                        assert(s[i as int] == kept@[j] && s[i as int].1 != addr);
                    }
                }
                assert forall|k: int| 0 <= k < i + 1 && #[trigger] s[k].1 != addr implies exists|j: int|
                    0 <= j < kept@.len() && kept@[j] == s[k] by {
                    if k < i {
                        let j = choose|j: int| 0 <= j < old_kept.len() && old_kept[j] == s[k];
                        assert(kept@[j] == old_kept[j]);
                    } else {
                        assert(kept@[kept@.len() - 1] == s[k]);
                    }
                }
            }
            i = i + 1;
        }
        let ghost m = assoc_map(s);
        assert forall|p: u32| #[trigger] assoc_map(kept@).contains_key(p) == without_target(m, addr).contains_key(p) by {
            if assoc_map(kept@).contains_key(p) {
                let j = choose|j: int| 0 <= j < kept@.len() && kept@[j].0 == p;
                let k = choose|k: int| 0 <= k < s.len() && s[k] == kept@[j] && s[k].1 != addr;
                lemma_assoc_at(s, k);
            }
            if without_target(m, addr).contains_key(p) {
                let k = choose|k: int| 0 <= k < s.len() && s[k].0 == p;
                lemma_assoc_at(s, k);
                let j = choose|j: int| 0 <= j < kept@.len() && kept@[j] == s[k];
                assert(kept@[j].0 == p);
            }
        }
        assert forall|p: u32| #[trigger] assoc_map(kept@).contains_key(p) implies assoc_map(kept@)[p] == without_target(m, addr)[p] by {
            let j = choose|j: int| 0 <= j < kept@.len() && kept@[j].0 == p;
            let k = choose|k: int| 0 <= k < s.len() && s[k] == kept@[j] && s[k].1 != addr;
            lemma_assoc_at(s, k);
            lemma_assoc_at(kept@, j);
        }
        assert(assoc_map(kept@) =~= without_target(m, addr));
        self.pids = kept;
    }
}

} // verus!
