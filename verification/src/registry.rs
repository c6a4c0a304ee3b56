//! The connection registry: the single shared table of known peers.
//!
//! One record per peer name — the name is the only identity, so the table is
//! a plain map keyed by it — holding the candidate addresses from discovery
//! and the peer's link state. Only a `Linked` record owns an outbound channel;
//! that tie is part of the table's well-formedness and of the contracts below.
//! The table also carries this instance's advertised name and the monotonic
//! counter that numbers approval prompts.

use vstd::prelude::*;

use crate::errors::CommunicationError;
use crate::messages::link_name_ok;

verus! {

/// Where a peer stands on the way from discovered to linked.
#[derive(Clone, Copy, Debug, PartialEq, Eq, Structural)]
pub enum LinkState {
    Unlinked,
    Linking,
    Linked,
}

/// The UI-facing snapshot of one peer: its name and whether it is linked.
#[derive(Debug, Clone)]
pub struct ConnectionInfo {
    pub name: String,
    pub linked: bool,
}

/// One known peer: its snapshot, its candidate addresses in discovery order,
/// its link state, and — exactly while `Linked` — the sending half of its
/// outbound queue.
pub struct Connection {
    pub info: ConnectionInfo,
    addresses: Vec<String>,
    link_state: LinkState,
    tx: Option<flume::Sender<Vec<u8>>>,
}

impl Connection {
    pub closed spec fn spec_name(&self) -> Seq<char> {
        self.info.name@
    }

    pub closed spec fn spec_addresses(&self) -> Seq<Seq<char>> {
        self.addresses.deep_view()
    }

    pub closed spec fn spec_state(&self) -> LinkState {
        self.link_state
    }

    pub closed spec fn spec_channel(&self) -> Option<flume::Sender<Vec<u8>>> {
        self.tx
    }

    /// A record owns a channel exactly while `Linked`, and its snapshot flag
    /// mirrors that state.
    pub closed spec fn wf(&self) -> bool {
        &&& (self.tx is Some <==> self.link_state is Linked)
        &&& (self.info.linked <==> self.link_state is Linked)
    }

    /// A freshly discovered peer: not linked, no channel.
    pub fn new(name: String, addresses: Vec<String>) -> (c: Connection)
        ensures
            c.wf(),
            c.spec_name() == name@,
            c.spec_addresses() == addresses.deep_view(),
            c.spec_state() == LinkState::Unlinked,
    {
        Connection {
            info: ConnectionInfo { name, linked: false },
            addresses,
            link_state: LinkState::Unlinked,
            tx: None,
        }
    }

    pub fn addresses(&self) -> (r: &Vec<String>)
        ensures
            r.deep_view() == self.spec_addresses(),
    {
        &self.addresses
    }

    pub fn link_state(&self) -> (r: LinkState)
        ensures
            r == self.spec_state(),
    {
        self.link_state
    }
}

/// The registry itself. Constructed once at startup; every component reads
/// and writes it through the methods below.
pub struct ConnectionManager {
    connections: Vec<Connection>,
    instance_name: Option<String>,
    active_link_requests: u64,
}

impl ConnectionManager {
    pub closed spec fn spec_connections(&self) -> Seq<Connection> {
        self.connections@
    }

    pub open spec fn spec_num(&self) -> nat {
        self.spec_connections().len()
    }

    pub open spec fn spec_name_at(&self, i: int) -> Seq<char> {
        self.spec_connections()[i].spec_name()
    }

    /// Whether a record with this name is in the table.
    pub open spec fn contains_name(&self, name: Seq<char>) -> bool {
        exists|i: int| 0 <= i < self.spec_num() && self.spec_name_at(i) == name
    }

    /// The index of the record with this name; meaningful while the table is
    /// well formed and the name is present.
    pub open spec fn index_of(&self, name: Seq<char>) -> int {
        choose|i: int| 0 <= i < self.spec_num() && self.spec_name_at(i) == name
    }

    /// The record with this name; meaningful while the name is present.
    pub open spec fn record_of(&self, name: Seq<char>) -> Connection {
        self.spec_connections()[self.index_of(name)]
    }

    /// The link state of this name; absent names count as `Unlinked`.
    pub open spec fn state_of(&self, name: Seq<char>) -> LinkState {
        if self.contains_name(name) {
            self.record_of(name).spec_state()
        } else {
            LinkState::Unlinked
        }
    }

    /// The candidate addresses stored for this name.
    pub open spec fn addrs_of(&self, name: Seq<char>) -> Seq<Seq<char>> {
        self.record_of(name).spec_addresses()
    }

    /// Whether this name is present and linked.
    pub open spec fn is_linked(&self, name: Seq<char>) -> bool {
        self.contains_name(name) && self.state_of(name) is Linked
    }

    pub closed spec fn spec_instance_name(&self) -> Option<Seq<char>> {
        match self.instance_name {
            Some(n) => Some(n@),
            None => None,
        }
    }

    pub closed spec fn spec_counter(&self) -> u64 {
        self.active_link_requests
    }

    /// Table well-formedness: at most one record per name, every record well
    /// formed, and the advertised name short enough for a handshake payload.
    pub open spec fn wf(&self) -> bool {
        &&& forall|i: int, j: int|
            0 <= i < self.spec_num() && 0 <= j < self.spec_num() && self.spec_name_at(i)
                == self.spec_name_at(j) ==> i == j
        &&& forall|i: int|
            0 <= i < self.spec_num() ==> (#[trigger] self.spec_connections()[i]).wf()
        &&& (self.spec_instance_name() is Some ==> link_name_ok(self.spec_instance_name()->Some_0))
    }
}

/// Every record but the named one reads the same in `post` as in `pre`.
pub open spec fn others_unchanged(
    pre: ConnectionManager,
    post: ConnectionManager,
    name: Seq<char>,
) -> bool {
    &&& forall|n: Seq<char>|
        n != name ==> #[trigger] post.contains_name(n) == pre.contains_name(n)
    &&& forall|n: Seq<char>|
        n != name && pre.contains_name(n) ==> #[trigger] post.record_of(n) == pre.record_of(n)
}

/// The advertised name and the prompt counter read the same in both.
pub open spec fn admin_unchanged(pre: ConnectionManager, post: ConnectionManager) -> bool {
    &&& post.spec_instance_name() == pre.spec_instance_name()
    &&& post.spec_counter() == pre.spec_counter()
}

/// A present name is found at its index and nowhere else.
proof fn lemma_lookup(m: ConnectionManager, i: int)
    requires
        m.wf(),
        0 <= i < m.spec_num(),
    ensures
        m.contains_name(m.spec_name_at(i)),
        m.index_of(m.spec_name_at(i)) == i,
{
    let name = m.spec_name_at(i);
    assert(0 <= i < m.spec_num() && m.spec_name_at(i) == name);
    let k = m.index_of(name);
    assert(0 <= k < m.spec_num() && m.spec_name_at(k) == name);
}

/// A table equal entry for entry to a well-formed one is well formed, as long
/// as its advertised name still fits a handshake payload.
proof fn lemma_same_table_wf(pre: ConnectionManager, post: ConnectionManager)
    requires
        pre.wf(),
        post.spec_connections() == pre.spec_connections(),
        post.spec_instance_name() is Some ==> link_name_ok(post.spec_instance_name()->Some_0),
    ensures
        post.wf(),
{
    assert forall|i: int, j: int|
        0 <= i < post.spec_num() && 0 <= j < post.spec_num() && post.spec_name_at(i)
            == post.spec_name_at(j) implies i == j by {
        assert(post.spec_name_at(i) == pre.spec_name_at(i));
        assert(post.spec_name_at(j) == pre.spec_name_at(j));
    }
    assert forall|i: int|
        0 <= i < post.spec_num() implies (#[trigger] post.spec_connections()[i]).wf() by {
        assert(post.spec_connections()[i] == pre.spec_connections()[i]);
    }
}

/// Two registries over one table answer every lookup alike.
pub proof fn lemma_same_table_lookups(pre: ConnectionManager, post: ConnectionManager)
    requires
        pre.wf(),
        post.spec_connections() == pre.spec_connections(),
    ensures
        forall|n: Seq<char>| #[trigger] post.contains_name(n) == pre.contains_name(n),
        forall|n: Seq<char>|
            pre.contains_name(n) ==> #[trigger] post.record_of(n) == pre.record_of(n),
{
    assert(forall|j: int|
        0 <= j < post.spec_num() ==> #[trigger] post.spec_name_at(j) == pre.spec_name_at(j));
    assert forall|n: Seq<char>| #[trigger] post.contains_name(n) == pre.contains_name(n) by {
        if pre.contains_name(n) {
            let j = pre.index_of(n);
            assert(0 <= j < pre.spec_num() && pre.spec_name_at(j) == n);
            assert(post.spec_name_at(j) == n);
        }
        if post.contains_name(n) {
            let j = post.index_of(n);
            assert(0 <= j < post.spec_num() && post.spec_name_at(j) == n);
            assert(pre.spec_name_at(j) == n);
        }
    }
    assert forall|n: Seq<char>| pre.contains_name(n) implies #[trigger] post.record_of(n)
        == pre.record_of(n) by {
        let j = pre.index_of(n);
        assert(0 <= j < pre.spec_num() && pre.spec_name_at(j) == n);
        lemma_lookup(pre, j);
        assert(post.spec_name_at(j) == n);
        let k = post.index_of(n);
        assert(0 <= k < post.spec_num() && post.spec_name_at(k) == n);
        assert(pre.spec_name_at(k) == n);
    }
}

/// Replacing one record with one of the same name leaves every lookup of any
/// other name, and the set of names, as they were.
proof fn lemma_update(pre: ConnectionManager, post: ConnectionManager, i: int, c: Connection)
    requires
        pre.wf(),
        0 <= i < pre.spec_num(),
        post.spec_connections() == pre.spec_connections().update(i, c),
        c.spec_name() == pre.spec_name_at(i),
        c.wf(),
        admin_unchanged(pre, post),
    ensures
        post.wf(),
        post.spec_num() == pre.spec_num(),
        post.contains_name(pre.spec_name_at(i)),
        post.index_of(pre.spec_name_at(i)) == i,
        pre.index_of(pre.spec_name_at(i)) == i,
        post.record_of(pre.spec_name_at(i)) == c,
        others_unchanged(pre, post, pre.spec_name_at(i)),
{
    let name = pre.spec_name_at(i);
    assert(forall|j: int|
        0 <= j < post.spec_num() ==> #[trigger] post.spec_name_at(j) == pre.spec_name_at(j));
    assert(post.wf());
    lemma_lookup(pre, i);
    lemma_lookup(post, i);
    assert forall|n: Seq<char>| #[trigger] post.contains_name(n) == pre.contains_name(n) by {
        if pre.contains_name(n) {
            let j = pre.index_of(n);
            assert(0 <= j < pre.spec_num() && pre.spec_name_at(j) == n);
            assert(post.spec_name_at(j) == n);
        }
        if post.contains_name(n) {
            let j = post.index_of(n);
            assert(0 <= j < post.spec_num() && post.spec_name_at(j) == n);
            assert(pre.spec_name_at(j) == n);
        }
    }
    assert forall|n: Seq<char>| n != name && pre.contains_name(n) implies #[trigger] post.record_of(
        n,
    ) == pre.record_of(n) by {
        let j = pre.index_of(n);
        assert(0 <= j < pre.spec_num() && pre.spec_name_at(j) == n);
        lemma_lookup(pre, j);
        lemma_lookup(post, j);
        assert(j != i);
    }
}

/// Appending a record with a fresh name leaves every other lookup as it was.
proof fn lemma_push(pre: ConnectionManager, post: ConnectionManager, c: Connection)
    requires
        pre.wf(),
        !pre.contains_name(c.spec_name()),
        c.wf(),
        post.spec_connections() == pre.spec_connections().push(c),
        admin_unchanged(pre, post),
    ensures
        post.wf(),
        post.spec_num() == pre.spec_num() + 1,
        post.contains_name(c.spec_name()),
        post.index_of(c.spec_name()) == pre.spec_num(),
        post.record_of(c.spec_name()) == c,
        others_unchanged(pre, post, c.spec_name()),
{
    let name = c.spec_name();
    let len = pre.spec_num() as int;
    assert(forall|j: int| 0 <= j < len ==> #[trigger] post.spec_name_at(j) == pre.spec_name_at(j));
    assert(post.spec_name_at(len) == name);
    assert forall|i: int, j: int|
        0 <= i < post.spec_num() && 0 <= j < post.spec_num() && post.spec_name_at(i)
            == post.spec_name_at(j) implies i == j by {
        if i < len && j < len {
        } else if i == len && j < len {
            assert(pre.spec_name_at(j) != name);
        } else if j == len && i < len {
            assert(pre.spec_name_at(i) != name);
        }
    }
    assert(post.wf());
    lemma_lookup(post, len);
    assert forall|n: Seq<char>|
        n != name implies #[trigger] post.contains_name(n) == pre.contains_name(n) by {
        if pre.contains_name(n) {
            let j = pre.index_of(n);
            assert(0 <= j < len && pre.spec_name_at(j) == n);
            assert(post.spec_name_at(j) == n);
        }
        if post.contains_name(n) {
            let j = post.index_of(n);
            assert(0 <= j < post.spec_num() && post.spec_name_at(j) == n);
            assert(j != len);
            assert(pre.spec_name_at(j) == n);
        }
    }
    assert forall|n: Seq<char>| n != name && pre.contains_name(n) implies #[trigger] post.record_of(
        n,
    ) == pre.record_of(n) by {
        let j = pre.index_of(n);
        assert(0 <= j < len && pre.spec_name_at(j) == n);
        lemma_lookup(pre, j);
        lemma_lookup(post, j);
    }
}

/// Removing a record leaves every other lookup as it was and its own name
/// absent.
proof fn lemma_remove(pre: ConnectionManager, post: ConnectionManager, i: int)
    requires
        pre.wf(),
        0 <= i < pre.spec_num(),
        post.spec_connections() == pre.spec_connections().remove(i),
        admin_unchanged(pre, post),
    ensures
        post.wf(),
        post.spec_num() == pre.spec_num() - 1,
        !post.contains_name(pre.spec_name_at(i)),
        others_unchanged(pre, post, pre.spec_name_at(i)),
{
    let name = pre.spec_name_at(i);
    let len = pre.spec_num() as int;
    assert(forall|j: int|
        0 <= j < i ==> #[trigger] post.spec_name_at(j) == pre.spec_name_at(j));
    assert(forall|j: int|
        i <= j < len - 1 ==> #[trigger] post.spec_name_at(j) == pre.spec_name_at(j + 1));
    assert forall|p: int, q: int|
        0 <= p < post.spec_num() && 0 <= q < post.spec_num() && post.spec_name_at(p)
            == post.spec_name_at(q) implies p == q by {
        let p0 = if p < i { p } else { p + 1 };
        let q0 = if q < i { q } else { q + 1 };
        assert(pre.spec_name_at(p0) == post.spec_name_at(p));
        assert(pre.spec_name_at(q0) == post.spec_name_at(q));
    }
    assert(post.wf());
    assert forall|j: int| 0 <= j < post.spec_num() implies #[trigger] post.spec_name_at(j)
        != name by {
        let j0 = if j < i { j } else { j + 1 };
        assert(pre.spec_name_at(j0) == post.spec_name_at(j));
        assert(j0 != i);
    }
    assert forall|n: Seq<char>|
        n != name implies #[trigger] post.contains_name(n) == pre.contains_name(n) by {
        if pre.contains_name(n) {
            let j = pre.index_of(n);
            assert(0 <= j < len && pre.spec_name_at(j) == n);
            assert(j != i);
            let j1 = if j < i { j } else { j - 1 };
            assert(post.spec_name_at(j1) == n);
        }
        if post.contains_name(n) {
            let j = post.index_of(n);
            assert(0 <= j < post.spec_num() && post.spec_name_at(j) == n);
            let j0 = if j < i { j } else { j + 1 };
            assert(pre.spec_name_at(j0) == n);
        }
    }
    assert forall|n: Seq<char>| n != name && pre.contains_name(n) implies #[trigger] post.record_of(
        n,
    ) == pre.record_of(n) by {
        let j = pre.index_of(n);
        assert(0 <= j < len && pre.spec_name_at(j) == n);
        lemma_lookup(pre, j);
        assert(j != i);
        let j1 = if j < i { j } else { j - 1 };
        assert(post.spec_name_at(j1) == n);
        assert(post.spec_connections()[j1] == pre.spec_connections()[j]);
        lemma_lookup(post, j1);
    }
}

impl ConnectionManager {
    /// An empty registry: no peers, no advertised name, counter at zero.
    pub fn new() -> (r: ConnectionManager)
        ensures
            r.wf(),
            r.spec_num() == 0,
            forall|n: Seq<char>| !r.contains_name(n),
            r.spec_instance_name() is None,
            r.spec_counter() == 0,
    {
        ConnectionManager { connections: Vec::new(), instance_name: None, active_link_requests: 0 }
    }

    /// Index of the record with this name, if present.
    fn find(&self, name: &String) -> (r: Option<usize>)
        requires
            self.wf(),
        ensures
            r is Some ==> self.contains_name(name@) && r->Some_0 == self.index_of(name@)
                && 0 <= r->Some_0 < self.spec_num(),
            r is None ==> !self.contains_name(name@),
    {
        let mut i: usize = 0;
        while i < self.connections.len()
            invariant
                self.wf(),
                0 <= i <= self.spec_num(),
                forall|j: int| 0 <= j < i ==> self.spec_name_at(j) != name@,
            decreases self.spec_num() - i,
        {
            if self.connections[i].info.name == *name {
                proof {
                    lemma_lookup(*self, i as int);
                }
                return Some(i);
            }
            i = i + 1;
        }
        None
    }

    /// Whether a peer of this name has been discovered (or placed) already.
    pub fn connection_exists(&self, name: &String) -> (r: bool)
        requires
            self.wf(),
        ensures
            r == self.contains_name(name@),
    {
        self.find(name).is_some()
    }

    /// Creates the record for a newly discovered name, or replaces the stored
    /// addresses of an existing one. Rediscovery never touches link state: a
    /// `Linked` record keeps both its state and its channel.
    pub fn upsert(&mut self, name: String, addresses: Vec<String>)
        requires
            old(self).wf(),
        ensures
            final(self).wf(),
            final(self).contains_name(name@),
            final(self).addrs_of(name@) == addresses.deep_view(),
            final(self).state_of(name@) == old(self).state_of(name@),
            final(self).record_of(name@).spec_channel() == (if old(self).contains_name(name@) {
                old(self).record_of(name@).spec_channel()
            } else {
                Option::<flume::Sender<Vec<u8>>>::None
            }),
            others_unchanged(*old(self), *final(self), name@),
            admin_unchanged(*old(self), *final(self)),
            final(self).spec_num() == old(self).spec_num() + (if old(self).contains_name(name@) {
                0int
            } else {
                1int
            }),
    {
        let found = self.find(&name);
        match found {
            Some(i) => {
                let mut c = self.connections.remove(i);
                c.addresses = addresses;
                self.connections.insert(i, c);
                proof {
                    assert(self.spec_connections() =~= old(self).spec_connections().update(
                        i as int,
                        self.spec_connections()[i as int],
                    ));
                    lemma_update(
                        *old(self),
                        *self,
                        i as int,
                        self.spec_connections()[i as int],
                    );
                }
            },
            None => {
                let c = Connection::new(name, addresses);
                self.connections.push(c);
                proof {
                    lemma_push(*old(self), *self, old(self).spec_connections().push(c).last());
                    assert(self.record_of(c.spec_name()) == c);
                }
            },
        }
    }

    /// Deletes the record for this name, handing back its snapshot; absent
    /// names are left alone.
    pub fn remove(&mut self, name: &String) -> (r: Option<ConnectionInfo>)
        requires
            old(self).wf(),
        ensures
            final(self).wf(),
            r is Some <==> old(self).contains_name(name@),
            !final(self).contains_name(name@),
            r is Some ==> r->Some_0.name@ == name@ && (r->Some_0.linked <==> old(self).is_linked(
                name@,
            )),
            others_unchanged(*old(self), *final(self), name@),
            admin_unchanged(*old(self), *final(self)),
    {
        let found = self.find(name);
        match found {
            Some(i) => {
                let c = self.connections.remove(i);
                proof {
                    lemma_remove(*old(self), *self, i as int);
                    assert(old(self).record_of(name@) == c);
                }
                Some(c.info)
            },
            None => None,
        }
    }

    /// Marks this name `Linked` and hands it the sending half of its outbound
    /// queue. A peer must be in the table — discovered, or explicitly placed —
    /// before it can be linked.
    pub fn set_linked(&mut self, name: &String, tx: flume::Sender<Vec<u8>>) -> (r: Result<
        (),
        CommunicationError,
    >)
        requires
            old(self).wf(),
        ensures
            final(self).wf(),
            r is Ok <==> old(self).contains_name(name@),
            r is Err ==> r->Err_0 == CommunicationError::PeerNotFound && *final(self) == *old(
                self,
            ),
            r is Ok ==> final(self).is_linked(name@) && final(self).addrs_of(name@) == old(
                self,
            ).addrs_of(name@),
            others_unchanged(*old(self), *final(self), name@),
            admin_unchanged(*old(self), *final(self)),
            final(self).spec_num() == old(self).spec_num(),
    {
        let found = self.find(name);
        match found {
            Some(i) => {
                let mut c = self.connections.remove(i);
                c.link_state = LinkState::Linked;
                c.info.linked = true;
                c.tx = Some(tx);
                self.connections.insert(i, c);
                proof {
                    assert(self.spec_connections() =~= old(self).spec_connections().update(
                        i as int,
                        self.spec_connections()[i as int],
                    ));
                    lemma_update(
                        *old(self),
                        *self,
                        i as int,
                        self.spec_connections()[i as int],
                    );
                }
                Ok(())
            },
            None => Err(CommunicationError::PeerNotFound),
        }
    }

    /// Releases this name's channel and returns it to `Unlinked`, so a later
    /// link request falls through to a fresh connection attempt. Called when
    /// the peer's relay terminates; absent names are left alone.
    pub fn unlink(&mut self, name: &String) -> (r: bool)
        requires
            old(self).wf(),
        ensures
            final(self).wf(),
            r == old(self).contains_name(name@),
            final(self).contains_name(name@) == old(self).contains_name(name@),
            old(self).contains_name(name@) ==> final(self).state_of(name@)
                == LinkState::Unlinked && !final(self).is_linked(name@) && final(self).addrs_of(
                name@,
            ) == old(self).addrs_of(name@),
            others_unchanged(*old(self), *final(self), name@),
            admin_unchanged(*old(self), *final(self)),
    {
        let found = self.find(name);
        match found {
            Some(i) => {
                let mut c = self.connections.remove(i);
                c.link_state = LinkState::Unlinked;
                c.info.linked = false;
                c.tx = None;
                self.connections.insert(i, c);
                proof {
                    assert(self.spec_connections() =~= old(self).spec_connections().update(
                        i as int,
                        self.spec_connections()[i as int],
                    ));
                    lemma_update(
                        *old(self),
                        *self,
                        i as int,
                        self.spec_connections()[i as int],
                    );
                }
                true
            },
            None => false,
        }
    }

    /// The record of this name, if present.
    pub fn get_connection(&self, name: &String) -> (r: Option<&Connection>)
        requires
            self.wf(),
        ensures
            r is Some <==> self.contains_name(name@),
            r is Some ==> *r->Some_0 == self.record_of(name@),
    {
        match self.find(name) {
            Some(i) => Some(&self.connections[i]),
            None => None,
        }
    }

    /// The candidate addresses of this name, in discovery order.
    pub fn addresses_of(&self, name: &String) -> (r: Option<Vec<String>>)
        requires
            self.wf(),
        ensures
            r is Some <==> self.contains_name(name@),
            r is Some ==> r->Some_0.deep_view() == self.addrs_of(name@),
    {
        let found = self.find(name);
        match found {
            Some(i) => {
                let src = &self.connections[i].addresses;
                let mut out: Vec<String> = Vec::new();
                let mut k: usize = 0;
                while k < src.len()
                    invariant
                        0 <= k <= src@.len(),
                        out@.len() == k,
                        forall|j: int| 0 <= j < k ==> #[trigger] out@[j]@ == src@[j]@,
                    decreases src@.len() - k,
                {
                    out.push(src[k].clone());
                    k = k + 1;
                }
                proof {
                    assert(out.deep_view() =~= src.deep_view());
                }
                Some(out)
            },
            None => None,
        }
    }

    /// Whether this name is present and linked.
    pub fn linked(&self, name: &String) -> (r: bool)
        requires
            self.wf(),
        ensures
            r == self.is_linked(name@),
    {
        let found = self.find(name);
        match found {
            Some(i) => {
                let c = &self.connections[i];
                match c.link_state {
                    LinkState::Linked => true,
                    _ => false,
                }
            },
            None => false,
        }
    }

    /// The sending half of this name's outbound queue: present exactly while
    /// the name is linked.
    pub fn outbound(&self, name: &String) -> (r: Option<&flume::Sender<Vec<u8>>>)
        requires
            self.wf(),
        ensures
            r is Some <==> self.is_linked(name@),
    {
        let found = self.find(name);
        match found {
            Some(i) => self.connections[i].tx.as_ref(),
            None => None,
        }
    }

    /// Records the advertised name of this instance, once discovery starts.
    pub fn set_instance_name(&mut self, name: String)
        requires
            old(self).wf(),
            link_name_ok(name@),
        ensures
            final(self).wf(),
            final(self).spec_instance_name() == Some(name@),
            final(self).spec_connections() == old(self).spec_connections(),
            final(self).spec_counter() == old(self).spec_counter(),
    {
        self.instance_name = Some(name);
        proof {
            lemma_same_table_wf(*old(self), *self);
        }
    }

    /// The advertised name, if discovery has started.
    pub fn instance_name(&self) -> (r: Option<&String>)
        ensures
            r is Some <==> self.spec_instance_name() is Some,
            r is Some ==> r->Some_0@ == self.spec_instance_name()->Some_0,
    {
        self.instance_name.as_ref()
    }

    /// How many approval prompts have been numbered so far.
    pub fn request_count(&self) -> (r: u64)
        ensures
            r == self.spec_counter(),
    {
        self.active_link_requests
    }

    /// Hands out the next approval-prompt identifier; the counter only ever
    /// grows and is never reset.
    pub fn next_request_id(&mut self) -> (id: u64)
        requires
            old(self).wf(),
            old(self).spec_counter() < u64::MAX,
        ensures
            final(self).wf(),
            id == old(self).spec_counter(),
            final(self).spec_counter() == old(self).spec_counter() + 1,
            final(self).spec_connections() == old(self).spec_connections(),
            final(self).spec_instance_name() == old(self).spec_instance_name(),
    {
        let id = self.active_link_requests;
        self.active_link_requests = self.active_link_requests + 1;
        proof {
            lemma_same_table_wf(*old(self), *self);
        }
        id
    }

    /// A point-in-time snapshot of every record's UI-facing view, in table
    /// order; concurrent mutation never invalidates it.
    pub fn get_connectionss(&self) -> (r: Vec<ConnectionInfo>)
        requires
            self.wf(),
        ensures
            r@.len() == self.spec_num(),
            forall|i: int|
                0 <= i < r@.len() ==> (#[trigger] r@[i]).name@ == self.spec_name_at(i)
                    && (r@[i].linked <==> self.is_linked(self.spec_name_at(i))),
            forall|n: Seq<char>|
                #[trigger] self.contains_name(n) <==> exists|i: int|
                    0 <= i < r@.len() && #[trigger] r@[i].name@ == n,
    {
        let mut out: Vec<ConnectionInfo> = Vec::new();
        let mut i: usize = 0;
        while i < self.connections.len()
            invariant
                self.wf(),
                0 <= i <= self.spec_num(),
                out@.len() == i,
                forall|j: int|
                    0 <= j < i ==> (#[trigger] out@[j]).name@ == self.spec_name_at(j)
                        && (out@[j].linked <==> self.spec_connections()[j].spec_state() is Linked),
            decreases self.spec_num() - i,
        {
            let c = &self.connections[i];
            out.push(ConnectionInfo { name: c.info.name.clone(), linked: c.info.linked });
            i = i + 1;
        }
        proof {
            assert forall|j: int|
                0 <= j < out@.len() implies (out@[j].linked <==> self.is_linked(
                self.spec_name_at(j),
            )) by {
                lemma_lookup(*self, j);
            }
            assert forall|n: Seq<char>| #[trigger] self.contains_name(n) implies exists|i: int|
                0 <= i < out@.len() && #[trigger] out@[i].name@ == n by {
                let j = self.index_of(n);
                assert(0 <= j < self.spec_num() && self.spec_name_at(j) == n);
                assert(out@[j].name@ == n);
            }
            assert forall|n: Seq<char>|
                (exists|i: int| 0 <= i < out@.len() && #[trigger] out@[i].name@ == n) implies
                self.contains_name(n) by {
                let j = choose|i: int| 0 <= i < out@.len() && out@[i].name@ == n;
                assert(self.spec_name_at(j) == n);
            }
        }
        out
    }
}

} // verus!
