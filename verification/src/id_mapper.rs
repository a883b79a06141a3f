//! The bidirectional mapping between client-space and server-space request
//! identifiers.
//!
//! The client and the server choose request ids independently; the proxy
//! remaps every client request onto a private, monotonically allocated
//! integer id so the two spaces cannot collide, and routes each server
//! response back under the client's original id.

use vstd::prelude::*;
use vstd::map::*;
use crate::message::{IdView, MessageId};

verus! {

broadcast use vstd::std_specs::vec::group_vec_axioms;

/// An id pair list has no two entries with the same client id.
pub open spec fn distinct_clients(ps: Seq<(IdView, IdView)>) -> bool {
    forall|i: int, j: int| 0 <= i < j < ps.len() ==> ps[i].0 != ps[j].0
}

/// An id pair list has no two entries with the same server id.
pub open spec fn distinct_servers(ps: Seq<(IdView, IdView)>) -> bool {
    forall|i: int, j: int| 0 <= i < j < ps.len() ==> ps[i].1 != ps[j].1
}

/// Some pair maps the client id `c`.
pub open spec fn has_client(ps: Seq<(IdView, IdView)>, c: IdView) -> bool {
    exists|i: int| 0 <= i < ps.len() && ps[i].0 == c
}

/// Some pair maps the server id `s`.
pub open spec fn has_server(ps: Seq<(IdView, IdView)>, s: IdView) -> bool {
    exists|i: int| 0 <= i < ps.len() && ps[i].1 == s
}

/// The client-to-server partial function held in a pair list.
pub open spec fn c2s_of(ps: Seq<(IdView, IdView)>) -> Map<IdView, IdView> {
    Map::new(
        |c: IdView| has_client(ps, c),
        |c: IdView| ps[choose|i: int| 0 <= i < ps.len() && ps[i].0 == c].1,
    )
}

/// The server-to-client partial function held in a pair list.
pub open spec fn s2c_of(ps: Seq<(IdView, IdView)>) -> Map<IdView, IdView> {
    Map::new(
        |s: IdView| has_server(ps, s),
        |s: IdView| ps[choose|i: int| 0 <= i < ps.len() && ps[i].1 == s].0,
    )
}

/// The mathematical value of an [`IdMapper`]: the two coherent partial
/// functions and the next id the allocator would hand out.
#[verifier::ext_equal]
pub struct IdMapperView {
    pub next_id: int,
    pub client_to_server: Map<IdView, IdView>,
    pub server_to_client: Map<IdView, IdView>,
}

/// A mapper state is coherent: the two functions are mutual inverses, and
/// every recorded server id is an integer the allocator has already spent.
pub open spec fn view_wf(m: IdMapperView) -> bool {
    &&& 1 <= m.next_id <= i64::MAX
    &&& forall|c: IdView| #[trigger]
        m.client_to_server.contains_key(c) ==> m.server_to_client.contains_key(
            m.client_to_server[c],
        ) && m.server_to_client[m.client_to_server[c]] == c
    &&& forall|s: IdView| #[trigger]
        m.server_to_client.contains_key(s) ==> m.client_to_server.contains_key(
            m.server_to_client[s],
        ) && m.client_to_server[m.server_to_client[s]] == s
    &&& forall|s: IdView| #[trigger]
        m.server_to_client.contains_key(s) ==> s is Number && 1 <= s->Number_0 < m.next_id
}

/// What `map_client_id` does to a mapper state.
pub open spec fn spec_map_client_id(m: IdMapperView, c: IdView) -> (IdMapperView, IdView) {
    if m.client_to_server.contains_key(c) {
        (m, m.client_to_server[c])
    } else {
        let s = IdView::Number(m.next_id);
        (
            IdMapperView {
                next_id: m.next_id + 1,
                client_to_server: m.client_to_server.insert(c, s),
                server_to_client: m.server_to_client.insert(s, c),
            },
            s,
        )
    }
}

/// What `get_client_id` returns for a mapper state.
pub open spec fn spec_get_client_id(m: IdMapperView, s: IdView) -> Option<IdView> {
    if m.server_to_client.contains_key(s) {
        Some(m.server_to_client[s])
    } else {
        None
    }
}

/// What `remove` does to a mapper state.
pub open spec fn spec_remove(m: IdMapperView, s: IdView) -> IdMapperView {
    if m.server_to_client.contains_key(s) {
        IdMapperView {
            next_id: m.next_id,
            client_to_server: m.client_to_server.remove(m.server_to_client[s]),
            server_to_client: m.server_to_client.remove(s),
        }
    } else {
        m
    }
}

/// The bidirectional id mapper.
pub struct IdMapper {
    next_id: i64,
    pairs: Vec<(MessageId, MessageId)>,
}

/// The pair list as mathematical values.
pub open spec fn pview(pairs: Seq<(MessageId, MessageId)>) -> Seq<(IdView, IdView)> {
    Seq::new(pairs.len(), |i: int| (pairs[i].0@, pairs[i].1@))
}

impl View for IdMapper {
    type V = IdMapperView;

    closed spec fn view(&self) -> IdMapperView {
        IdMapperView {
            next_id: self.next_id as int,
            client_to_server: c2s_of(pview(self.pairs@)),
            server_to_client: s2c_of(pview(self.pairs@)),
        }
    }
}

/// A looked-up pair determines the maps at its two keys.
proof fn lemma_pair_at(ps: Seq<(IdView, IdView)>, i: int)
    requires
        distinct_clients(ps),
        distinct_servers(ps),
        0 <= i < ps.len(),
    ensures
        c2s_of(ps).contains_key(ps[i].0) && c2s_of(ps)[ps[i].0] == ps[i].1,
        s2c_of(ps).contains_key(ps[i].1) && s2c_of(ps)[ps[i].1] == ps[i].0,
{
    assert(has_client(ps, ps[i].0));
    assert(has_server(ps, ps[i].1));
    let ic = choose|k: int| 0 <= k < ps.len() && ps[k].0 == ps[i].0;
    assert(ic == i);
    let is = choose|k: int| 0 <= k < ps.len() && ps[k].1 == ps[i].1;
    assert(is == i);
}

/// Appending a fresh pair inserts into both maps.
proof fn lemma_push_maps(ps: Seq<(IdView, IdView)>, c: IdView, s: IdView)
    requires
        distinct_clients(ps),
        distinct_servers(ps),
        !has_client(ps, c),
        !has_server(ps, s),
    ensures
        c2s_of(ps.push((c, s))) =~= c2s_of(ps).insert(c, s),
        s2c_of(ps.push((c, s))) =~= s2c_of(ps).insert(s, c),
        distinct_clients(ps.push((c, s))),
        distinct_servers(ps.push((c, s))),
{
    let qs = ps.push((c, s));
    assert(forall|i: int| 0 <= i < ps.len() ==> qs[i] == ps[i]);
    assert(qs[ps.len() as int] == (c, s));
    assert forall|k: IdView| #[trigger] has_client(qs, k) implies has_client(ps, k) || k == c by {
        let i = choose|i: int| 0 <= i < qs.len() && qs[i].0 == k;
        if i < ps.len() {
            assert(ps[i].0 == k);
        }
    }
    assert forall|k: IdView| has_client(ps, k) implies has_client(qs, k) by {
        let i = choose|i: int| 0 <= i < ps.len() && ps[i].0 == k;
        assert(qs[i].0 == k);
    }
    assert(has_client(qs, c));
    assert forall|k: IdView| #[trigger]
        c2s_of(qs).contains_key(k) implies c2s_of(qs)[k] == c2s_of(ps).insert(c, s)[k] by {
        let i = choose|i: int| 0 <= i < qs.len() && qs[i].0 == k;
        if k == c {
            assert(i == ps.len());
        } else {
            assert(i < ps.len());
            lemma_pair_at(ps, i);
        }
    }
    assert forall|k: IdView| #[trigger] has_server(qs, k) implies has_server(ps, k) || k == s by {
        let i = choose|i: int| 0 <= i < qs.len() && qs[i].1 == k;
        if i < ps.len() {
            assert(ps[i].1 == k);
        }
    }
    assert forall|k: IdView| has_server(ps, k) implies has_server(qs, k) by {
        let i = choose|i: int| 0 <= i < ps.len() && ps[i].1 == k;
        assert(qs[i].1 == k);
    }
    assert(has_server(qs, s));
    assert forall|k: IdView| #[trigger]
        s2c_of(qs).contains_key(k) implies s2c_of(qs)[k] == s2c_of(ps).insert(s, c)[k] by {
        let i = choose|i: int| 0 <= i < qs.len() && qs[i].1 == k;
        if k == s {
            assert(i == ps.len());
        } else {
            assert(i < ps.len());
            lemma_pair_at(ps, i);
        }
    }
}

/// Removing the pair at an index removes its two keys from the maps.
proof fn lemma_remove_maps(ps: Seq<(IdView, IdView)>, j: int)
    requires
        distinct_clients(ps),
        distinct_servers(ps),
        0 <= j < ps.len(),
    ensures
        c2s_of(ps.remove(j)) =~= c2s_of(ps).remove(ps[j].0),
        s2c_of(ps.remove(j)) =~= s2c_of(ps).remove(ps[j].1),
        distinct_clients(ps.remove(j)),
        distinct_servers(ps.remove(j)),
{
    let qs = ps.remove(j);
    assert(forall|i: int| 0 <= i < j ==> qs[i] == ps[i]);
    assert(forall|i: int| j <= i < qs.len() ==> qs[i] == ps[i + 1]);
    assert forall|k: IdView| #[trigger]
        has_client(qs, k) implies has_client(ps, k) && k != ps[j].0 by {
        let i = choose|i: int| 0 <= i < qs.len() && qs[i].0 == k;
        if i < j {
            assert(ps[i].0 == k);
            assert(ps[i].0 != ps[j].0);
        } else {
            assert(ps[i + 1].0 == k);
            assert(ps[i + 1].0 != ps[j].0);
        }
    }
    assert forall|k: IdView|
        has_client(ps, k) && k != ps[j].0 implies #[trigger] has_client(qs, k) by {
        let i = choose|i: int| 0 <= i < ps.len() && ps[i].0 == k;
        if i < j {
            assert(qs[i].0 == k);
        } else {
            assert(i != j);
            assert(qs[i - 1].0 == k);
        }
    }
    assert forall|k: IdView| #[trigger]
        c2s_of(qs).contains_key(k) implies c2s_of(qs)[k] == c2s_of(ps).remove(ps[j].0)[k] by {
        let i = choose|i: int| 0 <= i < qs.len() && qs[i].0 == k;
        if i < j {
            lemma_pair_at(ps, i);
        } else {
            lemma_pair_at(ps, i + 1);
        }
        let ic = choose|n: int| 0 <= n < qs.len() && qs[n].0 == k;
        assert(ic == i);
    }
    assert forall|k: IdView| #[trigger]
        has_server(qs, k) implies has_server(ps, k) && k != ps[j].1 by {
        let i = choose|i: int| 0 <= i < qs.len() && qs[i].1 == k;
        if i < j {
            assert(ps[i].1 == k);
            assert(ps[i].1 != ps[j].1);
        } else {
            assert(ps[i + 1].1 == k);
            assert(ps[i + 1].1 != ps[j].1);
        }
    }
    assert forall|k: IdView|
        has_server(ps, k) && k != ps[j].1 implies #[trigger] has_server(qs, k) by {
        let i = choose|i: int| 0 <= i < ps.len() && ps[i].1 == k;
        if i < j {
            assert(qs[i].1 == k);
        } else {
            assert(i != j);
            assert(qs[i - 1].1 == k);
        }
    }
    assert forall|k: IdView| #[trigger]
        s2c_of(qs).contains_key(k) implies s2c_of(qs)[k] == s2c_of(ps).remove(ps[j].1)[k] by {
        let i = choose|i: int| 0 <= i < qs.len() && qs[i].1 == k;
        if i < j {
            lemma_pair_at(ps, i);
        } else {
            lemma_pair_at(ps, i + 1);
        }
        let is = choose|n: int| 0 <= n < qs.len() && qs[n].1 == k;
        assert(is == i);
    }
}

impl IdMapper {
    /// The pair list is coherent and every server id is a spent integer id.
    pub closed spec fn wf(&self) -> bool {
        &&& 1 <= self.next_id
        &&& distinct_clients(pview(self.pairs@))
        &&& distinct_servers(pview(self.pairs@))
        &&& forall|i: int|
            0 <= i < self.pairs@.len() ==> (#[trigger] pview(self.pairs@)[i]).1 is Number && 1
                <= pview(self.pairs@)[i].1->Number_0 < self.next_id
    }

    /// More integer ids remain to be allocated.
    pub open spec fn can_allocate(&self) -> bool {
        self@.next_id < i64::MAX
    }

    /// Whether more integer ids remain to be allocated.
    pub fn has_capacity(&self) -> (r: bool)
        ensures
            r == self.can_allocate(),
    {
        self.next_id < i64::MAX
    }

    /// A coherent mapper state is coherent at the view level too.
    pub proof fn lemma_wf_view(&self)
        requires
            self.wf(),
        ensures
            view_wf(self@),
    {
        let ps = pview(self.pairs@);
        assert forall|c: IdView| #[trigger] c2s_of(ps).contains_key(c) implies s2c_of(
            ps,
        ).contains_key(c2s_of(ps)[c]) && s2c_of(ps)[c2s_of(ps)[c]] == c by {
            let i = choose|i: int| 0 <= i < ps.len() && ps[i].0 == c;
            lemma_pair_at(ps, i);
        }
        assert forall|s: IdView| #[trigger] s2c_of(ps).contains_key(s) implies c2s_of(
            ps,
        ).contains_key(s2c_of(ps)[s]) && c2s_of(ps)[s2c_of(ps)[s]] == s && s is Number && 1 <= s
            ->Number_0 < self@.next_id by {
            let i = choose|i: int| 0 <= i < ps.len() && ps[i].1 == s;
            lemma_pair_at(ps, i);
        }
    }

    /// A fresh mapper: no pairs, ids start at 1.
    pub fn new() -> (r: IdMapper)
        ensures
            r.wf(),
            r@.next_id == 1,
            r@.client_to_server == Map::<IdView, IdView>::empty(),
            r@.server_to_client == Map::<IdView, IdView>::empty(),
    {
        let r = IdMapper { next_id: 1, pairs: Vec::new() };
        proof {
            assert(r@.client_to_server =~= Map::<IdView, IdView>::empty());
            assert(r@.server_to_client =~= Map::<IdView, IdView>::empty());
        }
        r
    }

    /// Index of the pair holding this client id.
    fn find_client(&self, client_id: &MessageId) -> (r: Option<usize>)
        ensures
            match r {
                Some(i) => i < self.pairs@.len() && pview(self.pairs@)[i as int].0 == client_id@,
                None => !has_client(pview(self.pairs@), client_id@),
            },
    {
        let n = self.pairs.len();
        let mut i: usize = 0;
        while i < n
            invariant
                n == self.pairs@.len(),
                0 <= i <= n,
                forall|j: int| 0 <= j < i ==> pview(self.pairs@)[j].0 != client_id@,
            decreases n - i,
        {
            if self.pairs[i].0.eq_id(client_id) {
                return Some(i);
            }
            i = i + 1;
        }
        None
    }

    /// Index of the pair holding this server id.
    fn find_server(&self, server_id: &MessageId) -> (r: Option<usize>)
        ensures
            match r {
                Some(i) => i < self.pairs@.len() && pview(self.pairs@)[i as int].1 == server_id@,
                None => !has_server(pview(self.pairs@), server_id@),
            },
    {
        let n = self.pairs.len();
        let mut i: usize = 0;
        while i < n
            invariant
                n == self.pairs@.len(),
                0 <= i <= n,
                forall|j: int| 0 <= j < i ==> pview(self.pairs@)[j].1 != server_id@,
            decreases n - i,
        {
            if self.pairs[i].1.eq_id(server_id) {
                return Some(i);
            }
            i = i + 1;
        }
        None
    }

    /// The server id already associated with this client id, or a freshly
    /// allocated integer id, recorded in both directions.
    pub fn map_client_id(&mut self, client_id: MessageId) -> (s: MessageId)
        requires
            old(self).wf(),
            old(self).can_allocate(),
        ensures
            final(self).wf(),
            (final(self)@, s@) == spec_map_client_id(old(self)@, client_id@),
    {
        let ghost pre = self@;
        let ghost ps = pview(self.pairs@);
        match self.find_client(&client_id) {
            Some(i) => {
                proof {
                    lemma_pair_at(ps, i as int);
                }
                self.pairs[i].1.dup()
            },
            None => {
                let fresh = MessageId::Number(self.next_id);
                let s = MessageId::Number(self.next_id);
                self.next_id = self.next_id + 1;
                self.pairs.push((client_id, fresh));
                proof {
                    assert(!has_server(ps, IdView::Number(pre.next_id))) by {
                        if has_server(ps, IdView::Number(pre.next_id)) {
                            let i = choose|i: int|
                                0 <= i < ps.len() && ps[i].1 == IdView::Number(pre.next_id);
                        }
                    };
                    lemma_push_maps(ps, client_id@, IdView::Number(pre.next_id));
                    assert(pview(self.pairs@) =~= ps.push((client_id@, IdView::Number(pre.next_id))));
                }
                s
            },
        }
    }

    /// The client id recorded for this server id; a pure lookup.
    pub fn get_client_id(&self, server_id: &MessageId) -> (r: Option<MessageId>)
        requires
            self.wf(),
        ensures
            match r {
                Some(c) => spec_get_client_id(self@, server_id@) == Some(c@),
                None => spec_get_client_id(self@, server_id@) is None,
            },
    {
        let ghost ps = pview(self.pairs@);
        match self.find_server(server_id) {
            Some(i) => {
                proof {
                    lemma_pair_at(ps, i as int);
                }
                Some(self.pairs[i].0.dup())
            },
            None => None,
        }
    }

    /// Forget the pair recorded for this server id, in both directions;
    /// removing an unknown id changes nothing.
    pub fn remove(&mut self, server_id: &MessageId)
        requires
            old(self).wf(),
        ensures
            final(self).wf(),
            final(self)@ == spec_remove(old(self)@, server_id@),
    {
        let ghost ps = pview(self.pairs@);
        match self.find_server(server_id) {
            Some(i) => {
                proof {
                    lemma_pair_at(ps, i as int);
                    lemma_remove_maps(ps, i as int);
                }
                self.pairs.remove(i);
                proof {
                    assert(pview(self.pairs@) =~= ps.remove(i as int));
                }
            },
            None => {},
        }
    }
}

impl Default for IdMapper {
    /// The same state as [`IdMapper::new`].
    fn default() -> (r: IdMapper)
        ensures
            r.wf(),
            r@.next_id == 1,
            r@.client_to_server == Map::<IdView, IdView>::empty(),
            r@.server_to_client == Map::<IdView, IdView>::empty(),
    {
        IdMapper::new()
    }
}

/// Law: mapping is idempotent. Mapping a client id a second time returns the
/// same server id and allocates nothing.
pub proof fn lemma_map_idempotent(m: IdMapperView, c: IdView)
    ensures
        ({
            let (m1, s1) = spec_map_client_id(m, c);
            let (m2, s2) = spec_map_client_id(m1, c);
            m2 == m1 && s2 == s1
        }),
{
}

/// Law: distinct client ids never map to the same server id in a coherent
/// mapper state.
pub proof fn lemma_server_ids_unique(m: IdMapperView, c1: IdView, c2: IdView)
    requires
        view_wf(m),
        m.client_to_server.contains_key(c1),
        m.client_to_server.contains_key(c2),
        c1 != c2,
    ensures
        m.client_to_server[c1] != m.client_to_server[c2],
{
}

/// Law: a mapped client id round-trips. After `map_client_id(c)` returns `s`,
/// looking `s` up yields `c`, and the new state is coherent again.
pub proof fn lemma_round_trip(m: IdMapperView, c: IdView)
    requires
        view_wf(m),
        m.next_id < i64::MAX,
    ensures
        ({
            let (m1, s) = spec_map_client_id(m, c);
            spec_get_client_id(m1, s) == Some(c) && view_wf(m1)
        }),
{
    let (m1, s) = spec_map_client_id(m, c);
    if !m.client_to_server.contains_key(c) {
        assert(!m.server_to_client.contains_key(IdView::Number(m.next_id)));
        assert forall|k: IdView| #[trigger] m1.client_to_server.contains_key(k) implies
            m1.server_to_client.contains_key(m1.client_to_server[k])
                && m1.server_to_client[m1.client_to_server[k]] == k by {
            if k != c {
                assert(m.client_to_server[k] != IdView::Number(m.next_id));
            }
        }
        assert forall|k: IdView| #[trigger] m1.server_to_client.contains_key(k) implies
            m1.client_to_server.contains_key(m1.server_to_client[k])
                && m1.client_to_server[m1.server_to_client[k]] == k && k is Number && 1 <= k
            ->Number_0 < m1.next_id by {
            if k != s {
                assert(m.server_to_client.contains_key(k));
                assert(m.server_to_client[k] != c);
            }
        }
    }
}

} // verus!
