//! The flow registry: the authoritative in-memory store of flow entries
//! (producers, consumers, spawners), the allocator of flow identifiers,
//! and the enforcer that authorizes each message hop.

use vstd::prelude::*;
use vstd::set_lib::{lemma_int_range, lemma_len_subset, set_int_range};
use crate::Address;

verus! {

/// No sequence short enough to exist in memory can hold every `u64`:
/// there is always an identifier left to issue.
proof fn lemma_some_u64_left(s: Seq<u64>)
    requires
        s.len() < 0x1_0000_0000_0000_0000,
    ensures
        exists|v: u64| !s.contains(v),
{
    broadcast use vstd::seq_lib::seq_to_set_is_finite;

    if forall|v: u64| #[trigger] s.contains(v) {
        let ints = s.map_values(|v: u64| v as int);
        let full = set_int_range(0, 0x1_0000_0000_0000_0000);
        assert forall|x: int| full.contains(x) implies ints.to_set().contains(x) by {
            let v = x as u64;
            assert(s.contains(v));
            let i = choose|i: int| 0 <= i < s.len() && s[i] == v;
            assert(ints[i] == x);
            assert(ints.contains(x));
        }
        lemma_int_range(0, 0x1_0000_0000_0000_0000);
        ints.lemma_cardinality_of_set();
        lemma_len_subset(full, ints.to_set());
        assert(false);
    }
}

/// Identifies one logical flow. Opaque, unique among all identifiers the
/// allocator of one registry has issued, immutable once created.
#[derive(Clone, Copy, PartialEq, Eq, Structural, Debug)]
pub struct FlowControlId {
    pub value: u64,
}

impl View for FlowControlId {
    type V = u64;

    open spec fn view(&self) -> u64 {
        self.value
    }
}

impl FlowControlId {
    pub fn new(value: u64) -> (r: FlowControlId)
        ensures
            r@ == value,
    {
        FlowControlId { value }
    }
}

/// Which producers a consumer accepts messages from.
pub enum Origin {
    /// Any registered producer of the flow.
    AnyProducer,
    /// Only the one producer with this exact address.
    Only(Address),
}

/// The role that workers spawned by a registered spawner inherit.
pub enum InheritedRole {
    Producer,
    Consumer,
}

/// One registration: what an address is to a flow.
pub enum Kind {
    /// May originate messages tagged with the flow. If `restricted`, only
    /// while it is also the recorded creator of the flow.
    Producer { restricted: bool },
    /// May receive messages tagged with the flow, from producers that
    /// `origin` admits.
    Consumer { origin: Origin },
    /// Workers it spawns inherit `role` for the flow.
    Spawner { role: InheritedRole },
    /// The address recorded as the creator of the flow: the first producer
    /// ever registered for it.
    Creator,
}

/// One row of the registry: `addr` stands to flow `flow` as `kind` says.
pub struct Row {
    pub flow: u64,
    pub addr: Address,
    pub kind: Kind,
}

/// Why a registration was refused.
#[derive(Clone, Copy, PartialEq, Eq, Structural, Debug)]
pub enum FlowControlError {
    /// The flow identifier was never created, or its entry was reclaimed.
    UnknownFlow,
}

/// The outcome of consulting the enforcer for one delivery.
#[derive(Clone, Copy, PartialEq, Eq, Structural, Debug)]
pub enum Decision {
    /// The message carries no flow tag: this subsystem has no say, the
    /// caller's own rules decide.
    NotApplicable,
    Allow,
    Deny,
}

/// The registry: which identifiers were ever issued, which flows are live,
/// and every registration row.
pub struct Registry {
    pub issued: Vec<u64>,
    pub flows: Vec<u64>,
    pub rows: Vec<Row>,
}

pub open spec fn kind_tag(k: Kind) -> int {
    match k {
        Kind::Producer { .. } => 0,
        Kind::Consumer { .. } => 1,
        Kind::Spawner { .. } => 2,
        Kind::Creator => 3,
    }
}

/// Two rows occupy the same slot: same flow, same address, same role.
pub open spec fn same_slot(r1: Row, r2: Row) -> bool {
    r1.flow == r2.flow && r1.addr@ == r2.addr@ && kind_tag(r1.kind) == kind_tag(r2.kind)
}

impl Row {
    pub open spec fn is_producer(self, f: u64, a: Seq<u8>) -> bool {
        self.flow == f && self.addr@ == a && self.kind is Producer
    }

    pub open spec fn is_producer_flag(self, f: u64, a: Seq<u8>, restricted: bool) -> bool {
        self.flow == f && self.addr@ == a
            && (self.kind matches Kind::Producer { restricted: rr } && rr == restricted)
    }

    pub open spec fn is_consumer(self, f: u64, a: Seq<u8>) -> bool {
        self.flow == f && self.addr@ == a && self.kind is Consumer
    }

    pub open spec fn is_consumer_any(self, f: u64, a: Seq<u8>) -> bool {
        self.flow == f && self.addr@ == a
            && (self.kind matches Kind::Consumer { origin: Origin::AnyProducer })
    }

    pub open spec fn is_consumer_from(self, f: u64, a: Seq<u8>, p: Seq<u8>) -> bool {
        self.flow == f && self.addr@ == a
            && (self.kind matches Kind::Consumer { origin: Origin::Only(x) } && x@ == p)
    }

    pub open spec fn is_spawner(self, f: u64, a: Seq<u8>) -> bool {
        self.flow == f && self.addr@ == a && self.kind is Spawner
    }

    pub open spec fn is_spawner_role(self, f: u64, a: Seq<u8>, role: InheritedRole) -> bool {
        self.flow == f && self.addr@ == a
            && (self.kind matches Kind::Spawner { role: rr } && rr == role)
    }

    pub open spec fn is_creator(self, f: u64, a: Seq<u8>) -> bool {
        self.flow == f && self.addr@ == a && self.kind is Creator
    }

    pub open spec fn is_creator_row(self, f: u64) -> bool {
        self.flow == f && self.kind is Creator
    }
}

/// Selects one of the four row roles when scanning the registry.
pub enum RoleTag {
    Producer,
    Consumer,
    Spawner,
    Creator,
}

pub open spec fn tag_int(t: RoleTag) -> int {
    match t {
        RoleTag::Producer => 0,
        RoleTag::Consumer => 1,
        RoleTag::Spawner => 2,
        RoleTag::Creator => 3,
    }
}

fn kind_has_tag(k: &Kind, t: &RoleTag) -> (r: bool)
    ensures
        r == (kind_tag(*k) == tag_int(*t)),
{
    match (k, t) {
        (Kind::Producer { .. }, RoleTag::Producer) => true,
        (Kind::Consumer { .. }, RoleTag::Consumer) => true,
        (Kind::Spawner { .. }, RoleTag::Spawner) => true,
        (Kind::Creator, RoleTag::Creator) => true,
        _ => false,
    }
}

impl Registry {
    /// The allocator has issued `f` at some point of the registry's life.
    pub open spec fn is_issued(self, f: u64) -> bool {
        self.issued@.contains(f)
    }

    /// The flow was created and its entry has not been reclaimed.
    pub open spec fn flow_exists(self, f: u64) -> bool {
        self.flows@.contains(f)
    }

    pub open spec fn spec_is_producer(self, f: u64, a: Seq<u8>) -> bool {
        exists|i: int| 0 <= i < self.rows@.len() && (#[trigger] self.rows@[i]).is_producer(f, a)
    }

    /// The address is a producer of the flow, registered with this
    /// `restricted` flag.
    pub open spec fn spec_producer_flag(self, f: u64, a: Seq<u8>, restricted: bool) -> bool {
        exists|i: int|
            0 <= i < self.rows@.len() && (#[trigger] self.rows@[i]).is_producer_flag(
                f,
                a,
                restricted,
            )
    }

    pub open spec fn spec_is_consumer(self, f: u64, a: Seq<u8>) -> bool {
        exists|i: int| 0 <= i < self.rows@.len() && (#[trigger] self.rows@[i]).is_consumer(f, a)
    }

    /// The address is a consumer of the flow that accepts any producer.
    pub open spec fn spec_consumer_any(self, f: u64, a: Seq<u8>) -> bool {
        exists|i: int| 0 <= i < self.rows@.len() && (#[trigger] self.rows@[i]).is_consumer_any(f, a)
    }

    /// The address is a consumer of the flow restricted to producer `p`.
    pub open spec fn spec_consumer_from(self, f: u64, a: Seq<u8>, p: Seq<u8>) -> bool {
        exists|i: int|
            0 <= i < self.rows@.len() && (#[trigger] self.rows@[i]).is_consumer_from(f, a, p)
    }

    pub open spec fn spec_is_spawner(self, f: u64, a: Seq<u8>) -> bool {
        exists|i: int| 0 <= i < self.rows@.len() && (#[trigger] self.rows@[i]).is_spawner(f, a)
    }

    pub open spec fn spec_spawner_role(self, f: u64, a: Seq<u8>, role: InheritedRole) -> bool {
        exists|i: int|
            0 <= i < self.rows@.len() && (#[trigger] self.rows@[i]).is_spawner_role(f, a, role)
    }

    /// The address is recorded as the creator of the flow.
    pub open spec fn spec_is_creator(self, f: u64, a: Seq<u8>) -> bool {
        exists|i: int| 0 <= i < self.rows@.len() && (#[trigger] self.rows@[i]).is_creator(f, a)
    }

    /// Some address is recorded as the creator of the flow.
    pub open spec fn has_creator(self, f: u64) -> bool {
        exists|i: int| 0 <= i < self.rows@.len() && (#[trigger] self.rows@[i]).is_creator_row(f)
    }

    /// The flow has at least one registration row.
    pub open spec fn has_rows(self, f: u64) -> bool {
        exists|i: int| 0 <= i < self.rows@.len() && (#[trigger] self.rows@[i]).flow == f
    }

    /// Every registration row of the flow carries address `a`: removing `a`
    /// empties the entry, which is then reclaimed.
    pub open spec fn entry_only_holds(self, f: u64, a: Seq<u8>) -> bool {
        self.has_rows(f) && forall|i: int|
            0 <= i < self.rows@.len() && (#[trigger] self.rows@[i]).flow == f
                ==> self.rows@[i].addr@ == a
    }

    /// The sender may originate messages under the flow: it is a producer,
    /// and a restricted producer only counts while it is the flow's creator.
    pub open spec fn spec_sender_allowed(self, f: u64, s: Seq<u8>) -> bool {
        self.spec_producer_flag(f, s, false) || (self.spec_producer_flag(f, s, true)
            && self.spec_is_creator(f, s))
    }

    /// The receiver may accept a message from `s` under the flow: it is a
    /// consumer whose origin restriction admits `s`.
    pub open spec fn spec_receiver_allowed(self, f: u64, s: Seq<u8>, r: Seq<u8>) -> bool {
        self.spec_consumer_any(f, r) || self.spec_consumer_from(f, r, s)
    }

    /// The authorization rule: the flow must exist, the sender must be an
    /// allowed producer, and the receiver must be a consumer that admits
    /// this sender. Anything else is denied.
    pub open spec fn spec_authorize(self, f: u64, s: Seq<u8>, r: Seq<u8>) -> bool {
        self.flow_exists(f) && self.spec_sender_allowed(f, s) && self.spec_receiver_allowed(
            f,
            s,
            r,
        )
    }

    /// Well-formedness: rows only for live flows, live flows only among
    /// issued identifiers, and at most one row per (flow, address, role).
    pub open spec fn wf(self) -> bool {
        (forall|i: int|
            0 <= i < self.rows@.len() ==> self.flows@.contains(
                (#[trigger] self.rows@[i]).flow,
            )) && (forall|i: int|
            0 <= i < self.flows@.len() ==> self.issued@.contains(#[trigger] self.flows@[i]))
            && (forall|i: int, j: int|
            0 <= i < j < self.rows@.len() ==> !same_slot(
                #[trigger] self.rows@[i],
                #[trigger] self.rows@[j],
            ))
    }

    /// An empty registry: nothing issued, no flows, no registrations.
    pub fn new() -> (r: Registry)
        ensures
            r.wf(),
            r.issued@.len() == 0,
            r.flows@.len() == 0,
            r.rows@.len() == 0,
            forall|f: u64| !r.is_issued(f),
            forall|f: u64| !r.flow_exists(f),
            forall|f: u64, a: Seq<u8>| !r.spec_is_producer(f, a),
            forall|f: u64, a: Seq<u8>| !r.spec_is_consumer(f, a),
            forall|f: u64, a: Seq<u8>| !r.spec_is_spawner(f, a),
    {
        Registry { issued: Vec::new(), flows: Vec::new(), rows: Vec::new() }
    }

    fn contains_issued(&self, v: u64) -> (r: bool)
        ensures
            r == self.is_issued(v),
    {
        let n = self.issued.len();
        let mut i: usize = 0;
        while i < n
            invariant
                n == self.issued@.len(),
                i <= n,
                forall|k: int| 0 <= k < i ==> self.issued@[k] != v,
            decreases n - i,
        {
            if self.issued[i] == v {
                return true;
            }
            i += 1;
        }
        false
    }

    /// An identifier never issued before: a random draw first, with a
    /// deterministic downward search once the draw collides. One is always
    /// left: the issued list is shorter than the identifier space.
    fn fresh_id(&self) -> (r: u64)
        ensures
            !self.is_issued(r),
    {
        let c = random_u64();
        if !self.contains_issued(c) {
            return c;
        }
        // the exec length pins the issued list under the usize bound
        let issued_count = self.issued.len();
        proof {
            assert(issued_count == self.issued@.len());
            lemma_some_u64_left(self.issued@);
            let w = choose|v: u64| !self.issued@.contains(v);
            assert(!self.is_issued(w));
        }
        let mut cand: u64 = u64::MAX;
        loop
            invariant
                exists|v: u64| !self.is_issued(v),
                forall|v: u64| v > cand ==> self.is_issued(v),
            decreases cand,
        {
            if !self.contains_issued(cand) {
                return cand;
            }
            if cand == 0 {
                proof {
                    let v = choose|v: u64| !self.is_issued(v);
                    assert(v == 0 || v > 0);
                    assert(false);
                }
                return vstd::pervasive::unreached();
            }
            cand = cand - 1;
        }
    }

    /// Allocates a fresh identifier and creates its empty flow entry.
    /// Always succeeds, and never hands out an identifier this registry
    /// has issued before.
    pub fn create_flow(&mut self) -> (id: FlowControlId)
        requires
            old(self).wf(),
        ensures
            final(self).wf(),
            !old(self).is_issued(id@),
            final(self).is_issued(id@),
            final(self).flow_exists(id@),
            forall|f: u64| final(self).is_issued(f) == (old(self).is_issued(f) || f == id@),
            forall|f: u64| final(self).flow_exists(f) == (old(self).flow_exists(f) || f == id@),
            final(self).rows@ == old(self).rows@,
    {
        let v = self.fresh_id();
        self.issued.push(v);
        self.flows.push(v);
        proof {
            assert forall|f: u64|
                self.is_issued(f) == (old(self).is_issued(f) || f == v) by {
                if old(self).is_issued(f) {
                    let i = choose|i: int|
                        0 <= i < old(self).issued@.len() && old(self).issued@[i] == f;
                    assert(self.issued@[i] == f);
                }
                if f == v {
                    assert(self.issued@[self.issued@.len() - 1] == f);
                }
                if self.is_issued(f) {
                    let i = choose|i: int|
                        0 <= i < self.issued@.len() && self.issued@[i] == f;
                    if i < old(self).issued@.len() {
                        assert(old(self).issued@[i] == f);
                    }
                }
            }
            assert forall|f: u64|
                self.flow_exists(f) == (old(self).flow_exists(f) || f == v) by {
                if old(self).flow_exists(f) {
                    let i = choose|i: int|
                        0 <= i < old(self).flows@.len() && old(self).flows@[i] == f;
                    assert(self.flows@[i] == f);
                }
                if f == v {
                    assert(self.flows@[self.flows@.len() - 1] == f);
                }
                if self.flow_exists(f) {
                    let i = choose|i: int|
                        0 <= i < self.flows@.len() && self.flows@[i] == f;
                    if i < old(self).flows@.len() {
                        assert(old(self).flows@[i] == f);
                    }
                }
            }
            assert forall|i: int|
                0 <= i < self.rows@.len() implies self.flows@.contains(
                (#[trigger] self.rows@[i]).flow,
            ) by {
                let j = choose|j: int|
                    0 <= j < old(self).flows@.len() && old(self).flows@[j]
                        == self.rows@[i].flow;
                assert(self.flows@[j] == self.rows@[i].flow);
            }
            assert forall|i: int|
                0 <= i < self.flows@.len() implies self.issued@.contains(
                #[trigger] self.flows@[i],
            ) by {
                if i < old(self).flows@.len() {
                    let j = choose|j: int|
                        0 <= j < old(self).issued@.len() && old(self).issued@[j]
                            == self.flows@[i];
                    assert(self.issued@[j] == self.flows@[i]);
                } else {
                    assert(self.issued@[self.issued@.len() - 1] == v);
                }
            }
        }
        FlowControlId { value: v }
    }

    fn flow_live(&self, f: u64) -> (r: bool)
        ensures
            r == self.flow_exists(f),
    {
        let n = self.flows.len();
        let mut i: usize = 0;
        while i < n
            invariant
                n == self.flows@.len(),
                i <= n,
                forall|k: int| 0 <= k < i ==> self.flows@[k] != f,
            decreases n - i,
        {
            if self.flows[i] == f {
                return true;
            }
            i += 1;
        }
        false
    }

    /// The index of the row registering `a` under role `tag` for flow `f`,
    /// if there is one.
    fn find_row(&self, f: u64, a: &Address, tag: &RoleTag) -> (r: Option<usize>)
        ensures
            r matches Some(i) ==> i < self.rows@.len() && self.rows@[i as int].flow == f
                && self.rows@[i as int].addr@ == a@ && kind_tag(self.rows@[i as int].kind)
                == tag_int(*tag),
            r is None ==> forall|i: int|
                0 <= i < self.rows@.len()
                    ==> !((#[trigger] self.rows@[i]).flow == f && self.rows@[i].addr@ == a@
                    && kind_tag(self.rows@[i].kind) == tag_int(*tag)),
    {
        let n = self.rows.len();
        let mut i: usize = 0;
        while i < n
            invariant
                n == self.rows@.len(),
                i <= n,
                forall|k: int|
                    0 <= k < i
                        ==> !((#[trigger] self.rows@[k]).flow == f && self.rows@[k].addr@ == a@
                        && kind_tag(self.rows@[k].kind) == tag_int(*tag)),
            decreases n - i,
        {
            let row = &self.rows[i];
            if row.flow == f && kind_has_tag(&row.kind, tag) && crate::address_eq(&row.addr, a) {
                return Some(i);
            }
            i += 1;
        }
        None
    }

    /// Registers `address` as a producer of the flow. Idempotent: a second
    /// registration of the same producer leaves the registry unchanged. The
    /// first producer ever registered for the flow is recorded as its
    /// creator; a producer registered with `restrict_to_creator` may send
    /// only while it is that creator.
    pub fn add_producer(
        &mut self,
        flow: &FlowControlId,
        address: Address,
        restrict_to_creator: bool,
    ) -> (r: Result<(), FlowControlError>)
        requires
            old(self).wf(),
        ensures
            final(self).wf(),
            r is Ok <==> old(self).flow_exists(flow@),
            r is Err ==> *final(self) == *old(self) && r == Err::<(), FlowControlError>(
                FlowControlError::UnknownFlow,
            ),
            old(self).flow_exists(flow@) && old(self).spec_is_producer(flow@, address@)
                ==> *final(self) == *old(self),
            r is Ok ==> forall|f: u64, a: Seq<u8>|
                final(self).spec_is_producer(f, a) == (old(self).spec_is_producer(f, a) || (f
                    == flow@ && a == address@)),
            r is Ok && !old(self).spec_is_producer(flow@, address@) ==> forall|
                f: u64,
                a: Seq<u8>,
                fl: bool,
            |
                final(self).spec_producer_flag(f, a, fl) == (old(self).spec_producer_flag(f, a, fl)
                    || (f == flow@ && a == address@ && fl == restrict_to_creator)),
            r is Ok && !old(self).spec_is_producer(flow@, address@) && !old(self).has_creator(
                flow@,
            ) ==> forall|f: u64, a: Seq<u8>|
                final(self).spec_is_creator(f, a) == (old(self).spec_is_creator(f, a) || (f
                    == flow@ && a == address@)),
            old(self).has_creator(flow@) || old(self).spec_is_producer(flow@, address@) || r is Err
                ==> forall|f: u64, a: Seq<u8>|
                final(self).spec_is_creator(f, a) == old(self).spec_is_creator(f, a),
            forall|f: u64, a: Seq<u8>|
                final(self).spec_is_consumer(f, a) == old(self).spec_is_consumer(f, a),
            forall|f: u64, a: Seq<u8>|
                final(self).spec_consumer_any(f, a) == old(self).spec_consumer_any(f, a),
            forall|f: u64, a: Seq<u8>, p: Seq<u8>|
                final(self).spec_consumer_from(f, a, p) == old(self).spec_consumer_from(f, a, p),
            forall|f: u64, a: Seq<u8>|
                final(self).spec_is_spawner(f, a) == old(self).spec_is_spawner(f, a),
            forall|f: u64, a: Seq<u8>, role: InheritedRole|
                final(self).spec_spawner_role(f, a, role) == old(self).spec_spawner_role(
                    f,
                    a,
                    role,
                ),
            forall|f: u64| final(self).flow_exists(f) == old(self).flow_exists(f),
            forall|f: u64| final(self).is_issued(f) == old(self).is_issued(f),
    {
        if !self.flow_live(flow.value) {
            return Err(FlowControlError::UnknownFlow);
        }
        if self.find_row(flow.value, &address, &RoleTag::Producer).is_some() {
            return Ok(());
        }
        if !self.has_creator_exec(flow.value) {
            let dup = address.duplicate();
            let ghost pre = *self;
            self.rows.push(Row { flow: flow.value, addr: dup, kind: Kind::Creator });
            proof {
                let r_new = self.rows@.last();
                lemma_push_row(pre, *self, r_new);
                lemma_push_row_wf(pre, *self, r_new);
            }
        }
        let ghost mid = *self;
        self.rows.push(
            Row {
                flow: flow.value,
                addr: address,
                kind: Kind::Producer { restricted: restrict_to_creator },
            },
        );
        proof {
            let r_new = self.rows@.last();
            lemma_push_row(mid, *self, r_new);
            lemma_push_row_wf(mid, *self, r_new);
        }
        Ok(())
    }

    /// Registers `address` as a consumer of the flow, accepting messages
    /// from the producers that `origin` admits. Idempotent: once the
    /// address is a consumer of the flow, a second registration leaves the
    /// registry unchanged.
    pub fn add_consumer(&mut self, flow: &FlowControlId, address: Address, origin: Origin) -> (r:
        Result<(), FlowControlError>)
        requires
            old(self).wf(),
        ensures
            final(self).wf(),
            r is Ok <==> old(self).flow_exists(flow@),
            r is Err ==> *final(self) == *old(self) && r == Err::<(), FlowControlError>(
                FlowControlError::UnknownFlow,
            ),
            old(self).flow_exists(flow@) && old(self).spec_is_consumer(flow@, address@)
                ==> *final(self) == *old(self),
            r is Ok ==> forall|f: u64, a: Seq<u8>|
                final(self).spec_is_consumer(f, a) == (old(self).spec_is_consumer(f, a) || (f
                    == flow@ && a == address@)),
            r is Ok && !old(self).spec_is_consumer(flow@, address@) ==> forall|f: u64, a: Seq<u8>|
                final(self).spec_consumer_any(f, a) == (old(self).spec_consumer_any(f, a) || (f
                    == flow@ && a == address@ && origin is AnyProducer)),
            r is Ok && !old(self).spec_is_consumer(flow@, address@) ==> forall|
                f: u64,
                a: Seq<u8>,
                p: Seq<u8>,
            |
                final(self).spec_consumer_from(f, a, p) == (old(self).spec_consumer_from(f, a, p)
                    || (f == flow@ && a == address@ && (origin matches Origin::Only(x) && x@
                    == p))),
            forall|f: u64, a: Seq<u8>|
                final(self).spec_is_producer(f, a) == old(self).spec_is_producer(f, a),
            forall|f: u64, a: Seq<u8>, fl: bool|
                final(self).spec_producer_flag(f, a, fl) == old(self).spec_producer_flag(f, a, fl),
            forall|f: u64, a: Seq<u8>|
                final(self).spec_is_creator(f, a) == old(self).spec_is_creator(f, a),
            forall|f: u64, a: Seq<u8>|
                final(self).spec_is_spawner(f, a) == old(self).spec_is_spawner(f, a),
            forall|f: u64, a: Seq<u8>, role: InheritedRole|
                final(self).spec_spawner_role(f, a, role) == old(self).spec_spawner_role(
                    f,
                    a,
                    role,
                ),
            forall|f: u64| final(self).flow_exists(f) == old(self).flow_exists(f),
            forall|f: u64| final(self).is_issued(f) == old(self).is_issued(f),
    {
        if !self.flow_live(flow.value) {
            return Err(FlowControlError::UnknownFlow);
        }
        if self.find_row(flow.value, &address, &RoleTag::Consumer).is_some() {
            return Ok(());
        }
        let ghost pre = *self;
        self.rows.push(Row { flow: flow.value, addr: address, kind: Kind::Consumer { origin } });
        proof {
            let r_new = self.rows@.last();
            lemma_push_row(pre, *self, r_new);
            lemma_push_row_wf(pre, *self, r_new);
        }
        Ok(())
    }

    /// Registers `address` as a spawner for the flow: workers it spawns
    /// inherit `role`. Idempotent: once the address is a spawner of the
    /// flow, a second registration leaves the registry unchanged.
    pub fn add_spawner(&mut self, flow: &FlowControlId, address: Address, role: InheritedRole) -> (
        r: Result<(), FlowControlError>)
        requires
            old(self).wf(),
        ensures
            final(self).wf(),
            r is Ok <==> old(self).flow_exists(flow@),
            r is Err ==> *final(self) == *old(self) && r == Err::<(), FlowControlError>(
                FlowControlError::UnknownFlow,
            ),
            old(self).flow_exists(flow@) && old(self).spec_is_spawner(flow@, address@)
                ==> *final(self) == *old(self),
            r is Ok ==> forall|f: u64, a: Seq<u8>|
                final(self).spec_is_spawner(f, a) == (old(self).spec_is_spawner(f, a) || (f
                    == flow@ && a == address@)),
            r is Ok && !old(self).spec_is_spawner(flow@, address@) ==> forall|
                f: u64,
                a: Seq<u8>,
                rl: InheritedRole,
            |
                final(self).spec_spawner_role(f, a, rl) == (old(self).spec_spawner_role(f, a, rl)
                    || (f == flow@ && a == address@ && rl == role)),
            forall|f: u64, a: Seq<u8>|
                final(self).spec_is_producer(f, a) == old(self).spec_is_producer(f, a),
            forall|f: u64, a: Seq<u8>, fl: bool|
                final(self).spec_producer_flag(f, a, fl) == old(self).spec_producer_flag(f, a, fl),
            forall|f: u64, a: Seq<u8>|
                final(self).spec_is_creator(f, a) == old(self).spec_is_creator(f, a),
            forall|f: u64, a: Seq<u8>|
                final(self).spec_is_consumer(f, a) == old(self).spec_is_consumer(f, a),
            forall|f: u64, a: Seq<u8>|
                final(self).spec_consumer_any(f, a) == old(self).spec_consumer_any(f, a),
            forall|f: u64, a: Seq<u8>, p: Seq<u8>|
                final(self).spec_consumer_from(f, a, p) == old(self).spec_consumer_from(f, a, p),
            forall|f: u64| final(self).flow_exists(f) == old(self).flow_exists(f),
            forall|f: u64| final(self).is_issued(f) == old(self).is_issued(f),
    {
        if !self.flow_live(flow.value) {
            return Err(FlowControlError::UnknownFlow);
        }
        if self.find_row(flow.value, &address, &RoleTag::Spawner).is_some() {
            return Ok(());
        }
        let ghost pre = *self;
        self.rows.push(Row { flow: flow.value, addr: address, kind: Kind::Spawner { role } });
        proof {
            let r_new = self.rows@.last();
            lemma_push_row(pre, *self, r_new);
            lemma_push_row_wf(pre, *self, r_new);
        }
        Ok(())
    }

    /// Is the address a registered producer of the flow?
    pub fn is_producer(&self, flow: &FlowControlId, address: &Address) -> (r: bool)
        ensures
            r == self.spec_is_producer(flow@, address@),
    {
        self.find_row(flow.value, address, &RoleTag::Producer).is_some()
    }

    /// Is the address a registered consumer of the flow?
    pub fn is_consumer(&self, flow: &FlowControlId, address: &Address) -> (r: bool)
        ensures
            r == self.spec_is_consumer(flow@, address@),
    {
        self.find_row(flow.value, address, &RoleTag::Consumer).is_some()
    }

    /// May `sender` deliver a message tagged with `flow` to `receiver`?
    /// Allowed only when the flow exists, the sender is an authorized
    /// producer and the receiver is a consumer whose origin restriction
    /// admits this sender; anything else is denied.
    pub fn authorize(&self, flow: &FlowControlId, sender: &Address, receiver: &Address) -> (r:
        bool)
        requires
            self.wf(),
        ensures
            r == self.spec_authorize(flow@, sender@, receiver@),
    {
        let f = flow.value;
        if !self.flow_live(f) {
            return false;
        }
        let sender_ok = match self.find_row(f, sender, &RoleTag::Producer) {
            None => {
                proof {
                    assert(!self.spec_producer_flag(f, sender@, false));
                    assert(!self.spec_producer_flag(f, sender@, true));
                }
                false
            },
            Some(i) => {
                let restricted = match &self.rows[i].kind {
                    Kind::Producer { restricted } => *restricted,
                    _ => false,
                };
                proof {
                    let iv = i as int;
                    assert(self.rows@[iv].is_producer_flag(f, sender@, restricted));
                    assert forall|j: int|
                        0 <= j < self.rows@.len() && (#[trigger] self.rows@[j]).is_producer(
                            f,
                            sender@,
                        ) implies j == iv by {
                        if j < iv {
                            assert(!same_slot(self.rows@[j], self.rows@[iv]));
                        }
                        if j > iv {
                            assert(!same_slot(self.rows@[iv], self.rows@[j]));
                        }
                    }
                    assert(!self.spec_producer_flag(f, sender@, !restricted));
                }
                if restricted {
                    self.find_row(f, sender, &RoleTag::Creator).is_some()
                } else {
                    true
                }
            },
        };
        if !sender_ok {
            proof {
                assert(!self.spec_sender_allowed(f, sender@));
            }
            return false;
        }
        match self.find_row(f, receiver, &RoleTag::Consumer) {
            None => {
                proof {
                    assert(!self.spec_consumer_any(f, receiver@));
                    assert(!self.spec_consumer_from(f, receiver@, sender@));
                }
                false
            },
            Some(i) => {
                proof {
                    let iv = i as int;
                    assert forall|j: int|
                        0 <= j < self.rows@.len() && (#[trigger] self.rows@[j]).is_consumer(
                            f,
                            receiver@,
                        ) implies j == iv by {
                        if j < iv {
                            assert(!same_slot(self.rows@[j], self.rows@[iv]));
                        }
                        if j > iv {
                            assert(!same_slot(self.rows@[iv], self.rows@[j]));
                        }
                    }
                }
                match &self.rows[i].kind {
                    Kind::Consumer { origin: Origin::AnyProducer } => {
                        proof {
                            assert(self.rows@[i as int].is_consumer_any(f, receiver@));
                        }
                        true
                    },
                    Kind::Consumer { origin: Origin::Only(p) } => {
                        let accepted = crate::address_eq(p, sender);
                        proof {
                            assert(!self.spec_consumer_any(f, receiver@));
                            if accepted {
                                assert(self.rows@[i as int].is_consumer_from(
                                    f,
                                    receiver@,
                                    sender@,
                                ));
                            } else {
                                assert(!self.spec_consumer_from(f, receiver@, sender@));
                            }
                        }
                        accepted
                    },
                    _ => {
                        proof {
                            assert(false);
                        }
                        false
                    },
                }
            },
        }
    }

    /// The decision for one delivery: a message without a flow tag is
    /// outside this subsystem's jurisdiction, a tagged one is allowed or
    /// denied by the authorization rule.
    pub fn check_delivery(
        &self,
        flow: Option<&FlowControlId>,
        sender: &Address,
        receiver: &Address,
    ) -> (r: Decision)
        requires
            self.wf(),
        ensures
            flow is None ==> r == Decision::NotApplicable,
            flow matches Some(f) ==> r == (if self.spec_authorize(f@, sender@, receiver@) {
                Decision::Allow
            } else {
                Decision::Deny
            }),
    {
        match flow {
            None => Decision::NotApplicable,
            Some(f) => if self.authorize(f, sender, receiver) {
                Decision::Allow
            } else {
                Decision::Deny
            },
        }
    }

    /// A registered spawner has created `worker`: the worker inherits the
    /// spawner's declared role for the flow, with no origin restriction
    /// and no creator restriction. Spawning by an address that is not a
    /// registered spawner of the flow leaves the registry unchanged.
    pub fn on_spawn(&mut self, flow: &FlowControlId, spawner: &Address, worker: Address)
        requires
            old(self).wf(),
        ensures
            final(self).wf(),
            !old(self).spec_is_spawner(flow@, spawner@) ==> *final(self) == *old(self),
            old(self).spec_spawner_role(flow@, spawner@, InheritedRole::Consumer) ==> {
                &&& final(self).spec_is_consumer(flow@, worker@)
                &&& forall|f: u64, a: Seq<u8>|
                    final(self).spec_is_consumer(f, a) == (old(self).spec_is_consumer(f, a) || (f
                        == flow@ && a == worker@))
                &&& (!old(self).spec_is_consumer(flow@, worker@) ==> forall|f: u64, a: Seq<u8>|
                    final(self).spec_consumer_any(f, a) == (old(self).spec_consumer_any(f, a) || (
                    f == flow@ && a == worker@)))
                &&& forall|f: u64, a: Seq<u8>, p: Seq<u8>|
                    final(self).spec_consumer_from(f, a, p) == old(self).spec_consumer_from(
                        f,
                        a,
                        p,
                    )
                &&& forall|f: u64, a: Seq<u8>|
                    final(self).spec_is_producer(f, a) == old(self).spec_is_producer(f, a)
                &&& forall|f: u64, a: Seq<u8>, fl: bool|
                    final(self).spec_producer_flag(f, a, fl) == old(self).spec_producer_flag(
                        f,
                        a,
                        fl,
                    )
                &&& forall|f: u64, a: Seq<u8>|
                    final(self).spec_is_creator(f, a) == old(self).spec_is_creator(f, a)
            },
            old(self).spec_spawner_role(flow@, spawner@, InheritedRole::Producer) ==> {
                &&& final(self).spec_is_producer(flow@, worker@)
                &&& forall|f: u64, a: Seq<u8>|
                    final(self).spec_is_producer(f, a) == (old(self).spec_is_producer(f, a) || (f
                        == flow@ && a == worker@))
                &&& (!old(self).spec_is_producer(flow@, worker@) ==> forall|
                    f: u64,
                    a: Seq<u8>,
                    fl: bool,
                |
                    final(self).spec_producer_flag(f, a, fl) == (old(self).spec_producer_flag(
                        f,
                        a,
                        fl,
                    ) || (f == flow@ && a == worker@ && fl == false)))
                &&& forall|f: u64, a: Seq<u8>|
                    final(self).spec_is_consumer(f, a) == old(self).spec_is_consumer(f, a)
                &&& forall|f: u64, a: Seq<u8>|
                    final(self).spec_consumer_any(f, a) == old(self).spec_consumer_any(f, a)
                &&& forall|f: u64, a: Seq<u8>, p: Seq<u8>|
                    final(self).spec_consumer_from(f, a, p) == old(self).spec_consumer_from(
                        f,
                        a,
                        p,
                    )
            },
            forall|f: u64, a: Seq<u8>|
                final(self).spec_is_spawner(f, a) == old(self).spec_is_spawner(f, a),
            forall|f: u64, a: Seq<u8>, role: InheritedRole|
                final(self).spec_spawner_role(f, a, role) == old(self).spec_spawner_role(
                    f,
                    a,
                    role,
                ),
            forall|f: u64| final(self).flow_exists(f) == old(self).flow_exists(f),
            forall|f: u64| final(self).is_issued(f) == old(self).is_issued(f),
    {
        let f = flow.value;
        match self.find_row(f, spawner, &RoleTag::Spawner) {
            None => {},
            Some(i) => {
                proof {
                    let iv = i as int;
                    assert(self.rows@[iv].is_spawner(f, spawner@));
                    assert(self.flows@.contains(self.rows@[iv].flow));
                    assert forall|j: int|
                        0 <= j < self.rows@.len() && (#[trigger] self.rows@[j]).is_spawner(
                            f,
                            spawner@,
                        ) implies j == iv by {
                        if j < iv {
                            assert(!same_slot(self.rows@[j], self.rows@[iv]));
                        }
                        if j > iv {
                            assert(!same_slot(self.rows@[iv], self.rows@[j]));
                        }
                    }
                }
                let role = match &self.rows[i].kind {
                    Kind::Spawner { role: InheritedRole::Producer } => InheritedRole::Producer,
                    _ => InheritedRole::Consumer,
                };
                proof {
                    assert(self.rows@[i as int].is_spawner_role(f, spawner@, role));
                }
                match role {
                    InheritedRole::Producer => {
                        let r = self.add_producer(flow, worker, false);
                        proof {
                            assert(r is Ok);
                            assert(!self.spec_spawner_role(f, spawner@, InheritedRole::Consumer));
                        }
                    },
                    InheritedRole::Consumer => {
                        let r = self.add_consumer(flow, worker, Origin::AnyProducer);
                        proof {
                            assert(r is Ok);
                            assert(!self.spec_spawner_role(f, spawner@, InheritedRole::Producer));
                        }
                    },
                }
            },
        }
    }

    /// Would removing every row carrying `target` empty the entry of `f`?
    fn entry_vanishes(&self, f: u64, target: &Address) -> (r: bool)
        ensures
            r == self.entry_only_holds(f, target@),
    {
        let n = self.rows.len();
        let mut has: bool = false;
        let mut all: bool = true;
        let mut i: usize = 0;
        while i < n
            invariant
                n == self.rows@.len(),
                i <= n,
                has == exists|k: int| 0 <= k < i && (#[trigger] self.rows@[k]).flow == f,
                all == forall|k: int|
                    0 <= k < i && (#[trigger] self.rows@[k]).flow == f ==> self.rows@[k].addr@
                        == target@,
            decreases n - i,
        {
            let row = &self.rows[i];
            if row.flow == f {
                has = true;
                if !crate::address_eq(&row.addr, target) {
                    all = false;
                }
            }
            i += 1;
        }
        has && all
    }

    /// Purges `address` from every flow entry it appears in, in any role.
    /// An entry whose rows all carried the address is reclaimed: its flow
    /// no longer exists. Idempotent, and a no-op for an address that is
    /// registered nowhere.
    pub fn remove_address(&mut self, address: &Address)
        requires
            old(self).wf(),
        ensures
            final(self).wf(),
            forall|f: u64, a: Seq<u8>|
                final(self).spec_is_producer(f, a) == (old(self).spec_is_producer(f, a) && a
                    != address@),
            forall|f: u64, a: Seq<u8>, fl: bool|
                final(self).spec_producer_flag(f, a, fl) == (old(self).spec_producer_flag(f, a, fl)
                    && a != address@),
            forall|f: u64, a: Seq<u8>|
                final(self).spec_is_consumer(f, a) == (old(self).spec_is_consumer(f, a) && a
                    != address@),
            forall|f: u64, a: Seq<u8>|
                final(self).spec_consumer_any(f, a) == (old(self).spec_consumer_any(f, a) && a
                    != address@),
            forall|f: u64, a: Seq<u8>, p: Seq<u8>|
                final(self).spec_consumer_from(f, a, p) == (old(self).spec_consumer_from(f, a, p)
                    && a != address@),
            forall|f: u64, a: Seq<u8>|
                final(self).spec_is_spawner(f, a) == (old(self).spec_is_spawner(f, a) && a
                    != address@),
            forall|f: u64, a: Seq<u8>, role: InheritedRole|
                final(self).spec_spawner_role(f, a, role) == (old(self).spec_spawner_role(
                    f,
                    a,
                    role,
                ) && a != address@),
            forall|f: u64, a: Seq<u8>|
                final(self).spec_is_creator(f, a) == (old(self).spec_is_creator(f, a) && a
                    != address@),
            forall|f: u64|
                final(self).flow_exists(f) == (old(self).flow_exists(f)
                    && !old(self).entry_only_holds(f, address@)),
            forall|f: u64| final(self).is_issued(f) == old(self).is_issued(f),
            forall|f: u64|
                !final(self).spec_is_producer(f, address@) && !final(self).spec_is_consumer(
                    f,
                    address@,
                ),
    {
        // Reclaim the flows whose entries this removal empties.
        let nf = self.flows.len();
        let mut kept_flows: Vec<u64> = Vec::new();
        let mut i: usize = 0;
        while i < nf
            invariant
                *self == *old(self),
                nf == self.flows@.len(),
                i <= nf,
                forall|k: int|
                    0 <= k < kept_flows@.len() ==> self.flows@.contains(#[trigger] kept_flows@[k])
                        && !self.entry_only_holds(kept_flows@[k], address@),
                forall|k: int|
                    0 <= k < i && !self.entry_only_holds(#[trigger] self.flows@[k], address@)
                        ==> kept_flows@.contains(self.flows@[k]),
            decreases nf - i,
        {
            let f = self.flows[i];
            let ghost kept0 = kept_flows@;
            if !self.entry_vanishes(f, address) {
                kept_flows.push(f);
            }
            proof {
                assert forall|k: int|
                    0 <= k < i + 1 && !self.entry_only_holds(
                        #[trigger] self.flows@[k],
                        address@,
                    ) implies kept_flows@.contains(self.flows@[k]) by {
                    if kept_flows@ == kept0 {
                        assert(kept_flows@.contains(self.flows@[k]));
                    } else {
                        lemma_contains_push_u64(kept0, f, self.flows@[k]);
                    }
                }
                if kept_flows@ != kept0 {
                    assert forall|k: int|
                        0 <= k < kept_flows@.len() implies self.flows@.contains(
                        #[trigger] kept_flows@[k],
                    ) && !self.entry_only_holds(kept_flows@[k], address@) by {
                        if k < kept0.len() {
                            assert(kept_flows@[k] == kept0[k]);
                        } else {
                            assert(kept_flows@[k] == f);
                            assert(self.flows@[i as int] == f);
                        }
                    }
                }
            }
            i += 1;
        }
        self.flows = kept_flows;
        // Drop every row that carries the address.
        let ghost flows1 = self.flows@;
        let ghost rows0 = self.rows@;
        proof {
            assert(rows0.subrange(0, rows0.len() as int) =~= rows0);
        }
        let mut kept: Vec<Row> = Vec::new();
        while self.rows.len() > 0
            invariant
                old(self).wf(),
                rows0 == old(self).rows@,
                self.flows@ == flows1,
                self.issued@ == old(self).issued@,
                self.rows@.len() <= rows0.len(),
                self.rows@ == rows0.subrange(0, self.rows@.len() as int),
                forall|k: int|
                    0 <= k < kept@.len() ==> ((#[trigger] kept@[k]).addr@ != address@ && exists|
                        j: int,
                    |
                        self.rows@.len() <= j < rows0.len() && rows0[j] == #[trigger] kept@[k]),
                forall|j: int|
                    self.rows@.len() <= j < rows0.len() && (#[trigger] rows0[j]).addr@ != address@
                        ==> kept@.contains(rows0[j]),
                forall|k1: int, k2: int|
                    0 <= k1 < k2 < kept@.len() ==> !same_slot(
                        #[trigger] kept@[k1],
                        #[trigger] kept@[k2],
                    ),
            decreases self.rows@.len(),
        {
            let ghost m = self.rows@.len() as int;
            let row = self.rows.pop().unwrap();
            proof {
                assert(rows0.subrange(0, m)[m - 1] == rows0[m - 1]);
                assert(row == rows0[m - 1]);
                assert(rows0.subrange(0, m).subrange(0, m - 1) =~= rows0.subrange(0, m - 1));
            }
            if !crate::address_eq(&row.addr, address) {
                let ghost kept0 = kept@;
                kept.push(row);
                proof {
                    assert forall|j: int|
                        self.rows@.len() <= j < rows0.len() && (#[trigger] rows0[j]).addr@
                            != address@ implies kept@.contains(rows0[j]) by {
                        if j == m - 1 {
                            assert(kept@[kept@.len() - 1] == rows0[j]);
                        } else {
                            let k = choose|k: int| 0 <= k < kept0.len() && kept0[k] == rows0[j];
                            assert(kept@[k] == rows0[j]);
                        }
                    }
                    assert forall|k1: int, k2: int|
                        0 <= k1 < k2 < kept@.len() implies !same_slot(
                        #[trigger] kept@[k1],
                        #[trigger] kept@[k2],
                    ) by {
                        if k2 < kept0.len() {
                            assert(kept@[k1] == kept0[k1] && kept@[k2] == kept0[k2]);
                        } else {
                            assert(kept@[k2] == rows0[m - 1]);
                            assert(kept@[k1] == kept0[k1]);
                            let j = choose|j: int| m <= j < rows0.len() && rows0[j] == kept0[k1];
                            assert(old(self).rows@[m - 1] == rows0[m - 1]);
                            assert(old(self).rows@[j] == rows0[j]);
                            assert(!same_slot(rows0[m - 1], rows0[j]));
                        }
                    }
                }
            }
        }
        self.rows = kept;
        proof {
            let pre = *old(self);
            let post = *self;
            assert forall|k: int|
                0 <= k < post.rows@.len() implies ((#[trigger] post.rows@[k]).addr@ != address@
                && pre.rows@.contains(post.rows@[k])) by {
                let j = choose|j: int| 0 <= j < rows0.len() && rows0[j] == post.rows@[k];
                assert(pre.rows@[j] == post.rows@[k]);
            }
            lemma_remove_rows(pre, post, address@);
            // flow book-keeping survived the row filtering
            assert forall|g: u64|
                post.flow_exists(g) == (pre.flow_exists(g) && !pre.entry_only_holds(
                    g,
                    address@,
                )) by {
                if post.flow_exists(g) {
                    let k = choose|k: int| 0 <= k < post.flows@.len() && post.flows@[k] == g;
                }
                if pre.flow_exists(g) && !pre.entry_only_holds(g, address@) {
                    let k = choose|k: int| 0 <= k < pre.flows@.len() && pre.flows@[k] == g;
                }
            }
            // well-formedness of the result
            assert forall|k: int|
                0 <= k < post.rows@.len() implies post.flows@.contains(
                (#[trigger] post.rows@[k]).flow,
            ) by {
                let r = post.rows@[k];
                let j = choose|j: int| 0 <= j < pre.rows@.len() && pre.rows@[j] == r;
                assert(pre.flows@.contains(r.flow));
                assert(!pre.entry_only_holds(r.flow, address@));
            }
            assert forall|k: int|
                0 <= k < post.flows@.len() implies post.issued@.contains(
                #[trigger] post.flows@[k],
            ) by {
                assert(pre.flows@.contains(post.flows@[k]));
                let j = choose|j: int| 0 <= j < pre.flows@.len() && pre.flows@[j] == post.flows@[k];
            }
            assert(forall|k1: int, k2: int|
                0 <= k1 < k2 < post.rows@.len() ==> !same_slot(
                    #[trigger] post.rows@[k1],
                    #[trigger] post.rows@[k2],
                ));
        }
    }

    /// Worker teardown: purges every registration owned by the stopped
    /// worker, so that no stale authorization survives it. Safe to call
    /// again for the same worker.
    pub fn on_worker_stopped(&mut self, address: &Address)
        requires
            old(self).wf(),
        ensures
            final(self).wf(),
            forall|f: u64, a: Seq<u8>|
                final(self).spec_is_producer(f, a) == (old(self).spec_is_producer(f, a) && a
                    != address@),
            forall|f: u64, a: Seq<u8>|
                final(self).spec_is_consumer(f, a) == (old(self).spec_is_consumer(f, a) && a
                    != address@),
            forall|f: u64, a: Seq<u8>|
                final(self).spec_is_spawner(f, a) == (old(self).spec_is_spawner(f, a) && a
                    != address@),
            forall|f: u64|
                !final(self).spec_is_producer(f, address@) && !final(self).spec_is_consumer(
                    f,
                    address@,
                ),
    {
        self.remove_address(address);
    }

    /// Subsystem shutdown: deletes every flow entry. Issued identifiers
    /// stay burned, so no identifier is ever reused, even across a
    /// shutdown.
    pub fn shutdown(&mut self)
        requires
            old(self).wf(),
        ensures
            final(self).wf(),
            forall|f: u64| !final(self).flow_exists(f),
            forall|f: u64, a: Seq<u8>| !final(self).spec_is_producer(f, a),
            forall|f: u64, a: Seq<u8>| !final(self).spec_is_consumer(f, a),
            forall|f: u64, a: Seq<u8>| !final(self).spec_is_spawner(f, a),
            forall|f: u64| !final(self).has_rows(f),
            forall|f: u64| final(self).is_issued(f) == old(self).is_issued(f),
    {
        self.flows.clear();
        self.rows.clear();
    }

    fn has_creator_exec(&self, f: u64) -> (r: bool)
        ensures
            r == self.has_creator(f),
    {
        let n = self.rows.len();
        let mut i: usize = 0;
        while i < n
            invariant
                n == self.rows@.len(),
                i <= n,
                forall|k: int| 0 <= k < i ==> !(#[trigger] self.rows@[k]).is_creator_row(f),
            decreases n - i,
        {
            let row = &self.rows[i];
            if row.flow == f && kind_has_tag(&row.kind, &RoleTag::Creator) {
                return true;
            }
            i += 1;
        }
        false
    }
}

/// How every membership observation changes when one row is pushed:
/// each kind of membership gains exactly what the new row states.
proof fn lemma_push_row(pre: Registry, post: Registry, r: Row)
    requires
        post.rows@ == pre.rows@.push(r),
        post.flows@ == pre.flows@,
        post.issued@ == pre.issued@,
    ensures
        forall|f: u64, a: Seq<u8>|
            post.spec_is_producer(f, a) == (pre.spec_is_producer(f, a) || r.is_producer(f, a)),
        forall|f: u64, a: Seq<u8>, fl: bool|
            post.spec_producer_flag(f, a, fl) == (pre.spec_producer_flag(f, a, fl)
                || r.is_producer_flag(f, a, fl)),
        forall|f: u64, a: Seq<u8>|
            post.spec_is_consumer(f, a) == (pre.spec_is_consumer(f, a) || r.is_consumer(f, a)),
        forall|f: u64, a: Seq<u8>|
            post.spec_consumer_any(f, a) == (pre.spec_consumer_any(f, a) || r.is_consumer_any(
                f,
                a,
            )),
        forall|f: u64, a: Seq<u8>, p: Seq<u8>|
            post.spec_consumer_from(f, a, p) == (pre.spec_consumer_from(f, a, p)
                || r.is_consumer_from(f, a, p)),
        forall|f: u64, a: Seq<u8>|
            post.spec_is_spawner(f, a) == (pre.spec_is_spawner(f, a) || r.is_spawner(f, a)),
        forall|f: u64, a: Seq<u8>, role: InheritedRole|
            post.spec_spawner_role(f, a, role) == (pre.spec_spawner_role(f, a, role)
                || r.is_spawner_role(f, a, role)),
        forall|f: u64, a: Seq<u8>|
            post.spec_is_creator(f, a) == (pre.spec_is_creator(f, a) || r.is_creator(f, a)),
        forall|f: u64| post.has_creator(f) == (pre.has_creator(f) || r.is_creator_row(f)),
        forall|f: u64| post.has_rows(f) == (pre.has_rows(f) || r.flow == f),
        forall|f: u64| post.flow_exists(f) == pre.flow_exists(f),
        forall|f: u64| post.is_issued(f) == pre.is_issued(f),
{
    let n = pre.rows@.len() as int;
    assert(post.rows@[n] == r);
    assert forall|i: int| 0 <= i < n implies post.rows@[i] == pre.rows@[i] by {}
    assert forall|f: u64, a: Seq<u8>|
        post.spec_is_producer(f, a) == (pre.spec_is_producer(f, a) || r.is_producer(f, a)) by {
        if post.spec_is_producer(f, a) {
            let i = choose|i: int|
                0 <= i < post.rows@.len() && (#[trigger] post.rows@[i]).is_producer(f, a);
            if i < n {
                assert(pre.rows@[i].is_producer(f, a));
            }
        }
        if pre.spec_is_producer(f, a) {
            let i = choose|i: int|
                0 <= i < pre.rows@.len() && (#[trigger] pre.rows@[i]).is_producer(f, a);
            assert(post.rows@[i].is_producer(f, a));
        }
        if r.is_producer(f, a) {
            assert(post.rows@[n].is_producer(f, a));
        }
    }
    assert forall|f: u64, a: Seq<u8>, fl: bool|
        post.spec_producer_flag(f, a, fl) == (pre.spec_producer_flag(f, a, fl)
            || r.is_producer_flag(f, a, fl)) by {
        if post.spec_producer_flag(f, a, fl) {
            let i = choose|i: int|
                0 <= i < post.rows@.len() && (#[trigger] post.rows@[i]).is_producer_flag(f, a, fl);
            if i < n {
                assert(pre.rows@[i].is_producer_flag(f, a, fl));
            }
        }
        if pre.spec_producer_flag(f, a, fl) {
            let i = choose|i: int|
                0 <= i < pre.rows@.len() && (#[trigger] pre.rows@[i]).is_producer_flag(f, a, fl);
            assert(post.rows@[i].is_producer_flag(f, a, fl));
        }
        if r.is_producer_flag(f, a, fl) {
            assert(post.rows@[n].is_producer_flag(f, a, fl));
        }
    }
    assert forall|f: u64, a: Seq<u8>|
        post.spec_is_consumer(f, a) == (pre.spec_is_consumer(f, a) || r.is_consumer(f, a)) by {
        if post.spec_is_consumer(f, a) {
            let i = choose|i: int|
                0 <= i < post.rows@.len() && (#[trigger] post.rows@[i]).is_consumer(f, a);
            if i < n {
                assert(pre.rows@[i].is_consumer(f, a));
            }
        }
        if pre.spec_is_consumer(f, a) {
            let i = choose|i: int|
                0 <= i < pre.rows@.len() && (#[trigger] pre.rows@[i]).is_consumer(f, a);
            assert(post.rows@[i].is_consumer(f, a));
        }
        if r.is_consumer(f, a) {
            assert(post.rows@[n].is_consumer(f, a));
        }
    }
    assert forall|f: u64, a: Seq<u8>|
        post.spec_consumer_any(f, a) == (pre.spec_consumer_any(f, a) || r.is_consumer_any(
            f,
            a,
        )) by {
        if post.spec_consumer_any(f, a) {
            let i = choose|i: int|
                0 <= i < post.rows@.len() && (#[trigger] post.rows@[i]).is_consumer_any(f, a);
            if i < n {
                assert(pre.rows@[i].is_consumer_any(f, a));
            }
        }
        if pre.spec_consumer_any(f, a) {
            let i = choose|i: int|
                0 <= i < pre.rows@.len() && (#[trigger] pre.rows@[i]).is_consumer_any(f, a);
            assert(post.rows@[i].is_consumer_any(f, a));
        }
        if r.is_consumer_any(f, a) {
            assert(post.rows@[n].is_consumer_any(f, a));
        }
    }
    assert forall|f: u64, a: Seq<u8>, p: Seq<u8>|
        post.spec_consumer_from(f, a, p) == (pre.spec_consumer_from(f, a, p) || r.is_consumer_from(
            f,
            a,
            p,
        )) by {
        if post.spec_consumer_from(f, a, p) {
            let i = choose|i: int|
                0 <= i < post.rows@.len() && (#[trigger] post.rows@[i]).is_consumer_from(f, a, p);
            if i < n {
                assert(pre.rows@[i].is_consumer_from(f, a, p));
            }
        }
        if pre.spec_consumer_from(f, a, p) {
            let i = choose|i: int|
                0 <= i < pre.rows@.len() && (#[trigger] pre.rows@[i]).is_consumer_from(f, a, p);
            assert(post.rows@[i].is_consumer_from(f, a, p));
        }
        if r.is_consumer_from(f, a, p) {
            assert(post.rows@[n].is_consumer_from(f, a, p));
        }
    }
    assert forall|f: u64, a: Seq<u8>|
        post.spec_is_spawner(f, a) == (pre.spec_is_spawner(f, a) || r.is_spawner(f, a)) by {
        if post.spec_is_spawner(f, a) {
            let i = choose|i: int|
                0 <= i < post.rows@.len() && (#[trigger] post.rows@[i]).is_spawner(f, a);
            if i < n {
                assert(pre.rows@[i].is_spawner(f, a));
            }
        }
        if pre.spec_is_spawner(f, a) {
            let i = choose|i: int|
                0 <= i < pre.rows@.len() && (#[trigger] pre.rows@[i]).is_spawner(f, a);
            assert(post.rows@[i].is_spawner(f, a));
        }
        if r.is_spawner(f, a) {
            assert(post.rows@[n].is_spawner(f, a));
        }
    }
    assert forall|f: u64, a: Seq<u8>, role: InheritedRole|
        post.spec_spawner_role(f, a, role) == (pre.spec_spawner_role(f, a, role)
            || r.is_spawner_role(f, a, role)) by {
        if post.spec_spawner_role(f, a, role) {
            let i = choose|i: int|
                0 <= i < post.rows@.len() && (#[trigger] post.rows@[i]).is_spawner_role(f, a, role);
            if i < n {
                assert(pre.rows@[i].is_spawner_role(f, a, role));
            }
        }
        if pre.spec_spawner_role(f, a, role) {
            let i = choose|i: int|
                0 <= i < pre.rows@.len() && (#[trigger] pre.rows@[i]).is_spawner_role(f, a, role);
            assert(post.rows@[i].is_spawner_role(f, a, role));
        }
        if r.is_spawner_role(f, a, role) {
            assert(post.rows@[n].is_spawner_role(f, a, role));
        }
    }
    assert forall|f: u64, a: Seq<u8>|
        post.spec_is_creator(f, a) == (pre.spec_is_creator(f, a) || r.is_creator(f, a)) by {
        if post.spec_is_creator(f, a) {
            let i = choose|i: int|
                0 <= i < post.rows@.len() && (#[trigger] post.rows@[i]).is_creator(f, a);
            if i < n {
                assert(pre.rows@[i].is_creator(f, a));
            }
        }
        if pre.spec_is_creator(f, a) {
            let i = choose|i: int|
                0 <= i < pre.rows@.len() && (#[trigger] pre.rows@[i]).is_creator(f, a);
            assert(post.rows@[i].is_creator(f, a));
        }
        if r.is_creator(f, a) {
            assert(post.rows@[n].is_creator(f, a));
        }
    }
    assert forall|f: u64| post.has_creator(f) == (pre.has_creator(f) || r.is_creator_row(f)) by {
        if post.has_creator(f) {
            let i = choose|i: int|
                0 <= i < post.rows@.len() && (#[trigger] post.rows@[i]).is_creator_row(f);
            if i < n {
                assert(pre.rows@[i].is_creator_row(f));
            }
        }
        if pre.has_creator(f) {
            let i = choose|i: int|
                0 <= i < pre.rows@.len() && (#[trigger] pre.rows@[i]).is_creator_row(f);
            assert(post.rows@[i].is_creator_row(f));
        }
        if r.is_creator_row(f) {
            assert(post.rows@[n].is_creator_row(f));
        }
    }
    assert forall|f: u64| post.has_rows(f) == (pre.has_rows(f) || r.flow == f) by {
        if post.has_rows(f) {
            let i = choose|i: int|
                0 <= i < post.rows@.len() && (#[trigger] post.rows@[i]).flow == f;
            if i < n {
                assert(pre.rows@[i].flow == f);
            }
        }
        if pre.has_rows(f) {
            let i = choose|i: int| 0 <= i < pre.rows@.len() && (#[trigger] pre.rows@[i]).flow == f;
            assert(post.rows@[i].flow == f);
        }
        if r.flow == f {
            assert(post.rows@[n].flow == f);
        }
    }
}

proof fn lemma_contains_push_u64(s: Seq<u64>, x: u64, y: u64)
    ensures
        s.push(x).contains(y) == (s.contains(y) || x == y),
{
    if s.contains(y) {
        let i = choose|i: int| 0 <= i < s.len() && s[i] == y;
        assert(s.push(x)[i] == y);
    }
    if x == y {
        assert(s.push(x)[s.len() as int] == y);
    }
    if s.push(x).contains(y) {
        let i = choose|i: int| 0 <= i < s.push(x).len() && s.push(x)[i] == y;
        if i < s.len() {
            assert(s[i] == y);
        }
    }
}

/// How every membership observation changes when all rows carrying one
/// address are removed and every other row is kept.
proof fn lemma_remove_rows(pre: Registry, post: Registry, target: Seq<u8>)
    requires
        forall|k: int|
            0 <= k < post.rows@.len() ==> ((#[trigger] post.rows@[k]).addr@ != target
                && pre.rows@.contains(post.rows@[k])),
        forall|j: int|
            0 <= j < pre.rows@.len() && (#[trigger] pre.rows@[j]).addr@ != target
                ==> post.rows@.contains(pre.rows@[j]),
    ensures
        forall|f: u64, a: Seq<u8>|
            post.spec_is_producer(f, a) == (pre.spec_is_producer(f, a) && a != target),
        forall|f: u64, a: Seq<u8>, fl: bool|
            post.spec_producer_flag(f, a, fl) == (pre.spec_producer_flag(f, a, fl) && a
                != target),
        forall|f: u64, a: Seq<u8>|
            post.spec_is_consumer(f, a) == (pre.spec_is_consumer(f, a) && a != target),
        forall|f: u64, a: Seq<u8>|
            post.spec_consumer_any(f, a) == (pre.spec_consumer_any(f, a) && a != target),
        forall|f: u64, a: Seq<u8>, p: Seq<u8>|
            post.spec_consumer_from(f, a, p) == (pre.spec_consumer_from(f, a, p) && a != target),
        forall|f: u64, a: Seq<u8>|
            post.spec_is_spawner(f, a) == (pre.spec_is_spawner(f, a) && a != target),
        forall|f: u64, a: Seq<u8>, role: InheritedRole|
            post.spec_spawner_role(f, a, role) == (pre.spec_spawner_role(f, a, role) && a
                != target),
        forall|f: u64, a: Seq<u8>|
            post.spec_is_creator(f, a) == (pre.spec_is_creator(f, a) && a != target),
{
    assert forall|f: u64, a: Seq<u8>|
        post.spec_is_producer(f, a) == (pre.spec_is_producer(f, a) && a != target) by {
        if post.spec_is_producer(f, a) {
            let k = choose|k: int|
                0 <= k < post.rows@.len() && (#[trigger] post.rows@[k]).is_producer(f, a);
            let j = choose|j: int| 0 <= j < pre.rows@.len() && pre.rows@[j] == post.rows@[k];
            assert(pre.rows@[j].is_producer(f, a));
        }
        if pre.spec_is_producer(f, a) && a != target {
            let j = choose|j: int|
                0 <= j < pre.rows@.len() && (#[trigger] pre.rows@[j]).is_producer(f, a);
            let k = choose|k: int| 0 <= k < post.rows@.len() && post.rows@[k] == pre.rows@[j];
            assert(post.rows@[k].is_producer(f, a));
        }
    }
    assert forall|f: u64, a: Seq<u8>, fl: bool|
        post.spec_producer_flag(f, a, fl) == (pre.spec_producer_flag(f, a, fl) && a != target) by {
        if post.spec_producer_flag(f, a, fl) {
            let k = choose|k: int|
                0 <= k < post.rows@.len() && (#[trigger] post.rows@[k]).is_producer_flag(f, a, fl);
            let j = choose|j: int| 0 <= j < pre.rows@.len() && pre.rows@[j] == post.rows@[k];
            assert(pre.rows@[j].is_producer_flag(f, a, fl));
        }
        if pre.spec_producer_flag(f, a, fl) && a != target {
            let j = choose|j: int|
                0 <= j < pre.rows@.len() && (#[trigger] pre.rows@[j]).is_producer_flag(f, a, fl);
            let k = choose|k: int| 0 <= k < post.rows@.len() && post.rows@[k] == pre.rows@[j];
            assert(post.rows@[k].is_producer_flag(f, a, fl));
        }
    }
    assert forall|f: u64, a: Seq<u8>|
        post.spec_is_consumer(f, a) == (pre.spec_is_consumer(f, a) && a != target) by {
        if post.spec_is_consumer(f, a) {
            let k = choose|k: int|
                0 <= k < post.rows@.len() && (#[trigger] post.rows@[k]).is_consumer(f, a);
            let j = choose|j: int| 0 <= j < pre.rows@.len() && pre.rows@[j] == post.rows@[k];
            assert(pre.rows@[j].is_consumer(f, a));
        }
        if pre.spec_is_consumer(f, a) && a != target {
            let j = choose|j: int|
                0 <= j < pre.rows@.len() && (#[trigger] pre.rows@[j]).is_consumer(f, a);
            let k = choose|k: int| 0 <= k < post.rows@.len() && post.rows@[k] == pre.rows@[j];
            assert(post.rows@[k].is_consumer(f, a));
        }
    }
    assert forall|f: u64, a: Seq<u8>|
        post.spec_consumer_any(f, a) == (pre.spec_consumer_any(f, a) && a != target) by {
        if post.spec_consumer_any(f, a) {
            let k = choose|k: int|
                0 <= k < post.rows@.len() && (#[trigger] post.rows@[k]).is_consumer_any(f, a);
            let j = choose|j: int| 0 <= j < pre.rows@.len() && pre.rows@[j] == post.rows@[k];
            assert(pre.rows@[j].is_consumer_any(f, a));
        }
        if pre.spec_consumer_any(f, a) && a != target {
            let j = choose|j: int|
                0 <= j < pre.rows@.len() && (#[trigger] pre.rows@[j]).is_consumer_any(f, a);
            let k = choose|k: int| 0 <= k < post.rows@.len() && post.rows@[k] == pre.rows@[j];
            assert(post.rows@[k].is_consumer_any(f, a));
        }
    }
    assert forall|f: u64, a: Seq<u8>, p: Seq<u8>|
        post.spec_consumer_from(f, a, p) == (pre.spec_consumer_from(f, a, p) && a != target) by {
        if post.spec_consumer_from(f, a, p) {
            let k = choose|k: int|
                0 <= k < post.rows@.len() && (#[trigger] post.rows@[k]).is_consumer_from(f, a, p);
            let j = choose|j: int| 0 <= j < pre.rows@.len() && pre.rows@[j] == post.rows@[k];
            assert(pre.rows@[j].is_consumer_from(f, a, p));
        }
        if pre.spec_consumer_from(f, a, p) && a != target {
            let j = choose|j: int|
                0 <= j < pre.rows@.len() && (#[trigger] pre.rows@[j]).is_consumer_from(f, a, p);
            let k = choose|k: int| 0 <= k < post.rows@.len() && post.rows@[k] == pre.rows@[j];
            assert(post.rows@[k].is_consumer_from(f, a, p));
        }
    }
    assert forall|f: u64, a: Seq<u8>|
        post.spec_is_spawner(f, a) == (pre.spec_is_spawner(f, a) && a != target) by {
        if post.spec_is_spawner(f, a) {
            let k = choose|k: int|
                0 <= k < post.rows@.len() && (#[trigger] post.rows@[k]).is_spawner(f, a);
            let j = choose|j: int| 0 <= j < pre.rows@.len() && pre.rows@[j] == post.rows@[k];
            assert(pre.rows@[j].is_spawner(f, a));
        }
        if pre.spec_is_spawner(f, a) && a != target {
            let j = choose|j: int|
                0 <= j < pre.rows@.len() && (#[trigger] pre.rows@[j]).is_spawner(f, a);
            let k = choose|k: int| 0 <= k < post.rows@.len() && post.rows@[k] == pre.rows@[j];
            assert(post.rows@[k].is_spawner(f, a));
        }
    }
    assert forall|f: u64, a: Seq<u8>, role: InheritedRole|
        post.spec_spawner_role(f, a, role) == (pre.spec_spawner_role(f, a, role) && a
            != target) by {
        if post.spec_spawner_role(f, a, role) {
            let k = choose|k: int|
                0 <= k < post.rows@.len() && (#[trigger] post.rows@[k]).is_spawner_role(
                    f,
                    a,
                    role,
                );
            let j = choose|j: int| 0 <= j < pre.rows@.len() && pre.rows@[j] == post.rows@[k];
            assert(pre.rows@[j].is_spawner_role(f, a, role));
        }
        if pre.spec_spawner_role(f, a, role) && a != target {
            let j = choose|j: int|
                0 <= j < pre.rows@.len() && (#[trigger] pre.rows@[j]).is_spawner_role(f, a, role);
            let k = choose|k: int| 0 <= k < post.rows@.len() && post.rows@[k] == pre.rows@[j];
            assert(post.rows@[k].is_spawner_role(f, a, role));
        }
    }
    assert forall|f: u64, a: Seq<u8>|
        post.spec_is_creator(f, a) == (pre.spec_is_creator(f, a) && a != target) by {
        if post.spec_is_creator(f, a) {
            let k = choose|k: int|
                0 <= k < post.rows@.len() && (#[trigger] post.rows@[k]).is_creator(f, a);
            let j = choose|j: int| 0 <= j < pre.rows@.len() && pre.rows@[j] == post.rows@[k];
            assert(pre.rows@[j].is_creator(f, a));
        }
        if pre.spec_is_creator(f, a) && a != target {
            let j = choose|j: int|
                0 <= j < pre.rows@.len() && (#[trigger] pre.rows@[j]).is_creator(f, a);
            let k = choose|k: int| 0 <= k < post.rows@.len() && post.rows@[k] == pre.rows@[j];
            assert(post.rows@[k].is_creator(f, a));
        }
    }
}

/// Pushing a row for a live flow into a fresh slot keeps the registry
/// well-formed.
proof fn lemma_push_row_wf(pre: Registry, post: Registry, r: Row)
    requires
        pre.wf(),
        post.rows@ == pre.rows@.push(r),
        post.flows@ == pre.flows@,
        post.issued@ == pre.issued@,
        post.flows@.contains(r.flow),
        forall|i: int| 0 <= i < pre.rows@.len() ==> !same_slot(#[trigger] pre.rows@[i], r),
    ensures
        post.wf(),
{
    let n = pre.rows@.len() as int;
    assert(post.rows@[n] == r);
    assert forall|i: int|
        0 <= i < post.rows@.len() implies post.flows@.contains(
        (#[trigger] post.rows@[i]).flow,
    ) by {
        if i < n {
            assert(post.rows@[i] == pre.rows@[i]);
        }
    }
    assert forall|i: int, j: int|
        0 <= i < j < post.rows@.len() implies !same_slot(
        #[trigger] post.rows@[i],
        #[trigger] post.rows@[j],
    ) by {
        if j < n {
            assert(post.rows@[i] == pre.rows@[i] && post.rows@[j] == pre.rows@[j]);
        } else {
            assert(post.rows@[i] == pre.rows@[i] && post.rows@[j] == r);
        }
    }
}

/// Relies on rand::random: draws one word from the thread-local
/// cryptographically secure generator. Nothing is promised of the value:
/// freshness of identifiers is enforced against the issued list instead.
#[verifier::external_body]
fn random_u64() -> u64 {
    rand::random::<u64>()
}

} // verus!
