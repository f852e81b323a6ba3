//! The guarantees of the flow-control rule, stated over the registry's
//! observations and proved once and for all.

use vstd::prelude::*;
use crate::registry::{Registry, same_slot};

verus! {

/// A flow that does not exist grants nothing: no address is a producer or
/// a consumer under it, and every delivery tagged with it is denied.
pub proof fn lemma_unknown_flow_grants_nothing(r: Registry, f: u64, a: Seq<u8>, b: Seq<u8>)
    requires
        r.wf(),
        !r.flow_exists(f),
    ensures
        !r.spec_is_producer(f, a),
        !r.spec_is_consumer(f, a),
        !r.spec_authorize(f, a, b),
{
    if r.spec_is_producer(f, a) {
        let i = choose|i: int| 0 <= i < r.rows@.len() && (#[trigger] r.rows@[i]).is_producer(f, a);
        assert(r.flows@.contains(r.rows@[i].flow));
    }
    if r.spec_is_consumer(f, a) {
        let i = choose|i: int| 0 <= i < r.rows@.len() && (#[trigger] r.rows@[i]).is_consumer(f, a);
        assert(r.flows@.contains(r.rows@[i].flow));
    }
}

/// An address that is not a registered producer of a flow can deliver to
/// nobody under it, whatever the receiver.
pub proof fn lemma_unregistered_sender_denied(r: Registry, f: u64, s: Seq<u8>, b: Seq<u8>)
    requires
        !r.spec_is_producer(f, s),
    ensures
        !r.spec_authorize(f, s, b),
{
    if r.spec_producer_flag(f, s, false) {
        let i = choose|i: int|
            0 <= i < r.rows@.len() && (#[trigger] r.rows@[i]).is_producer_flag(f, s, false);
        assert(r.rows@[i].is_producer(f, s));
    }
    if r.spec_producer_flag(f, s, true) {
        let i = choose|i: int|
            0 <= i < r.rows@.len() && (#[trigger] r.rows@[i]).is_producer_flag(f, s, true);
        assert(r.rows@[i].is_producer(f, s));
    }
}

/// An address that is not a registered consumer of a flow can receive from
/// nobody under it, whatever the sender.
pub proof fn lemma_unregistered_receiver_denied(r: Registry, f: u64, s: Seq<u8>, b: Seq<u8>)
    requires
        !r.spec_is_consumer(f, b),
    ensures
        !r.spec_authorize(f, s, b),
{
    if r.spec_consumer_any(f, b) {
        let i = choose|i: int|
            0 <= i < r.rows@.len() && (#[trigger] r.rows@[i]).is_consumer_any(f, b);
        assert(r.rows@[i].is_consumer(f, b));
    }
    if r.spec_consumer_from(f, b, s) {
        let i = choose|i: int|
            0 <= i < r.rows@.len() && (#[trigger] r.rows@[i]).is_consumer_from(f, b, s);
        assert(r.rows@[i].is_consumer(f, b));
    }
}

/// A consumer restricted to one producer receives from that producer and
/// from nobody else: the restriction admits `p1` and shuts out every other
/// sender, authorized producer or not.
pub proof fn lemma_origin_restricted_consumer(r: Registry, f: u64, p1: Seq<u8>, c: Seq<u8>)
    requires
        r.wf(),
        r.flow_exists(f),
        r.spec_consumer_from(f, c, p1),
        r.spec_sender_allowed(f, p1),
    ensures
        r.spec_authorize(f, p1, c),
        forall|p2: Seq<u8>| p2 != p1 ==> !r.spec_authorize(f, p2, c),
{
    let i = choose|i: int|
        0 <= i < r.rows@.len() && (#[trigger] r.rows@[i]).is_consumer_from(f, c, p1);
    assert(r.spec_receiver_allowed(f, p1, c));
    assert forall|p2: Seq<u8>| p2 != p1 implies !r.spec_authorize(f, p2, c) by {
        if r.spec_consumer_any(f, c) {
            let j = choose|j: int|
                0 <= j < r.rows@.len() && (#[trigger] r.rows@[j]).is_consumer_any(f, c);
            if i < j {
                assert(!same_slot(r.rows@[i], r.rows@[j]));
            }
            if j < i {
                assert(!same_slot(r.rows@[j], r.rows@[i]));
            }
        }
        if r.spec_consumer_from(f, c, p2) {
            let j = choose|j: int|
                0 <= j < r.rows@.len() && (#[trigger] r.rows@[j]).is_consumer_from(f, c, p2);
            if i < j {
                assert(!same_slot(r.rows@[i], r.rows@[j]));
            }
            if j < i {
                assert(!same_slot(r.rows@[j], r.rows@[i]));
            }
        }
    }
}

} // verus!
