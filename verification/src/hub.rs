//! The broadcast hub: turns one event into one encoded buffer and the list
//! of connections to write it to. The caller takes events off the queue in
//! the order they were published, asks the hub, and performs the writes.

use vstd::prelude::*;
use crate::event::{AddressView, Event, EventAddress};
use crate::registry::Registry;
use crate::write::{encode_event, encoded};

verus! {

/// Where a buffer goes: the connections to write to, in order, and the
/// addressed identifiers that are not registered.
#[derive(Clone, Debug, PartialEq, Eq)]
pub struct Delivery {
    pub targets: Vec<u128>,
    pub misses: Vec<u128>,
}

/// One fan-out: the buffer, encoded once, and where it goes.
#[derive(Clone, Debug, PartialEq, Eq)]
pub struct Dispatch {
    pub buffer: Vec<u8>,
    pub delivery: Delivery,
}

/// Why the hub stops.
#[derive(Clone, Copy, Debug, PartialEq, Eq, Structural)]
pub enum HubError {
    /// Every producer of the event queue is gone.
    QueueClosed,
}

/// Whether `targets` and `misses` are the delivery of `address` over the
/// registered identifiers. To all: every registered identifier exactly
/// once, in any order, and no miss. To one client: that client if it is
/// registered, else a miss. To a range: the registered identifiers of the
/// list in list order, and the others as misses in list order.
pub open spec fn routed(
    registered: Set<u128>,
    address: AddressView,
    targets: Seq<u128>,
    misses: Seq<u128>,
) -> bool {
    match address {
        AddressView::All => {
            &&& targets.no_duplicates()
            &&& targets.to_set() == registered
            &&& misses == Seq::<u128>::empty()
        },
        AddressView::Client(id) => if registered.contains(id) {
            targets == seq![id] && misses == Seq::<u128>::empty()
        } else {
            targets == Seq::<u128>::empty() && misses == seq![id]
        },
        AddressView::ClientRange(ids) => {
            &&& targets == ids.filter(|id: u128| registered.contains(id))
            &&& misses == ids.filter(|id: u128| !registered.contains(id))
        },
    }
}

/// A delivery to all reaches as many connections as are registered, and
/// each of them exactly once.
pub proof fn lemma_all_reaches_each_once(
    registered: Set<u128>,
    targets: Seq<u128>,
    misses: Seq<u128>,
)
    requires
        routed(registered, AddressView::All, targets, misses),
    ensures
        targets.len() == registered.len(),
        misses.len() == 0,
        forall|id: u128| registered.contains(id) <==> targets.contains(id),
        forall|i: int, j: int|
            0 <= i < targets.len() && 0 <= j < targets.len() && targets[i] == targets[j] ==> i
                == j,
{
    targets.unique_seq_to_set();
    assert forall|id: u128| registered.contains(id) <==> targets.contains(id) by {
        assert(targets.to_set().contains(id) <==> targets.contains(id));
    }
}

/// A delivery to one client that is not registered writes to nobody and is
/// recorded as one miss, whatever else is registered.
pub proof fn lemma_absent_client_is_a_miss(
    registered: Set<u128>,
    id: u128,
    targets: Seq<u128>,
    misses: Seq<u128>,
)
    requires
        !registered.contains(id),
        routed(registered, AddressView::Client(id), targets, misses),
    ensures
        targets.len() == 0,
        misses == seq![id],
{
}

/// A delivery to a range writes only to registered connections, misses only
/// unregistered ones, and accounts for every identifier of the list.
pub proof fn lemma_range_is_split(
    registered: Set<u128>,
    ids: Seq<u128>,
    targets: Seq<u128>,
    misses: Seq<u128>,
)
    requires
        routed(registered, AddressView::ClientRange(ids), targets, misses),
    ensures
        forall|i: int| 0 <= i < targets.len() ==> registered.contains(#[trigger] targets[i]),
        forall|i: int| 0 <= i < misses.len() ==> !registered.contains(#[trigger] misses[i]),
        targets.len() + misses.len() == ids.len(),
    decreases ids.len(),
{
    let present = |id: u128| registered.contains(id);
    let absent = |id: u128| !registered.contains(id);
    broadcast use vstd::seq_lib::group_filter_ensures;

    reveal(Seq::filter);
    if ids.len() > 0 {
        let head = ids.drop_last();
        lemma_range_is_split(registered, head, head.filter(present), head.filter(absent));
    }
}

proof fn lemma_filter_step(ids: Seq<u128>, i: int, keep: spec_fn(u128) -> bool)
    requires
        0 <= i < ids.len(),
    ensures
        ids.take(i + 1).filter(keep) == if keep(ids[i]) {
            ids.take(i).filter(keep).push(ids[i])
        } else {
            ids.take(i).filter(keep)
        },
{
    reveal(Seq::filter);
    assert(ids.take(i + 1).drop_last() =~= ids.take(i));
}

/// Resolves an address against the registry. Nothing is written and the
/// registry is not changed; an identifier that is not registered is a miss,
/// not an error.
pub fn broadcast_buffer<S>(clients: &Registry<S>, address: &EventAddress) -> (delivery: Delivery)
    requires
        clients.wf(),
    ensures
        routed(clients@.dom(), address@, delivery.targets@, delivery.misses@),
{
    match address {
        EventAddress::All => Delivery { targets: clients.ids(), misses: Vec::new() },
        EventAddress::Client(id) => {
            let mut targets: Vec<u128> = Vec::new();
            let mut misses: Vec<u128> = Vec::new();
            if clients.contains(*id) {
                targets.push(*id);
                assert(targets@ =~= seq![*id]);
            } else {
                misses.push(*id);
                assert(misses@ =~= seq![*id]);
            }
            Delivery { targets, misses }
        },
        EventAddress::ClientRange(ids) => {
            let ghost present = |id: u128| clients@.dom().contains(id);
            let ghost absent = |id: u128| !clients@.dom().contains(id);
            let mut targets: Vec<u128> = Vec::new();
            let mut misses: Vec<u128> = Vec::new();
            let mut i: usize = 0;
            proof {
                reveal(Seq::filter);
                assert(ids@.take(0) =~= Seq::<u128>::empty());
            }
            while i < ids.len()
                invariant
                    i <= ids@.len(),
                    clients.wf(),
                    present == |id: u128| clients@.dom().contains(id),
                    absent == |id: u128| !clients@.dom().contains(id),
                    targets@ == ids@.take(i as int).filter(present),
                    misses@ == ids@.take(i as int).filter(absent),
                decreases ids@.len() - i,
            {
                let id: u128 = ids[i];
                proof {
                    lemma_filter_step(ids@, i as int, present);
                    lemma_filter_step(ids@, i as int, absent);
                }
                if clients.contains(id) {
                    targets.push(id);
                } else {
                    misses.push(id);
                }
                i += 1;
            }
            assert(ids@.take(i as int) =~= ids@);
            Delivery { targets, misses }
        },
    }
}

/// One step of the hub: encodes the event once, by its kind, and resolves
/// its address against the registry as it stands.
pub fn broadcast<S>(event: &Event, clients: &Registry<S>) -> (dispatch: Dispatch)
    requires
        clients.wf(),
    ensures
        dispatch.buffer@ == encoded(event.kind, event.payload@),
        routed(
            clients@.dom(),
            event.address@,
            dispatch.delivery.targets@,
            dispatch.delivery.misses@,
        ),
{
    let buffer = encode_event(event.kind, event.payload.as_slice());
    let delivery = broadcast_buffer(clients, &event.address);
    Dispatch { buffer, delivery }
}

/// What the hub does with what the queue hands it: an event is fanned out
/// as [`broadcast`] says; the end of the queue stops the hub for good.
pub fn on_queue<S>(next: Option<&Event>, clients: &Registry<S>) -> (step: Result<
    Dispatch,
    HubError,
>)
    requires
        clients.wf(),
    ensures
        match (next, step) {
            (Some(event), Ok(dispatch)) => {
                &&& dispatch.buffer@ == encoded(event.kind, event.payload@)
                &&& routed(
                    clients@.dom(),
                    event.address@,
                    dispatch.delivery.targets@,
                    dispatch.delivery.misses@,
                )
            },
            (None, Err(error)) => error == HubError::QueueClosed,
            _ => false,
        },
{
    match next {
        Some(event) => Ok(broadcast(event, clients)),
        None => Err(HubError::QueueClosed),
    }
}

} // verus!
