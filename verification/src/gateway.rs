//! The consumer gateway: who receives what the hub broadcasts.
//!
//! The gateway keeps the set of connected consumers and says, for each
//! broadcast, what is to be written to whom. It does no input or output
//! itself: its caller writes the deliveries and reports connects,
//! disconnects and failed writes.

use crate::event::{Event, EventView};
use vstd::prelude::*;

verus! {

/// What the caller reports to the gateway.
#[derive(Debug, PartialEq, Eq)]
pub enum GatewayInput {
    /// A consumer connected, under this handle.
    Connected(u64),
    /// A consumer disconnected.
    Disconnected(u64),
    /// A write to a consumer failed.
    WriteFailed(u64),
    /// A consumer sent a message.
    Inbound(u64, String),
    /// The hub broadcast an event.
    Broadcast(Event),
}

/// The mathematical value of a [`GatewayInput`].
pub enum GatewayInputView {
    Connected(u64),
    Disconnected(u64),
    WriteFailed(u64),
    Inbound(u64, Seq<char>),
    Broadcast(EventView),
}

impl View for GatewayInput {
    type V = GatewayInputView;

    open spec fn view(&self) -> GatewayInputView {
        match self {
            GatewayInput::Connected(client) => GatewayInputView::Connected(*client),
            GatewayInput::Disconnected(client) => GatewayInputView::Disconnected(*client),
            GatewayInput::WriteFailed(client) => GatewayInputView::WriteFailed(*client),
            GatewayInput::Inbound(client, message) => GatewayInputView::Inbound(*client, message@),
            GatewayInput::Broadcast(event) => GatewayInputView::Broadcast(event@),
        }
    }
}

/// One event to write to one consumer.
#[derive(Debug, PartialEq, Eq)]
pub struct Delivery {
    pub client: u64,
    pub event: Event,
}

/// The mathematical value of a [`Delivery`].
pub struct DeliveryView {
    pub client: u64,
    pub event: EventView,
}

impl View for Delivery {
    type V = DeliveryView;

    open spec fn view(&self) -> DeliveryView {
        DeliveryView { client: self.client, event: self.event@ }
    }
}

/// The values of a vector of deliveries.
pub open spec fn delivery_views(deliveries: Seq<Delivery>) -> Seq<DeliveryView> {
    Seq::new(deliveries.len(), |i: int| deliveries[i]@)
}

/// The clients without `gone`, in the same order.
pub open spec fn without(clients: Seq<u64>, gone: u64) -> Seq<u64>
    decreases clients.len(),
{
    if clients.len() == 0 {
        clients
    } else if clients.last() == gone {
        without(clients.drop_last(), gone)
    } else {
        without(clients.drop_last(), gone).push(clients.last())
    }
}

/// One delivery of `event` for each client, in the order of the clients.
pub open spec fn fan_out(clients: Seq<u64>, event: EventView) -> Seq<DeliveryView> {
    Seq::new(clients.len(), |i: int| DeliveryView { client: clients[i], event })
}

/// The clients after `input`, and the deliveries that it causes.
///
/// A consumer that connects joins the clients, once. One that disconnects,
/// or to which a write failed, leaves them. A broadcast is delivered to each
/// client as it is. A message from a consumer changes nothing.
pub open spec fn gateway_step(clients: Seq<u64>, input: GatewayInputView) -> (
    Seq<u64>,
    Seq<DeliveryView>,
) {
    match input {
        GatewayInputView::Connected(client) => (
            if clients.contains(client) {
                clients
            } else {
                clients.push(client)
            },
            Seq::<DeliveryView>::empty(),
        ),
        GatewayInputView::Disconnected(client) => (
            without(clients, client),
            Seq::<DeliveryView>::empty(),
        ),
        GatewayInputView::WriteFailed(client) => (
            without(clients, client),
            Seq::<DeliveryView>::empty(),
        ),
        GatewayInputView::Inbound(_, _) => (clients, Seq::<DeliveryView>::empty()),
        GatewayInputView::Broadcast(event) => (clients, fan_out(clients, event)),
    }
}

/// The consumers that are connected, in the order in which they connected.
#[derive(Debug, PartialEq, Eq)]
pub struct ConsumerGateway {
    clients: Vec<u64>,
}

impl View for ConsumerGateway {
    type V = Seq<u64>;

    closed spec fn view(&self) -> Seq<u64> {
        self.clients@
    }
}

impl ConsumerGateway {
    /// A gateway without consumers.
    pub fn new() -> (gateway: ConsumerGateway)
        ensures
            gateway@ == Seq::<u64>::empty(),
    {
        ConsumerGateway { clients: Vec::new() }
    }

    /// The number of connected consumers.
    pub fn client_count(&self) -> (n: usize)
        ensures
            n == self@.len(),
    {
        self.clients.len()
    }

    /// Whether `client` is connected.
    pub fn is_connected(&self, client: u64) -> (r: bool)
        ensures
            r == self@.contains(client),
    {
        let mut i: usize = 0;
        while i < self.clients.len()
            invariant
                i <= self.clients@.len(),
                forall|k: int| 0 <= k < i ==> self.clients@[k] != client,
            decreases self.clients@.len() - i,
        {
            if self.clients[i] == client {
                return true;
            }
            i = i + 1;
        }
        false
    }

    /// Removes `client` from the connected consumers.
    fn remove(&mut self, client: u64)
        ensures
            final(self)@ == without(old(self)@, client),
    {
        let mut kept: Vec<u64> = Vec::new();
        let mut i: usize = 0;
        while i < self.clients.len()
            invariant
                i <= self.clients@.len(),
                kept@ == without(self.clients@.take(i as int), client),
            decreases self.clients@.len() - i,
        {
            assert(self.clients@.take(i + 1).drop_last() =~= self.clients@.take(i as int));
            if self.clients[i] != client {
                kept.push(self.clients[i]);
            }
            i = i + 1;
        }
        assert(self.clients@.take(i as int) =~= self.clients@);
        self.clients = kept;
    }

    /// Takes one input and returns what is to be written to whom.
    pub fn step(&mut self, input: GatewayInput) -> (deliveries: Vec<Delivery>)
        ensures
            (final(self)@, delivery_views(deliveries@)) == gateway_step(old(self)@, input@),
    {
        let mut deliveries: Vec<Delivery> = Vec::new();
        assert(delivery_views(deliveries@) =~= Seq::<DeliveryView>::empty());
        match input {
            GatewayInput::Connected(client) => {
                if !self.is_connected(client) {
                    self.clients.push(client);
                }
            },
            GatewayInput::Disconnected(client) => {
                self.remove(client);
            },
            GatewayInput::WriteFailed(client) => {
                self.remove(client);
            },
            GatewayInput::Inbound(_, _) => {},
            GatewayInput::Broadcast(event) => {
                let mut i: usize = 0;
                while i < self.clients.len()
                    invariant
                        i <= self.clients@.len(),
                        delivery_views(deliveries@) == fan_out(self.clients@, event@).take(
                            i as int,
                        ),
                    decreases self.clients@.len() - i,
                {
                    let ghost before = delivery_views(deliveries@);
                    deliveries.push(Delivery { client: self.clients[i], event: event.duplicate() });
                    assert(delivery_views(deliveries@) =~= before.push(
                        DeliveryView { client: self.clients@[i as int], event: event@ },
                    ));
                    assert(fan_out(self.clients@, event@).take(i + 1) =~= fan_out(
                        self.clients@,
                        event@,
                    ).take(i as int).push(
                        DeliveryView { client: self.clients@[i as int], event: event@ },
                    ));
                    i = i + 1;
                }
                assert(fan_out(self.clients@, event@).take(i as int) =~= fan_out(
                    self.clients@,
                    event@,
                ));
            },
        }
        deliveries
    }
}

/// What `without` keeps: every client but `gone`, and nothing else.
pub proof fn lemma_without(clients: Seq<u64>, gone: u64)
    ensures
        !without(clients, gone).contains(gone),
        forall|c: u64|
            c != gone ==> (#[trigger] without(clients, gone).contains(c) <==> clients.contains(c)),
        clients.no_duplicates() ==> without(clients, gone).no_duplicates(),
        without(clients, gone).len() <= clients.len(),
    decreases clients.len(),
{
    if clients.len() > 0 {
        let init = clients.drop_last();
        let last = clients.last();
        lemma_without(init, gone);
        let kept = without(init, gone);
        assert forall|c: u64| c != gone implies (#[trigger] without(clients, gone).contains(c)
            <==> clients.contains(c)) by {
            assert(kept.contains(c) <==> init.contains(c));
            if clients.contains(c) {
                let i = choose|i: int| 0 <= i < clients.len() && clients[i] == c;
                if i < init.len() {
                    assert(init[i] == c);
                    assert(init.contains(c));
                    assert(kept.contains(c));
                    let k = choose|k: int| 0 <= k < kept.len() && kept[k] == c;
                    assert(without(clients, gone)[k] == c);
                } else {
                    assert(without(clients, gone).last() == c);
                }
            }
            if without(clients, gone).contains(c) {
                let k = choose|k: int|
                    0 <= k < without(clients, gone).len() && without(clients, gone)[k] == c;
                if k < kept.len() {
                    assert(kept[k] == c);
                    assert(kept.contains(c));
                    assert(init.contains(c));
                    let i = choose|i: int| 0 <= i < init.len() && init[i] == c;
                    assert(clients[i] == c);
                } else {
                    assert(clients[clients.len() - 1] == c);
                }
            }
        }
        if without(clients, gone).contains(gone) {
            let k = choose|k: int|
                0 <= k < without(clients, gone).len() && without(clients, gone)[k] == gone;
            if k < kept.len() {
                assert(kept[k] == gone);
                assert(kept.contains(gone));
            }
        }
        if clients.no_duplicates() && last != gone {
            assert forall|i: int, j: int|
                0 <= i < kept.len() + 1 && 0 <= j < kept.len() + 1 && i != j implies kept.push(
                last,
            )[i] != kept.push(last)[j] by {
                if i < kept.len() && j < kept.len() {
                } else {
                    let other = if i < kept.len() { i } else { j };
                    assert(kept.contains(kept[other]));
                    if kept[other] == last {
                        assert(init.contains(last));
                        let m = choose|m: int| 0 <= m < init.len() && init[m] == last;
                        assert(clients[m] == clients[clients.len() - 1]);
                    }
                }
            }
        }
    }
}

/// No consumer is connected twice, whatever the gateway is told.
pub proof fn law_clients_stay_distinct(clients: Seq<u64>, input: GatewayInputView)
    requires
        clients.no_duplicates(),
    ensures
        gateway_step(clients, input).0.no_duplicates(),
{
    match input {
        GatewayInputView::Connected(client) => {},
        GatewayInputView::Disconnected(client) => {
            lemma_without(clients, client);
        },
        GatewayInputView::WriteFailed(client) => {
            lemma_without(clients, client);
        },
        _ => {},
    }
}

/// A broadcast reaches every connected consumer, as it was published and
/// once each; a consumer to which a write failed receives nothing from then
/// on.
pub proof fn law_broadcast_reaches_every_client(
    clients: Seq<u64>,
    event: EventView,
    failed: u64,
)
    requires
        clients.no_duplicates(),
    ensures
        gateway_step(clients, GatewayInputView::Broadcast(event)).0 == clients,
        gateway_step(clients, GatewayInputView::Broadcast(event)).1.len() == clients.len(),
        forall|i: int|
            0 <= i < clients.len() ==> #[trigger] gateway_step(
                clients,
                GatewayInputView::Broadcast(event),
            ).1[i] == (DeliveryView { client: clients[i], event }),
        forall|i: int|
            0 <= i < gateway_step(
                gateway_step(clients, GatewayInputView::WriteFailed(failed)).0,
                GatewayInputView::Broadcast(event),
            ).1.len() ==> (#[trigger] gateway_step(
                gateway_step(clients, GatewayInputView::WriteFailed(failed)).0,
                GatewayInputView::Broadcast(event),
            ).1[i]).client != failed,
{
    lemma_without(clients, failed);
    let remaining = without(clients, failed);
    assert forall|i: int| 0 <= i < remaining.len() implies remaining[i] != failed by {
        if remaining[i] == failed {
            assert(remaining.contains(failed));
        }
    }
}

} // verus!
