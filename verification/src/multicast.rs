//! The multicast hub: one router, one subscriber endpoint per connection.
//! A packet sent by one subscriber is forwarded to every other live
//! subscriber, and to the sender itself only if it asks for that. The
//! router runs inside the accept loop, not on a thread of its own.

use crate::data_repr::extract_padded;
use vstd::prelude::*;

verus! {

/// How a broadcast send synchronizes with the router.
#[derive(Clone, Copy, PartialEq, Eq, Structural, Debug)]
pub enum MulticastSync {
    /// Fire and forget.
    NoSync,
    /// Block until the router has observed the packet, so that two
    /// dependent broadcasts from one sender cannot race at the router.
    ToRouter,
}

/// The packet sent over the multicast channels: encoded message bytes, a
/// room-scope tag (empty means global), whether the sender itself gets a
/// copy, and the synchronization mode.
#[derive(Debug)]
pub struct MulticastPacket {
    pub data: Vec<u8>,
    pub meta_data: Vec<u8>,
    pub include_self: bool,
    pub sync: MulticastSync,
}

impl MulticastPacket {
    /// A copy of this packet.
    pub fn duplicate(&self) -> (r: MulticastPacket)
        ensures
            r.data@ == self.data@,
            r.meta_data@ == self.meta_data@,
            r.include_self == self.include_self,
            r.sync == self.sync,
    {
        let data = extract_padded(self.data.as_slice(), 0, self.data.len(), self.data.len());
        let meta_data = extract_padded(
            self.meta_data.as_slice(),
            0,
            self.meta_data.len(),
            self.meta_data.len(),
        );
        proof {
            assert(data@ =~= self.data@);
            assert(meta_data@ =~= self.meta_data@);
        }
        MulticastPacket { data, meta_data, include_self: self.include_self, sync: self.sync }
    }
}

/// The router's routing decision: a packet from `sender` is forwarded to
/// `receiver` exactly when the two differ, or when the packet asks to
/// include its sender.
pub open spec fn spec_should_forward(sender: int, receiver: int, include_self: bool) -> bool {
    sender != receiver || include_self
}

/// Decide whether a packet from subscriber `sender` goes to `receiver`.
pub fn should_forward(sender: usize, receiver: usize, include_self: bool) -> (r: bool)
    ensures
        r == spec_should_forward(sender as int, receiver as int, include_self),
{
    sender != receiver || include_self
}

#[verifier::external_type_specification]
#[verifier::external_body]
#[verifier::reject_recursive_types(T)]
pub struct ExSender<T>(std::sync::mpsc::Sender<T>);

#[verifier::external_type_specification]
#[verifier::external_body]
#[verifier::reject_recursive_types(T)]
pub struct ExReceiver<T>(std::sync::mpsc::Receiver<T>);

/// Relies on std's `mpsc::channel`: an asynchronous channel whose
/// receiver yields the sent values in send order (per-sender FIFO).
#[verifier::external_body]
fn channel_pair<T>() -> (r: (std::sync::mpsc::Sender<T>, std::sync::mpsc::Receiver<T>)) {
    std::sync::mpsc::channel()
}

/// Relies on `Sender::send`: true exactly when the receiving end was
/// still alive and the value was queued.
#[verifier::external_body]
fn channel_send<T>(tx: &std::sync::mpsc::Sender<T>, value: T) -> (r: bool) {
    tx.send(value).is_ok()
}

/// What polling a channel found.
pub enum RecvOutcome<T> {
    /// A queued value.
    Item(T),
    /// Nothing queued right now.
    Empty,
    /// Nothing queued and every sender is gone.
    Closed,
}

/// Relies on `Receiver::try_recv`: non-blocking; yields a queued value,
/// or reports the channel empty or closed.
#[verifier::external_body]
fn channel_try_recv<T>(rx: &std::sync::mpsc::Receiver<T>) -> (r: RecvOutcome<T>) {
    match rx.try_recv() {
        Ok(v) => RecvOutcome::Item(v),
        Err(std::sync::mpsc::TryRecvError::Empty) => RecvOutcome::Empty,
        Err(std::sync::mpsc::TryRecvError::Disconnected) => RecvOutcome::Closed,
    }
}

/// Relies on `Receiver::recv`: blocks until a value arrives (`Some`) or
/// every sender is gone (`None`).
#[verifier::external_body]
fn channel_recv<T>(rx: &std::sync::mpsc::Receiver<T>) -> (r: Option<T>) {
    rx.recv().ok()
}

/// The router's end of one subscriber: the channel the subscriber sends
/// on, the channel the router forwards into, and the acknowledgement
/// channel for synchronized sends.
pub struct MulticastRouterSub {
    pub from_sub: std::sync::mpsc::Receiver<MulticastPacket>,
    pub to_sub: std::sync::mpsc::Sender<MulticastPacket>,
    pub ack_to_sub: std::sync::mpsc::Sender<()>,
}

/// The router: owns one endpoint per subscriber and fans broadcasts out.
pub struct MulticastRouter {
    pub subs: Vec<MulticastRouterSub>,
}

impl MulticastRouter {
    /// Create a new multicast router with no subscribers.
    pub fn new() -> (r: MulticastRouter)
        ensures
            r.subs@.len() == 0,
    {
        MulticastRouter { subs: Vec::new() }
    }

    /// Create a new multicast subscriber and connect it to this router.
    pub fn new_subscriber(&mut self) -> (r: MulticastSubscriber)
        ensures
            final(self).subs@.len() == old(self).subs@.len() + 1,
    {
        let (to_sub, from_router) = channel_pair::<MulticastPacket>();
        let (to_router, from_sub) = channel_pair::<MulticastPacket>();
        let (ack_to_sub, ack_from_router) = channel_pair::<()>();
        self.subs.push(MulticastRouterSub { from_sub, to_sub, ack_to_sub });
        MulticastSubscriber { from_router, to_router, ack_from_router }
    }

    /// Run the router main loop once: for every subscriber with a pending
    /// broadcast, acknowledge it if asked to, and forward a copy to every
    /// subscriber the routing decision selects. A subscriber whose
    /// sending channel is gone — its connection was torn down — is
    /// pruned; a failed delivery to a single subscriber is ignored and
    /// never aborts the fan-out to the rest.
    pub fn run_router(&mut self)
        ensures
            final(self).subs@.len() <= old(self).subs@.len(),
            exists|idxs: Seq<int>|
                {
                    &&& (#[trigger] idxs.len()) == final(self).subs@.len()
                    &&& (forall|a: int, b: int| 0 <= a < b < idxs.len() ==> idxs[a] < idxs[b])
                    &&& forall|k: int|
                        0 <= k < idxs.len() ==> 0 <= #[trigger] idxs[k] < old(self).subs@.len()
                            && final(self).subs@[k] == old(self).subs@[idxs[k]]
                },
    {
        let n = self.subs.len();
        let mut dead: Vec<bool> = Vec::new();
        let mut d: usize = 0;
        while d < n
            invariant
                dead@.len() == d <= n,
            decreases n - d,
        {
            dead.push(false);
            d += 1;
        }
        let mut i: usize = 0;
        while i < n
            invariant
                self.subs@.len() == n,
                self.subs == old(self).subs,
                dead@.len() == n,
            decreases n - i,
        {
            match channel_try_recv(&self.subs[i].from_sub) {
                RecvOutcome::Item(pack) => {
                    if pack.sync == MulticastSync::ToRouter {
                        let _ = channel_send(&self.subs[i].ack_to_sub, ());
                    }
                    let mut j: usize = 0;
                    while j < n
                        invariant
                            self.subs@.len() == n,
                            self.subs == old(self).subs,
                            i < n,
                        decreases n - j,
                    {
                        if should_forward(i, j, pack.include_self) {
                            let copy = pack.duplicate();
                            let _ = channel_send(&self.subs[j].to_sub, copy);
                        }
                        j += 1;
                    }
                },
                RecvOutcome::Empty => {},
                RecvOutcome::Closed => {
                    dead.set(i, true);
                },
            }
            i += 1;
        }
        let ghost subs0 = self.subs@;
        let mut kept: Vec<MulticastRouterSub> = Vec::new();
        let ghost mut idxs: Seq<int> = Seq::empty();
        let mut k: usize = 0;
        proof {
            assert(self.subs@ =~= subs0.skip(0));
        }
        while k < n
            invariant
                k <= n,
                n == subs0.len(),
                self.subs@ == subs0.skip(k as int),
                dead@.len() == n,
                kept@.len() <= k,
                idxs.len() == kept@.len(),
                forall|a: int, b: int| 0 <= a < b < idxs.len() ==> idxs[a] < idxs[b],
                forall|t: int|
                    0 <= t < idxs.len() ==> 0 <= #[trigger] idxs[t] < k && kept@[t]
                        == subs0[idxs[t]],
            decreases n - k,
        {
            let sub = self.subs.remove(0);
            proof {
                assert(subs0.skip(k as int)[0] == subs0[k as int]);
                assert(subs0.skip(k as int).skip(1) =~= subs0.skip(k as int + 1));
            }
            if !dead[k] {
                kept.push(sub);
                proof {
                    idxs = idxs.push(k as int);
                }
            }
            k += 1;
        }
        self.subs = kept;
        proof {
            assert(idxs.len() == final(self).subs@.len());
        }
    }
}

/// A connection's handle into the multicast hub: send broadcasts in, poll
/// forwarded broadcasts out. Dropping the handle closes its channels,
/// which the router observes and then prunes the subscriber.
pub struct MulticastSubscriber {
    pub from_router: std::sync::mpsc::Receiver<MulticastPacket>,
    pub to_router: std::sync::mpsc::Sender<MulticastPacket>,
    pub ack_from_router: std::sync::mpsc::Receiver<()>,
}

impl MulticastSubscriber {
    /// Send a packet to all subscribers selected by its routing fields.
    /// With `ToRouter` synchronization the call blocks until the router
    /// has observed the packet and begun routing it.
    pub fn send_broadcast(&self, pack: MulticastPacket) {
        let sync = pack.sync;
        if channel_send(&self.to_router, pack) {
            if sync == MulticastSync::ToRouter {
                let _ = channel_recv(&self.ack_from_router);
            }
        }
    }

    /// Poll for one forwarded broadcast; never blocks.
    pub fn receive(&self) -> (r: Option<MulticastPacket>) {
        match channel_try_recv(&self.from_router) {
            RecvOutcome::Item(pack) => Some(pack),
            RecvOutcome::Empty => None,
            RecvOutcome::Closed => None,
        }
    }
}

} // verus!
