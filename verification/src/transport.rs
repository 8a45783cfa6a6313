//! Transport model of the named message channels.
//!
//! Two shapes of channel carry the protocol: a duplex one for commands,
//! whose single primitive is `transact` — write the request as one message,
//! then take exactly one reply — and an inbound one that streams status
//! messages from the worker to the requester.  A channel is created under a
//! fresh name by one side, the server; the other side then opens it by
//! name.  The `ChannelTable` here is the in-memory model of those
//! endpoints: creation is first-instance-only, opening fails before the
//! server has created the endpoint or after a peer took it, each direction
//! delivers its messages in order without loss, and a closed peer reads as
//! a clean end of stream, not an error.  What the model leaves out is time:
//! a real read blocks until the next message, the model answers `Pending`.
//!
//! The request/reply pairing of `transact` is stated on `EchoTransport`, a
//! duplex connection whose in-memory peer answers every request with a
//! deterministic transform of it: one call, one request sent, one reply
//! received, and that reply answers that request.

use vstd::prelude::*;
use vstd::slice::slice_to_vec;

verus! {

/// Tag the echo peer puts in front of every reply.
pub const ECHO_TAG: u8 = 0xA5;

/// The deterministic transform the echo peer applies to a request.
pub open spec fn echo_reply(request: Seq<u8>) -> Seq<u8> {
    seq![ECHO_TAG] + request
}

/// A duplex connection to an in-memory peer that echoes a transform of
/// every request.  Both directions of the traffic are kept, so the pairing
/// of requests and replies is part of the connection's invariant.
#[derive(Debug)]
pub struct EchoTransport {
    pub requests: Vec<Vec<u8>>,
    pub replies: Vec<Vec<u8>>,
}

impl EchoTransport {
    /// Pairing invariant: one reply per request, in order, and each reply
    /// is the transform of the request it answers.
    pub open spec fn wf(self) -> bool {
        &&& self.replies@.len() == self.requests@.len()
        &&& forall|i: int|
            0 <= i < self.requests@.len() ==> (#[trigger] self.replies@[i])@ == echo_reply(
                self.requests@[i]@,
            )
    }

    /// A fresh connection with no traffic yet.
    pub fn new() -> (t: EchoTransport)
        ensures
            t.wf(),
            t.requests@.len() == 0,
            t.replies@.len() == 0,
    {
        EchoTransport { requests: Vec::new(), replies: Vec::new() }
    }

    /// Send one request and receive exactly one reply: the request goes out
    /// whole, exactly one reply comes back, and it is the peer's transform
    /// of this very request — never more, never fewer, never another's.
    pub fn transact(&mut self, request: &[u8]) -> (reply: Vec<u8>)
        requires
            old(self).wf(),
        ensures
            final(self).wf(),
            final(self).requests@.len() == old(self).requests@.len() + 1,
            final(self).replies@.len() == old(self).replies@.len() + 1,
            forall|i: int|
                0 <= i < old(self).requests@.len() ==> final(self).requests@[i] == old(
                    self,
                ).requests@[i] && final(self).replies@[i] == old(self).replies@[i],
            final(self).requests@.last()@ == request@,
            final(self).replies@.last()@ == reply@,
            reply@ == echo_reply(request@),
    {
        let sent = slice_to_vec(request);
        let mut reply: Vec<u8> = Vec::new();
        reply.push(ECHO_TAG);
        reply.extend_from_slice(request);
        proof {
            assert(reply@ =~= echo_reply(request@));
        }
        let kept = slice_to_vec(reply.as_slice());
        self.requests.push(sent);
        self.replies.push(kept);
        reply
    }
}

// ---------------------------------------------------------------------------
// Named channel endpoints
// ---------------------------------------------------------------------------

/// A transport operation failed.
#[derive(Clone, Copy, PartialEq, Eq, Structural, Debug)]
pub enum TransportError {
    /// Creation failed: an endpoint with this name already exists.
    AlreadyExists,
    /// No endpoint with this name exists.
    NotFound,
    /// Opening failed: a peer already took the endpoint's one connection.
    AlreadyConnected,
    /// Reading or writing failed: this side never connected, or closed.
    NotConnected,
}

/// What a read found.
#[derive(Debug, PartialEq, Eq)]
pub enum ReadOutcome {
    /// The oldest message not yet read.
    Message(Vec<u8>),
    /// The peer closed and every message was read: a clean end of stream.
    EndOfStream,
    /// No message yet, but the peer may still write: a real read blocks
    /// here until one arrives.
    Pending,
}

/// One named channel: a rendezvous flag and one message queue per
/// direction.
#[derive(Debug)]
pub struct Channel {
    pub name: Vec<u8>,
    /// A client opened the endpoint.
    pub connected: bool,
    /// The creating side still holds its end.
    pub server_open: bool,
    /// The opening side still holds its end.
    pub client_open: bool,
    /// Messages written by the client, not yet read by the server.
    pub to_server: Vec<Vec<u8>>,
    /// Messages written by the server, not yet read by the client.
    pub to_client: Vec<Vec<u8>>,
}

/// Mathematical image of a `Channel`.
#[verifier::ext_equal]
pub struct ChannelV {
    pub name: Seq<u8>,
    pub connected: bool,
    pub server_open: bool,
    pub client_open: bool,
    pub to_server: Seq<Seq<u8>>,
    pub to_client: Seq<Seq<u8>>,
}

impl View for Channel {
    type V = ChannelV;

    open spec fn view(&self) -> ChannelV {
        ChannelV {
            name: self.name@,
            connected: self.connected,
            server_open: self.server_open,
            client_open: self.client_open,
            to_server: self.to_server@.map_values(|m: Vec<u8>| m@),
            to_client: self.to_client@.map_values(|m: Vec<u8>| m@),
        }
    }
}

/// What a channel looks like right after its server created it.
pub open spec fn is_fresh_channel(c: ChannelV, name: Seq<u8>) -> bool {
    &&& c.name == name
    &&& !c.connected
    &&& c.server_open
    &&& !c.client_open
    &&& c.to_server == Seq::<Seq<u8>>::empty()
    &&& c.to_client == Seq::<Seq<u8>>::empty()
}

fn bytes_equal(a: &Vec<u8>, b: &Vec<u8>) -> (r: bool)
    ensures
        r == (a@ == b@),
{
    if a.len() != b.len() {
        return false;
    }
    let mut i: usize = 0;
    while i < a.len()
        invariant
            i <= a.len(),
            a@.len() == b@.len(),
            forall|j: int| 0 <= j < i ==> a@[j] == b@[j],
        decreases a@.len() - i,
    {
        if a[i] != b[i] {
            return false;
        }
        i = i + 1;
    }
    proof {
        assert(a@ =~= b@);
    }
    true
}

/// The table of live named channels.
#[derive(Debug)]
pub struct ChannelTable {
    pub channels: Vec<Channel>,
}

impl ChannelTable {
    /// Well-formedness: channel names are pairwise distinct.
    pub open spec fn wf(self) -> bool {
        forall|i: int, j: int|
            0 <= i < j < self.channels@.len() ==> (#[trigger] self.channels@[i])@.name != (
            #[trigger] self.channels@[j])@.name
    }

    /// Some channel with this name is in the table.
    pub open spec fn has_channel(self, name: Seq<u8>) -> bool {
        exists|i: int| 0 <= i < self.channels@.len() && (#[trigger] self.channels@[i])@.name == name
    }

    /// Index of the channel with this name.
    pub open spec fn channel_index(self, name: Seq<u8>) -> int {
        choose|i: int|
            0 <= i < self.channels@.len() && (#[trigger] self.channels@[i])@.name == name
    }

    /// The channel with this name.
    pub open spec fn channel_at(self, name: Seq<u8>) -> Channel {
        self.channels@[self.channel_index(name)]
    }

    proof fn lemma_index_unique(self, i: int, name: Seq<u8>)
        requires
            self.wf(),
            0 <= i < self.channels@.len(),
            self.channels@[i]@.name == name,
        ensures
            self.has_channel(name),
            self.channel_index(name) == i,
            self.channel_at(name) == self.channels@[i],
    {
        assert(self.has_channel(name));
        let j = self.channel_index(name);
        assert(0 <= j < self.channels@.len() && self.channels@[j]@.name == name);
        if i != j {
            assert(self.channels@[i]@.name != self.channels@[j]@.name);
        }
    }

    /// After replacing the channel at `i` by one with the same name, the
    /// table still holds the same channels under the same names, except
    /// that one.
    proof fn lemma_update_frame(pre: ChannelTable, post: ChannelTable, i: int, c2: Channel)
        requires
            pre.wf(),
            0 <= i < pre.channels@.len(),
            post.channels@ == pre.channels@.update(i, c2),
            c2@.name == pre.channels@[i]@.name,
        ensures
            post.wf(),
            forall|n: Seq<u8>| post.has_channel(n) == pre.has_channel(n),
            forall|n: Seq<u8>|
                n != c2@.name && pre.has_channel(n) ==> post.channel_at(n) == pre.channel_at(n),
            pre.channel_index(c2@.name) == i,
            pre.channel_at(c2@.name) == pre.channels@[i],
            post.has_channel(c2@.name),
            post.channel_at(c2@.name) == c2,
    {
        assert(forall|k: int|
            0 <= k < post.channels@.len() ==> (#[trigger] post.channels@[k])@.name
                == pre.channels@[k]@.name);
        assert(post.wf());
        assert forall|n: Seq<u8>| post.has_channel(n) == pre.has_channel(n) by {
            if pre.has_channel(n) {
                let k = pre.channel_index(n);
                assert(post.channels@[k]@.name == n);
                assert(post.has_channel(n));
            }
            if post.has_channel(n) {
                let k = choose|k: int|
                    0 <= k < post.channels@.len() && (#[trigger] post.channels@[k])@.name == n;
                assert(pre.channels@[k]@.name == n);
                assert(pre.has_channel(n));
            }
        }
        pre.lemma_index_unique(i, c2@.name);
        post.lemma_index_unique(i, c2@.name);
        assert forall|n: Seq<u8>|
            n != c2@.name && pre.has_channel(n) implies post.channel_at(n) == pre.channel_at(
            n,
        ) by {
            let k = pre.channel_index(n);
            assert(0 <= k < pre.channels@.len() && pre.channels@[k]@.name == n);
            assert(k != i);
            post.lemma_index_unique(k, n);
        }
    }

    /// A table holding no channels.
    pub fn new() -> (t: ChannelTable)
        ensures
            t.wf(),
            t.channels@.len() == 0,
    {
        ChannelTable { channels: Vec::new() }
    }

    fn find_index(&self, name: &Vec<u8>) -> (r: Option<usize>)
        requires
            self.wf(),
        ensures
            match r {
                Some(i) => i < self.channels@.len() && self.channels@[i as int]@.name == name@
                    && self.has_channel(name@) && self.channel_index(name@) == i,
                None => !self.has_channel(name@),
            },
    {
        let mut i: usize = 0;
        while i < self.channels.len()
            invariant
                self.wf(),
                i <= self.channels@.len(),
                forall|k: int| 0 <= k < i ==> (#[trigger] self.channels@[k])@.name != name@,
            decreases self.channels@.len() - i,
        {
            if bytes_equal(&self.channels[i].name, name) {
                proof {
                    self.lemma_index_unique(i as int, name@);
                }
                return Some(i);
            }
            i = i + 1;
        }
        None
    }

    /// Create the server side of a channel.  First-instance-only: creation
    /// fails exactly when the name is already taken.
    pub fn create(&mut self, name: Vec<u8>) -> (r: Result<(), TransportError>)
        requires
            old(self).wf(),
        ensures
            final(self).wf(),
            forall|n: Seq<u8>|
                n != name@ ==> final(self).has_channel(n) == old(self).has_channel(n),
            forall|n: Seq<u8>|
                n != name@ && old(self).has_channel(n) ==> final(self).channel_at(n) == old(
                    self,
                ).channel_at(n),
            !old(self).has_channel(name@) ==> r is Ok && final(self).has_channel(name@)
                && is_fresh_channel(final(self).channel_at(name@)@, name@),
            old(self).has_channel(name@) ==> r == Err::<(), _>(TransportError::AlreadyExists)
                && *final(self) == *old(self),
    {
        match self.find_index(&name) {
            Some(_) => Err(TransportError::AlreadyExists),
            None => {
                let ghost pre = *self;
                let channel = Channel {
                    name,
                    connected: false,
                    server_open: true,
                    client_open: false,
                    to_server: Vec::new(),
                    to_client: Vec::new(),
                };
                let ghost cname = channel@.name;
                proof {
                    assert(channel@.to_server =~= Seq::<Seq<u8>>::empty());
                    assert(channel@.to_client =~= Seq::<Seq<u8>>::empty());
                }
                self.channels.push(channel);
                proof {
                    let n = pre.channels@.len() as int;
                    assert(self.channels@[n]@.name == cname);
                    assert(forall|k: int|
                        0 <= k < n ==> (#[trigger] pre.channels@[k])@.name != cname);
                    self.lemma_index_unique(n, cname);
                    assert(self.wf());
                    assert forall|nm: Seq<u8>| nm != cname implies self.has_channel(nm)
                        == pre.has_channel(nm) by {
                        if pre.has_channel(nm) {
                            let k = pre.channel_index(nm);
                            assert(self.channels@[k]@.name == nm);
                        }
                        if self.has_channel(nm) {
                            let k = choose|k: int|
                                0 <= k < self.channels@.len() && (
                                #[trigger] self.channels@[k])@.name == nm;
                            assert(k != n);
                            assert(pre.channels@[k]@.name == nm);
                        }
                    }
                    assert forall|nm: Seq<u8>|
                        nm != cname && pre.has_channel(nm) implies self.channel_at(nm)
                        == pre.channel_at(nm) by {
                        let k = pre.channel_index(nm);
                        assert(0 <= k < pre.channels@.len() && pre.channels@[k]@.name == nm);
                        self.lemma_index_unique(k, nm);
                    }
                }
                Ok(())
            },
        }
    }

    /// Open the client side of a channel by name.  Fails when the server
    /// has not created the endpoint — the rendezvous order is create first,
    /// open second — and when a peer already took its one connection.
    pub fn open(&mut self, name: &Vec<u8>) -> (r: Result<(), TransportError>)
        requires
            old(self).wf(),
        ensures
            final(self).wf(),
            forall|n: Seq<u8>| final(self).has_channel(n) == old(self).has_channel(n),
            forall|n: Seq<u8>|
                n != name@ && old(self).has_channel(n) ==> final(self).channel_at(n) == old(
                    self,
                ).channel_at(n),
            !old(self).has_channel(name@) ==> r == Err::<(), _>(TransportError::NotFound)
                && *final(self) == *old(self),
            old(self).has_channel(name@) && old(self).channel_at(name@)@.connected ==> r == Err::<
                (),
                _,
            >(TransportError::AlreadyConnected) && *final(self) == *old(self),
            old(self).has_channel(name@) && !old(self).channel_at(name@)@.connected ==> r is Ok
                && final(self).channel_at(name@)@ == (ChannelV {
                connected: true,
                client_open: true,
                ..old(self).channel_at(name@)@
            }),
    {
        match self.find_index(name) {
            None => Err(TransportError::NotFound),
            Some(i) => {
                proof {
                    self.lemma_index_unique(i as int, name@);
                }
                if self.channels[i].connected {
                    return Err(TransportError::AlreadyConnected);
                }
                let ghost pre = *self;
                let mut c = self.channels.remove(i);
                c.connected = true;
                c.client_open = true;
                self.channels.insert(i, c);
                proof {
                    assert(self.channels@ =~= pre.channels@.update(i as int, self.channels@[i as int]));
                    Self::lemma_update_frame(pre, *self, i as int, self.channels@[i as int]);
                }
                Ok(())
            },
        }
    }

    /// Whether a peer has opened the channel: the condition on which the
    /// server's blocking accept unblocks.
    pub fn is_connected(&self, name: &Vec<u8>) -> (r: Result<bool, TransportError>)
        requires
            self.wf(),
        ensures
            self.has_channel(name@) ==> r == Ok::<_, TransportError>(
                self.channel_at(name@)@.connected,
            ),
            !self.has_channel(name@) ==> r == Err::<bool, _>(TransportError::NotFound),
    {
        match self.find_index(name) {
            None => Err(TransportError::NotFound),
            Some(i) => {
                proof {
                    self.lemma_index_unique(i as int, name@);
                }
                Ok(self.channels[i].connected)
            },
        }
    }

    /// Write one message from the client side.
    pub fn client_write(&mut self, name: &Vec<u8>, message: Vec<u8>) -> (r: Result<
        (),
        TransportError,
    >)
        requires
            old(self).wf(),
        ensures
            final(self).wf(),
            forall|n: Seq<u8>| final(self).has_channel(n) == old(self).has_channel(n),
            forall|n: Seq<u8>|
                n != name@ && old(self).has_channel(n) ==> final(self).channel_at(n) == old(
                    self,
                ).channel_at(n),
            !old(self).has_channel(name@) ==> r == Err::<(), _>(TransportError::NotFound)
                && *final(self) == *old(self),
            old(self).has_channel(name@) && !(old(self).channel_at(name@)@.connected && old(
                self,
            ).channel_at(name@)@.client_open) ==> r == Err::<(), _>(TransportError::NotConnected)
                && *final(self) == *old(self),
            old(self).has_channel(name@) && old(self).channel_at(name@)@.connected && old(
                self,
            ).channel_at(name@)@.client_open ==> r is Ok && final(self).channel_at(name@)@
                == (ChannelV {
                to_server: old(self).channel_at(name@)@.to_server.push(message@),
                ..old(self).channel_at(name@)@
            }),
    {
        match self.find_index(name) {
            None => Err(TransportError::NotFound),
            Some(i) => {
                proof {
                    self.lemma_index_unique(i as int, name@);
                }
                if !(self.channels[i].connected && self.channels[i].client_open) {
                    return Err(TransportError::NotConnected);
                }
                let ghost pre = *self;
                let mut c = self.channels.remove(i);
                let ghost c0 = c;
                c.to_server.push(message);
                proof {
                    assert(c@.to_server =~= c0@.to_server.push(message@));
                }
                self.channels.insert(i, c);
                proof {
                    assert(self.channels@ =~= pre.channels@.update(i as int, self.channels@[i as int]));
                    Self::lemma_update_frame(pre, *self, i as int, self.channels@[i as int]);
                }
                Ok(())
            },
        }
    }

    /// Write one message from the server side.
    pub fn server_write(&mut self, name: &Vec<u8>, message: Vec<u8>) -> (r: Result<
        (),
        TransportError,
    >)
        requires
            old(self).wf(),
        ensures
            final(self).wf(),
            forall|n: Seq<u8>| final(self).has_channel(n) == old(self).has_channel(n),
            forall|n: Seq<u8>|
                n != name@ && old(self).has_channel(n) ==> final(self).channel_at(n) == old(
                    self,
                ).channel_at(n),
            !old(self).has_channel(name@) ==> r == Err::<(), _>(TransportError::NotFound)
                && *final(self) == *old(self),
            old(self).has_channel(name@) && !(old(self).channel_at(name@)@.connected && old(
                self,
            ).channel_at(name@)@.server_open) ==> r == Err::<(), _>(TransportError::NotConnected)
                && *final(self) == *old(self),
            old(self).has_channel(name@) && old(self).channel_at(name@)@.connected && old(
                self,
            ).channel_at(name@)@.server_open ==> r is Ok && final(self).channel_at(name@)@
                == (ChannelV {
                to_client: old(self).channel_at(name@)@.to_client.push(message@),
                ..old(self).channel_at(name@)@
            }),
    {
        match self.find_index(name) {
            None => Err(TransportError::NotFound),
            Some(i) => {
                proof {
                    self.lemma_index_unique(i as int, name@);
                }
                if !(self.channels[i].connected && self.channels[i].server_open) {
                    return Err(TransportError::NotConnected);
                }
                let ghost pre = *self;
                let mut c = self.channels.remove(i);
                let ghost c0 = c;
                c.to_client.push(message);
                proof {
                    assert(c@.to_client =~= c0@.to_client.push(message@));
                }
                self.channels.insert(i, c);
                proof {
                    assert(self.channels@ =~= pre.channels@.update(i as int, self.channels@[i as int]));
                    Self::lemma_update_frame(pre, *self, i as int, self.channels@[i as int]);
                }
                Ok(())
            },
        }
    }

    /// Read one message on the server side: the oldest one the client
    /// wrote, in order and without loss; a clean end of stream once the
    /// client closed and the queue drained; otherwise a real read blocks.
    pub fn server_read(&mut self, name: &Vec<u8>) -> (r: Result<ReadOutcome, TransportError>)
        requires
            old(self).wf(),
        ensures
            final(self).wf(),
            forall|n: Seq<u8>| final(self).has_channel(n) == old(self).has_channel(n),
            forall|n: Seq<u8>|
                n != name@ && old(self).has_channel(n) ==> final(self).channel_at(n) == old(
                    self,
                ).channel_at(n),
            !old(self).has_channel(name@) ==> r == Err::<ReadOutcome, _>(TransportError::NotFound)
                && *final(self) == *old(self),
            old(self).has_channel(name@) ==> {
                let c = old(self).channel_at(name@)@;
                if c.to_server.len() > 0 {
                    &&& (r matches Ok(o) && o matches ReadOutcome::Message(m) && m@
                        == c.to_server[0])
                    &&& final(self).channel_at(name@)@ == (ChannelV {
                        to_server: c.to_server.skip(1),
                        ..c
                    })
                } else if c.client_open {
                    r == Ok::<_, TransportError>(ReadOutcome::Pending) && *final(self) == *old(
                        self,
                    )
                } else {
                    r == Ok::<_, TransportError>(ReadOutcome::EndOfStream) && *final(self) == *old(
                        self,
                    )
                }
            },
    {
        match self.find_index(name) {
            None => Err(TransportError::NotFound),
            Some(i) => {
                proof {
                    self.lemma_index_unique(i as int, name@);
                }
                if self.channels[i].to_server.len() == 0 {
                    if self.channels[i].client_open {
                        return Ok(ReadOutcome::Pending);
                    } else {
                        return Ok(ReadOutcome::EndOfStream);
                    }
                }
                let ghost pre = *self;
                let mut c = self.channels.remove(i);
                let ghost c0 = c;
                let message = c.to_server.remove(0);
                proof {
                    assert(c@.to_server =~= c0@.to_server.skip(1));
                }
                self.channels.insert(i, c);
                proof {
                    assert(self.channels@ =~= pre.channels@.update(i as int, self.channels@[i as int]));
                    Self::lemma_update_frame(pre, *self, i as int, self.channels@[i as int]);
                }
                Ok(ReadOutcome::Message(message))
            },
        }
    }

    /// Read one message on the client side, as `server_read` does on its
    /// side.
    pub fn client_read(&mut self, name: &Vec<u8>) -> (r: Result<ReadOutcome, TransportError>)
        requires
            old(self).wf(),
        ensures
            final(self).wf(),
            forall|n: Seq<u8>| final(self).has_channel(n) == old(self).has_channel(n),
            forall|n: Seq<u8>|
                n != name@ && old(self).has_channel(n) ==> final(self).channel_at(n) == old(
                    self,
                ).channel_at(n),
            !old(self).has_channel(name@) ==> r == Err::<ReadOutcome, _>(TransportError::NotFound)
                && *final(self) == *old(self),
            old(self).has_channel(name@) ==> {
                let c = old(self).channel_at(name@)@;
                if c.to_client.len() > 0 {
                    &&& (r matches Ok(o) && o matches ReadOutcome::Message(m) && m@
                        == c.to_client[0])
                    &&& final(self).channel_at(name@)@ == (ChannelV {
                        to_client: c.to_client.skip(1),
                        ..c
                    })
                } else if c.server_open {
                    r == Ok::<_, TransportError>(ReadOutcome::Pending) && *final(self) == *old(
                        self,
                    )
                } else {
                    r == Ok::<_, TransportError>(ReadOutcome::EndOfStream) && *final(self) == *old(
                        self,
                    )
                }
            },
    {
        match self.find_index(name) {
            None => Err(TransportError::NotFound),
            Some(i) => {
                proof {
                    self.lemma_index_unique(i as int, name@);
                }
                if self.channels[i].to_client.len() == 0 {
                    if self.channels[i].server_open {
                        return Ok(ReadOutcome::Pending);
                    } else {
                        return Ok(ReadOutcome::EndOfStream);
                    }
                }
                let ghost pre = *self;
                let mut c = self.channels.remove(i);
                let ghost c0 = c;
                let message = c.to_client.remove(0);
                proof {
                    assert(c@.to_client =~= c0@.to_client.skip(1));
                }
                self.channels.insert(i, c);
                proof {
                    assert(self.channels@ =~= pre.channels@.update(i as int, self.channels@[i as int]));
                    Self::lemma_update_frame(pre, *self, i as int, self.channels@[i as int]);
                }
                Ok(ReadOutcome::Message(message))
            },
        }
    }

    /// The server drops its end: its peer sees end of stream after the
    /// queued messages.
    pub fn close_server(&mut self, name: &Vec<u8>) -> (r: Result<(), TransportError>)
        requires
            old(self).wf(),
        ensures
            final(self).wf(),
            forall|n: Seq<u8>| final(self).has_channel(n) == old(self).has_channel(n),
            forall|n: Seq<u8>|
                n != name@ && old(self).has_channel(n) ==> final(self).channel_at(n) == old(
                    self,
                ).channel_at(n),
            !old(self).has_channel(name@) ==> r == Err::<(), _>(TransportError::NotFound)
                && *final(self) == *old(self),
            old(self).has_channel(name@) ==> r is Ok && final(self).channel_at(name@)@
                == (ChannelV { server_open: false, ..old(self).channel_at(name@)@ }),
    {
        match self.find_index(name) {
            None => Err(TransportError::NotFound),
            Some(i) => {
                let ghost pre = *self;
                let mut c = self.channels.remove(i);
                c.server_open = false;
                self.channels.insert(i, c);
                proof {
                    assert(self.channels@ =~= pre.channels@.update(i as int, self.channels@[i as int]));
                    Self::lemma_update_frame(pre, *self, i as int, self.channels@[i as int]);
                }
                Ok(())
            },
        }
    }

    /// The client drops its end: its peer sees end of stream after the
    /// queued messages.
    pub fn close_client(&mut self, name: &Vec<u8>) -> (r: Result<(), TransportError>)
        requires
            old(self).wf(),
        ensures
            final(self).wf(),
            forall|n: Seq<u8>| final(self).has_channel(n) == old(self).has_channel(n),
            forall|n: Seq<u8>|
                n != name@ && old(self).has_channel(n) ==> final(self).channel_at(n) == old(
                    self,
                ).channel_at(n),
            !old(self).has_channel(name@) ==> r == Err::<(), _>(TransportError::NotFound)
                && *final(self) == *old(self),
            old(self).has_channel(name@) ==> r is Ok && final(self).channel_at(name@)@
                == (ChannelV { client_open: false, ..old(self).channel_at(name@)@ }),
    {
        match self.find_index(name) {
            None => Err(TransportError::NotFound),
            Some(i) => {
                let ghost pre = *self;
                let mut c = self.channels.remove(i);
                c.client_open = false;
                self.channels.insert(i, c);
                proof {
                    assert(self.channels@ =~= pre.channels@.update(i as int, self.channels@[i as int]));
                    Self::lemma_update_frame(pre, *self, i as int, self.channels@[i as int]);
                }
                Ok(())
            },
        }
    }
}

} // verus!
