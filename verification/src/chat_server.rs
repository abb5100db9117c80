//! Decisions of the chat server: clients, channels and what each packet causes.
//!
//! The program around this library owns the sockets; it hands each event to a
//! method here and sends the packets that the answer names.
use vstd::prelude::*;
use crate::chat_types::{ListChannelInfo, PacketC2S, PacketS2C};
use crate::keyed::{
    distinct, has_key, keys_unique, lemma_absent, lemma_index, lemma_push, lemma_update, seq_to_map,
};
use std::collections::HashSet;
use vstd::std_specs::hash::spec_hash_keys_iter;
use vstd::std_specs::iter::IteratorSpec;

verus! {

broadcast use vstd::std_specs::hash::group_hash_axioms;

/// State of a channel: its name and the ids of the clients that are members.
pub struct ChannelState {
    pub name: String,
    pub members: HashSet<u64>,
}

/// State of the chat server.
pub struct ServerState {
    /// Last id assigned to a client; incremented for each new client.
    pub last_id: u64,
    /// Ids of the connected clients.
    pub clients: HashSet<u64>,
    /// The channels, in the order in which they were created.
    pub channels: Vec<ChannelState>,
}

/// What the server keeps about one connection.
pub struct ConnectionState {
    pub nick: String,
    pub current_channel: Option<String>,
}

/// What the server does in answer to a packet.
#[derive(Debug, PartialEq)]
pub enum ChatAction {
    Nothing,
    /// Send `packet` to each of `recipients` (and note the activity).
    Broadcast { recipients: Vec<u64>, packet: PacketS2C },
    /// Send `packet` back to the sender.
    Reply(PacketS2C),
    /// Send the sender the statistics, with this client count and the server's uptime.
    ReplyStats { client_num: u32 },
    /// A message arrived from a client that is in no channel; nothing is sent.
    NoChannel,
}

/// The ids of a set of clients, each once, in the order in which the set lists them.
fn ids_of(s: &HashSet<u64>) -> (res: Vec<u64>)
    ensures
        res@.to_set() == s@,
        distinct(res@),
        res@.len() == s@.len(),
{
    let mut res: Vec<u64> = Vec::new();
    let ghost g = IteratorSpec::remaining(&spec_hash_keys_iter(s));
    for x in it: s.iter()
        invariant
            it.seq() == g,
            res@.len() == it.index(),
            forall|i: int| 0 <= i < it.index() ==> res@[i] == *it.seq()[i],
    {
        res.push(*x);
    }
    proof {
        assert(res@.len() == g.len());
        assert(res@ =~= g.unref());
        assert(g.no_duplicates());
        assert forall|i: int, j: int|
            0 <= i < res@.len() && 0 <= j < res@.len() && res@[i] == res@[j] implies i == j by {
            assert(g[i] == g[j]);
        }
    }
    res
}

impl ConnectionState {
    /// A new connection: empty nick, no channel.
    pub fn new() -> (res: Self)
        ensures
            res.nick@ == Seq::<char>::empty(),
            res.current_channel is None,
    {
        ConnectionState { nick: String::new(), current_channel: None }
    }
}

impl ServerState {
    /// The channels as (name, members) pairs, in order.
    pub open spec fn channel_pairs(&self) -> Seq<(Seq<char>, Set<u64>)> {
        self.channels@.map_values(|c: ChannelState| (c.name@, c.members@))
    }

    /// The members of each channel, by name.
    pub open spec fn channel_map(&self) -> Map<Seq<char>, Set<u64>> {
        seq_to_map(self.channel_pairs())
    }

    pub open spec fn has_channel(&self, name: Seq<char>) -> bool {
        self.channel_map().contains_key(name)
    }

    /// The members of the channel `name`; none if there is no such channel.
    pub open spec fn members_of(&self, name: Seq<char>) -> Set<u64> {
        if self.has_channel(name) {
            self.channel_map()[name]
        } else {
            Set::empty()
        }
    }

    pub open spec fn wf(&self) -> bool {
        &&& forall|c: u64| #[trigger] self.clients@.contains(c) ==> 1 <= c <= self.last_id
        &&& keys_unique(self.channel_pairs())
        &&& forall|i: int, m: u64|
            0 <= i < self.channels@.len() && #[trigger] self.channels@[i].members@.contains(m)
                ==> self.clients@.contains(m)
    }

    /// The channel a connection is in still exists.
    pub open spec fn knows(&self, conn: ConnectionState) -> bool {
        conn.current_channel matches Some(n) ==> self.has_channel(n@)
    }

    /// A server with no clients and no channels.
    pub fn new() -> (res: Self)
        ensures
            res.wf(),
            res.last_id == 0,
            res.clients@ == Set::<u64>::empty(),
            res.channels@.len() == 0,
    {
        ServerState { last_id: 0, clients: HashSet::new(), channels: Vec::new() }
    }

    proof fn lemma_pair(&self, i: int)
        requires
            self.wf(),
            0 <= i < self.channels@.len(),
        ensures
            self.channel_pairs()[i] == (self.channels@[i].name@, self.channels@[i].members@),
            self.has_channel(self.channels@[i].name@),
            self.channel_map()[self.channels@[i].name@] == self.channels@[i].members@,
    {
        lemma_index(self.channel_pairs(), i);
    }

    fn find_channel(&self, name: &String) -> (res: Option<usize>)
        requires
            self.wf(),
        ensures
            match res {
                Some(i) => i < self.channels@.len() && self.channels@[i as int].name@ == name@,
                None => !self.has_channel(name@),
            },
    {
        let mut i: usize = 0;
        while i < self.channels.len()
            invariant
                i <= self.channels@.len(),
                forall|j: int| 0 <= j < i ==> self.channels@[j].name@ != name@,
            decreases self.channels@.len() - i,
        {
            if self.channels[i].name == *name {
                return Some(i);
            }
            i = i + 1;
        }
        proof {
            assert forall|j: int| 0 <= j < self.channel_pairs().len() implies #[trigger] self.channel_pairs()[j].0
                != name@ by {
                assert(self.channel_pairs()[j].0 == self.channels@[j].name@);
            }
            lemma_absent(self.channel_pairs(), name@);
        }
        None
    }

    /// Registers a new client and answers its id, one more than the last one given.
    pub fn connect(&mut self) -> (id: u64)
        requires
            old(self).wf(),
            old(self).last_id < u64::MAX,
        ensures
            final(self).wf(),
            id == old(self).last_id + 1,
            !old(self).clients@.contains(id),
            final(self).last_id == id,
            final(self).clients@ == old(self).clients@.insert(id),
            final(self).channels == old(self).channels,
    {
        self.last_id = self.last_id + 1;
        let id = self.last_id;
        self.clients.insert(id);
        id
    }
}


impl ServerState {
    /// Adds client `id` to the channel `name`, creating the channel if needed.
    pub fn join_channel(&mut self, id: u64, name: &String)
        requires
            old(self).wf(),
            old(self).clients@.contains(id),
        ensures
            final(self).wf(),
            final(self).channel_map() == old(self).channel_map().insert(
                name@,
                old(self).members_of(name@).insert(id),
            ),
            final(self).clients == old(self).clients,
            final(self).last_id == old(self).last_id,
            forall|n: Seq<char>| old(self).has_channel(n) ==> #[trigger] final(self).has_channel(n),
            old(self).has_channel(name@) ==> final(self).channels@.len() == old(self).channels@.len(),
            !old(self).has_channel(name@) ==> final(self).channels@.len() == old(self).channels@.len() + 1
                && final(self).channels@.last().name@ == name@,
            forall|i: int|
                0 <= i < old(self).channels@.len() ==> #[trigger] final(self).channels@[i].name@
                    == old(self).channels@[i].name@,
    {
        match self.find_channel(name) {
            Some(i) => {
                proof {
                    self.lemma_pair(i as int);
                }
                let ghost old_members = self.channels@[i as int].members@;
                let ghost pairs = self.channel_pairs();
                self.channels[i].members.insert(id);
                proof {
                    lemma_update(pairs, i as int, old_members.insert(id));
                    assert(self.channel_pairs() =~= pairs.update(
                        i as int,
                        (name@, old_members.insert(id)),
                    ));
                    assert forall|j: int, m: u64|
                        0 <= j < self.channels@.len() && #[trigger] self.channels@[j].members@.contains(
                            m,
                        ) implies self.clients@.contains(m) by {
                        if j != i {
                            assert(old(self).channels@[j] == self.channels@[j]);
                        }
                    }
                }
            },
            None => {
                let mut members: HashSet<u64> = HashSet::new();
                members.insert(id);
                let ghost pairs = self.channel_pairs();
                proof {
                    assert(!has_key(pairs, name@));
                    lemma_push(pairs, name@, members@);
                }
                self.channels.push(ChannelState { name: name.clone(), members });
                proof {
                    assert(self.channel_pairs() =~= pairs.push((name@, members@)));
                    assert(members@ =~= Set::<u64>::empty().insert(id));
                    assert forall|j: int, m: u64|
                        0 <= j < self.channels@.len() && #[trigger] self.channels@[j].members@.contains(
                            m,
                        ) implies self.clients@.contains(m) by {
                        if j < old(self).channels@.len() {
                            assert(old(self).channels@[j] == self.channels@[j]);
                        }
                    }
                }
            },
        }
    }

    /// Removes client `id` from the channel `name`, if there is such a channel.
    pub fn leave_channel(&mut self, id: u64, name: &String)
        requires
            old(self).wf(),
        ensures
            final(self).wf(),
            old(self).has_channel(name@) ==> final(self).channel_map() == old(self).channel_map().insert(
                name@,
                old(self).members_of(name@).remove(id),
            ),
            !old(self).has_channel(name@) ==> final(self).channel_map() == old(self).channel_map(),
            final(self).clients == old(self).clients,
            final(self).last_id == old(self).last_id,
            final(self).channels@.len() == old(self).channels@.len(),
            forall|i: int|
                0 <= i < old(self).channels@.len() ==> #[trigger] final(self).channels@[i].name@
                    == old(self).channels@[i].name@,
            forall|n: Seq<char>| old(self).has_channel(n) ==> #[trigger] final(self).has_channel(n),
    {
        match self.find_channel(name) {
            Some(i) => {
                proof {
                    self.lemma_pair(i as int);
                }
                let ghost old_members = self.channels@[i as int].members@;
                let ghost pairs = self.channel_pairs();
                self.channels[i].members.remove(&id);
                proof {
                    lemma_update(pairs, i as int, old_members.remove(id));
                    assert(self.channel_pairs() =~= pairs.update(
                        i as int,
                        (name@, old_members.remove(id)),
                    ));
                    assert forall|j: int, m: u64|
                        0 <= j < self.channels@.len() && #[trigger] self.channels@[j].members@.contains(
                            m,
                        ) implies self.clients@.contains(m) by {
                        if j != i {
                            assert(old(self).channels@[j] == self.channels@[j]);
                        } else {
                            assert(old_members.contains(m));
                        }
                    }
                }
            },
            None => {},
        }
    }

    /// Forgets client `id`: removes it from every channel and from the clients.
    pub fn disconnect(&mut self, id: u64)
        requires
            old(self).wf(),
        ensures
            final(self).wf(),
            final(self).last_id == old(self).last_id,
            final(self).clients@ == old(self).clients@.remove(id),
            final(self).channels@.len() == old(self).channels@.len(),
            forall|i: int|
                0 <= i < old(self).channels@.len() ==> #[trigger] final(self).channels@[i].name@
                    == old(self).channels@[i].name@ && final(self).channels@[i].members@
                    == old(self).channels@[i].members@.remove(id),
            forall|n: Seq<char>| old(self).has_channel(n) ==> #[trigger] final(self).has_channel(n),
    {
        let mut k: usize = 0;
        while k < self.channels.len()
            invariant
                k <= self.channels@.len(),
                self.channels@.len() == old(self).channels@.len(),
                self.clients == old(self).clients,
                self.last_id == old(self).last_id,
                forall|i: int|
                    0 <= i < self.channels@.len() ==> (#[trigger] self.channels@[i]).name@ == old(
                        self,
                    ).channels@[i].name@,
                forall|i: int|
                    0 <= i < k ==> #[trigger] self.channels@[i].members@ == old(
                        self,
                    ).channels@[i].members@.remove(id),
                forall|i: int|
                    k <= i < self.channels@.len() ==> #[trigger] self.channels@[i] == old(
                        self,
                    ).channels@[i],
                old(self).wf(),
            decreases self.channels@.len() - k,
        {
            self.channels[k].members.remove(&id);
            k = k + 1;
        }
        self.clients.remove(&id);
        proof {
            let o = old(self);
            let f = *final(self);
            assert forall|i: int, j: int|
                0 <= i < f.channel_pairs().len() && 0 <= j < f.channel_pairs().len()
                    && #[trigger] f.channel_pairs()[i].0 == #[trigger] f.channel_pairs()[j].0 implies i
                == j by {
                assert(o.channel_pairs()[i].0 == f.channel_pairs()[i].0);
                assert(o.channel_pairs()[j].0 == f.channel_pairs()[j].0);
            }
            assert forall|i: int, m: u64|
                0 <= i < f.channels@.len() && #[trigger] f.channels@[i].members@.contains(m) implies f.clients@.contains(
                    m,
                ) by {
                assert(o.channels@[i].members@.contains(m));
                assert(o.clients@.contains(m));
            }
            assert forall|n: Seq<char>| o.has_channel(n) implies #[trigger] f.has_channel(n) by {
                let j = choose|j: int| 0 <= j < o.channel_pairs().len() && #[trigger] o.channel_pairs()[j].0 == n;
                assert(f.channel_pairs()[j].0 == n);
            }
        }
    }
}


/// Seconds without any message after which the server shuts down.
pub const IDLE_SHUTDOWN_SECS: u64 = 300;

/// Whether an idle time of `secs` seconds and `nanos` nanoseconds (below one second)
/// exceeds the idle limit.
pub fn idle_limit_exceeded(secs: u64, nanos: u32) -> (res: bool)
    ensures
        res == (secs > IDLE_SHUTDOWN_SECS || (secs == IDLE_SHUTDOWN_SECS && nanos > 0)),
{
    secs > IDLE_SHUTDOWN_SECS || (secs == IDLE_SHUTDOWN_SECS && nanos > 0)
}

impl ServerState {
    /// The channels with their member counts, in order.
    pub fn list_channels(&self) -> (res: Vec<ListChannelInfo>)
        requires
            self.wf(),
        ensures
            res@.len() == self.channels@.len(),
            forall|i: int|
                0 <= i < res@.len() ==> (#[trigger] res@[i]).name@ == self.channels@[i].name@
                    && res@[i].member_count == self.channels@[i].members@.len() as u32,
    {
        let mut res: Vec<ListChannelInfo> = Vec::new();
        let mut i: usize = 0;
        while i < self.channels.len()
            invariant
                i <= self.channels@.len(),
                res@.len() == i,
                forall|j: int|
                    0 <= j < i ==> (#[trigger] res@[j]).name@ == self.channels@[j].name@
                        && res@[j].member_count == self.channels@[j].members@.len() as u32,
            decreases self.channels@.len() - i,
        {
            res.push(
                ListChannelInfo {
                    name: self.channels[i].name.clone(),
                    member_count: self.channels[i].members.len() as u32,
                },
            );
            i = i + 1;
        }
        res
    }

    /// The notice sent to every client when the server shuts down, with its
    /// recipients: every client once.
    pub fn shutdown_notice(&self) -> (res: (Vec<u64>, PacketS2C))
        ensures
            res.0@.to_set() == self.clients@,
            distinct(res.0@),
            res.1 matches PacketS2C::NewMessage { nick, text } && nick@ == "Server"@ && text@
                == "Server is shutting down NOW!"@,
    {
        let text = "Server is shutting down NOW!".to_owned();
        let nick = "Server".to_owned();
        (ids_of(&self.clients), PacketS2C::NewMessage { nick, text })
    }

    /// Handles one packet from client `client_id`, whose connection state is `conn`.
    pub fn handle_packet(&mut self, client_id: u64, conn: &mut ConnectionState, packet: PacketC2S) -> (res:
        ChatAction)
        requires
            old(self).wf(),
            old(self).clients@.contains(client_id),
            old(self).knows(*old(conn)),
        ensures
            final(self).wf(),
            final(self).knows(*final(conn)),
            final(self).clients == old(self).clients,
            final(self).last_id == old(self).last_id,
            forall|n: Seq<char>| old(self).has_channel(n) ==> #[trigger] final(self).has_channel(n),
            match packet {
                PacketC2S::NewMessage { text } => {
                    &&& *final(self) == *old(self)
                    &&& *final(conn) == *old(conn)
                    &&& match old(conn).current_channel {
                        Some(name) => res matches ChatAction::Broadcast { recipients, packet: p }
                            && recipients@.to_set() == old(self).channel_map()[name@] && distinct(
                            recipients@,
                        ) && p == (PacketS2C::NewMessage { nick: old(conn).nick, text }),
                        None => res == ChatAction::NoChannel,
                    }
                },
                PacketC2S::SetNick { nick } => {
                    &&& res == ChatAction::Nothing
                    &&& final(conn).nick == nick
                    &&& final(conn).current_channel == old(conn).current_channel
                    &&& *final(self) == *old(self)
                },
                PacketC2S::JoinChannel { name } => {
                    &&& res == ChatAction::Nothing
                    &&& final(conn).current_channel == Some(name)
                    &&& final(conn).nick == old(conn).nick
                    &&& final(self).channel_map() == old(self).channel_map().insert(
                        name@,
                        old(self).members_of(name@).insert(client_id),
                    )
                },
                PacketC2S::LeaveChannel => {
                    &&& res == ChatAction::Nothing
                    &&& final(conn).current_channel is None
                    &&& final(conn).nick == old(conn).nick
                    &&& match old(conn).current_channel {
                        Some(n) => final(self).channel_map() == old(self).channel_map().insert(
                            n@,
                            old(self).members_of(n@).remove(client_id),
                        ),
                        None => *final(self) == *old(self),
                    }
                },
                PacketC2S::ListChannels => {
                    &&& *final(self) == *old(self)
                    &&& *final(conn) == *old(conn)
                    &&& res matches ChatAction::Reply(PacketS2C::ListChannelsResponse { channels })
                        && channels@.len() == old(self).channels@.len() && forall|i: int|
                        0 <= i < channels@.len() ==> (#[trigger] channels@[i]).name@ == old(
                            self,
                        ).channels@[i].name@ && channels@[i].member_count == old(
                            self,
                        ).channels@[i].members@.len() as u32
                },
                PacketC2S::ListStats => {
                    &&& *final(self) == *old(self)
                    &&& *final(conn) == *old(conn)
                    &&& res == ChatAction::ReplyStats { client_num: old(self).clients@.len() as u32 }
                },
            },
    {
        match packet {
            PacketC2S::NewMessage { text } => {
                match &conn.current_channel {
                    Some(channel_name) => match self.find_channel(channel_name) {
                        Some(i) => {
                            proof {
                                self.lemma_pair(i as int);
                            }
                            let recipients = ids_of(&self.channels[i].members);
                            let packet = PacketS2C::NewMessage { nick: conn.nick.clone(), text };
                            ChatAction::Broadcast { recipients, packet }
                        },
                        None => {
                            proof {
                                assert(false);
                            }
                            ChatAction::Nothing
                        },
                    },
                    None => ChatAction::NoChannel,
                }
            },
            PacketC2S::SetNick { nick } => {
                conn.nick = nick;
                ChatAction::Nothing
            },
            PacketC2S::JoinChannel { name } => {
                self.join_channel(client_id, &name);
                conn.current_channel = Some(name);
                ChatAction::Nothing
            },
            PacketC2S::LeaveChannel => {
                match &conn.current_channel {
                    Some(name) => {
                        self.leave_channel(client_id, name);
                    },
                    None => {},
                }
                conn.current_channel = None;
                ChatAction::Nothing
            },
            PacketC2S::ListChannels => {
                let channels = self.list_channels();
                ChatAction::Reply(PacketS2C::ListChannelsResponse { channels })
            },
            PacketC2S::ListStats => {
                ChatAction::ReplyStats { client_num: self.clients.len() as u32 }
            },
        }
    }
}


/// Every member of every channel is a connected client, so each recipient of a
/// message has a connection to send it on.
pub proof fn law_members_are_clients(state: &ServerState, name: Seq<char>, member: u64)
    requires
        state.wf(),
        state.has_channel(name),
        state.channel_map()[name].contains(member),
    ensures
        state.clients@.contains(member),
{
    let s = state.channel_pairs();
    let i = choose|i: int| 0 <= i < s.len() && #[trigger] s[i].0 == name;
    state.lemma_pair(i);
    assert(state.channels@[i].members@.contains(member));
}

} // verus!
