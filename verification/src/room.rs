//! Chat rooms, the sessions connected to them, and the store of all rooms.
use std::collections::HashMap;
use vstd::prelude::*;
use vstd::std_specs::hash::*;
use vstd::std_specs::iter::IteratorSpec;
use crate::protocol::{IpAddress, ServerEvent};

verus! {

broadcast use vstd::std_specs::hash::group_hash_axioms;

/// Metadata related to an active user session.
#[derive(Clone, Copy, Debug)]
pub struct SessionInfo {
    /// Source IP address of the connected client.
    pub src_ip: IpAddress,
    /// Unique session identifier; the channel to the client is found by it.
    pub session_id: usize,
    /// Database UID of the connected user.
    pub uid_connected: usize,
}

/// A connection between a client and the server, as the server's rooms see
/// it. The channel that reaches the client is kept beside the library, keyed
/// by `session_info.session_id`.
#[derive(Clone, Copy, Debug)]
pub struct Session {
    /// Metadata about the connection.
    pub session_info: SessionInfo,
}

impl Session {
    pub fn new(src_ip: IpAddress, session_id: usize, uid_connected: usize) -> (res: Session)
        ensures
            res.session_info.src_ip == src_ip,
            res.session_info.session_id == session_id,
            res.session_info.uid_connected == uid_connected,
    {
        Session { session_info: SessionInfo { src_ip, session_id, uid_connected } }
    }
}

/// An event addressed to one session.
#[derive(Debug)]
pub struct Delivery {
    /// The user whose session receives the event.
    pub user_id: usize,
    /// The session that receives the event.
    pub session_id: usize,
    pub event: ServerEvent,
}

/// A chat room containing a name, active connections, and message history.
#[derive(Debug)]
pub struct Room {
    pub name: String,
    /// Maps user IDs to their active sessions in this room.
    pub connections: HashMap<usize, Session>,
    /// History of messages sent in this room.
    pub messages: Vec<String>,
    pub id: usize,
}

/// Two rooms count as the same room when they share a name or an ID.
impl PartialEq for Room {
    fn eq(&self, other: &Self) -> (res: bool) {
        self.name == other.name || self.id == other.id
    }
}

impl vstd::std_specs::cmp::PartialEqSpecImpl for Room {
    open spec fn obeys_eq_spec() -> bool {
        true
    }

    open spec fn eq_spec(&self, other: &Self) -> bool {
        self.name@ == other.name@ || self.id == other.id
    }
}

/// A random number for a new room's ID.
///
/// Calls `rand::rng()` and `RngCore::next_u64` on the thread-local
/// generator. Nothing is promised of the value: it comes from a random
/// source.
#[verifier::external_body]
fn random_u64() -> (res: u64) {
    rand::RngCore::next_u64(&mut rand::rng())
}

/// Every delivery in `res` sends `contents` as a room message to one
/// connection of `conns`, and every connection receives exactly one.
pub open spec fn broadcasts_to(
    res: Seq<Delivery>,
    conns: Map<usize, Session>,
    contents: Seq<char>,
) -> bool {
    &&& res.len() == conns.dom().len()
    &&& forall|k: int|
        0 <= k < res.len() ==> {
            let d = #[trigger] res[k];
            &&& conns.contains_key(d.user_id)
            &&& d.session_id == conns[d.user_id].session_info.session_id
            &&& d.event matches ServerEvent::Message { contents: c } && c@ == contents
        }
    &&& forall|k1: int, k2: int|
        0 <= k1 < k2 < res.len() ==> #[trigger] res[k1].user_id != #[trigger] res[k2].user_id
    &&& forall|uid: usize|
        #[trigger] conns.contains_key(uid) ==> exists|k: int|
            0 <= k < res.len() && #[trigger] res[k].user_id == uid
}

/// A random session ID for a user who has just logged in.
pub fn random_session_id() -> usize {
    random_u64() as usize
}

impl Room {
    /// Creates a new room with the given name and a random ID.
    pub fn new(name: String) -> (res: Self)
        ensures
            res.name@ == name@,
            res.connections@ == Map::<usize, Session>::empty(),
            res.messages@.len() == 0,
    {
        let id = random_u64() as usize;
        Self::create(name, id)
    }

    /// Creates a new room with the given name and ID.
    pub fn create(name: String, id: usize) -> (res: Self)
        ensures
            res.name@ == name@,
            res.id == id,
            res.connections@ == Map::<usize, Session>::empty(),
            res.messages@.len() == 0,
    {
        Self { name, connections: HashMap::new(), messages: Vec::new(), id }
    }

    pub fn has_session(&self, user_id: usize) -> (res: bool)
        ensures
            res == self.connections@.contains_key(user_id),
    {
        self.connections.contains_key(&user_id)
    }

    /// Connects a session under its user's ID, replacing and returning any
    /// session that user had in the room.
    pub fn add_session(&mut self, session: Session) -> (res: Option<Session>)
        ensures
            final(self).connections@ == old(self).connections@.insert(
                session.session_info.uid_connected,
                session,
            ),
            final(self).name == old(self).name,
            final(self).id == old(self).id,
            final(self).messages == old(self).messages,
            match res {
                Some(s) => old(self).connections@.contains_key(session.session_info.uid_connected)
                    && s == old(self).connections@[session.session_info.uid_connected],
                None => !old(self).connections@.contains_key(session.session_info.uid_connected),
            },
    {
        self.connections.insert(session.session_info.uid_connected, session)
    }

    /// Disconnects the session of the session's user, returning it if there
    /// was one.
    pub fn remove_session(&mut self, session: Session) -> (res: Option<Session>)
        ensures
            final(self).connections@ == old(self).connections@.remove(
                session.session_info.uid_connected,
            ),
            final(self).name == old(self).name,
            final(self).id == old(self).id,
            final(self).messages == old(self).messages,
            match res {
                Some(s) => old(self).connections@.contains_key(session.session_info.uid_connected)
                    && s == old(self).connections@[session.session_info.uid_connected],
                None => !old(self).connections@.contains_key(session.session_info.uid_connected),
            },
    {
        self.connections.remove(&session.session_info.uid_connected)
    }

    /// Records `contents` in the room's history and addresses it, as a room
    /// message, to every connected session.
    pub fn new_message(&mut self, contents: String) -> (res: Vec<Delivery>)
        ensures
            broadcasts_to(res@, old(self).connections@, contents@),
            final(self).messages@ == old(self).messages@.push(final(self).messages@.last()),
            final(self).messages@.last()@ == contents@,
            final(self).connections == old(self).connections,
            final(self).name == old(self).name,
            final(self).id == old(self).id,
    {
        let res = self.address_message(&contents);
        self.messages.push(contents);
        res
    }

    /// The room message `contents`, addressed to every connected session.
    fn address_message(&self, contents: &String) -> (res: Vec<Delivery>)
        ensures
            broadcasts_to(res@, self.connections@, contents@),
    {
        let mut res: Vec<Delivery> = Vec::new();
        let ghost conns = self.connections@;
        let ghost items = spec_hash_map_iter(&self.connections).remaining();
        for entry in iter: self.connections.iter()
            invariant
                conns == self.connections@,
                iter.seq() == items,
                items == spec_hash_map_iter(&self.connections).remaining(),
                items.no_duplicates(),
                res@.len() == iter.index(),
                forall|k: int|
                    0 <= k < res@.len() ==> {
                        let d = #[trigger] res@[k];
                        &&& d.user_id == *iter.seq()[k].0
                        &&& conns.contains_key(d.user_id)
                        &&& d.session_id == conns[d.user_id].session_info.session_id
                        &&& d.event matches ServerEvent::Message { contents: c } && c@ == contents@
                    },
        {
            let (uid, session) = entry;
            res.push(
                Delivery {
                    user_id: *uid,
                    session_id: session.session_info.session_id,
                    event: ServerEvent::Message { contents: contents.clone() },
                },
            );
        }
        proof {
            assert(res@.len() == items.len());
            assert forall|k1: int, k2: int| 0 <= k1 < k2 < res@.len() implies #[trigger] res@[k1].user_id != #[trigger] res@[k2].user_id by {
                if res@[k1].user_id == res@[k2].user_id {
                    assert(items[k1] == items[k2]);
                }
            }
            assert forall|uid: usize| #[trigger] conns.contains_key(uid) implies exists|k: int| 0 <= k < res@.len() && #[trigger] res@[k].user_id == uid by {
                assert(items.contains((&uid, &conns[uid])));
                let k = choose|k: int| 0 <= k < items.len() && items[k] == (&uid, &conns[uid]);
                assert(res@[k].user_id == uid);
            }
        }
        res
    }
}

/// A centralized store for all chat rooms in the server.
#[derive(Debug)]
pub struct RoomStore {
    /// Maps room IDs to their respective `Room` instance.
    pub rooms: HashMap<usize, Room>,
}

/// Whether some room of `rooms` would count as equal to a room named `name`
/// with ID `id`.
pub open spec fn clashes(rooms: Map<usize, Room>, name: Seq<char>, id: usize) -> bool {
    exists|k: usize| #[trigger] rooms.contains_key(k) && (rooms[k].name@ == name || rooms[k].id == id)
}

/// Whether some room of `rooms` is named `name`.
pub open spec fn has_room_named(rooms: Map<usize, Room>, name: Seq<char>) -> bool {
    exists|k: usize| #[trigger] rooms.contains_key(k) && rooms[k].name@ == name
}

impl RoomStore {
    /// Every room is stored under its own ID.
    pub open spec fn well_formed(&self) -> bool {
        forall|k: usize| #[trigger] self.rooms@.contains_key(k) ==> self.rooms@[k].id == k
    }

    /// No two rooms share a name.
    pub open spec fn names_unique(&self) -> bool {
        forall|k1: usize, k2: usize|
            #[trigger] self.rooms@.contains_key(k1) && #[trigger] self.rooms@.contains_key(k2)
                && self.rooms@[k1].name@ == self.rooms@[k2].name@ ==> k1 == k2
    }

    /// Creates a new, empty `RoomStore`.
    pub fn new() -> (res: Self)
        ensures
            res.rooms@ == Map::<usize, Room>::empty(),
            res.well_formed(),
            res.names_unique(),
    {
        Self { rooms: HashMap::new() }
    }

    /// The ID of a room named `name`, if there is one.
    pub fn get_room_from_name(&self, name: &String) -> (res: Option<usize>)
        ensures
            match res {
                Some(id) => self.rooms@.contains_key(id) && self.rooms@[id].name@ == name@,
                None => !has_room_named(self.rooms@, name@),
            },
    {
        let ghost rooms = self.rooms@;
        let ghost items = spec_hash_map_iter(&self.rooms).remaining();
        for entry in iter: self.rooms.iter()
            invariant
                rooms == self.rooms@,
                iter.seq() == items,
                items == spec_hash_map_iter(&self.rooms).remaining(),
                forall|j: int| 0 <= j < iter.index() ==> (#[trigger] items[j]).1.name@ != name@,
        {
            let (id, room) = entry;
            if room.name == *name {
                return Some(*id);
            }
        }
        proof {
            assert forall|k: usize| #[trigger] rooms.contains_key(k) implies rooms[k].name@ != name@ by {
                assert(items.contains((&k, &rooms[k])));
            }
        }
        None
    }

    /// Adds a room named `name` with a random ID, unless a room with that name
    /// is stored already or the ID drawn is taken. The result is always
    /// `None`: no room is ever replaced.
    pub fn add_room_new(&mut self, name: String) -> (res: Option<Room>)
        requires
            old(self).well_formed(),
        ensures
            final(self).well_formed(),
            old(self).names_unique() ==> final(self).names_unique(),
            res is None,
            has_room_named(old(self).rooms@, name@) ==> final(self).rooms@ == old(self).rooms@,
            !has_room_named(old(self).rooms@, name@) ==> exists|id: usize|
                #![trigger old(self).rooms@.contains_key(id)]
                {
                    ||| old(self).rooms@.contains_key(id) && final(self).rooms@ == old(self).rooms@
                    ||| {
                        &&& !old(self).rooms@.contains_key(id)
                        &&& final(self).rooms@ == old(self).rooms@.insert(id, final(self).rooms@[id])
                        &&& final(self).rooms@[id].name@ == name@
                        &&& final(self).rooms@[id].id == id
                        &&& final(self).rooms@[id].connections@ == Map::<usize, Session>::empty()
                        &&& final(self).rooms@[id].messages@.len() == 0
                    }
                },
    {
        let id = random_u64() as usize;
        let ghost pre = self.rooms@;
        let res = self.add_room_with_id(name, id);
        proof {
            if !has_room_named(pre, name@) {
                if clashes(pre, name@, id) {
                    let k = choose|k: usize| #[trigger] pre.contains_key(k) && (pre[k].name@ == name@ || pre[k].id == id);
                    assert(pre[k].id == k);
                    assert(pre.contains_key(id));
                } else {
                    assert(!pre.contains_key(id)) by {
                        if pre.contains_key(id) {
                            assert(pre[id].id == id);
                        }
                    }
                }
                assert(pre.contains_key(id) || !pre.contains_key(id));
            }
        }
        res
    }

    /// Adds a room named `name` with ID `id`, unless a stored room has that
    /// name or that ID. The result is always `None`.
    pub fn add_room_with_id(&mut self, name: String, id: usize) -> (res: Option<Room>)
        requires
            old(self).well_formed(),
        ensures
            final(self).well_formed(),
            old(self).names_unique() ==> final(self).names_unique(),
            res is None,
            clashes(old(self).rooms@, name@, id) ==> final(self).rooms@ == old(self).rooms@,
            !clashes(old(self).rooms@, name@, id) ==> {
                &&& final(self).rooms@ == old(self).rooms@.insert(id, final(self).rooms@[id])
                &&& final(self).rooms@[id].name@ == name@
                &&& final(self).rooms@[id].id == id
                &&& final(self).rooms@[id].connections@ == Map::<usize, Session>::empty()
                &&& final(self).rooms@[id].messages@.len() == 0
            },
    {
        let new_room = Room::create(name, id);
        let ghost rooms = self.rooms@;
        let ghost items = spec_hash_map_iter(&self.rooms).remaining();
        let mut clash = false;
        for entry in iter: self.rooms.iter()
            invariant
                rooms == self.rooms@,
                iter.seq() == items,
                items == spec_hash_map_iter(&self.rooms).remaining(),
                new_room.name@ == name@,
                new_room.id == id,
                clash == exists|j: int|
                    0 <= j < iter.index() && ((#[trigger] items[j]).1.name@ == name@ || items[j].1.id
                        == id),
        {
            let (_, room) = entry;
            if *room == new_room {
                clash = true;
            }
        }
        if clash {
            proof {
                let j = choose|j: int|
                    0 <= j < items.len() && ((#[trigger] items[j]).1.name@ == name@ || items[j].1.id
                        == id);
                let k = *items[j].0;
                assert(rooms.contains_key(k) && rooms[k] == *items[j].1);
            }
            return None;
        }
        proof {
            assert forall|k: usize| #[trigger] rooms.contains_key(k) implies !(rooms[k].name@ == name@
                || rooms[k].id == id) by {
                assert(items.contains((&k, &rooms[k])));
                let j = choose|j: int| 0 <= j < items.len() && items[j] == (&k, &rooms[k]);
                assert(items[j].1.name@ != name@ && items[j].1.id != id);
            }
        }
        self.rooms.insert(id, new_room)
    }

    /// Stores `room` under its ID, returning the room it replaces.
    pub fn add_room_existing(&mut self, room: Room) -> (res: Option<Room>)
        requires
            old(self).well_formed(),
        ensures
            final(self).well_formed(),
            final(self).rooms@ == old(self).rooms@.insert(room.id, room),
            match res {
                Some(r) => old(self).rooms@.contains_key(room.id) && r == old(self).rooms@[room.id],
                None => !old(self).rooms@.contains_key(room.id),
            },
    {
        self.rooms.insert(room.id, room)
    }

    /// Removes the room stored under `room`'s ID, returning it.
    pub fn remove_room(&mut self, room: Room) -> (res: Option<Room>)
        requires
            old(self).well_formed(),
        ensures
            final(self).well_formed(),
            old(self).names_unique() ==> final(self).names_unique(),
            final(self).rooms@ == old(self).rooms@.remove(room.id),
            match res {
                Some(r) => old(self).rooms@.contains_key(room.id) && r == old(self).rooms@[room.id],
                None => !old(self).rooms@.contains_key(room.id),
            },
    {
        self.take_room(room.id)
    }

    /// Removes the room stored under `id`, returning it.
    pub fn take_room(&mut self, id: usize) -> (res: Option<Room>)
        requires
            old(self).well_formed(),
        ensures
            final(self).well_formed(),
            old(self).names_unique() ==> final(self).names_unique(),
            final(self).rooms@ == old(self).rooms@.remove(id),
            match res {
                Some(r) => old(self).rooms@.contains_key(id) && r == old(self).rooms@[id],
                None => !old(self).rooms@.contains_key(id),
            },
    {
        self.rooms.remove(&id)
    }
}

/// Connecting a session of a user who had none in the room and then
/// disconnecting it leaves the room's connections as they were.
pub proof fn lemma_add_then_remove_session(conns: Map<usize, Session>, session: Session)
    requires
        !conns.contains_key(session.session_info.uid_connected),
    ensures
        conns.insert(session.session_info.uid_connected, session).remove(session.session_info.uid_connected) == conns,
{
    assert(conns.insert(session.session_info.uid_connected, session).remove(session.session_info.uid_connected) =~= conns);
}

/// A room added under a fresh name can then be found by that name.
pub proof fn lemma_added_room_found(pre: Map<usize, Room>, post: Map<usize, Room>, name: Seq<char>, id: usize)
    requires
        !clashes(pre, name, id),
        post == pre.insert(id, post[id]),
        post[id].name@ == name,
    ensures
        has_room_named(post, name),
        forall|k: usize| #[trigger] post.contains_key(k) && post[k].name@ == name ==> k == id,
{
    assert(post.contains_key(id));
}

} // verus!
