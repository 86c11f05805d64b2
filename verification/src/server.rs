//! The server's state and the decisions of its event loop: logging users
//! in, broadcasting room messages, private messages, room changes and
//! disconnects. The loop itself, the database and the channels to the
//! clients live beside the library; each step here says which session
//! receives which event.
use std::collections::HashMap;
use vstd::prelude::*;
use vstd::string::*;
use crate::db::{
    decide_login, first_own_row, integer_at, login_verdict, rows_view, text_at, DbValue, LoginDecision, LoginVerdict,
    PASSWORD_COLUMN, ROOM_COLUMN, UID_COLUMN, USERNAME_COLUMN,
};
use crate::protocol::{IpAddress, LoginInfo, ServerEvent, User};
use crate::room::{broadcasts_to, has_room_named, Delivery, Room, RoomStore, Session};
use crate::text::{trim_ascii, trim_ascii_string};

verus! {

broadcast use vstd::std_specs::hash::group_hash_axioms;

/// Usernames mapped to user IDs, kept as pairs with distinct names.
#[derive(Debug)]
pub struct UsernameMap {
    pub entries: Vec<(String, usize)>,
}

impl View for UsernameMap {
    type V = Map<Seq<char>, usize>;

    open spec fn view(&self) -> Map<Seq<char>, usize> {
        Map::new(
            |name: Seq<char>| exists|i: int| 0 <= i < self.entries@.len() && #[trigger] self.entries@[i].0@ == name,
            |name: Seq<char>| self.entries@[self.index_of(name)].1,
        )
    }
}

impl UsernameMap {
    /// The position of the entry for `name`.
    pub open spec fn index_of(&self, name: Seq<char>) -> int {
        choose|i: int| 0 <= i < self.entries@.len() && #[trigger] self.entries@[i].0@ == name
    }

    /// No name occurs twice.
    pub open spec fn well_formed(&self) -> bool {
        forall|i: int, j: int|
            0 <= i < self.entries@.len() && 0 <= j < self.entries@.len() && #[trigger] self.entries@[i].0@
                == #[trigger] self.entries@[j].0@ ==> i == j
    }

    pub fn new() -> (res: Self)
        ensures
            res@ == Map::<Seq<char>, usize>::empty(),
            res.well_formed(),
    {
        let res = UsernameMap { entries: Vec::new() };
        assert(res@ =~= Map::<Seq<char>, usize>::empty());
        res
    }

    fn find(&self, name: &str) -> (res: Option<usize>)
        ensures
            match res {
                Some(i) => i < self.entries@.len() && self.entries@[i as int].0@ == name@,
                None => forall|i: int| 0 <= i < self.entries@.len() ==> #[trigger] self.entries@[i].0@ != name@,
            },
    {
        let n = self.entries.len();
        for i in 0..n
            invariant
                n == self.entries@.len(),
                forall|j: int| 0 <= j < i ==> #[trigger] self.entries@[j].0@ != name@,
        {
            if crate::text::str_eq(self.entries[i].0.as_str(), name) {
                return Some(i);
            }
        }
        None
    }

    /// The user ID stored for `name`.
    pub fn get(&self, name: &str) -> (res: Option<usize>)
        requires
            self.well_formed(),
        ensures
            match res {
                Some(id) => self@.contains_key(name@) && self@[name@] == id,
                None => !self@.contains_key(name@),
            },
    {
        match self.find(name) {
            Some(i) => {
                proof {
                    let k = self.index_of(name@);
                    assert(self.entries@[i as int].0@ == name@);
                }
                Some(self.entries[i].1)
            },
            None => None,
        }
    }

    /// Stores `id` for `name`, returning the ID it replaces.
    pub fn insert(&mut self, name: String, id: usize) -> (res: Option<usize>)
        requires
            old(self).well_formed(),
        ensures
            final(self).well_formed(),
            final(self)@ == old(self)@.insert(name@, id),
            match res {
                Some(prev) => old(self)@.contains_key(name@) && old(self)@[name@] == prev,
                None => !old(self)@.contains_key(name@),
            },
    {
        let ghost old_map = self@;
        match self.find(name.as_str()) {
            Some(i) => {
                let prev = self.entries[i].1;
                proof {
                    let k = self.index_of(name@);
                }
                self.entries.set(i, (name, id));
                proof {
                    assert forall|n: Seq<char>| #![auto] self@.contains_key(n) <==> old_map.insert(name@, id).contains_key(n) by {
                        if n != name@ && old_map.contains_key(n) {
                            let k = choose|k: int| 0 <= k < old(self).entries@.len() && #[trigger] old(self).entries@[k].0@ == n;
                            assert(self.entries@[k].0@ == n);
                        }
                        if n == name@ {
                            assert(self.entries@[i as int].0@ == n);
                        }
                        if self@.contains_key(n) && n != name@ {
                            let k = choose|k: int| 0 <= k < self.entries@.len() && #[trigger] self.entries@[k].0@ == n;
                            assert(old(self).entries@[k].0@ == n);
                        }
                    }
                    assert forall|n: Seq<char>| #![auto] self@.contains_key(n) implies self@[n] == old_map.insert(name@, id)[n] by {
                        let k = self.index_of(n);
                        if n != name@ {
                            let k0 = old(self).index_of(n);
                            assert(old(self).entries@[k].0@ == n);
                        }
                    }
                    assert(self@ =~= old_map.insert(name@, id));
                }
                Some(prev)
            },
            None => {
                self.entries.push((name, id));
                proof {
                    let last = self.entries@.len() - 1;
                    assert forall|n: Seq<char>| #![auto] self@.contains_key(n) <==> old_map.insert(name@, id).contains_key(n) by {
                        if n != name@ && old_map.contains_key(n) {
                            let k = choose|k: int| 0 <= k < old(self).entries@.len() && #[trigger] old(self).entries@[k].0@ == n;
                            assert(self.entries@[k].0@ == n);
                        }
                        if n == name@ {
                            assert(self.entries@[last].0@ == n);
                        }
                        if self@.contains_key(n) && n != name@ {
                            let k = choose|k: int| 0 <= k < self.entries@.len() && #[trigger] self.entries@[k].0@ == n;
                            assert(k != last);
                            assert(old(self).entries@[k].0@ == n);
                        }
                    }
                    assert forall|n: Seq<char>| #![auto] self@.contains_key(n) implies self@[n] == old_map.insert(name@, id)[n] by {
                        let k = self.index_of(n);
                        if n != name@ {
                            let k0 = old(self).index_of(n);
                            assert(old(self).entries@[k0].0@ == n);
                            assert(self.entries@[k0].0@ == n);
                        } else {
                            assert(self.entries@[last].0@ == n);
                        }
                    }
                    assert(self@ =~= old_map.insert(name@, id));
                }
                None
            },
        }
    }

    /// Forgets the entry for `name`, returning its user ID.
    pub fn remove(&mut self, name: &str) -> (res: Option<usize>)
        requires
            old(self).well_formed(),
        ensures
            final(self).well_formed(),
            final(self)@ == old(self)@.remove(name@),
            match res {
                Some(id) => old(self)@.contains_key(name@) && old(self)@[name@] == id,
                None => !old(self)@.contains_key(name@),
            },
    {
        let ghost old_map = self@;
        let ghost old_e = self.entries@;
        match self.find(name) {
            Some(i) => {
                proof {
                    let k = self.index_of(name@);
                    assert(old_e[i as int].0@ == name@);
                }
                let (_, id) = self.entries.remove(i);
                proof {
                    let ne = self.entries@;
                    assert forall|a: int, b: int|
                        0 <= a < ne.len() && 0 <= b < ne.len() && #[trigger] ne[a].0@ == #[trigger] ne[b].0@ implies a == b by {
                        let oa = if a < i { a } else { a + 1 };
                        let ob = if b < i { b } else { b + 1 };
                        assert(ne[a] == old_e[oa]);
                        assert(ne[b] == old_e[ob]);
                    }
                    assert forall|n: Seq<char>| #![auto] self@.contains_key(n) <==> old_map.remove(name@).contains_key(n) by {
                        if self@.contains_key(n) {
                            let a = choose|a: int| 0 <= a < ne.len() && #[trigger] ne[a].0@ == n;
                            let oa = if a < i { a } else { a + 1 };
                            assert(ne[a] == old_e[oa]);
                            assert(oa != i);
                            assert(old_e[oa].0@ == n);
                        }
                        if old_map.remove(name@).contains_key(n) {
                            let o = choose|o: int| 0 <= o < old_e.len() && #[trigger] old_e[o].0@ == n;
                            assert(o != i);
                            let a = if o < i { o } else { o - 1 };
                            assert(ne[a] == old_e[o]);
                            assert(ne[a].0@ == n);
                        }
                    }
                    assert forall|n: Seq<char>| #![auto] self@.contains_key(n) implies self@[n] == old_map.remove(name@)[n] by {
                        let a = self.index_of(n);
                        let oa = if a < i { a } else { a + 1 };
                        assert(ne[a] == old_e[oa]);
                        let o = old(self).index_of(n);
                        assert(old_e[o].0@ == n);
                        assert(old_e[oa].0@ == n);
                    }
                    assert(self@ =~= old_map.remove(name@));
                }
                Some(id)
            },
            None => {
                proof {
                    assert(self@ =~= old_map.remove(name@));
                }
                None
            },
        }
    }
}

/// `a` and `b` written one after another.
pub fn concat2(a: &str, b: &str) -> (res: String)
    ensures
        res@ == a@ + b@,
{
    let mut res = String::from_str(a);
    res.append(b);
    res
}

/// `a`, `b` and `c` written one after another.
pub fn concat3(a: &str, b: &str, c: &str) -> (res: String)
    ensures
        res@ == a@ + b@ + c@,
{
    let mut res = String::from_str(a);
    res.append(b);
    res.append(c);
    res
}

/// The main server state: who is logged in, under which session, and which
/// room each user is in.
#[derive(Debug)]
pub struct Server {
    /// Maps user IDs to their profile and active session.
    pub user_id_map: HashMap<usize, (User, Session)>,
    /// Maps usernames to their user IDs for quick lookup.
    pub username_map: UsernameMap,
    /// Storage for all active chat rooms.
    pub room_store: RoomStore,
    /// Maps user IDs to the name of the room they are in.
    pub user_room_map: HashMap<usize, String>,
}

/// The ID of the room named `name` (meaningful where there is one).
pub open spec fn room_named(rooms: Map<usize, Room>, name: Seq<char>) -> usize {
    choose|k: usize| #[trigger] rooms.contains_key(k) && rooms[k].name@ == name
}

/// `new_room` is `old_room` with `session` connected under its user.
pub open spec fn room_with_session(old_room: Room, new_room: Room, session: Session) -> bool {
    &&& new_room.connections@ == old_room.connections@.insert(
        session.session_info.uid_connected,
        session,
    )
    &&& new_room.name == old_room.name
    &&& new_room.id == old_room.id
    &&& new_room.messages == old_room.messages
}

/// `new_room` is `old_room` with the session of `uid` disconnected.
pub open spec fn room_without_session(old_room: Room, new_room: Room, uid: usize) -> bool {
    &&& new_room.connections@ == old_room.connections@.remove(uid)
    &&& new_room.name == old_room.name
    &&& new_room.id == old_room.id
    &&& new_room.messages == old_room.messages
}

/// The session recorded for `session_id` and `uid` from `ip`.
pub open spec fn session_for(ip: IpAddress, session_id: usize, uid: usize) -> Session {
    Session {
        session_info: crate::room::SessionInfo { src_ip: ip, session_id, uid_connected: uid },
    }
}

impl Server {
    /// The maps agree with their own invariants, and room names are unique.
    pub open spec fn well_formed(&self) -> bool {
        &&& self.username_map.well_formed()
        &&& self.room_store.well_formed()
        &&& self.room_store.names_unique()
        &&& self.users_keyed_by_id()
    }

    /// Every logged-in user is stored under its own ID, with a session of
    /// that ID.
    pub open spec fn users_keyed_by_id(&self) -> bool {
        forall|uid: usize| #[trigger] self.user_id_map@.contains_key(uid) ==> {
            &&& self.user_id_map@[uid].0.user_id == uid
            &&& self.user_id_map@[uid].1.session_info.uid_connected == uid
        }
    }

    /// The session of the logged-in user `uid`.
    pub open spec fn session_of_uid(&self, uid: usize) -> Option<Session> {
        if self.user_id_map@.contains_key(uid) {
            Some(self.user_id_map@[uid].1)
        } else {
            None
        }
    }

    /// The session of the logged-in user called `name`.
    pub open spec fn session_of_username(&self, name: Seq<char>) -> Option<Session> {
        if self.username_map@.contains_key(name) {
            self.session_of_uid(self.username_map@[name])
        } else {
            None
        }
    }

    /// A server with no users and no rooms.
    pub fn new() -> (res: Server)
        ensures
            res.well_formed(),
            res.user_id_map@ == Map::<usize, (User, Session)>::empty(),
            res.username_map@ == Map::<Seq<char>, usize>::empty(),
            res.room_store.rooms@ == Map::<usize, Room>::empty(),
            res.user_room_map@ == Map::<usize, String>::empty(),
    {
        Server {
            user_id_map: HashMap::new(),
            username_map: UsernameMap::new(),
            room_store: RoomStore::new(),
            user_room_map: HashMap::new(),
        }
    }

    pub fn get_session_from_username(&self, username: &String) -> (res: Option<Session>)
        requires
            self.well_formed(),
        ensures
            res == self.session_of_username(username@),
    {
        match self.username_map.get(username.as_str()) {
            Some(uid) => self.get_session_from_uid(uid),
            None => None,
        }
    }

    pub fn get_session_from_uid(&self, uid: usize) -> (res: Option<Session>)
        ensures
            res == self.session_of_uid(uid),
    {
        match self.user_id_map.get(&uid) {
            Some(found) => Some(found.1),
            None => None,
        }
    }

    /// Connects `session` to the room stored under `id`.
    fn connect_to_room(&mut self, id: usize, session: Session)
        requires
            old(self).well_formed(),
            old(self).room_store.rooms@.contains_key(id),
        ensures
            final(self).well_formed(),
            final(self).user_id_map == old(self).user_id_map,
            final(self).username_map == old(self).username_map,
            final(self).user_room_map == old(self).user_room_map,
            final(self).room_store.rooms@.dom() == old(self).room_store.rooms@.dom(),
            room_with_session(old(self).room_store.rooms@[id], final(self).room_store.rooms@[id], session),
            forall|k: usize| k != id ==> #[trigger] final(self).room_store.rooms@.get(k) == old(self).room_store.rooms@.get(k),
    {
        let ghost before = self.room_store.rooms@;
        match self.room_store.take_room(id) {
            Some(mut room) => {
                room.add_session(session);
                self.room_store.add_room_existing(room);
                proof {
                    assert(self.room_store.rooms@ == before.insert(id, self.room_store.rooms@[id]));
                    assert(self.room_store.rooms@.dom() =~= before.dom());
                    assert forall|k: usize| k != id implies #[trigger] self.room_store.rooms@.get(k) == before.get(k) by {}
                }
            },
            None => {},
        }
    }

    /// Disconnects the session of user `uid` from the room stored under `id`,
    /// returning the session it held.
    fn disconnect_from_room(&mut self, id: usize, session: Session) -> (res: Option<Session>)
        requires
            old(self).well_formed(),
            old(self).room_store.rooms@.contains_key(id),
        ensures
            final(self).well_formed(),
            final(self).user_id_map == old(self).user_id_map,
            final(self).username_map == old(self).username_map,
            final(self).user_room_map == old(self).user_room_map,
            final(self).room_store.rooms@.dom() == old(self).room_store.rooms@.dom(),
            room_without_session(old(self).room_store.rooms@[id], final(self).room_store.rooms@[id], session.session_info.uid_connected),
            forall|k: usize| k != id ==> #[trigger] final(self).room_store.rooms@.get(k) == old(self).room_store.rooms@.get(k),
            res is Some <==> old(self).room_store.rooms@[id].connections@.contains_key(session.session_info.uid_connected),
            res is None ==> final(self).room_store.rooms@ == old(self).room_store.rooms@,
    {
        let ghost before = self.room_store.rooms@;
        let present = match self.room_store.rooms.get(&id) {
            Some(room) => room.has_session(session.session_info.uid_connected),
            None => false,
        };
        if !present {
            proof {
                assert(before[id].connections@.remove(session.session_info.uid_connected) =~= before[id].connections@);
            }
            return None;
        }
        match self.room_store.take_room(id) {
            Some(mut room) => {
                let removed = room.remove_session(session);
                self.room_store.add_room_existing(room);
                proof {
                    assert(self.room_store.rooms@.dom() =~= before.dom());
                    assert forall|k: usize| k != id implies #[trigger] self.room_store.rooms@.get(k) == before.get(k) by {}
                }
                removed
            },
            None => None,
        }
    }

    /// Broadcasts `contents` from `originator` in the room stored under `id`
    /// and records it in that room's history.
    fn broadcast_in_room(&mut self, id: usize, contents: &String, originator: &User) -> (res: Vec<Delivery>)
        requires
            old(self).well_formed(),
            old(self).room_store.rooms@.contains_key(id),
        ensures
            final(self).well_formed(),
            final(self).user_id_map == old(self).user_id_map,
            final(self).username_map == old(self).username_map,
            final(self).user_room_map == old(self).user_room_map,
            final(self).room_store.rooms@.dom() == old(self).room_store.rooms@.dom(),
            forall|k: usize| k != id ==> #[trigger] final(self).room_store.rooms@.get(k) == old(self).room_store.rooms@.get(k),
            contents@.len() == 0 ==> res@.len() == 0 && final(self).room_store.rooms@ == old(self).room_store.rooms@,
            contents@.len() > 0 ==> broadcasts_to(
                res@,
                old(self).room_store.rooms@[id].connections@,
                broadcast_text(contents@, originator.user_id, originator.username@),
            ) && room_with_message(
                old(self).room_store.rooms@[id],
                final(self).room_store.rooms@[id],
                broadcast_text(contents@, originator.user_id, originator.username@),
            ),
    {
        let ghost before = self.room_store.rooms@;
        match self.room_store.take_room(id) {
            Some(mut room) => {
                let res = handle_broadcast(contents, originator, &mut room);
                self.room_store.add_room_existing(room);
                proof {
                    assert(self.room_store.rooms@.dom() =~= before.dom());
                    assert forall|k: usize| k != id implies #[trigger] self.room_store.rooms@.get(k) == before.get(k) by {}
                    if contents@.len() == 0 {
                        assert(self.room_store.rooms@ =~= before);
                    }
                }
                res
            },
            None => Vec::new(),
        }
    }

    /// Records a logged-in `user` with a new session, puts the session in
    /// the room "Global" if it exists, and answers the login with an
    /// acceptance. The session ID is drawn at random.
    pub fn login(&mut self, user: User, ip_src: IpAddress) -> (res: ServerEvent)
        requires
            old(self).well_formed(),
        ensures
            exists|session_id: usize| login_post(*old(self), *final(self), user, ip_src, session_id),
            res matches ServerEvent::AuthenticationAccept { user: u, new_user } && !new_user
                && u.username@ == user.username@ && u.user_id == user.user_id
                && u.current_room_name@ == user.current_room_name@,
    {
        let session_id = crate::room::random_session_id();
        self.login_with_session_id(user, ip_src, session_id)
    }

    /// Answers a login request from `ip_src`, given the rows that the user
    /// lookup returned for the name: the user's own row must store the
    /// password digest given, or the login is refused and nothing changes.
    /// `None` means that the user has no row yet and must be recorded first.
    pub fn handle_login_request(
        &mut self,
        login_info: &LoginInfo,
        rows: &[Vec<DbValue>],
        ip_src: IpAddress,
        session_id: usize,
    ) -> (res: Option<ServerEvent>)
        requires
            old(self).well_formed(),
        ensures
            final(self).well_formed(),
            login_request_post(
                *old(self),
                *final(self),
                rows_view(rows@),
                login_info.username@,
                login_info.password@,
                ip_src,
                session_id,
                res,
            ),
    {
        match decide_login(rows, login_info) {
            LoginDecision::Register => None,
            LoginDecision::Reject => Some(
                ServerEvent::AuthenticationReject { reason: String::from_str("Incorrect username or password.") },
            ),
            LoginDecision::Accept { user } => {
                let ghost g = user;
                let ghost pre = *self;
                let reply = self.login_with_session_id(user, ip_src, session_id);
                proof {
                    assert(login_post(pre, *self, g, ip_src, session_id));
                }
                Some(reply)
            },
        }
    }

    /// `login` with the session ID given.
    pub fn login_with_session_id(&mut self, user: User, ip_src: IpAddress, session_id: usize) -> (res: ServerEvent)
        requires
            old(self).well_formed(),
        ensures
            login_post(*old(self), *final(self), user, ip_src, session_id),
            res matches ServerEvent::AuthenticationAccept { user: u, new_user } && !new_user
                && u.username@ == user.username@ && u.user_id == user.user_id
                && u.current_room_name@ == user.current_room_name@,
    {
        let user_id = user.user_id;
        let session = Session::new(ip_src, session_id, user_id);
        let reply_user = user.clone();
        let name = user.username.clone();
        let ghost user_v = user;
        self.user_id_map.insert(user_id, (user, session));
        self.username_map.insert(name, user_id);
        let global = String::from_str("Global");
        match self.room_store.get_room_from_name(&global) {
            Some(id) => {
                self.connect_to_room(id, session);
                self.user_room_map.insert(user_id, global);
            },
            None => {},
        }
        ServerEvent::AuthenticationAccept { user: reply_user, new_user: false }
    }
}

/// What a login request does, given the rows of the user lookup: a user
/// without a row gets no answer yet (it is to be recorded first); a user
/// whose own row does not store the digest given is refused and nothing
/// changes; otherwise the user of the row is logged in and accepted.
pub open spec fn login_request_post(
    pre: Server,
    post: Server,
    rows: Seq<Seq<DbValue>>,
    name: Seq<char>,
    password: Seq<char>,
    ip: IpAddress,
    session_id: usize,
    res: Option<ServerEvent>,
) -> bool {
    match login_verdict(rows, name, password) {
        LoginVerdict::Register => res is None && post == pre,
        LoginVerdict::Reject => (res matches Some(ServerEvent::AuthenticationReject { .. })) && post == pre,
        LoginVerdict::Accept(i) => {
            let row = rows[i];
            &&& res matches Some(ServerEvent::AuthenticationAccept { user: u, new_user }) && !new_user
                && u.user_id == integer_at(row, UID_COLUMN as int)->0 as usize
                && u.username@ == text_at(row, USERNAME_COLUMN as int)->0
                && u.current_room_name@ == text_at(row, ROOM_COLUMN as int)->0
            &&& exists|user: User|
                #![trigger login_post(pre, post, user, ip, session_id)]
                login_post(pre, post, user, ip, session_id)
                    && user.user_id == integer_at(row, UID_COLUMN as int)->0 as usize
                    && user.username@ == text_at(row, USERNAME_COLUMN as int)->0
                    && user.current_room_name@ == text_at(row, ROOM_COLUMN as int)->0
        },
    }
}

/// What a login of `user` from `ip` with session `session_id` does to the
/// server state.
pub open spec fn login_post(pre: Server, post: Server, user: User, ip: IpAddress, session_id: usize) -> bool {
    let session = session_for(ip, session_id, user.user_id);
    let global = "Global"@;
    &&& post.well_formed()
    &&& post.user_id_map@ == pre.user_id_map@.insert(user.user_id, (user, session))
    &&& post.username_map@ == pre.username_map@.insert(user.username@, user.user_id)
    &&& if has_room_named(pre.room_store.rooms@, global) {
        let id = room_named(pre.room_store.rooms@, global);
        &&& post.room_store.rooms@.dom() == pre.room_store.rooms@.dom()
        &&& room_with_session(pre.room_store.rooms@[id], post.room_store.rooms@[id], session)
        &&& forall|k: usize| k != id ==> #[trigger] post.room_store.rooms@.get(k) == pre.room_store.rooms@.get(k)
        &&& post.user_room_map@.dom() == pre.user_room_map@.dom().insert(user.user_id)
        &&& post.user_room_map@[user.user_id]@ == global
        &&& forall|k: usize| k != user.user_id ==> #[trigger] post.user_room_map@.get(k) == pre.user_room_map@.get(k)
    } else {
        &&& post.room_store.rooms@ == pre.room_store.rooms@
        &&& post.user_room_map@ == pre.user_room_map@
    }
}

/// The text a room receives when `contents` is broadcast by the user
/// `originator_id` called `originator_name`: the user ID 0 is the server
/// itself.
pub open spec fn broadcast_text(contents: Seq<char>, originator_id: usize, originator_name: Seq<char>) -> Seq<char> {
    if originator_id != 0 {
        originator_name + ": "@ + trim_ascii(contents)
    } else {
        "SERVER: "@ + trim_ascii(contents)
    }
}

/// `new_room` is `old_room` with `text` added to the end of its history.
pub open spec fn room_with_message(old_room: Room, new_room: Room, text: Seq<char>) -> bool {
    &&& new_room.messages@ == old_room.messages@.push(new_room.messages@.last())
    &&& new_room.messages@.last()@ == text
    &&& new_room.connections == old_room.connections
    &&& new_room.name == old_room.name
    &&& new_room.id == old_room.id
}

/// Broadcasts `contents` from `originator` to every session in `room` and
/// records it in the room's history: an empty message is dropped, anything
/// else is trimmed of ASCII whitespace and prefixed with the sender's name
/// (or "SERVER" for the server itself).
pub fn handle_broadcast(contents: &String, originator: &User, room: &mut Room) -> (res: Vec<Delivery>)
    ensures
        contents@.len() == 0 ==> res@.len() == 0 && *final(room) == *old(room),
        contents@.len() > 0 ==> broadcasts_to(
            res@,
            old(room).connections@,
            broadcast_text(contents@, originator.user_id, originator.username@),
        ) && room_with_message(
            *old(room),
            *final(room),
            broadcast_text(contents@, originator.user_id, originator.username@),
        ),
{
    if contents.as_str().is_empty() {
        return Vec::new();
    }
    let trimmed = trim_ascii_string(contents.as_str());
    let formatted = if originator.user_id != 0 {
        concat3(originator.username.as_str(), ": ", trimmed.as_str())
    } else {
        concat2("SERVER: ", trimmed.as_str())
    };
    proof {
        assert(formatted@ =~= broadcast_text(contents@, originator.user_id, originator.username@));
    }
    room.new_message(formatted)
}

/// The two deliveries of a private message from `from` to `to`: the
/// recipient's session gets "From <sender>: <message>", the sender's own
/// session gets "To <recipient>: <message>".
pub fn handle_pm(to: String, from: &User, message: String, to_session: Session, from_session: Session) -> (res: Vec<Delivery>)
    ensures
        pm_deliveries(res@, to@, from.username@, message@, to_session, from_session),
{
    let from_formatted = concat2(concat3("From ", from.username.as_str(), ": ").as_str(), message.as_str());
    let to_formatted = concat2(concat3("To ", to.as_str(), ": ").as_str(), message.as_str());
    let mut res: Vec<Delivery> = Vec::new();
    res.push(Delivery {
        user_id: to_session.session_info.uid_connected,
        session_id: to_session.session_info.session_id,
        event: ServerEvent::DirectMessageExternal { to: to.clone(), from: from.username.clone(), contents: from_formatted },
    });
    res.push(Delivery {
        user_id: from_session.session_info.uid_connected,
        session_id: from_session.session_info.session_id,
        event: ServerEvent::DirectMessageExternal { to, from: from.username.clone(), contents: to_formatted },
    });
    res
}

/// `res` holds the recipient's copy of a private message, then the sender's.
pub open spec fn pm_deliveries(res: Seq<Delivery>, to: Seq<char>, from_name: Seq<char>, message: Seq<char>, to_session: Session, from_session: Session) -> bool {
    &&& res.len() == 2
    &&& res[0].user_id == to_session.session_info.uid_connected
    &&& res[0].session_id == to_session.session_info.session_id
    &&& res[0].event matches ServerEvent::DirectMessageExternal { to: t, from: f, contents: c }
        && t@ == to && f@ == from_name && c@ == "From "@ + from_name + ": "@ + message
    &&& res[1].user_id == from_session.session_info.uid_connected
    &&& res[1].session_id == from_session.session_info.session_id
    &&& res[1].event matches ServerEvent::DirectMessageExternal { to: t, from: f, contents: c }
        && t@ == to && f@ == from_name && c@ == "To "@ + to + ": "@ + message
}

/// What the server loop does with one event: the events to deliver, and
/// whether to shut down.
#[derive(Debug)]
pub struct EventOutcome {
    pub deliveries: Vec<Delivery>,
    pub shutdown: bool,
}

impl Server {
    /// The ID of the room that a chat message from `from` is broadcast in:
    /// the room named by the room record of the user stored under `from`.
    pub open spec fn chat_room(&self, from: usize) -> Option<usize> {
        if self.user_id_map@.contains_key(from) {
            let uid = self.user_id_map@[from].0.user_id;
            if self.user_room_map@.contains_key(uid) && has_room_named(self.room_store.rooms@, self.user_room_map@[uid]@) {
                Some(room_named(self.room_store.rooms@, self.user_room_map@[uid]@))
            } else {
                None
            }
        } else {
            None
        }
    }

    /// A chat message from the user `from`, broadcast to the room that user
    /// is in and recorded in that room's history. Nothing is sent when the
    /// user, its room record or the room is missing, or when the message is
    /// empty.
    pub fn handle_chat_message(&mut self, from: usize, contents: String) -> (res: Vec<Delivery>)
        requires
            old(self).well_formed(),
        ensures
            chat_post(*old(self), *final(self), from, contents@, res@),
    {
        let user = match self.user_id_map.get(&from) {
            Some(entry) => entry.0.clone(),
            None => {
                return Vec::new();
            },
        };
        let room_name = match self.user_room_map.get(&user.user_id) {
            Some(r) => r.clone(),
            None => {
                return Vec::new();
            },
        };
        let id = match self.room_store.get_room_from_name(&room_name) {
            Some(id) => id,
            None => {
                return Vec::new();
            },
        };
        self.broadcast_in_room(id, &contents, &user)
    }

    /// The ID of the room that the user `uid` leaves when it disconnects.
    pub open spec fn disconnect_room(&self, uid: usize) -> Option<usize> {
        if self.user_room_map@.contains_key(uid) && self.user_id_map@.contains_key(uid)
            && has_room_named(self.room_store.rooms@, self.user_room_map@[uid]@) {
            Some(room_named(self.room_store.rooms@, self.user_room_map@[uid]@))
        } else {
            None
        }
    }

    /// A disconnected user: its session leaves the room it was in, the
    /// sessions that remain are told "SERVER: <name> has disconnected." (which
    /// the room's history records), and the user is forgotten: it leaves the
    /// map of user IDs, the map of usernames and the map of rooms.
    pub fn handle_user_disconnected(&mut self, user: &User) -> (res: Vec<Delivery>)
        requires
            old(self).well_formed(),
        ensures
            disconnect_post(*old(self), *final(self), user.user_id, user.username@, res@),
    {
        let res = self.leave_room(user);
        self.user_id_map.remove(&user.user_id);
        self.username_map.remove(user.username.as_str());
        self.user_room_map.remove(&user.user_id);
        res
    }

    /// The room part of a disconnect: the session leaves its room and the
    /// others are told. Nothing happens when the user's room record, its
    /// session or its room is missing.
    fn leave_room(&mut self, user: &User) -> (res: Vec<Delivery>)
        requires
            old(self).well_formed(),
        ensures
            leave_post(*old(self), *final(self), user.user_id, user.username@, res@),
    {
        let room_name = match self.user_room_map.get(&user.user_id) {
            Some(r) => r.clone(),
            None => {
                return Vec::new();
            },
        };
        let session = match self.get_session_from_uid(user.user_id) {
            Some(s) => s,
            None => {
                return Vec::new();
            },
        };
        let id = match self.room_store.get_room_from_name(&room_name) {
            Some(id) => id,
            None => {
                return Vec::new();
            },
        };
        let ghost pre = *self;
        self.disconnect_from_room(id, session);
        let ghost mid = *self;
        let server_identity = User::new(String::from_str("Server"), 0);
        let text = concat2(user.username.as_str(), " has disconnected.");
        proof {
            assert(text@ =~= user.username@ + " has disconnected."@);
            assert(text@.len() > 0) by {
                reveal_strlit(" has disconnected.");
            }
        }
        let res = self.broadcast_in_room(id, &text, &server_identity);
        proof {
            assert forall|k: usize| k != id implies #[trigger] self.room_store.rooms@.get(k) == pre.room_store.rooms@.get(k) by {
                assert(mid.room_store.rooms@.get(k) == pre.room_store.rooms@.get(k));
            }
        }
        res
    }

    /// A private message from the user `from` to the user called `to`. The
    /// recipient's session and the sender's get a copy each; nothing is sent
    /// when the sender is not logged in or no session belongs to `to`.
    pub fn handle_private_message(&self, to: String, from: usize, contents: String) -> (res: Vec<Delivery>)
        requires
            self.well_formed(),
        ensures
            !(self.user_id_map@.contains_key(from) && self.session_of_username(to@) is Some) ==> res@.len() == 0,
            self.user_id_map@.contains_key(from) && self.session_of_username(to@) is Some ==> pm_deliveries(
                res@,
                to@,
                self.user_id_map@[from].0.username@,
                contents@,
                self.session_of_username(to@)->0,
                self.user_id_map@[from].1,
            ),
    {
        let user_from = match self.user_id_map.get(&from) {
            Some(u) => u.0.clone(),
            None => {
                return Vec::new();
            },
        };
        let to_session = match self.get_session_from_username(&to) {
            Some(s) => s,
            None => {
                return Vec::new();
            },
        };
        let from_session = match self.user_id_map.get(&from) {
            Some(entry) => entry.1,
            None => {
                return Vec::new();
            },
        };
        handle_pm(to, &user_from, contents, to_session, from_session)
    }

    /// Moves the session of `user_id` from the room `old_room_name` to the
    /// room `new_room_name`, stopping at the first step that fails:
    /// without a session or an old room nothing changes; when the session is
    /// not in the old room nothing changes; when the new room is missing the
    /// session has already left the old room.
    pub fn handle_room_change(&mut self, new_room_name: String, old_room_name: String, user_id: usize)
        requires
            old(self).well_formed(),
        ensures
            room_change_post(*old(self), *final(self), new_room_name@, old_room_name@, user_id),
    {
        let session = match self.user_id_map.get(&user_id) {
            Some(entry) => entry.1,
            None => {
                return;
            },
        };
        let old_id = match self.room_store.get_room_from_name(&old_room_name) {
            Some(id) => id,
            None => {
                return;
            },
        };
        let ghost pre = *self;
        if self.disconnect_from_room(old_id, session).is_none() {
            return;
        }
        let ghost mid = *self;
        proof {
            assert forall|k: usize| #[trigger] mid.room_store.rooms@.contains_key(k) implies pre.room_store.rooms@.contains_key(k)
                && mid.room_store.rooms@[k].name == pre.room_store.rooms@[k].name by {
                if k != old_id {
                    assert(mid.room_store.rooms@.get(k) == pre.room_store.rooms@.get(k));
                }
            }
            assert forall|k: usize| #[trigger] pre.room_store.rooms@.contains_key(k) implies mid.room_store.rooms@.contains_key(k) by {}
        }
        let new_id = match self.room_store.get_room_from_name(&new_room_name) {
            Some(id) => id,
            None => {
                proof {
                    if has_room_named(pre.room_store.rooms@, new_room_name@) {
                        let k = choose|k: usize| #[trigger] pre.room_store.rooms@.contains_key(k) && pre.room_store.rooms@[k].name@ == new_room_name@;
                        assert(mid.room_store.rooms@.contains_key(k));
                    }
                }
                return;
            },
        };
        proof {
            assert(pre.room_store.rooms@.contains_key(new_id));
            assert(pre.room_store.rooms@[new_id].name@ == new_room_name@);
        }
        self.user_room_map.insert(user_id, new_room_name);
        self.connect_to_room(new_id, session);
        proof {
            let post = *self;
            assert(post.user_room_map@.dom() =~= pre.user_room_map@.dom().insert(user_id));
            assert(post.user_room_map@[user_id]@ == new_room_name@);
            assert(post.room_store.rooms@.dom() =~= pre.room_store.rooms@.dom());
            if new_id == old_id {
                assert(post.room_store.rooms@[old_id].connections@ =~= pre.room_store.rooms@[old_id].connections@.insert(
                    session.session_info.uid_connected, session));
            } else {
                assert(mid.room_store.rooms@.get(new_id) == pre.room_store.rooms@.get(new_id));
                assert(post.room_store.rooms@.get(old_id) == mid.room_store.rooms@.get(old_id));
                assert(room_without_session(pre.room_store.rooms@[old_id], post.room_store.rooms@[old_id], session.session_info.uid_connected));
                assert(room_with_session(pre.room_store.rooms@[new_id], post.room_store.rooms@[new_id], session));
            }
            assert forall|k: usize| k != old_id && k != new_id implies #[trigger] post.room_store.rooms@.get(k) == pre.room_store.rooms@.get(k) by {
                assert(mid.room_store.rooms@.get(k) == pre.room_store.rooms@.get(k));
            }
            assert(new_id == room_named(pre.room_store.rooms@, new_room_name@));
            assert(old_id == room_named(pre.room_store.rooms@, old_room_name@));
        }
    }

    /// Applies one event of the server loop other than a login request,
    /// which needs the user database first (see `login`).
    pub fn handle_event(&mut self, event: ServerEvent) -> (res: EventOutcome)
        requires
            old(self).well_formed(),
        ensures
            final(self).well_formed(),
            res.shutdown <==> event is Shutdown,
            match event {
                ServerEvent::ChatMessageReceive { .. } | ServerEvent::UserDisconnected { .. } | ServerEvent::PrivateMessage { .. } | ServerEvent::RoomChange { .. } => true,
                _ => res.deliveries@.len() == 0 && *final(self) == *old(self),
            },
            event matches ServerEvent::ChatMessageReceive { from, contents } ==> chat_post(
                *old(self),
                *final(self),
                from,
                contents@,
                res.deliveries@,
            ),
            event matches ServerEvent::PrivateMessage { to, from, contents } ==> {
                &&& *final(self) == *old(self)
                &&& !(old(self).user_id_map@.contains_key(from) && old(self).session_of_username(to@) is Some) ==> res.deliveries@.len() == 0
                &&& old(self).user_id_map@.contains_key(from) && old(self).session_of_username(to@) is Some ==> pm_deliveries(
                    res.deliveries@,
                    to@,
                    old(self).user_id_map@[from].0.username@,
                    contents@,
                    old(self).session_of_username(to@)->0,
                    old(self).user_id_map@[from].1,
                )
            },
            event matches ServerEvent::RoomChange { new_room_name, old_room_name, user_id } ==> {
                &&& res.deliveries@.len() == 0
                &&& room_change_post(*old(self), *final(self), new_room_name@, old_room_name@, user_id)
            },
            event matches ServerEvent::UserDisconnected { user } ==> disconnect_post(
                *old(self),
                *final(self),
                user.user_id,
                user.username@,
                res.deliveries@,
            ),
    {
        match event {
            ServerEvent::ChatMessageReceive { from, contents } => {
                EventOutcome { deliveries: self.handle_chat_message(from, contents), shutdown: false }
            },
            ServerEvent::UserDisconnected { user } => {
                EventOutcome { deliveries: self.handle_user_disconnected(&user), shutdown: false }
            },
            ServerEvent::PrivateMessage { to, from, contents } => {
                EventOutcome { deliveries: self.handle_private_message(to, from, contents), shutdown: false }
            },
            ServerEvent::RoomChange { new_room_name, old_room_name, user_id } => {
                self.handle_room_change(new_room_name, old_room_name, user_id);
                EventOutcome { deliveries: Vec::new(), shutdown: false }
            },
            ServerEvent::Shutdown => EventOutcome { deliveries: Vec::new(), shutdown: true },
            _ => EventOutcome { deliveries: Vec::new(), shutdown: false },
        }
    }
}

/// What a room change of `uid` from `old_name` to `new_name` does to the
/// server state.
pub open spec fn room_change_post(pre: Server, post: Server, new_name: Seq<char>, old_name: Seq<char>, uid: usize) -> bool {
    let rooms = pre.room_store.rooms@;
    &&& post.well_formed()
    &&& post.user_id_map == pre.user_id_map
    &&& post.username_map == pre.username_map
    &&& if !pre.user_id_map@.contains_key(uid) || !has_room_named(rooms, old_name) {
        post == pre
    } else {
        let session = pre.user_id_map@[uid].1;
        let old_id = room_named(rooms, old_name);
        if !rooms[old_id].connections@.contains_key(session.session_info.uid_connected) {
            post.room_store.rooms@ == rooms && post.user_room_map == pre.user_room_map
        } else if !has_room_named(rooms, new_name) {
            &&& post.user_room_map == pre.user_room_map
            &&& post.room_store.rooms@.dom() == rooms.dom()
            &&& room_without_session(rooms[old_id], post.room_store.rooms@[old_id], session.session_info.uid_connected)
            &&& forall|k: usize| k != old_id ==> #[trigger] post.room_store.rooms@.get(k) == rooms.get(k)
        } else {
            let new_id = room_named(rooms, new_name);
            &&& post.user_room_map@.dom() == pre.user_room_map@.dom().insert(uid)
            &&& post.user_room_map@[uid]@ == new_name
            &&& forall|k: usize| k != uid ==> #[trigger] post.user_room_map@.get(k) == pre.user_room_map@.get(k)
            &&& post.room_store.rooms@.dom() == rooms.dom()
            &&& if new_id == old_id {
                &&& post.room_store.rooms@[old_id].connections@ == rooms[old_id].connections@.insert(
                    session.session_info.uid_connected,
                    session,
                )
                &&& post.room_store.rooms@[old_id].name == rooms[old_id].name
            } else {
                &&& room_without_session(rooms[old_id], post.room_store.rooms@[old_id], session.session_info.uid_connected)
                &&& room_with_session(rooms[new_id], post.room_store.rooms@[new_id], session)
            }
            &&& forall|k: usize| k != old_id && k != new_id ==> #[trigger] post.room_store.rooms@.get(k) == rooms.get(k)
        }
    }
}

/// What a chat message `contents` from the user `from` does to the server
/// state, and what it sends.
pub open spec fn chat_post(pre: Server, post: Server, from: usize, contents: Seq<char>, res: Seq<Delivery>) -> bool {
    &&& post.well_formed()
    &&& post.user_id_map == pre.user_id_map
    &&& post.username_map == pre.username_map
    &&& post.user_room_map == pre.user_room_map
    &&& match pre.chat_room(from) {
        None => res.len() == 0 && post.room_store.rooms@ == pre.room_store.rooms@,
        Some(id) => {
            let user = pre.user_id_map@[from].0;
            let text = broadcast_text(contents, user.user_id, user.username@);
            if contents.len() == 0 {
                res.len() == 0 && post.room_store.rooms@ == pre.room_store.rooms@
            } else {
                &&& broadcasts_to(res, pre.room_store.rooms@[id].connections@, text)
                &&& post.room_store.rooms@.dom() == pre.room_store.rooms@.dom()
                &&& room_with_message(pre.room_store.rooms@[id], post.room_store.rooms@[id], text)
                &&& forall|k: usize| k != id ==> #[trigger] post.room_store.rooms@.get(k) == pre.room_store.rooms@.get(k)
            }
        },
    }
}

/// The text the room of a disconnected user called `name` receives.
pub open spec fn disconnect_text(name: Seq<char>) -> Seq<char> {
    "SERVER: "@ + trim_ascii(name + " has disconnected."@)
}

/// What the room part of a disconnection of the user `uid` called `name`
/// does to the rooms, and what it sends.
pub open spec fn leave_post(pre: Server, post: Server, uid: usize, name: Seq<char>, res: Seq<Delivery>) -> bool {
    &&& post.well_formed()
    &&& post.user_id_map == pre.user_id_map
    &&& post.username_map == pre.username_map
    &&& post.user_room_map == pre.user_room_map
    &&& rooms_after_leave(pre, post, uid, name, res)
}

/// The rooms after the user `uid` called `name` leaves its room.
pub open spec fn rooms_after_leave(pre: Server, post: Server, uid: usize, name: Seq<char>, res: Seq<Delivery>) -> bool {
    match pre.disconnect_room(uid) {
        None => res.len() == 0 && post.room_store.rooms@ == pre.room_store.rooms@,
        Some(id) => {
            let session = pre.user_id_map@[uid].1;
            let before = pre.room_store.rooms@[id];
            let after = post.room_store.rooms@[id];
            &&& post.room_store.rooms@.dom() == pre.room_store.rooms@.dom()
            &&& after.connections@ == before.connections@.remove(session.session_info.uid_connected)
            &&& after.name == before.name
            &&& after.id == before.id
            &&& after.messages@ == before.messages@.push(after.messages@.last())
            &&& after.messages@.last()@ == disconnect_text(name)
            &&& forall|k: usize| k != id ==> #[trigger] post.room_store.rooms@.get(k) == pre.room_store.rooms@.get(k)
            &&& broadcasts_to(res, after.connections@, disconnect_text(name))
        },
    }
}

/// What the disconnection of the user `uid` called `name` does to the
/// server state, and what it sends: the user leaves its room and is
/// forgotten.
pub open spec fn disconnect_post(pre: Server, post: Server, uid: usize, name: Seq<char>, res: Seq<Delivery>) -> bool {
    &&& post.well_formed()
    &&& post.user_id_map@ == pre.user_id_map@.remove(uid)
    &&& post.username_map@ == pre.username_map@.remove(name)
    &&& post.user_room_map@ == pre.user_room_map@.remove(uid)
    &&& rooms_after_leave(pre, post, uid, name, res)
}

/// A chat message from a logged-in user goes to the room that the server
/// records the user as being in: every session of that room gets it once,
/// no other session gets it, that room's history records it, and no other
/// room changes.
pub proof fn lemma_chat_in_senders_room(pre: Server, post: Server, from: usize, contents: Seq<char>, res: Seq<Delivery>)
    requires
        pre.well_formed(),
        chat_post(pre, post, from, contents, res),
        pre.user_id_map@.contains_key(from),
        pre.user_room_map@.contains_key(from),
        has_room_named(pre.room_store.rooms@, pre.user_room_map@[from]@),
        contents.len() > 0,
    ensures
        ({
            let id = room_named(pre.room_store.rooms@, pre.user_room_map@[from]@);
            let user = pre.user_id_map@[from].0;
            let text = broadcast_text(contents, user.user_id, user.username@);
            &&& pre.room_store.rooms@.contains_key(id)
            &&& pre.room_store.rooms@[id].name@ == pre.user_room_map@[from]@
            &&& forall|uid: usize| pre.room_store.rooms@[id].connections@.contains_key(uid) <==> exists|k: int|
                0 <= k < res.len() && #[trigger] res[k].user_id == uid
            &&& forall|k: int| 0 <= k < res.len() ==> ((#[trigger] res[k]).event matches ServerEvent::Message { contents: c } && c@ == text)
            &&& post.room_store.rooms@[id].messages@.len() == pre.room_store.rooms@[id].messages@.len() + 1
            &&& post.room_store.rooms@[id].messages@.last()@ == text
            &&& post.room_store.rooms@[id].connections == pre.room_store.rooms@[id].connections
            &&& forall|k: usize| k != id ==> #[trigger] post.room_store.rooms@.get(k) == pre.room_store.rooms@.get(k)
        }),
{
    let id = room_named(pre.room_store.rooms@, pre.user_room_map@[from]@);
    assert(pre.user_id_map@[from].0.user_id == from);
    assert(pre.chat_room(from) == Some(id));
}

/// A chat message sent after a room change that went through goes to the
/// new room, which now holds the sender's session, and is recorded there.
pub proof fn lemma_chat_after_room_change(
    s0: Server,
    s1: Server,
    s2: Server,
    new_name: Seq<char>,
    old_name: Seq<char>,
    uid: usize,
    contents: Seq<char>,
    res: Seq<Delivery>,
)
    requires
        s0.well_formed(),
        room_change_post(s0, s1, new_name, old_name, uid),
        chat_post(s1, s2, uid, contents, res),
        s0.user_id_map@.contains_key(uid),
        has_room_named(s0.room_store.rooms@, old_name),
        s0.room_store.rooms@[room_named(s0.room_store.rooms@, old_name)].connections@.contains_key(uid),
        has_room_named(s0.room_store.rooms@, new_name),
        contents.len() > 0,
    ensures
        ({
            let id = room_named(s1.room_store.rooms@, new_name);
            let user = s1.user_id_map@[uid].0;
            let text = broadcast_text(contents, user.user_id, user.username@);
            &&& s1.room_store.rooms@.contains_key(id)
            &&& s1.room_store.rooms@[id].name@ == new_name
            &&& s1.room_store.rooms@[id].connections@.contains_key(uid)
            &&& broadcasts_to(res, s1.room_store.rooms@[id].connections@, text)
            &&& s2.room_store.rooms@[id].messages@.last()@ == text
            &&& s2.room_store.rooms@[id].messages@.len() == s1.room_store.rooms@[id].messages@.len() + 1
        }),
{
    let rooms = s0.room_store.rooms@;
    let old_id = room_named(rooms, old_name);
    let new_id = room_named(rooms, new_name);
    assert(s0.user_id_map@[uid].1.session_info.uid_connected == uid);
    lemma_room_change_moves(s0, s1, new_name, old_name, uid);
    assert(s1.room_store.rooms@.contains_key(new_id));
    assert(s1.room_store.rooms@[new_id].name == rooms[new_id].name);
    assert(has_room_named(s1.room_store.rooms@, new_name));
    let id = room_named(s1.room_store.rooms@, new_name);
    assert(id == new_id);
    assert(s1.user_room_map@.contains_key(uid));
    assert(s1.user_id_map@[uid].0.user_id == uid);
    lemma_chat_in_senders_room(s1, s2, uid, contents, res);
}

/// A disconnect takes the user's session out of the room the server records
/// the user as being in, tells exactly the sessions left there, records the
/// notice in that room's history, and leaves every other room alone.
pub proof fn lemma_disconnect_leaves_own_room(pre: Server, post: Server, uid: usize, name: Seq<char>, res: Seq<Delivery>)
    requires
        pre.well_formed(),
        disconnect_post(pre, post, uid, name, res),
        pre.user_id_map@.contains_key(uid),
        pre.user_room_map@.contains_key(uid),
        has_room_named(pre.room_store.rooms@, pre.user_room_map@[uid]@),
    ensures
        ({
            let id = room_named(pre.room_store.rooms@, pre.user_room_map@[uid]@);
            &&& pre.room_store.rooms@.contains_key(id)
            &&& pre.room_store.rooms@[id].name@ == pre.user_room_map@[uid]@
            &&& !post.room_store.rooms@[id].connections@.contains_key(uid)
            &&& post.room_store.rooms@[id].connections@ == pre.room_store.rooms@[id].connections@.remove(uid)
            &&& forall|u: usize| post.room_store.rooms@[id].connections@.contains_key(u) <==> exists|k: int|
                0 <= k < res.len() && #[trigger] res[k].user_id == u
            &&& forall|k: int| 0 <= k < res.len() ==> ((#[trigger] res[k]).event matches ServerEvent::Message { contents: c }
                && c@ == "SERVER: "@ + trim_ascii(name + " has disconnected."@))
            &&& post.room_store.rooms@[id].messages@.len() == pre.room_store.rooms@[id].messages@.len() + 1
            &&& post.room_store.rooms@[id].messages@.last()@ == "SERVER: "@ + trim_ascii(name + " has disconnected."@)
            &&& forall|k: usize| k != id ==> #[trigger] post.room_store.rooms@.get(k) == pre.room_store.rooms@.get(k)
        }),
{
    let id = room_named(pre.room_store.rooms@, pre.user_room_map@[uid]@);
    assert(pre.disconnect_room(uid) == Some(id));
    assert(pre.user_id_map@[uid].1.session_info.uid_connected == uid);
}

/// After a disconnect the user has no session any more, neither by its ID
/// nor by its name.
pub proof fn lemma_disconnect_forgets(pre: Server, post: Server, uid: usize, name: Seq<char>, res: Seq<Delivery>)
    requires
        disconnect_post(pre, post, uid, name, res),
    ensures
        post.session_of_uid(uid) is None,
        post.session_of_username(name) is None,
{
}

/// A login whose digest differs from the one stored in the user's own row
/// is answered with a refusal and changes nothing.
pub proof fn lemma_wrong_password_changes_nothing(
    pre: Server,
    post: Server,
    rows: Seq<Seq<DbValue>>,
    name: Seq<char>,
    password: Seq<char>,
    ip: IpAddress,
    session_id: usize,
    res: Option<ServerEvent>,
    i: int,
)
    requires
        login_request_post(pre, post, rows, name, password, ip, session_id, res),
        first_own_row(rows, name) == Some(i),
        text_at(rows[i], PASSWORD_COLUMN as int) != Some(password),
    ensures
        post == pre,
        res matches Some(ServerEvent::AuthenticationReject { .. }),
{
    crate::db::lemma_wrong_password_rejected(rows, name, password, i);
}

/// After a login, the new session is found both by the user's ID and by
/// the user's name.
pub proof fn lemma_login_then_lookup(pre: Server, post: Server, user: User, ip: IpAddress, session_id: usize)
    requires
        login_post(pre, post, user, ip, session_id),
    ensures
        post.session_of_uid(user.user_id) == Some(session_for(ip, session_id, user.user_id)),
        post.session_of_username(user.username@) == Some(session_for(ip, session_id, user.user_id)),
{
}

/// After a login, when a room "Global" exists, the user's session is in it
/// and the user is recorded as being in it.
pub proof fn lemma_login_joins_global(pre: Server, post: Server, user: User, ip: IpAddress, session_id: usize)
    requires
        pre.well_formed(),
        login_post(pre, post, user, ip, session_id),
        has_room_named(pre.room_store.rooms@, "Global"@),
    ensures
        has_room_named(post.room_store.rooms@, "Global"@),
        post.room_store.rooms@[room_named(post.room_store.rooms@, "Global"@)].connections@.contains_key(user.user_id),
        post.user_room_map@[user.user_id]@ == "Global"@,
{
    let id = room_named(pre.room_store.rooms@, "Global"@);
    assert(post.room_store.rooms@.contains_key(id));
    assert(post.room_store.rooms@[id].name == pre.room_store.rooms@[id].name);
    let pid = room_named(post.room_store.rooms@, "Global"@);
    assert(pid == id);
}

/// A room message reaches every session in the room, the sender's own
/// included, and no session outside it.
pub proof fn lemma_broadcast_reaches_members(res: Seq<Delivery>, conns: Map<usize, Session>, text: Seq<char>, uid: usize)
    requires
        broadcasts_to(res, conns, text),
    ensures
        conns.contains_key(uid) <==> exists|k: int| 0 <= k < res.len() && #[trigger] res[k].user_id == uid,
{
}

/// The user who disconnects is not told of it: the notice reaches only the
/// sessions left in the room.
pub proof fn lemma_disconnected_not_told(pre: Server, post: Server, uid: usize, name: Seq<char>, res: Seq<Delivery>)
    requires
        disconnect_post(pre, post, uid, name, res),
        pre.user_id_map@.contains_key(uid),
    ensures
        forall|k: int| 0 <= k < res.len() ==> #[trigger] res[k].user_id != pre.user_id_map@[uid].1.session_info.uid_connected,
{
}

/// After a room change that goes through, the session is in the new room
/// and the user is recorded there; it has left the old room when the two
/// differ.
pub proof fn lemma_room_change_moves(pre: Server, post: Server, new_name: Seq<char>, old_name: Seq<char>, uid: usize)
    requires
        pre.well_formed(),
        room_change_post(pre, post, new_name, old_name, uid),
        pre.user_id_map@.contains_key(uid),
        has_room_named(pre.room_store.rooms@, old_name),
        pre.room_store.rooms@[room_named(pre.room_store.rooms@, old_name)].connections@.contains_key(
            pre.user_id_map@[uid].1.session_info.uid_connected,
        ),
        has_room_named(pre.room_store.rooms@, new_name),
    ensures
        post.user_room_map@[uid]@ == new_name,
        post.room_store.rooms@[room_named(pre.room_store.rooms@, new_name)].connections@.contains_key(
            pre.user_id_map@[uid].1.session_info.uid_connected,
        ),
        new_name != old_name ==> !post.room_store.rooms@[room_named(pre.room_store.rooms@, old_name)].connections@.contains_key(
            pre.user_id_map@[uid].1.session_info.uid_connected,
        ),
{
    let rooms = pre.room_store.rooms@;
    let old_id = room_named(rooms, old_name);
    let new_id = room_named(rooms, new_name);
    if new_name != old_name {
        assert(new_id != old_id);
    }
}

} // verus!
