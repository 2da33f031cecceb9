//! Why every operation keeps the server's state well-formed.
use crate::clock::Timestamp;
use crate::entity::message::{ClientMessageView, EnvelopeView};
use crate::model::{general_room, ServerView, UserView};
use crate::room::{MessageView, RoomView};
use vstd::prelude::*;

verus! {

impl ServerView {
    /// The state that a server starts in is well-formed.
    pub proof fn lemma_initial_wf()
        ensures
            ServerView::initial().wf(),
    {
        let start = ServerView::initial();
        assert(start.rooms[0] == RoomView::empty(general_room()));
        assert forall|i: int| 0 <= i < start.rooms.len() implies (#[trigger] start.rooms[i]).wf() by {
            assert(i == 0);
        }
        assert forall|i: int, id: Seq<char>|
            0 <= i < start.rooms.len() implies !#[trigger] start.rooms[i].has_member(id) by {
            assert(i == 0);
        }
    }

    /// A room is found under its name, at its own place.
    pub proof fn lemma_room_at(self, i: int)
        requires
            self.rooms_wf(),
            0 <= i < self.rooms.len(),
        ensures
            self.has_room(self.rooms[i].name),
            self.room_index(self.rooms[i].name) == i,
            self.room(self.rooms[i].name) == self.rooms[i],
    {
        let name = self.rooms[i].name;
        let found = self.room_index(name);
        assert(0 <= found < self.rooms.len() && self.rooms[found].name == name);
    }

    /// A user is found under its id, at its own place.
    pub proof fn lemma_user_at(self, k: int)
        requires
            self.users_wf(),
            0 <= k < self.users.len(),
        ensures
            self.has_user(self.users[k].id),
            self.user_index(self.users[k].id) == k,
            self.user(self.users[k].id) == self.users[k],
    {
        let id = self.users[k].id;
        let found = self.user_index(id);
        assert(0 <= found < self.users.len() && self.users[found].id == id);
    }

    /// Where a name is looked up, if it is there at all.
    pub proof fn lemma_room_found(self, name: Seq<char>)
        requires
            self.has_room(name),
        ensures
            0 <= self.room_index(name) < self.rooms.len(),
            self.rooms[self.room_index(name)].name == name,
    {
    }

    /// Where an id is looked up, if it is there at all.
    pub proof fn lemma_user_found(self, id: Seq<char>)
        requires
            self.has_user(id),
        ensures
            0 <= self.user_index(id) < self.users.len(),
            self.users[self.user_index(id)].id == id,
    {
    }

    /// Putting a room of the same name at place `i` leaves every name where
    /// it was.
    pub proof fn lemma_with_room(self, i: int, room: RoomView)
        requires
            self.rooms_wf(),
            0 <= i < self.rooms.len(),
            room.name == self.rooms[i].name,
            room.wf(),
        ensures
            self.with_room(i, room).rooms_wf(),
            self.with_room(i, room).users == self.users,
            forall|name: Seq<char>| #[trigger]
                self.with_room(i, room).has_room(name) == self.has_room(name),
            forall|name: Seq<char>|
                self.has_room(name) ==> #[trigger] self.with_room(i, room).room_index(name)
                    == self.room_index(name),
    {
        let after = self.with_room(i, room);
        assert forall|j: int| 0 <= j < after.rooms.len() implies (#[trigger] after.rooms[j]).name
            == self.rooms[j].name by {}
        assert forall|name: Seq<char>| #[trigger] after.has_room(name) == self.has_room(name) by {
            if self.has_room(name) {
                let j = self.room_index(name);
                assert(after.rooms[j].name == name);
            }
            if after.has_room(name) {
                let j = after.room_index(name);
                assert(self.rooms[j].name == name);
            }
        }
        assert forall|name: Seq<char>| self.has_room(name) implies #[trigger] after.room_index(name)
            == self.room_index(name) by {
            let j = self.room_index(name);
            let l = after.room_index(name);
            assert(after.rooms[j].name == name);
            assert(after.rooms[l].name == name);
            assert(self.rooms[l].name == name);
        }
    }

    /// A room under a new name goes to the end and leaves every other name
    /// where it was.
    pub proof fn lemma_room_pushed(self, room: RoomView)
        requires
            self.rooms_wf(),
            !self.has_room(room.name),
            room.wf(),
        ensures
            self.with_new_room(room).rooms_wf(),
            forall|name: Seq<char>| #[trigger]
                self.with_new_room(room).has_room(name) == (
                self.has_room(name) || name == room.name),
            forall|name: Seq<char>|
                self.has_room(name) ==> #[trigger] self.with_new_room(room).room_index(name) == self.room_index(name),
    {
        let after = self.with_new_room(room);
        let last = self.rooms.len() as int;
        assert(after.rooms[last] == room);
        assert forall|j: int| 0 <= j < self.rooms.len() implies #[trigger] after.rooms[j]
            == self.rooms[j] by {}
        assert forall|i: int, j: int| 0 <= i < j < after.rooms.len() implies (
        #[trigger] after.rooms[i]).name != (#[trigger] after.rooms[j]).name by {
            if j == last {
                assert(self.rooms[i].name != room.name);
            }
        }
        assert forall|name: Seq<char>| #[trigger]
            after.has_room(name) == (self.has_room(name) || name == room.name) by {
            if self.has_room(name) {
                let j = self.room_index(name);
                assert(after.rooms[j].name == name);
            }
            if after.has_room(name) {
                let j = after.room_index(name);
                if j < last {
                    assert(self.rooms[j].name == name);
                }
            }
        }
        assert forall|name: Seq<char>| self.has_room(name) implies #[trigger] after.room_index(name)
            == self.room_index(name) by {
            let j = self.room_index(name);
            let l = after.room_index(name);
            assert(after.rooms[j].name == name);
            assert(after.rooms[l].name == name);
            if l < last {
                assert(self.rooms[l].name == name);
            }
        }
    }

    /// Taking the user at place `k` out of the user table leaves every other
    /// user findable, with the same record.
    pub proof fn lemma_user_removed(self, k: int)
        requires
            self.users_wf(),
            0 <= k < self.users.len(),
        ensures
            self.without_user(k).users_wf(),
            !self.without_user(k).has_user(self.users[k].id),
            forall|id: Seq<char>|
                id != self.users[k].id ==> #[trigger] self.without_user(k).has_user(id) == self.has_user(id),
            forall|id: Seq<char>|
                id != self.users[k].id && self.has_user(id) ==> #[trigger] self.without_user(k).user(id) == self.user(id),
    {
        let after = self.without_user(k);
        let gone = self.users[k].id;
        assert forall|l: int| 0 <= l < after.users.len() implies #[trigger] after.users[l]
            == self.users[if l < k { l } else { l + 1 }] by {}
        if after.has_user(gone) {
            let l = after.user_index(gone);
            assert(self.users[if l < k { l } else { l + 1 }].id == gone);
        }
        assert forall|id: Seq<char>| id != gone implies #[trigger] after.has_user(id)
            == self.has_user(id) by {
            if self.has_user(id) {
                let l = self.user_index(id);
                assert(after.users[if l < k { l } else { l - 1 }] == self.users[l]);
            }
            if after.has_user(id) {
                let l = after.user_index(id);
                assert(self.users[if l < k { l } else { l + 1 }].id == id);
            }
        }
        assert forall|id: Seq<char>| id != gone && self.has_user(id) implies #[trigger] after.user(
            id,
        ) == self.user(id) by {
            let l = self.user_index(id);
            let m = if l < k { l } else { l - 1 };
            assert(after.users[m] == self.users[l]);
            after.lemma_user_at(m);
        }
    }

    /// A user under a new id goes to the end and leaves every other user
    /// findable, with the same record.
    pub proof fn lemma_user_pushed(self, user: UserView)
        requires
            self.users_wf(),
            !self.has_user(user.id),
        ensures
            self.with_new_user(user).users_wf(),
            self.with_new_user(user).has_user(user.id),
            self.with_new_user(user).user(user.id) == user,
            forall|id: Seq<char>|
                id != user.id ==> #[trigger] self.with_new_user(user).has_user(id) == self.has_user(id),
            forall|id: Seq<char>|
                id != user.id && self.has_user(id) ==> #[trigger] self.with_new_user(user).user(id) == self.user(id),
    {
        let after = self.with_new_user(user);
        let last = self.users.len() as int;
        assert(after.users[last] == user);
        assert forall|l: int| 0 <= l < self.users.len() implies #[trigger] after.users[l]
            == self.users[l] by {}
        assert forall|k: int, l: int| 0 <= k < l < after.users.len() implies (
        #[trigger] after.users[k]).id != (#[trigger] after.users[l]).id by {
            if l == last {
                assert(self.users[k].id != user.id);
            }
        }
        after.lemma_user_at(last);
        assert forall|id: Seq<char>| id != user.id implies #[trigger] after.has_user(id)
            == self.has_user(id) by {
            if self.has_user(id) {
                let l = self.user_index(id);
                assert(after.users[l].id == id);
            }
            if after.has_user(id) {
                let l = after.user_index(id);
                assert(self.users[l].id == id);
            }
        }
        assert forall|id: Seq<char>| id != user.id && self.has_user(id) implies #[trigger] after.user(
            id,
        ) == self.user(id) by {
            let l = self.user_index(id);
            assert(after.users[l] == self.users[l]);
            after.lemma_user_at(l);
        }
    }

    /// Putting a record with the same id at place `k` leaves every user
    /// findable, and every other record as it was.
    pub proof fn lemma_with_user(self, k: int, user: UserView)
        requires
            self.users_wf(),
            0 <= k < self.users.len(),
            user.id == self.users[k].id,
        ensures
            self.with_user(k, user).users_wf(),
            self.with_user(k, user).rooms == self.rooms,
            self.with_user(k, user).user(user.id) == user,
            forall|id: Seq<char>| #[trigger]
                self.with_user(k, user).has_user(id) == self.has_user(id),
            forall|id: Seq<char>|
                id != user.id && self.has_user(id) ==> #[trigger] self.with_user(k, user).user(id)
                    == self.user(id),
    {
        let after = self.with_user(k, user);
        assert forall|l: int| 0 <= l < after.users.len() implies (#[trigger] after.users[l]).id
            == self.users[l].id by {}
        after.lemma_user_at(k);
        assert forall|id: Seq<char>| #[trigger] after.has_user(id) == self.has_user(id) by {
            if self.has_user(id) {
                let l = self.user_index(id);
                assert(after.users[l].id == id);
            }
            if after.has_user(id) {
                let l = after.user_index(id);
                assert(self.users[l].id == id);
            }
        }
        assert forall|id: Seq<char>| id != user.id && self.has_user(id) implies #[trigger] after.user(
            id,
        ) == self.user(id) by {
            let l = self.user_index(id);
            assert(after.users[l] == self.users[l]);
            after.lemma_user_at(l);
        }
    }

    /// After the user at place `k` left its current room, it is a member of
    /// no room, and everything else is as it was.
    pub proof fn lemma_leave_current(self, k: int)
        requires
            self.wf(),
            0 <= k < self.users.len(),
        ensures
            self.leave_current(k).state.wf_but_for(self.users[k].id),
            self.leave_current(k).state.users == self.users,
            self.leave_current(k).state.rooms.len() == self.rooms.len(),
            forall|i: int|
                0 <= i < self.rooms.len() ==> (#[trigger] self.leave_current(k).state.rooms[i]).name
                    == self.rooms[i].name,
            forall|name: Seq<char>| #[trigger]
                self.leave_current(k).state.has_room(name) == self.has_room(name),
            forall|name: Seq<char>|
                self.has_room(name) ==> #[trigger] self.leave_current(k).state.room_index(name)
                    == self.room_index(name),
            self.leave_current(k).events.len() == (if self.users[k].current_room is Some {
                1nat
            } else {
                0nat
            }),
    {
        let user = self.users[k];
        let id = user.id;
        let after = self.leave_current(k).state;
        self.lemma_user_at(k);
        if user.current_room is Some {
            let name = user.current_room.unwrap();
            let i = self.room_index(name);
            self.lemma_room_found(name);
            let emptier = self.rooms[i].without_member(id);
            self.rooms[i].lemma_without_member(id);
            self.lemma_with_room(i, emptier);
            assert(after == self.with_room(i, emptier));
            assert forall|j: int| 0 <= j < after.rooms.len() implies !(
            #[trigger] after.rooms[j]).has_member(id) by {
                if j != i && self.rooms[j].has_member(id) {
                    assert(self.user(id).current_room == Some(self.rooms[j].name));
                }
            }
            assert forall|j: int, other: Seq<char>|
                0 <= j < after.rooms.len() && #[trigger] after.rooms[j].has_member(
                    other,
                ) implies after.has_user(other) && after.user(other).current_room == Some(
                after.rooms[j].name,
            ) by {
                if j == i {
                    assert(other != id);
                    assert(emptier.username_of(other) == self.rooms[i].username_of(other));
                    assert(self.rooms[i].has_member(other));
                } else {
                    assert(self.rooms[j].has_member(other));
                }
                self.lemma_users_kept(after);
            }
            assert forall|l: int|
                0 <= l < after.users.len() && (#[trigger] after.users[l]).current_room is Some
                    && after.users[l].id != id implies {
                let there = after.users[l].current_room.unwrap();
                &&& after.has_room(there)
                &&& after.room(there).username_of(after.users[l].id) == Some(
                    after.users[l].username,
                )
            } by {
                let there = self.users[l].current_room.unwrap();
                let j = self.room_index(there);
                self.lemma_room_found(there);
                assert(after.room_index(there) == j);
                if j == i {
                    assert(emptier.username_of(self.users[l].id) == self.rooms[i].username_of(
                        self.users[l].id,
                    ));
                }
            }
        } else {
            assert forall|j: int| 0 <= j < self.rooms.len() implies !(
            #[trigger] self.rooms[j]).has_member(id) by {
                if self.rooms[j].has_member(id) {
                    assert(self.user(id).current_room == Some(self.rooms[j].name));
                }
            }
        }
    }

    /// Two states with the same user table find the same users.
    pub proof fn lemma_users_kept(self, other: ServerView)
        requires
            self.users_wf(),
            self.users == other.users,
        ensures
            other.users_wf(),
            forall|id: Seq<char>| #[trigger] other.has_user(id) == self.has_user(id),
            forall|id: Seq<char>|
                self.has_user(id) ==> #[trigger] other.user_index(id) == self.user_index(id),
    {
        assert forall|id: Seq<char>| #[trigger] other.has_user(id) == self.has_user(id) by {
            if self.has_user(id) {
                assert(other.users[self.user_index(id)].id == id);
            }
            if other.has_user(id) {
                assert(self.users[other.user_index(id)].id == id);
            }
        }
        assert forall|id: Seq<char>| self.has_user(id) implies #[trigger] other.user_index(id)
            == self.user_index(id) by {
            assert(other.users[self.user_index(id)].id == id);
            assert(self.users[other.user_index(id)].id == id);
        }
    }

    /// Two states with the same room table find the same rooms.
    pub proof fn lemma_rooms_kept(self, other: ServerView)
        requires
            self.rooms_wf(),
            self.rooms == other.rooms,
        ensures
            other.rooms_wf(),
            forall|name: Seq<char>| #[trigger] other.has_room(name) == self.has_room(name),
            forall|name: Seq<char>|
                self.has_room(name) ==> #[trigger] other.room_index(name) == self.room_index(name),
    {
        assert forall|name: Seq<char>| #[trigger] other.has_room(name) == self.has_room(name) by {
            if self.has_room(name) {
                assert(other.rooms[self.room_index(name)].name == name);
            }
            if other.has_room(name) {
                assert(self.rooms[other.room_index(name)].name == name);
            }
        }
        assert forall|name: Seq<char>| self.has_room(name) implies #[trigger] other.room_index(name)
            == self.room_index(name) by {
            assert(other.rooms[self.room_index(name)].name == name);
            assert(self.rooms[other.room_index(name)].name == name);
        }
    }

    /// A user between rooms that becomes a member of the room it names as
    /// its current room makes the state well-formed again.
    pub proof fn lemma_enter(self, k: int, n: int)
        requires
            0 <= k < self.users.len(),
            0 <= n < self.rooms.len(),
            self.wf_but_for(self.users[k].id),
            self.users[k].current_room == Some(self.rooms[n].name),
        ensures
            self.with_room(
                n,
                self.rooms[n].with_member(self.users[k].id, self.users[k].username),
            ).wf(),
    {
        let user = self.users[k];
        let id = user.id;
        let fuller = self.rooms[n].with_member(id, user.username);
        let after = self.with_room(n, fuller);
        self.rooms[n].lemma_with_member(id, user.username);
        self.lemma_with_room(n, fuller);
        self.lemma_users_kept(after);
        self.lemma_user_at(k);
        after.lemma_room_at(n);
        assert forall|l: int|
            0 <= l < after.users.len() && (#[trigger] after.users[l]).current_room is Some implies {
            let there = after.users[l].current_room.unwrap();
            &&& after.has_room(there)
            &&& after.room(there).username_of(after.users[l].id) == Some(after.users[l].username)
        } by {
            if self.users[l].id == id {
                self.lemma_user_at(l);
                assert(l == k);
            } else {
                let there = self.users[l].current_room.unwrap();
                let j = self.room_index(there);
                self.lemma_room_found(there);
                assert(after.room_index(there) == j);
                if j == n {
                    assert(fuller.username_of(self.users[l].id) == self.rooms[n].username_of(
                        self.users[l].id,
                    ));
                }
            }
        }
        assert forall|j: int, other: Seq<char>|
            0 <= j < after.rooms.len() && #[trigger] after.rooms[j].has_member(
                other,
            ) implies after.has_user(other) && after.user(other).current_room == Some(
            after.rooms[j].name,
        ) by {
            if j == n {
                if other != id {
                    assert(fuller.username_of(other) == self.rooms[n].username_of(other));
                    assert(self.rooms[n].has_member(other));
                }
            } else {
                assert(self.rooms[j].has_member(other));
            }
        }
    }

    /// A user between rooms that leaves the user table leaves a well-formed
    /// state.
    pub proof fn lemma_forget(self, k: int)
        requires
            0 <= k < self.users.len(),
            self.wf_but_for(self.users[k].id),
        ensures
            self.without_user(k).wf(),
            !self.without_user(k).has_user(self.users[k].id),
            forall|i: int|
                0 <= i < self.without_user(k).rooms.len() ==> !(
                #[trigger] self.without_user(k).rooms[i]).has_member(self.users[k].id),
    {
        let id = self.users[k].id;
        let after = self.without_user(k);
        self.lemma_user_removed(k);
        self.lemma_rooms_kept(after);
        assert forall|l: int|
            0 <= l < after.users.len() && (#[trigger] after.users[l]).current_room is Some implies {
            let there = after.users[l].current_room.unwrap();
            &&& after.has_room(there)
            &&& after.room(there).username_of(after.users[l].id) == Some(after.users[l].username)
        } by {
            let m = if l < k { l } else { l + 1 };
            assert(after.users[l] == self.users[m]);
            assert(self.users[m].id != id);
            let there = self.users[m].current_room.unwrap();
            assert(after.room_index(there) == self.room_index(there));
        }
        assert forall|j: int, other: Seq<char>|
            0 <= j < after.rooms.len() && #[trigger] after.rooms[j].has_member(
                other,
            ) implies after.has_user(other) && after.user(other).current_room == Some(
            after.rooms[j].name,
        ) by {
            assert(self.rooms[j].has_member(other));
            assert(other != id);
        }
    }

    /// Disconnecting keeps the state well-formed, and leaves no trace of the
    /// user: it is in no table and in no room.
    pub proof fn lemma_disconnect(self, id: Seq<char>)
        requires
            self.wf(),
        ensures
            self.disconnect(id).state.wf(),
            !self.disconnect(id).state.has_user(id),
            forall|i: int|
                0 <= i < self.disconnect(id).state.rooms.len() ==> !(
                #[trigger] self.disconnect(id).state.rooms[i]).has_member(id),
            forall|name: Seq<char>| #[trigger]
                self.disconnect(id).state.has_room(name) == self.has_room(name),
    {
        if self.has_user(id) {
            let k = self.user_index(id);
            self.lemma_user_found(id);
            self.lemma_leave_current(k);
            let left = self.leave_current(k).state;
            left.lemma_forget(k);
            left.lemma_rooms_kept(left.without_user(k));
        } else {
            assert forall|i: int| 0 <= i < self.rooms.len() implies !(
            #[trigger] self.rooms[i]).has_member(id) by {}
        }
    }

    /// Registering keeps the state well-formed.
    pub proof fn lemma_register(self, id: Seq<char>, username: Seq<char>)
        requires
            self.wf(),
        ensures
            self.register(id, username).state.wf(),
    {
        let cleared = self.disconnect(id).state;
        self.lemma_disconnect(id);
        let user = UserView {
            id,
            username,
            current_room: Some(general_room()),
            pending: Seq::empty(),
        };
        let listed = cleared.with_new_user(user);
        cleared.lemma_user_pushed(user);
        cleared.lemma_rooms_kept(listed);
        cleared.lemma_room_at(0);
        let g = cleared.room_index(general_room());
        let k = cleared.users.len() as int;
        assert(listed.users[k] == user);
        assert forall|l: int|
            0 <= l < listed.users.len() && (#[trigger] listed.users[l]).current_room is Some
                && listed.users[l].id != id implies {
            let there = listed.users[l].current_room.unwrap();
            &&& listed.has_room(there)
            &&& listed.room(there).username_of(listed.users[l].id) == Some(
                listed.users[l].username,
            )
        } by {
            assert(listed.users[l] == cleared.users[l]);
            let there = cleared.users[l].current_room.unwrap();
            assert(listed.room_index(there) == cleared.room_index(there));
        }
        assert forall|j: int, other: Seq<char>|
            0 <= j < listed.rooms.len() && #[trigger] listed.rooms[j].has_member(
                other,
            ) implies listed.has_user(other) && listed.user(other).current_room == Some(
            listed.rooms[j].name,
        ) by {
            assert(cleared.rooms[j].has_member(other));
        }
        assert(listed.wf_but_for(id));
        listed.lemma_enter(k, g);
    }

    /// `SendMessage` keeps the state well-formed.
    pub proof fn lemma_say(self, k: int, content: Seq<char>, now: Timestamp, stamp: Seq<char>)
        requires
            self.wf(),
            0 <= k < self.users.len(),
        ensures
            self.say(k, content, now, stamp).state.wf(),
    {
        let user = self.users[k];
        if user.current_room is Some {
            let name = user.current_room.unwrap();
            let i = self.room_index(name);
            self.lemma_room_found(name);
            let line = MessageView { sender: user.username, content, timestamp: now };
            let longer = self.rooms[i].with_message(line);
            let after = self.with_room(i, longer);
            self.rooms[i].lemma_with_message(line);
            self.lemma_with_room(i, longer);
            self.lemma_users_kept(after);
            assert forall|l: int|
                0 <= l < after.users.len() && (#[trigger] after.users[l]).current_room
                    is Some implies {
                let there = after.users[l].current_room.unwrap();
                &&& after.has_room(there)
                &&& after.room(there).username_of(after.users[l].id) == Some(
                    after.users[l].username,
                )
            } by {
                let there = self.users[l].current_room.unwrap();
                self.lemma_room_found(there);
                assert(after.room_index(there) == self.room_index(there));
            }
            assert forall|j: int, other: Seq<char>|
                0 <= j < after.rooms.len() && #[trigger] after.rooms[j].has_member(
                    other,
                ) implies after.has_user(other) && after.user(other).current_room == Some(
                after.rooms[j].name,
            ) by {
                assert(self.rooms[j].has_member(other));
            }
        }
    }

    /// `CreateRoom` keeps the state well-formed.
    pub proof fn lemma_create_room(self, id: Seq<char>, name: Seq<char>)
        requires
            self.wf(),
        ensures
            self.create_room(id, name).state.wf(),
    {
        if !self.has_room(name) {
            let room = RoomView::empty(name);
            let after = self.with_new_room(room);
            let last = self.rooms.len() as int;
            self.lemma_room_pushed(room);
            self.lemma_users_kept(after);
            assert(after.rooms[last] == room);
            assert forall|l: int|
                0 <= l < after.users.len() && (#[trigger] after.users[l]).current_room
                    is Some implies {
                let there = after.users[l].current_room.unwrap();
                &&& after.has_room(there)
                &&& after.room(there).username_of(after.users[l].id) == Some(
                    after.users[l].username,
                )
            } by {
                let there = self.users[l].current_room.unwrap();
                self.lemma_room_found(there);
                assert(after.room_index(there) == self.room_index(there));
                assert(after.rooms[self.room_index(there)] == self.rooms[self.room_index(there)]);
            }
            assert forall|j: int, other: Seq<char>|
                0 <= j < after.rooms.len() && #[trigger] after.rooms[j].has_member(
                    other,
                ) implies after.has_user(other) && after.user(other).current_room == Some(
                after.rooms[j].name,
            ) by {
                if j < last {
                    assert(after.rooms[j] == self.rooms[j]);
                    assert(self.rooms[j].has_member(other));
                }
            }
        }
    }

    /// `JoinRoom` keeps the state well-formed.
    pub proof fn lemma_join_room(self, k: int, name: Seq<char>)
        requires
            self.wf(),
            0 <= k < self.users.len(),
        ensures
            self.join_room(k, name).state.wf(),
    {
        if self.has_room(name) {
            let user = self.users[k];
            let n = self.room_index(name);
            self.lemma_room_found(name);
            self.lemma_leave_current(k);
            let left = self.leave_current(k).state;
            let moved = UserView { current_room: Some(name), ..user };
            let turned = left.with_user(k, moved);
            left.lemma_with_user(k, moved);
            left.lemma_rooms_kept(turned);
            assert(turned.users[k] == moved);
            assert forall|l: int|
                0 <= l < turned.users.len() && (#[trigger] turned.users[l]).current_room is Some
                    && turned.users[l].id != user.id implies {
                let there = turned.users[l].current_room.unwrap();
                &&& turned.has_room(there)
                &&& turned.room(there).username_of(turned.users[l].id) == Some(
                    turned.users[l].username,
                )
            } by {
                assert(l != k);
                assert(turned.users[l] == left.users[l]);
                let there = left.users[l].current_room.unwrap();
                assert(turned.room_index(there) == left.room_index(there));
            }
            assert forall|j: int, other: Seq<char>|
                0 <= j < turned.rooms.len() && #[trigger] turned.rooms[j].has_member(
                    other,
                ) implies turned.has_user(other) && turned.user(other).current_room == Some(
                turned.rooms[j].name,
            ) by {
                assert(left.rooms[j].has_member(other));
                assert(other != user.id);
            }
            assert(turned.wf_but_for(user.id));
            turned.lemma_enter(k, n);
            assert(self.join_room(k, name).state == turned.with_room(
                n,
                turned.rooms[n].with_member(user.id, user.username),
            ));
        }
    }

    /// Whatever a client sends, the state stays well-formed.
    pub proof fn lemma_handle(
        self,
        id: Seq<char>,
        message: ClientMessageView,
        now: Timestamp,
        stamp: Seq<char>,
    )
        requires
            self.wf(),
        ensures
            self.handle(id, message, now, stamp).state.wf(),
    {
        if self.has_user(id) {
            let k = self.user_index(id);
            self.lemma_user_found(id);
            match message {
                ClientMessageView::SendMessage { content } => self.lemma_say(k, content, now, stamp),
                ClientMessageView::CreateRoom { room_name } => self.lemma_create_room(id, room_name),
                ClientMessageView::JoinRoom { room_name } => self.lemma_join_room(k, room_name),
                _ => {},
            }
        }
    }

    /// A state with the same rooms and with users that differ only in the
    /// events that wait for them is well-formed too, and finds every user at
    /// the same place.
    pub proof fn lemma_same_residents(self, other: ServerView)
        requires
            self.wf(),
            other.rooms == self.rooms,
            other.users.len() == self.users.len(),
            forall|k: int|
                0 <= k < self.users.len() ==> {
                    &&& (#[trigger] other.users[k]).id == self.users[k].id
                    &&& other.users[k].username == self.users[k].username
                    &&& other.users[k].current_room == self.users[k].current_room
                },
        ensures
            other.wf(),
            forall|id: Seq<char>| #[trigger] other.has_user(id) == self.has_user(id),
            forall|id: Seq<char>|
                self.has_user(id) ==> #[trigger] other.user_index(id) == self.user_index(id),
    {
        self.lemma_rooms_kept(other);
        assert forall|id: Seq<char>| #[trigger] other.has_user(id) == self.has_user(id) by {
            if self.has_user(id) {
                assert(other.users[self.user_index(id)].id == id);
            }
            if other.has_user(id) {
                assert(self.users[other.user_index(id)].id == id);
            }
        }
        assert forall|k: int, l: int| 0 <= k < l < other.users.len() implies (
        #[trigger] other.users[k]).id != (#[trigger] other.users[l]).id by {
            assert(self.users[k].id != self.users[l].id);
        }
        assert forall|id: Seq<char>| self.has_user(id) implies #[trigger] other.user_index(id)
            == self.user_index(id) by {
            assert(other.users[self.user_index(id)].id == id);
            assert(self.users[other.user_index(id)].id == id);
        }
        assert forall|l: int|
            0 <= l < other.users.len() && (#[trigger] other.users[l]).current_room is Some implies {
            let there = other.users[l].current_room.unwrap();
            &&& other.has_room(there)
            &&& other.room(there).username_of(other.users[l].id) == Some(other.users[l].username)
        } by {
            let there = self.users[l].current_room.unwrap();
            assert(self.users[l].current_room is Some);
            assert(other.room_index(there) == self.room_index(there));
        }
        assert forall|j: int, id: Seq<char>|
            0 <= j < other.rooms.len() && #[trigger] other.rooms[j].has_member(
                id,
            ) implies other.has_user(id) && other.user(id).current_room == Some(
            other.rooms[j].name,
        ) by {
            assert(self.rooms[j].has_member(id));
        }
    }

    /// Delivering an envelope keeps the state well-formed.
    pub proof fn lemma_delivered(self, envelope: EnvelopeView)
        requires
            self.wf(),
        ensures
            self.delivered(envelope).wf(),
    {
        self.lemma_same_residents(self.delivered(envelope));
    }

    /// Collecting the pending events keeps the state well-formed.
    pub proof fn lemma_collected(self, id: Seq<char>)
        requires
            self.wf(),
        ensures
            self.collected(id).wf(),
    {
        if self.has_user(id) {
            self.lemma_user_found(id);
            self.lemma_same_residents(self.collected(id));
        }
    }
}

} // verus!
