//! One named room: who is in it, and the last messages said in it.
use crate::clock::Timestamp;
use vstd::prelude::*;

verus! {

/// The most messages a room remembers.
pub const ROOM_CAPACITY: usize = 100;

/// One line of a room's history.
#[derive(Debug, PartialEq, Eq)]
pub struct ChatMessage {
    pub sender: String,
    pub content: String,
    pub timestamp: Timestamp,
}

/// The mathematical value of a [`ChatMessage`].
pub struct MessageView {
    pub sender: Seq<char>,
    pub content: Seq<char>,
    pub timestamp: Timestamp,
}

impl View for ChatMessage {
    type V = MessageView;

    open spec fn view(&self) -> MessageView {
        MessageView { sender: self.sender@, content: self.content@, timestamp: self.timestamp }
    }
}

impl DeepView for ChatMessage {
    type V = MessageView;

    open spec fn deep_view(&self) -> MessageView {
        self@
    }
}

impl Clone for ChatMessage {
    fn clone(&self) -> (copy: ChatMessage)
        ensures
            copy == *self,
    {
        ChatMessage {
            sender: self.sender.clone(),
            content: self.content.clone(),
            timestamp: self.timestamp,
        }
    }
}

/// One entry of a room's membership.
pub struct MemberView {
    pub id: Seq<char>,
    pub username: Seq<char>,
}

/// The mathematical value of a [`ChatRoom`]: its name, its members in the
/// order in which they joined, and its history, oldest message first.
pub struct RoomView {
    pub name: Seq<char>,
    pub members: Seq<MemberView>,
    pub history: Seq<MessageView>,
}

impl RoomView {
    /// A room without members and without history.
    pub open spec fn empty(name: Seq<char>) -> RoomView {
        RoomView { name, members: Seq::empty(), history: Seq::empty() }
    }

    /// Whether the user `id` is a member.
    pub open spec fn has_member(self, id: Seq<char>) -> bool {
        exists|i: int| 0 <= i < self.members.len() && (#[trigger] self.members[i]).id == id
    }

    /// Where the user `id` stands in the membership, if it is a member.
    pub open spec fn member_index(self, id: Seq<char>) -> int {
        choose|i: int| 0 <= i < self.members.len() && (#[trigger] self.members[i]).id == id
    }

    /// No user is a member twice, and the history keeps within the capacity.
    pub open spec fn wf(self) -> bool {
        &&& forall|i: int, j: int|
            0 <= i < j < self.members.len() ==> (#[trigger] self.members[i]).id != (
            #[trigger] self.members[j]).id
        &&& self.history.len() <= ROOM_CAPACITY
    }

    /// The name under which the user `id` is a member, if it is one.
    pub open spec fn username_of(self, id: Seq<char>) -> Option<Seq<char>> {
        if self.has_member(id) {
            Some(self.members[self.member_index(id)].username)
        } else {
            None
        }
    }

    /// The room after `id` joined as `username`: a member keeps its place
    /// and takes the new name, anyone else goes to the end.
    pub open spec fn with_member(self, id: Seq<char>, username: Seq<char>) -> RoomView {
        let entry = MemberView { id, username };
        RoomView {
            members: if self.has_member(id) {
                self.members.update(self.member_index(id), entry)
            } else {
                self.members.push(entry)
            },
            ..self
        }
    }

    /// The room after `id` left it.
    pub open spec fn without_member(self, id: Seq<char>) -> RoomView {
        RoomView {
            members: if self.has_member(id) {
                self.members.remove(self.member_index(id))
            } else {
                self.members
            },
            ..self
        }
    }

    /// The room after `message` was said in it: the message goes to the end,
    /// and the oldest one is dropped if that exceeds the capacity.
    pub open spec fn with_message(self, message: MessageView) -> RoomView {
        let grown = self.history.push(message);
        RoomView {
            history: if grown.len() > ROOM_CAPACITY {
                grown.drop_first()
            } else {
                grown
            },
            ..self
        }
    }

    /// The members' names, in the order of the membership.
    pub open spec fn member_names(self) -> Seq<Seq<char>> {
        Seq::new(self.members.len(), |i: int| self.members[i].username)
    }

    /// The last `n` messages, oldest first; all of them if there are fewer.
    pub open spec fn recent(self, n: nat) -> Seq<MessageView> {
        if self.history.len() > n {
            self.history.skip(self.history.len() - n)
        } else {
            self.history
        }
    }

    /// In a well-formed room a member's place is the only place with its id.
    pub proof fn lemma_member_at(self, i: int)
        requires
            self.wf(),
            0 <= i < self.members.len(),
        ensures
            self.has_member(self.members[i].id),
            self.member_index(self.members[i].id) == i,
            self.username_of(self.members[i].id) == Some(self.members[i].username),
    {
        let id = self.members[i].id;
        let k = self.member_index(id);
        assert(0 <= k < self.members.len() && self.members[k].id == id);
    }

    /// Joining keeps a room well-formed, makes the user a member under the
    /// given name, and changes nobody else's membership.
    pub proof fn lemma_with_member(self, id: Seq<char>, username: Seq<char>)
        requires
            self.wf(),
        ensures
            self.with_member(id, username).wf(),
            self.with_member(id, username).has_member(id),
            self.with_member(id, username).username_of(id) == Some(username),
            forall|other: Seq<char>|
                other != id ==> #[trigger] self.with_member(id, username).username_of(other)
                    == self.username_of(other),
            forall|other: Seq<char>|
                other != id ==> #[trigger] self.with_member(id, username).has_member(other)
                    == self.has_member(other),
    {
        let after = self.with_member(id, username);
        if self.has_member(id) {
            let k = self.member_index(id);
            self.lemma_member_at(k);
            assert(after.members[k].id == id);
            after.lemma_member_at(k);
            assert forall|other: Seq<char>| other != id implies #[trigger] after.username_of(other)
                == self.username_of(other) by {
                if self.has_member(other) {
                    let m = self.member_index(other);
                    self.lemma_member_at(m);
                    assert(after.members[m] == self.members[m]);
                    after.lemma_member_at(m);
                } else if after.has_member(other) {
                    let m = after.member_index(other);
                    assert(self.members[m].id == other);
                }
            }
        } else {
            let k = self.members.len() as int;
            assert(after.members[k].id == id);
            assert forall|i: int, j: int| 0 <= i < j < after.members.len() implies (
            #[trigger] after.members[i]).id != (#[trigger] after.members[j]).id by {
                assert(after.members[i] == self.members[i]);
            }
            after.lemma_member_at(k);
            assert forall|other: Seq<char>| other != id implies #[trigger] after.username_of(other)
                == self.username_of(other) by {
                if self.has_member(other) {
                    let m = self.member_index(other);
                    self.lemma_member_at(m);
                    assert(after.members[m] == self.members[m]);
                    after.lemma_member_at(m);
                } else if after.has_member(other) {
                    let m = after.member_index(other);
                    assert(self.members[m].id == other);
                }
            }
        }
        assert forall|other: Seq<char>| other != id implies #[trigger] after.has_member(other)
            == self.has_member(other) by {
            assert(after.username_of(other) == self.username_of(other));
        }
    }

    /// Saying something keeps a room well-formed and its membership as it
    /// is. A room below its capacity only grows by the message; a full room
    /// loses exactly its oldest message, and the others keep their order.
    pub proof fn lemma_with_message(self, message: MessageView)
        requires
            self.wf(),
        ensures
            self.with_message(message).wf(),
            self.with_message(message).name == self.name,
            self.with_message(message).members == self.members,
            forall|id: Seq<char>| #[trigger]
                self.with_message(message).has_member(id) == self.has_member(id),
            forall|id: Seq<char>| #[trigger]
                self.with_message(message).username_of(id) == self.username_of(id),
            self.history.len() < ROOM_CAPACITY ==> self.with_message(message).history
                == self.history.push(message),
            self.history.len() == ROOM_CAPACITY ==> self.with_message(message).history
                == self.history.subrange(1, ROOM_CAPACITY as int).push(message),
    {
        let after = self.with_message(message);
        assert forall|id: Seq<char>| #[trigger] after.has_member(id) == self.has_member(id) by {
            if self.has_member(id) {
                assert(after.members[self.member_index(id)].id == id);
            }
            if after.has_member(id) {
                assert(self.members[after.member_index(id)].id == id);
            }
        }
        assert forall|id: Seq<char>| #[trigger] after.username_of(id) == self.username_of(id) by {
            if self.has_member(id) {
                let i = self.member_index(id);
                self.lemma_member_at(i);
                after.lemma_member_at(i);
            }
        }
        if self.history.len() == ROOM_CAPACITY {
            assert(after.history =~= self.history.subrange(1, ROOM_CAPACITY as int).push(message));
        }
    }

    /// Leaving keeps a room well-formed, ends the user's membership, and
    /// changes nobody else's.
    pub proof fn lemma_without_member(self, id: Seq<char>)
        requires
            self.wf(),
        ensures
            self.without_member(id).wf(),
            !self.without_member(id).has_member(id),
            forall|other: Seq<char>|
                other != id ==> #[trigger] self.without_member(id).username_of(other)
                    == self.username_of(other),
            forall|other: Seq<char>|
                other != id ==> #[trigger] self.without_member(id).has_member(other)
                    == self.has_member(other),
    {
        let after = self.without_member(id);
        if self.has_member(id) {
            let k = self.member_index(id);
            self.lemma_member_at(k);
            assert forall|i: int| 0 <= i < after.members.len() implies #[trigger] after.members[i]
                == self.members[if i < k { i } else { i + 1 }] by {}
            assert forall|other: Seq<char>| other != id implies #[trigger] after.username_of(other)
                == self.username_of(other) by {
                if self.has_member(other) {
                    let m = self.member_index(other);
                    self.lemma_member_at(m);
                    let n = if m < k { m } else { m - 1 };
                    assert(after.members[n] == self.members[m]);
                    after.lemma_member_at(n);
                } else if after.has_member(other) {
                    let n = after.member_index(other);
                    assert(self.members[if n < k { n } else { n + 1 }].id == other);
                }
            }
            if after.has_member(id) {
                let n = after.member_index(id);
                assert(self.members[if n < k { n } else { n + 1 }].id == id);
            }
        }
        assert forall|other: Seq<char>| other != id implies #[trigger] after.has_member(other)
            == self.has_member(other) by {
            assert(after.username_of(other) == self.username_of(other));
        }
    }
}

/// One entry of a room's membership.
#[derive(Debug)]
struct Member {
    id: String,
    username: String,
}

impl DeepView for Member {
    type V = MemberView;

    closed spec fn deep_view(&self) -> MemberView {
        MemberView { id: self.id@, username: self.username@ }
    }
}

/// A named room with its members and its bounded history.
#[derive(Debug)]
pub struct ChatRoom {
    name: String,
    users: Vec<Member>,
    messages: Vec<ChatMessage>,
}

impl View for ChatRoom {
    type V = RoomView;

    closed spec fn view(&self) -> RoomView {
        RoomView {
            name: self.name@,
            members: self.users.deep_view(),
            history: self.messages.deep_view(),
        }
    }
}

impl DeepView for ChatRoom {
    type V = RoomView;

    open spec fn deep_view(&self) -> RoomView {
        self@
    }
}

impl ChatRoom {
    /// Whether the room's value is well-formed.
    pub open spec fn wf(&self) -> bool {
        self@.wf()
    }

    /// An empty room called `name`.
    pub fn new(name: String) -> (room: ChatRoom)
        ensures
            room@ == RoomView::empty(name@),
            room.wf(),
    {
        let room = ChatRoom { name, users: Vec::new(), messages: Vec::new() };
        assert(room@.members =~= Seq::empty());
        assert(room@.history =~= Seq::empty());
        room
    }

    /// The room's name.
    pub fn name(&self) -> (name: &String)
        ensures
            name@ == self@.name,
    {
        &self.name
    }

    /// Where `user_id` stands among the members.
    fn position(&self, user_id: &String) -> (found: Option<usize>)
        ensures
            match found {
                Some(i) => i < self@.members.len() && self@.members[i as int].id == user_id@,
                None => !self@.has_member(user_id@),
            },
    {
        let mut i: usize = 0;
        while i < self.users.len()
            invariant
                i <= self.users.len(),
                forall|j: int| 0 <= j < i ==> (#[trigger] self@.members[j]).id != user_id@,
            decreases self.users.len() - i,
        {
            if self.users[i].id == *user_id {
                return Some(i);
            }
            i += 1;
        }
        None
    }

    /// Makes `user_id` a member under `username`. Returns `true` if the user
    /// was not a member before; a member only takes the new name.
    pub fn add_user(&mut self, user_id: String, username: String) -> (added: bool)
        requires
            old(self).wf(),
        ensures
            final(self).wf(),
            final(self)@ == old(self)@.with_member(user_id@, username@),
            added == !old(self)@.has_member(user_id@),
    {
        proof {
            self@.lemma_with_member(user_id@, username@);
        }
        match self.position(&user_id) {
            Some(i) => {
                proof {
                    self@.lemma_member_at(i as int);
                }
                self.users[i].username = username;
                assert(self@.members =~= old(self)@.members.update(
                    i as int,
                    MemberView { id: user_id@, username: username@ },
                ));
                false
            },
            None => {
                self.users.push(Member { id: user_id, username });
                assert(self@.members =~= old(self)@.members.push(
                    MemberView { id: user_id@, username: username@ },
                ));
                true
            },
        }
    }

    /// Ends the membership of `user_id` and returns the name it had, or
    /// `None` if the user was no member.
    pub fn remove_user(&mut self, user_id: &str) -> (username: Option<String>)
        requires
            old(self).wf(),
        ensures
            final(self).wf(),
            final(self)@ == old(self)@.without_member(user_id@),
            username.deep_view() == old(self)@.username_of(user_id@),
    {
        proof {
            self@.lemma_without_member(user_id@);
        }
        let key = user_id.to_owned();
        match self.position(&key) {
            Some(i) => {
                proof {
                    self@.lemma_member_at(i as int);
                }
                let member = self.users.remove(i);
                assert(self@.members =~= old(self)@.members.remove(i as int));
                Some(member.username)
            },
            None => None,
        }
    }

    /// Appends `message` to the history; a full room forgets its oldest
    /// message to make place.
    pub fn add_message(&mut self, message: ChatMessage)
        requires
            old(self).wf(),
        ensures
            final(self).wf(),
            final(self)@ == old(self)@.with_message(message@),
    {
        self.messages.push(message);
        assert(self@.history =~= old(self)@.history.push(message@));
        if self.messages.len() > ROOM_CAPACITY {
            self.messages.remove(0);
            assert(self@.history =~= old(self)@.history.push(message@).drop_first());
        }
        assert(self@.members == old(self)@.members);
        assert(self@.history.len() <= ROOM_CAPACITY);
    }

    /// The members' names, in the order of the membership.
    pub fn get_user_list(&self) -> (names: Vec<String>)
        ensures
            names.deep_view() == self@.member_names(),
    {
        let mut names: Vec<String> = Vec::new();
        let mut i: usize = 0;
        while i < self.users.len()
            invariant
                i <= self.users.len(),
                names.len() == i,
                forall|j: int| 0 <= j < i ==> (#[trigger] names[j])@ == self@.members[j].username,
            decreases self.users.len() - i,
        {
            names.push(self.users[i].username.clone());
            i += 1;
        }
        assert(names.deep_view() =~= self@.member_names());
        names
    }

    /// The last `last_n` messages, oldest first; the whole history if it is
    /// shorter.
    pub fn get_message_history(&self, last_n: usize) -> (messages: Vec<ChatMessage>)
        ensures
            messages.deep_view() == self@.recent(last_n as nat),
    {
        let start: usize = if self.messages.len() > last_n {
            self.messages.len() - last_n
        } else {
            0
        };
        let mut messages: Vec<ChatMessage> = Vec::new();
        let mut i: usize = start;
        while i < self.messages.len()
            invariant
                start <= i <= self.messages.len(),
                messages.len() == i - start,
                forall|j: int|
                    0 <= j < i - start ==> (#[trigger] messages[j])@ == self@.history[start + j],
            decreases self.messages.len() - i,
        {
            messages.push(self.messages[i].clone());
            i += 1;
        }
        assert(messages.deep_view() =~= self@.recent(last_n as nat));
        messages
    }
}

} // verus!
