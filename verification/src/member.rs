//! User-record bookkeeping of the chat moderator: member records keyed by
//! their ids, the administrator list, and the managed chat.
//!
//! The records live in an association list whose `user_id` keys are kept
//! unique; every operation states how it transforms the stored sequence.
//! Loading the store from disk and writing it back are jobs of the
//! embedding application, which reconstructs and reads the state through
//! the operations here.

use vstd::prelude::*;

verus! {

/// A stored chat member record.
#[derive(Clone, Debug)]
pub struct UserEntity {
    pub user_id: i64,
    pub username: String,
    pub firstname: String,
    pub last_activity_unix_time: u64,
}

/// Mathematical abstraction of a member record, with the text fields as
/// character sequences.
pub ghost struct UserEntityView {
    pub user_id: i64,
    pub username: Seq<char>,
    pub firstname: Seq<char>,
    pub last_activity_unix_time: u64,
}

impl View for UserEntity {
    type V = UserEntityView;

    open spec fn view(&self) -> UserEntityView {
        UserEntityView {
            user_id: self.user_id,
            username: self.username@,
            firstname: self.firstname@,
            last_activity_unix_time: self.last_activity_unix_time,
        }
    }
}

impl UserEntity {
    /// Builds a member record from its parts.
    pub fn new(user_id: i64, username: &str, firstname: &str, last_activity_unix_time: u64) -> (r:
        Self)
        ensures
            r@ == (UserEntityView {
                user_id,
                username: username@,
                firstname: firstname@,
                last_activity_unix_time,
            }),
    {
        UserEntity {
            user_id,
            username: username.to_owned(),
            firstname: firstname.to_owned(),
            last_activity_unix_time,
        }
    }
}

/// The views of a sequence of member records.
pub open spec fn user_views(users: Seq<UserEntity>) -> Seq<UserEntityView> {
    Seq::new(users.len(), |i: int| users[i]@)
}

/// The persistent memory of the bot: member records (an association list
/// keyed by `user_id`), the administrator names, and the managed chat.
#[derive(Clone, Debug)]
pub struct BotMemoryEntity {
    pub user_map: Vec<UserEntity>,
    pub administrators: Vec<String>,
    pub managed_chat_id: Option<String>,
}

/// Mathematical abstraction of the bot memory.
pub ghost struct BotMemoryView {
    pub users: Seq<UserEntityView>,
    pub administrators: Seq<Seq<char>>,
    pub managed_chat_id: Option<Seq<char>>,
}

impl BotMemoryView {
    /// The association-list keys are unique: no two records share a
    /// `user_id`. Established by the constructors and preserved by every
    /// mutating operation.
    pub open spec fn ids_unique(self) -> bool {
        forall|i: int, j: int|
            0 <= i < j < self.users.len() ==> (#[trigger] self.users[i]).user_id != (
            #[trigger] self.users[j]).user_id
    }
}

impl View for BotMemoryEntity {
    type V = BotMemoryView;

    open spec fn view(&self) -> BotMemoryView {
        BotMemoryView {
            users: user_views(self.user_map@),
            administrators: Seq::new(self.administrators@.len(), |i: int| self.administrators@[i]@),
            managed_chat_id: match self.managed_chat_id {
                Some(chat_id) => Some(chat_id@),
                None => None,
            },
        }
    }
}

impl Default for BotMemoryEntity {
    /// An empty memory: no records, no administrators, no managed chat.
    fn default() -> (r: Self)
        ensures
            r@.users.len() == 0,
            r@.administrators.len() == 0,
            r@.managed_chat_id is None,
    {
        BotMemoryEntity { user_map: Vec::new(), administrators: Vec::new(), managed_chat_id: None }
    }
}

/// The in-memory database handle that owns the bot memory. Reading the
/// memory from disk and persisting it are jobs of the embedding
/// application.
#[derive(Clone, Debug)]
pub struct BotDatabase {
    pub bot_memory: BotMemoryEntity,
}

impl View for BotDatabase {
    type V = BotMemoryView;

    open spec fn view(&self) -> BotMemoryView {
        self.bot_memory@
    }
}

impl Default for BotDatabase {
    /// A database over an empty memory.
    fn default() -> (r: Self)
        ensures
            r@.users.len() == 0,
            r@.administrators.len() == 0,
            r@.managed_chat_id is None,
    {
        BotDatabase { bot_memory: BotMemoryEntity::default() }
    }
}

/// Whether a record with the id is present.
pub open spec fn has_user_id(users: Seq<UserEntityView>, user_id: i64) -> bool {
    exists|i: int| 0 <= i < users.len() && (#[trigger] users[i]).user_id == user_id
}

/// The index of the record with the id; unique when the ids are unique.
pub open spec fn user_id_index(users: Seq<UserEntityView>, user_id: i64) -> int {
    choose|i: int| 0 <= i < users.len() && (#[trigger] users[i]).user_id == user_id
}

/// Whether a record with the username is present.
pub open spec fn has_username(users: Seq<UserEntityView>, username: Seq<char>) -> bool {
    exists|i: int| 0 <= i < users.len() && (#[trigger] users[i]).username == username
}

/// Whether `i` is the first index whose record carries the username.
pub open spec fn is_first_username_index(
    users: Seq<UserEntityView>,
    username: Seq<char>,
    i: int,
) -> bool {
    &&& 0 <= i < users.len()
    &&& users[i].username == username
    &&& forall|j: int| 0 <= j < i ==> (#[trigger] users[j]).username != username
}

/// Seconds elapsed between a stored activity time and the current time,
/// wrapping around the unsigned 64-bit range.
pub open spec fn spec_elapsed(now: u64, last: u64) -> int {
    if now >= last {
        now - last
    } else {
        now - last + 0x1_0000_0000_0000_0000
    }
}

/// Whether a record counts as inactive at the current time: more than
/// the given number of seconds has elapsed since its last activity.
pub open spec fn is_inactive(u: UserEntityView, now: u64, duration_secs: u64) -> bool {
    spec_elapsed(now, u.last_activity_unix_time) > duration_secs
}

/// The subsequence of records that count as inactive, in stored order.
pub open spec fn inactive_filter(
    users: Seq<UserEntityView>,
    now: u64,
    duration_secs: u64,
) -> Seq<UserEntityView>
    decreases users.len(),
{
    if users.len() == 0 {
        Seq::empty()
    } else {
        let rest = inactive_filter(users.drop_last(), now, duration_secs);
        if is_inactive(users.last(), now, duration_secs) {
            rest.push(users.last())
        } else {
            rest
        }
    }
}

/// Seconds elapsed between a stored activity time and the current time,
/// wrapping around the unsigned 64-bit range.
fn elapsed_time(now: u64, last: u64) -> (r: u64)
    ensures
        r as int == spec_elapsed(now, last),
{
    if now >= last {
        now - last
    } else {
        now + (u64::MAX - last) + 1
    }
}

/// Keeper of the member records and the administrator list.
#[derive(Clone, Debug)]
pub struct UserManagement {
    pub bot_db: BotDatabase,
}

impl View for UserManagement {
    type V = BotMemoryView;

    open spec fn view(&self) -> BotMemoryView {
        self.bot_db@
    }
}

impl Default for UserManagement {
    /// Management over an empty store.
    fn default() -> (r: Self)
        ensures
            r@.users.len() == 0,
            r@.administrators.len() == 0,
            r@.managed_chat_id is None,
            r@.ids_unique(),
    {
        UserManagement { bot_db: BotDatabase::default() }
    }
}

impl UserManagement {
    /// Starts management over an empty store. The embedding application
    /// may replay persisted records into it afterwards.
    pub fn new() -> (r: Self)
        ensures
            r@.users.len() == 0,
            r@.administrators.len() == 0,
            r@.managed_chat_id is None,
            r@.ids_unique(),
    {
        UserManagement { bot_db: BotDatabase::default() }
    }

    /// The position of the record with the id, if one is stored.
    fn find_user_index(&self, user_id: i64) -> (r: Option<usize>)
        ensures
            match r {
                Some(i) => i < self@.users.len() && self@.users[i as int].user_id == user_id,
                None => !has_user_id(self@.users, user_id),
            },
    {
        let n = self.bot_db.bot_memory.user_map.len();
        let mut i: usize = 0;
        while i < n
            invariant
                n == self.bot_db.bot_memory.user_map@.len(),
                i <= n,
                self@.users.len() == n,
                forall|j: int| 0 <= j < i ==> (#[trigger] self@.users[j]).user_id != user_id,
            decreases n - i,
        {
            proof {
                assert(self@.users[i as int] == self.bot_db.bot_memory.user_map@[i as int]@);
            }
            if self.bot_db.bot_memory.user_map[i].user_id == user_id {
                return Some(i);
            }
            i = i + 1;
        }
        None
    }

    /// Stores a record for the id: an existing record with the same id
    /// is replaced in place, otherwise the new record is appended.
    pub fn add_user(
        &mut self,
        user_id: i64,
        username: &str,
        firstname: &str,
        last_activity_unix_time: u64,
    )
        requires
            old(self)@.ids_unique(),
        ensures
            final(self)@.ids_unique(),
            final(self)@.administrators == old(self)@.administrators,
            final(self)@.managed_chat_id == old(self)@.managed_chat_id,
            ({
                let users = old(self)@.users;
                let entity = (UserEntityView {
                    user_id,
                    username: username@,
                    firstname: firstname@,
                    last_activity_unix_time,
                });
                if has_user_id(users, user_id) {
                    final(self)@.users == users.update(user_id_index(users, user_id), entity)
                } else {
                    final(self)@.users == users.push(entity)
                }
            }),
    {
        let entity = UserEntity::new(user_id, username, firstname, last_activity_unix_time);
        match self.find_user_index(user_id) {
            Some(i) => {
                self.bot_db.bot_memory.user_map[i] = entity;
                proof {
                    let users = old(self)@.users;
                    assert(users[user_id_index(users, user_id)].user_id == user_id);
                    assert(user_id_index(users, user_id) == i as int);
                    assert(self@.users =~= users.update(i as int, entity@));
                    assert forall|a: int, b: int|
                        0 <= a < b < self@.users.len() implies (#[trigger] self@.users[a]).user_id
                        != (#[trigger] self@.users[b]).user_id by {
                        assert(users[a].user_id == self@.users[a].user_id || a == i as int);
                        assert(users[b].user_id == self@.users[b].user_id || b == i as int);
                    }
                }
            },
            None => {
                self.bot_db.bot_memory.user_map.push(entity);
                proof {
                    let users = old(self)@.users;
                    assert(self@.users =~= users.push(entity@));
                    assert forall|a: int, b: int|
                        0 <= a < b < self@.users.len() implies (#[trigger] self@.users[a]).user_id
                        != (#[trigger] self@.users[b]).user_id by {
                        if b < users.len() {
                            assert(users[a].user_id != users[b].user_id);
                        } else {
                            assert(self@.users[b] == entity@);
                            assert(!has_user_id(users, user_id));
                        }
                    }
                }
            },
        }
    }

    /// Drops the record with the id, if one is stored.
    pub fn remove_user(&mut self, user_id: i64)
        requires
            old(self)@.ids_unique(),
        ensures
            final(self)@.ids_unique(),
            final(self)@.administrators == old(self)@.administrators,
            final(self)@.managed_chat_id == old(self)@.managed_chat_id,
            ({
                let users = old(self)@.users;
                if has_user_id(users, user_id) {
                    final(self)@.users == users.remove(user_id_index(users, user_id))
                } else {
                    final(self)@.users == users
                }
            }),
    {
        match self.find_user_index(user_id) {
            Some(i) => {
                self.bot_db.bot_memory.user_map.remove(i);
                proof {
                    let users = old(self)@.users;
                    assert(users[user_id_index(users, user_id)].user_id == user_id);
                    assert(user_id_index(users, user_id) == i as int);
                    assert(self@.users =~= users.remove(i as int));
                    assert forall|a: int, b: int|
                        0 <= a < b < self@.users.len() implies (#[trigger] self@.users[a]).user_id
                        != (#[trigger] self@.users[b]).user_id by {
                        let a0: int = if a < i as int {
                            a
                        } else {
                            a + 1
                        };
                        let b0: int = if b < i as int {
                            b
                        } else {
                            b + 1
                        };
                        assert(self@.users[a] == users[a0]);
                        assert(self@.users[b] == users[b0]);
                    }
                }
            },
            None => {
                proof {
                    assert(self@.users =~= old(self)@.users);
                }
            },
        }
    }

    /// Records fresh activity for a member: an existing record with the
    /// id is rewritten in place; otherwise a record carrying the same
    /// username (a member whose id changed) is dropped before the new
    /// record is appended; otherwise the new record is simply appended.
    pub fn update_user_activity(
        &mut self,
        username: &str,
        firstname: &str,
        user_id: i64,
        last_activity_unix_time: u64,
    )
        requires
            old(self)@.ids_unique(),
        ensures
            final(self)@.ids_unique(),
            final(self)@.administrators == old(self)@.administrators,
            final(self)@.managed_chat_id == old(self)@.managed_chat_id,
            ({
                let users = old(self)@.users;
                let entity = (UserEntityView {
                    user_id,
                    username: username@,
                    firstname: firstname@,
                    last_activity_unix_time,
                });
                if has_user_id(users, user_id) {
                    final(self)@.users == users.update(user_id_index(users, user_id), entity)
                } else if has_username(users, username@) {
                    exists|i: int|
                        #[trigger] is_first_username_index(users, username@, i) && final(self)@.users
                            == users.remove(i).push(entity)
                } else {
                    final(self)@.users == users.push(entity)
                }
            }),
    {
        if let Some(i) = self.find_user_index(user_id) {
            let entity = UserEntity::new(user_id, username, firstname, last_activity_unix_time);
            self.bot_db.bot_memory.user_map[i] = entity;
            proof {
                let users = old(self)@.users;
                assert(users[user_id_index(users, user_id)].user_id == user_id);
                assert(user_id_index(users, user_id) == i as int);
                assert(self@.users =~= users.update(i as int, entity@));
                assert forall|a: int, b: int|
                    0 <= a < b < self@.users.len() implies (#[trigger] self@.users[a]).user_id
                    != (#[trigger] self@.users[b]).user_id by {
                    assert(users[a].user_id == self@.users[a].user_id || a == i as int);
                    assert(users[b].user_id == self@.users[b].user_id || b == i as int);
                }
            }
        } else if let Some(found) = self.get_user_by_name(username) {
            proof {
                let users = old(self)@.users;
                let fi = choose|fi: int| #[trigger] is_first_username_index(users, username@, fi)
                    && found.0 == users[fi].user_id && found.1@ == users[fi];
                assert(users[fi].user_id == found.0);
                assert(user_id_index(users, found.0) == fi);
            }
            self.remove_user(found.0);
            self.add_user(user_id, username, firstname, last_activity_unix_time);
        } else {
            self.add_user(user_id, username, firstname, last_activity_unix_time);
        }
    }

    /// Collects the records whose last activity lies more than the given
    /// number of seconds before the current time, in stored order.
    pub fn get_inactive_users_since(&self, current_time: u64, duration_secs: u64) -> (r: Vec<
        UserEntity,
    >)
        ensures
            user_views(r@) == inactive_filter(self@.users, current_time, duration_secs),
    {
        let mut result: Vec<UserEntity> = Vec::new();
        let n = self.bot_db.bot_memory.user_map.len();
        let mut i: usize = 0;
        while i < n
            invariant
                n == self.bot_db.bot_memory.user_map@.len(),
                i <= n,
                self@.users.len() == n,
                user_views(result@) == inactive_filter(
                    self@.users.take(i as int),
                    current_time,
                    duration_secs,
                ),
            decreases n - i,
        {
            proof {
                assert(self@.users[i as int] == self.bot_db.bot_memory.user_map@[i as int]@);
                assert(self@.users.take(i + 1).drop_last() =~= self@.users.take(i as int));
                assert(self@.users.take(i + 1).last() == self@.users[i as int]);
            }
            let record = &self.bot_db.bot_memory.user_map[i];
            if elapsed_time(current_time, record.last_activity_unix_time) > duration_secs {
                let copy = UserEntity::new(
                    record.user_id,
                    record.username.as_str(),
                    record.firstname.as_str(),
                    record.last_activity_unix_time,
                );
                result.push(copy);
            }
            proof {
                assert(user_views(result@) =~= inactive_filter(
                    self@.users.take(i + 1),
                    current_time,
                    duration_secs,
                ));
            }
            i = i + 1;
        }
        proof {
            assert(self@.users.take(n as int) =~= self@.users);
        }
        result
    }

    /// Whether any stored record carries the username.
    pub fn contains_username(&self, username: &str) -> (r: bool)
        ensures
            r == has_username(self@.users, username@),
    {
        match self.get_user_by_name(username) {
            Some(_) => true,
            None => false,
        }
    }

    /// Looks up the first stored record carrying the username, returning
    /// its id together with a copy of the record.
    pub fn get_user_by_name(&self, username: &str) -> (r: Option<(i64, UserEntity)>)
        ensures
            match r {
                Some(found) => exists|i: int|
                    #[trigger] is_first_username_index(self@.users, username@, i) && found.0
                        == self@.users[i].user_id && found.1@ == self@.users[i],
                None => !has_username(self@.users, username@),
            },
    {
        let probe: String = username.to_owned();
        let n = self.bot_db.bot_memory.user_map.len();
        let mut i: usize = 0;
        while i < n
            invariant
                n == self.bot_db.bot_memory.user_map@.len(),
                i <= n,
                probe@ == username@,
                self@.users.len() == n,
                forall|j: int| 0 <= j < i ==> (#[trigger] self@.users[j]).username != username@,
            decreases n - i,
        {
            proof {
                assert(self@.users[i as int] == self.bot_db.bot_memory.user_map@[i as int]@);
            }
            let record = &self.bot_db.bot_memory.user_map[i];
            if record.username.eq(&probe) {
                let copy = UserEntity::new(
                    record.user_id,
                    record.username.as_str(),
                    record.firstname.as_str(),
                    record.last_activity_unix_time,
                );
                proof {
                    assert(is_first_username_index(self@.users, username@, i as int));
                }
                return Some((record.user_id, copy));
            }
            i = i + 1;
        }
        None
    }

    /// Appends a name to the administrator list.
    pub fn register_administrator(&mut self, username: String)
        ensures
            final(self)@.users == old(self)@.users,
            final(self)@.managed_chat_id == old(self)@.managed_chat_id,
            final(self)@.administrators == old(self)@.administrators.push(username@),
    {
        self.bot_db.bot_memory.administrators.push(username);
        proof {
            assert(self@.users =~= old(self)@.users);
            assert(self@.administrators =~= old(self)@.administrators.push(username@));
        }
    }

    /// The role text of a member: administrators are reported as
    /// `Admin`, everyone else as `Regular User`.
    pub fn determine_user_role(&self, username: &str) -> (r: &'static str)
        ensures
            self@.administrators.contains(username@) ==> r@ == "Admin"@,
            !self@.administrators.contains(username@) ==> r@ == "Regular User"@,
    {
        if self.is_administrator(username) {
            "Admin"
        } else {
            "Regular User"
        }
    }

    /// Whether the name is on the administrator list.
    pub fn is_administrator(&self, username: &str) -> (r: bool)
        ensures
            r == self@.administrators.contains(username@),
    {
        let probe: String = username.to_owned();
        let n = self.bot_db.bot_memory.administrators.len();
        let mut i: usize = 0;
        while i < n
            invariant
                n == self.bot_db.bot_memory.administrators@.len(),
                i <= n,
                probe@ == username@,
                self@.administrators.len() == n,
                forall|j: int| 0 <= j < i ==> self@.administrators[j] != username@,
            decreases n - i,
        {
            proof {
                assert(self@.administrators[i as int]
                    == self.bot_db.bot_memory.administrators@[i as int]@);
            }
            if self.bot_db.bot_memory.administrators[i].eq(&probe) {
                proof {
                    assert(self@.administrators[i as int] == username@);
                }
                return true;
            }
            i = i + 1;
        }
        proof {
            if self@.administrators.contains(username@) {
                let w = choose|w: int|
                    0 <= w < self@.administrators.len() && self@.administrators[w] == username@;
                assert(false);
            }
        }
        false
    }

    /// Empties the administrator list.
    pub fn clear_administrators(&mut self)
        ensures
            final(self)@.users == old(self)@.users,
            final(self)@.managed_chat_id == old(self)@.managed_chat_id,
            final(self)@.administrators.len() == 0,
    {
        self.bot_db.bot_memory.administrators = Vec::new();
        proof {
            assert(self@.users =~= old(self)@.users);
        }
    }

    /// Records which chat is managed.
    pub fn set_managed_chat_id(&mut self, chat_id: Option<String>)
        ensures
            final(self)@.users == old(self)@.users,
            final(self)@.administrators == old(self)@.administrators,
            final(self)@.managed_chat_id == match chat_id {
                Some(chat) => Some(chat@),
                None => None::<Seq<char>>,
            },
    {
        self.bot_db.bot_memory.managed_chat_id = chat_id;
        proof {
            assert(self@.users =~= old(self)@.users);
            assert(self@.administrators =~= old(self)@.administrators);
        }
    }
}

} // verus!
