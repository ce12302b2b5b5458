//! What the process table says, made ready for the rules.
//!
//! The program around the core reads the process table: the names of its
//! entries, the raw command line of a process, its status record. The
//! functions here turn what was read into process ids, a command line and an
//! owner's name.

use crate::text::{
    decimal_up_to, field_of, find_field, find_line_with, first_line_with, has_line_with, line_at,
    parse_decimal, parse_unsigned, text_of, to_chars, unsigned_of,
};
use nix::unistd::{Uid, User};
use vstd::prelude::*;

verus! {

/// The field of the `Uid:` line of a status record that holds the effective
/// user id. The line reads `Uid:`, then the real, the effective, the saved and
/// the file-system id.
pub const EFFECTIVE_UID_FIELD: usize = 2;

/// The process id that the name of an entry of the process table writes: the
/// name is made of decimal digits and writes a number that an `i32` holds.
/// Every other entry is no process.
pub open spec fn pid_of_name(name: Seq<char>) -> Option<i32> {
    match decimal_up_to(name, i32::MAX as nat) {
        Some(pid) => Some(pid as i32),
        None => None,
    }
}

/// `ids`, and `pid` after them where it is not among them.
pub open spec fn with_id(ids: Seq<i32>, pid: i32) -> Seq<i32> {
    if ids.contains(pid) {
        ids
    } else {
        ids.push(pid)
    }
}

/// The texts of a list of strings, in order.
pub open spec fn texts_of(names: Seq<String>) -> Seq<Seq<char>> {
    names.map_values(|name: String| name@)
}

/// The process ids that the entries `names` of the process table write, each
/// once, in the order in which they first come.
pub open spec fn ids_of_names(names: Seq<Seq<char>>) -> Seq<i32>
    decreases names.len(),
{
    if names.len() == 0 {
        Seq::empty()
    } else {
        let before = ids_of_names(names.drop_last());
        match pid_of_name(names.last()) {
            Some(pid) => with_id(before, pid),
            None => before,
        }
    }
}

/// The ids of `current` that are not among `previous`, in the order of
/// `current`.
pub open spec fn new_ids(current: Seq<i32>, previous: Seq<i32>) -> Seq<i32>
    decreases current.len(),
{
    if current.len() == 0 {
        Seq::empty()
    } else {
        let before = new_ids(current.drop_last(), previous);
        if previous.contains(current.last()) {
            before
        } else {
            before.push(current.last())
        }
    }
}

/// Adding an id that is not there keeps a list free of duplicates.
pub proof fn lemma_with_id(ids: Seq<i32>, pid: i32)
    requires
        ids.no_duplicates(),
    ensures
        with_id(ids, pid).no_duplicates(),
        forall|other: i32| with_id(ids, pid).contains(other) <==> ids.contains(other) || other == pid,
{
    let after = with_id(ids, pid);
    if !ids.contains(pid) {
        assert forall|i: int, j: int| 0 <= i < after.len() && 0 <= j < after.len() && i != j implies after[i]
            != after[j] by {
            if i == ids.len() {
                assert(ids[j] == after[j]);
            } else if j == ids.len() {
                assert(ids[i] == after[i]);
            }
        }
        assert forall|other: i32| after.contains(other) <==> ids.contains(other) || other
            == pid by {
            if ids.contains(other) {
                let i = choose|i: int| 0 <= i < ids.len() && ids[i] == other;
                assert(after[i] == other);
            }
            if other == pid {
                assert(after[ids.len() as int] == pid);
            }
        }
    }
}

/// An id is new exactly when the current snapshot holds it and the previous
/// one does not.
pub proof fn lemma_new_id(current: Seq<i32>, previous: Seq<i32>, pid: i32)
    ensures
        new_ids(current, previous).contains(pid) <==> current.contains(pid) && !previous.contains(
            pid,
        ),
    decreases current.len(),
{
    let fresh = new_ids(current, previous);
    if current.len() > 0 {
        let shorter = current.drop_last();
        let before = new_ids(shorter, previous);
        let last = current.last();
        lemma_new_id(shorter, previous, pid);
        if fresh.contains(pid) {
            let i = choose|i: int| 0 <= i < fresh.len() && fresh[i] == pid;
            if i < before.len() {
                assert(before[i] == pid);
                assert(before.contains(pid));
                assert(shorter.contains(pid));
                let j = choose|j: int| 0 <= j < shorter.len() && shorter[j] == pid;
                assert(current[j] == pid);
            } else {
                assert(pid == last);
                assert(current[current.len() - 1] == pid);
            }
        }
        if current.contains(pid) && !previous.contains(pid) {
            let j = choose|j: int| 0 <= j < current.len() && current[j] == pid;
            if j < shorter.len() {
                assert(shorter[j] == pid);
                assert(shorter.contains(pid));
                assert(before.contains(pid));
                let i = choose|i: int| 0 <= i < before.len() && before[i] == pid;
                assert(fresh[i] == pid);
            } else {
                assert(fresh[fresh.len() - 1] == pid);
            }
        }
    }
}

/// The new ids are the set difference of two snapshots: the ids that the
/// current snapshot holds and the previous one does not. An id that left the
/// table is among neither. No id is new twice.
pub proof fn lemma_new_ids(current: Seq<i32>, previous: Seq<i32>)
    ensures
        new_ids(current, previous).to_set() == current.to_set().difference(previous.to_set()),
        current.no_duplicates() ==> new_ids(current, previous).no_duplicates(),
    decreases current.len(),
{
    let fresh = new_ids(current, previous);
    assert forall|pid: i32| fresh.to_set().contains(pid) <==> current.to_set().difference(
        previous.to_set(),
    ).contains(pid) by {
        lemma_new_id(current, previous, pid);
    }
    assert(fresh.to_set() =~= current.to_set().difference(previous.to_set()));
    if current.len() > 0 && current.no_duplicates() {
        let shorter = current.drop_last();
        let before = new_ids(shorter, previous);
        let last = current.last();
        lemma_new_ids(shorter, previous);
        assert(shorter.no_duplicates());
        if !previous.contains(last) {
            lemma_new_id(shorter, previous, last);
            if shorter.contains(last) {
                let j = choose|j: int| 0 <= j < shorter.len() && shorter[j] == last;
                assert(current[j] == current[current.len() - 1]);
            }
            lemma_with_id(before, last);
        }
    }
}

/// The ids of a process table hold no id twice, and hold exactly the ids that
/// its entries write.
pub proof fn lemma_ids_of_names(names: Seq<Seq<char>>)
    ensures
        ids_of_names(names).no_duplicates(),
        forall|pid: i32|
            ids_of_names(names).contains(pid) <==> exists|i: int|
                0 <= i < names.len() && pid_of_name(#[trigger] names[i]) == Some(pid),
    decreases names.len(),
{
    let ids = ids_of_names(names);
    if names.len() > 0 {
        let shorter = names.drop_last();
        let before = ids_of_names(shorter);
        lemma_ids_of_names(shorter);
        match pid_of_name(names.last()) {
            Some(last) => {
                lemma_with_id(before, last);
            },
            None => {},
        }
        assert forall|pid: i32| ids.contains(pid) <==> exists|i: int|
            0 <= i < names.len() && pid_of_name(#[trigger] names[i]) == Some(pid) by {
            if ids.contains(pid) {
                if before.contains(pid) {
                    let i = choose|i: int|
                        0 <= i < shorter.len() && pid_of_name(#[trigger] shorter[i]) == Some(pid);
                    assert(names[i] == shorter[i]);
                } else {
                    assert(pid_of_name(names[names.len() - 1]) == Some(pid));
                }
            }
            if exists|i: int| 0 <= i < names.len() && pid_of_name(#[trigger] names[i]) == Some(pid) {
                let i = choose|i: int|
                    0 <= i < names.len() && pid_of_name(#[trigger] names[i]) == Some(pid);
                if i < shorter.len() {
                    assert(shorter[i] == names[i]);
                    assert(before.contains(pid));
                }
            }
        }
    }
}

/// Reads the name of an entry of the process table as a process id.
pub fn parse_pid(name: &str) -> (pid: Option<i32>)
    ensures
        pid == pid_of_name(name@),
{
    let chars = to_chars(name);
    assert(chars@.subrange(0, chars@.len() as int) =~= name@);
    match parse_decimal(&chars, 0, chars.len(), 0x7fff_ffff) {
        Some(pid) => Some(pid as i32),
        None => None,
    }
}

/// The processes seen at one moment: a set of process ids.
#[derive(Debug)]
pub struct ProcessSnapshot {
    ids: Vec<i32>,
}

impl View for ProcessSnapshot {
    type V = Set<i32>;

    /// The ids of the processes that were seen.
    closed spec fn view(&self) -> Set<i32> {
        self.ids@.to_set()
    }
}

impl ProcessSnapshot {
    #[verifier::type_invariant]
    spec fn holds_no_id_twice(self) -> bool {
        self.ids@.no_duplicates()
    }

    /// The ids of the snapshot, each once, in the order in which they came in.
    pub closed spec fn ids(&self) -> Seq<i32> {
        self.ids@
    }

    /// The snapshot is the set of its ids, and holds none of them twice.
    pub fn ids_are_distinct(&self)
        ensures
            self.ids().no_duplicates(),
            self@ == self.ids().to_set(),
    {
        proof {
            use_type_invariant(self);
        }
    }

    /// The snapshot without processes.
    pub fn new() -> (snapshot: Self)
        ensures
            snapshot.ids() == Seq::<i32>::empty(),
    {
        ProcessSnapshot { ids: Vec::new() }
    }

    /// How many processes the snapshot holds.
    pub fn len(&self) -> (n: usize)
        ensures
            n == self.ids().len(),
    {
        self.ids.len()
    }

    /// Tells whether the snapshot holds `pid`.
    pub fn contains(&self, pid: i32) -> (found: bool)
        ensures
            found == self.ids().contains(pid),
            found == self@.contains(pid),
    {
        let mut at: usize = 0;
        while at < self.ids.len()
            invariant
                at <= self.ids.len(),
                forall|i: int| 0 <= i < at ==> self.ids@[i] != pid,
            decreases self.ids.len() - at,
        {
            if self.ids[at] == pid {
                return true;
            }
            at += 1;
        }
        false
    }

    /// Puts `pid` into the snapshot, and tells whether it was not there.
    pub fn insert(&mut self, pid: i32) -> (added: bool)
        ensures
            added == !old(self).ids().contains(pid),
            final(self).ids() == with_id(old(self).ids(), pid),
    {
        if self.contains(pid) {
            false
        } else {
            proof {
                use_type_invariant(&*self);
                lemma_with_id(self.ids@, pid);
            }
            let mut ids = self.ids.clone();
            ids.push(pid);
            assert(ids@ =~= with_id(self.ids@, pid));
            self.ids = ids;
            true
        }
    }

    /// The ids of the snapshot, in the order in which they came in.
    pub fn to_vec(&self) -> (ids: Vec<i32>)
        ensures
            ids@ == self.ids(),
    {
        self.ids.clone()
    }

    /// The ids of this snapshot that `previous` does not hold, in the order in
    /// which they came into this one.
    pub fn difference(&self, previous: &ProcessSnapshot) -> (fresh: Vec<i32>)
        ensures
            fresh@ == new_ids(self.ids(), previous.ids()),
    {
        let mut fresh: Vec<i32> = Vec::new();
        let mut at: usize = 0;
        while at < self.ids.len()
            invariant
                at <= self.ids.len(),
                fresh@ == new_ids(self.ids@.take(at as int), previous.ids@),
            decreases self.ids.len() - at,
        {
            let pid = self.ids[at];
            proof {
                let upto = self.ids@.take(at + 1);
                assert(upto.drop_last() =~= self.ids@.take(at as int));
                assert(upto.last() == pid);
            }
            if !previous.contains(pid) {
                fresh.push(pid);
            }
            at += 1;
        }
        assert(self.ids@.take(at as int) =~= self.ids@);
        fresh
    }
}

/// The processes that the entries `names` of the process table stand for.
pub fn process_ids(names: &Vec<String>) -> (snapshot: ProcessSnapshot)
    ensures
        snapshot.ids() == ids_of_names(texts_of(names@)),
{
    let ghost texts = texts_of(names@);
    let mut snapshot = ProcessSnapshot::new();
    let mut at: usize = 0;
    while at < names.len()
        invariant
            at <= names.len(),
            texts == texts_of(names@),
            snapshot.ids() == ids_of_names(texts.take(at as int)),
        decreases names.len() - at,
    {
        proof {
            let upto = texts.take(at + 1);
            assert(upto.drop_last() =~= texts.take(at as int));
            assert(upto.last() == names@[at as int]@);
        }
        match parse_pid(names[at].as_str()) {
            Some(pid) => {
                snapshot.insert(pid);
            },
            None => {},
        }
        at += 1;
    }
    assert(texts.take(at as int) =~= texts);
    snapshot
}

/// A raw command line with a space in the place of each NUL that parts its
/// arguments.
pub open spec fn command_line_of(raw: Seq<char>) -> Seq<char> {
    raw.map_values(
        |c: char|
            if c == '\0' {
                ' '
            } else {
                c
            },
    )
}

/// The command line of a process as the rules see it, from the raw one.
pub fn command_line(raw: &str) -> (command: String)
    ensures
        command@ == command_line_of(raw@),
{
    let chars = to_chars(raw);
    let mut command = String::new();
    let mut at: usize = 0;
    while at < chars.len()
        invariant
            at <= chars.len(),
            chars@ == raw@,
            command@ == command_line_of(raw@).take(at as int),
        decreases chars.len() - at,
    {
        let c = chars[at];
        if c == '\0' {
            command.push(' ');
        } else {
            command.push(c);
        }
        at += 1;
        assert(command@ =~= command_line_of(raw@).take(at as int));
    }
    assert(command_line_of(raw@).take(at as int) =~= command_line_of(raw@));
    command
}

/// The effective user id that a status record names: the third field of the
/// first line that begins with `Uid:`, read as an unsigned number.
pub open spec fn uid_of_status(status: Seq<char>) -> Option<u32> {
    if has_line_with(status, "Uid:"@) {
        let line = line_at(status, first_line_with(status, "Uid:"@));
        match field_of(line, EFFECTIVE_UID_FIELD as nat) {
            Some(field) => unsigned_of(field),
            None => None,
        }
    } else {
        None
    }
}

/// Reads the effective user id off the status record of a process.
pub fn status_uid(status: &str) -> (uid: Option<u32>)
    ensures
        uid == uid_of_status(status@),
{
    let text = to_chars(status);
    let prefix = to_chars("Uid:");
    match find_line_with(&text, &prefix) {
        Some((start, end)) => match find_field(&text, start, end, EFFECTIVE_UID_FIELD) {
            Some((from, to)) => parse_unsigned(&text, from, to),
            None => None,
        },
        None => None,
    }
}

/// What the user database of the machine says of a user id.
#[derive(Debug, PartialEq, Eq)]
pub enum UserLookup {
    /// The account of that id, by its name.
    Found(String),
    /// The database holds no account of that id.
    Missing,
    /// The database could not be asked.
    Failed,
}

/// The value of a [`UserLookup`].
pub enum UserLookupView {
    Found(Seq<char>),
    Missing,
    Failed,
}

impl View for UserLookup {
    type V = UserLookupView;

    open spec fn view(&self) -> UserLookupView {
        match *self {
            UserLookup::Found(name) => UserLookupView::Found(name@),
            UserLookup::Missing => UserLookupView::Missing,
            UserLookup::Failed => UserLookupView::Failed,
        }
    }
}

/// The user id of the superuser, the one id whose owner is known by a name
/// without an account: `root`.
pub const ROOT_UID: u32 = 0;

/// The name under which the rules know the owner of a process with the user
/// id `uid`: the name of the account, where the user database holds one.
/// Where it holds none, the superuser is still `root`; any other id has no
/// owner that is known. There is none either where the database could not be
/// asked.
pub open spec fn owner_of(uid: u32, lookup: UserLookupView) -> Option<Seq<char>> {
    match lookup {
        UserLookupView::Found(name) => Some(name),
        UserLookupView::Missing => if uid == ROOT_UID {
            Some("root"@)
        } else {
            None
        },
        UserLookupView::Failed => None,
    }
}

/// The owner's name for the user id `uid`, from what the user database said
/// of it.
pub fn owner_of_lookup(uid: u32, lookup: UserLookup) -> (owner: Option<String>)
    ensures
        text_of(owner) == owner_of(uid, lookup@),
{
    match lookup {
        UserLookup::Found(name) => Some(name),
        UserLookup::Missing => if uid == ROOT_UID {
            Some("root".to_owned())
        } else {
            None
        },
        UserLookup::Failed => None,
    }
}

/// Asks the user database of the machine for the account of `uid`, with
/// `nix::unistd::User::from_uid`. Nothing is claimed of the answer: it is the
/// machine's, and may differ from one call to the next.
#[verifier::external_body]
fn lookup_user(uid: u32) -> UserLookup {
    match User::from_uid(Uid::from_raw(uid)) {
        Ok(Some(user)) => UserLookup::Found(user.name),
        Ok(None) => UserLookup::Missing,
        Err(_) => UserLookup::Failed,
    }
}

/// The name of the owner of a process, from its status record.
///
/// A record that names no user id has no owner. For one that does, the user
/// database of the machine is asked for that id, and the name is what
/// `owner_of_lookup` makes of the id and the answer.
pub fn owner_of_status(status: &str) -> (owner: Option<String>)
    ensures
        uid_of_status(status@) is None ==> owner is None,
{
    match status_uid(status) {
        Some(uid) => owner_of_lookup(uid, lookup_user(uid)),
        None => None,
    }
}

} // verus!
