//! The persisted records and their invariants: door rows, ownership-link
//! rows and vendor-credential rows, held in one `Store` value.

use vstd::prelude::*;

verus! {

/// A row asserting that a given user may view and open a given door.
#[derive(Debug, PartialEq)]
pub struct Link {
    pub user_pid: String,
    pub door_uid: String,
}

/// A registered door: a generated unique identifier and an opaque JSON
/// payload ("door_info"), kept as its serialized text.
#[derive(Debug, PartialEq)]
pub struct Door {
    pub uid: String,
    pub door_info: Option<String>,
}

/// A per-user vendor credential ("OCT conf"): a token/openid pair used to
/// authorize calls to the vendor's door-opening service. Every column but
/// the id is nullable.
#[derive(Debug, PartialEq)]
pub struct OctConf {
    pub id: i32,
    pub token: Option<String>,
    pub user_pid: Option<String>,
    pub openid: Option<String>,
}

/// The error taxonomy of the API: a missing row or missing ownership link
/// is `NotFound`; a missing vendor credential or a failed vendor call is
/// `BadRequest` with a message.
#[derive(Debug, PartialEq)]
pub enum Error {
    NotFound,
    BadRequest(String),
}

/// The whole persistent state, with the id the next credential row gets.
#[derive(Debug, PartialEq)]
pub struct Store {
    pub doors: Vec<Door>,
    pub links: Vec<Link>,
    pub confs: Vec<OctConf>,
    pub next_conf_id: i32,
}

/// Some link row grants `user` access to the door with identifier `door`.
pub open spec fn spec_linked(links: Seq<Link>, user: Seq<char>, door: Seq<char>) -> bool {
    exists|i: int|
        0 <= i < links.len() && links[i].user_pid@ == user && links[i].door_uid@ == door
}

/// Some door row carries the identifier `uid`.
pub open spec fn spec_has_door(doors: Seq<Door>, uid: Seq<char>) -> bool {
    exists|i: int| 0 <= i < doors.len() && doors[i].uid@ == uid
}

/// The credential row the door-open path selects for `user`: its owner
/// column equals the user and its token column is non-null. Rows are
/// scanned in insertion order, so the earliest-created usable row wins.
pub open spec fn conf_usable_for(c: OctConf, user: Seq<char>) -> bool {
    &&& c.user_pid matches Option::Some(p) && p@ == user
    &&& c.token is Some
}

/// The first credential row usable for `user`, in insertion order, if any.
pub open spec fn spec_first_conf(confs: Seq<OctConf>, user: Seq<char>) -> Option<OctConf>
    decreases confs.len(),
{
    if confs.len() == 0 {
        Option::None
    } else if conf_usable_for(confs[0], user) {
        Option::Some(confs[0])
    } else {
        spec_first_conf(confs.drop_first(), user)
    }
}

/// The selected credential is usable by construction: whenever
/// `spec_first_conf` yields a row, that row's owner is the user and its
/// token is non-null.
pub proof fn lemma_first_conf_usable(confs: Seq<OctConf>, user: Seq<char>)
    ensures
        spec_first_conf(confs, user) matches Option::Some(c) ==> conf_usable_for(c, user),
    decreases confs.len(),
{
    if confs.len() == 0 {
    } else if conf_usable_for(confs[0], user) {
    } else {
        lemma_first_conf_usable(confs.drop_first(), user);
    }
}

impl Store {
    /// Well-formedness: door identifiers are unique, every door a link
    /// refers to exists, credential ids are unique, and every credential
    /// id is below the next id to hand out.
    pub open spec fn wf(self) -> bool {
        &&& forall|i: int, j: int|
            0 <= i < j < self.doors@.len() ==> self.doors@[i].uid@ != self.doors@[j].uid@
        &&& forall|i: int|
            0 <= i < self.links@.len() ==> spec_has_door(
                self.doors@,
                (#[trigger] self.links@[i]).door_uid@,
            )
        &&& forall|i: int, j: int|
            0 <= i < j < self.confs@.len() ==> self.confs@[i].id != self.confs@[j].id
        &&& forall|i: int| 0 <= i < self.confs@.len() ==> self.confs@[i].id < self.next_conf_id
        &&& 1 <= self.next_conf_id
    }

    /// An empty store, as a freshly migrated database presents it.
    pub fn new() -> (r: Store)
        ensures
            r.wf(),
            r.doors@ =~= Seq::<Door>::empty(),
            r.links@ =~= Seq::<Link>::empty(),
            r.confs@ =~= Seq::<OctConf>::empty(),
            r.next_conf_id == 1,
    {
        Store { doors: Vec::new(), links: Vec::new(), confs: Vec::new(), next_conf_id: 1 }
    }

    /// Whether a link row grants `user_pid` access to door `door_uid`.
    pub fn has_link(&self, user_pid: &String, door_uid: &String) -> (r: bool)
        ensures
            r == spec_linked(self.links@, user_pid@, door_uid@),
    {
        let mut i: usize = 0;
        while i < self.links.len()
            invariant
                i <= self.links.len(),
                forall|j: int|
                    0 <= j < i ==> !(self.links@[j].user_pid@ == user_pid@
                        && self.links@[j].door_uid@ == door_uid@),
            decreases self.links.len() - i,
        {
            if self.links[i].user_pid == *user_pid && self.links[i].door_uid == *door_uid {
                return true;
            }
            i = i + 1;
        }
        false
    }

    /// The door row carrying `uid`, if one exists (unique by `wf`).
    pub fn find_door(&self, uid: &String) -> (r: Option<Door>)
        ensures
            match r {
                Option::Some(d) => self.doors@.contains(d) && d.uid@ == uid@,
                Option::None => !spec_has_door(self.doors@, uid@),
            },
    {
        let mut i: usize = 0;
        while i < self.doors.len()
            invariant
                i <= self.doors.len(),
                forall|j: int| 0 <= j < i ==> self.doors@[j].uid@ != uid@,
            decreases self.doors.len() - i,
        {
            if self.doors[i].uid == *uid {
                let d = self.doors[i].duplicate();
                assert(self.doors@.contains(self.doors@[i as int]));
                return Option::Some(d);
            }
            i = i + 1;
        }
        Option::None
    }

    /// The first credential row usable for `user_pid`, if any.
    pub fn find_conf(&self, user_pid: &String) -> (r: Option<OctConf>)
        ensures
            match r {
                Option::Some(c) => spec_first_conf(self.confs@, user_pid@)
                    == Option::Some(c),
                Option::None => spec_first_conf(self.confs@, user_pid@) is None,
            },
    {
        proof {
            assert(self.confs@.skip(0) =~= self.confs@);
        }
        let mut i: usize = 0;
        while i < self.confs.len()
            invariant
                i <= self.confs.len(),
                spec_first_conf(self.confs@, user_pid@)
                    == spec_first_conf(self.confs@.skip(i as int), user_pid@),
            decreases self.confs.len() - i,
        {
            let c = &self.confs[i];
            let usable = match &c.user_pid {
                Option::Some(p) => *p == *user_pid && c.token.is_some(),
                Option::None => false,
            };
            proof {
                assert(self.confs@.skip(i as int)[0] == self.confs@[i as int]);
                assert(self.confs@.skip(i as int).drop_first()
                    =~= self.confs@.skip(i as int + 1));
            }
            if usable {
                return Option::Some(self.confs[i].duplicate());
            }
            i = i + 1;
        }
        Option::None
    }
}

/// A clone of an optional string, equal to the one given.
pub fn clone_opt_string(o: &Option<String>) -> (r: Option<String>)
    ensures
        r == *o,
{
    match o {
        Option::None => Option::None,
        Option::Some(s) => Option::Some(s.clone()),
    }
}

impl Door {
    /// A copy equal to this door.
    pub fn duplicate(&self) -> (r: Door)
        ensures
            r == *self,
    {
        Door { uid: self.uid.clone(), door_info: clone_opt_string(&self.door_info) }
    }
}

impl OctConf {
    /// A copy equal to this credential.
    pub fn duplicate(&self) -> (r: OctConf)
        ensures
            r == *self,
    {
        OctConf {
            id: self.id,
            token: clone_opt_string(&self.token),
            user_pid: clone_opt_string(&self.user_pid),
            openid: clone_opt_string(&self.openid),
        }
    }
}

} // verus!
