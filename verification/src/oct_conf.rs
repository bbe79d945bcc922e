//! CRUD over vendor-credential ("OCT conf") rows.
//!
//! `add` scopes the new row to the calling user; `list`, `get_one` and
//! `remove` are unscoped, as the API exposes them.

use vstd::prelude::*;
use crate::store::clone_opt_string;
use crate::store::Error;
use crate::store::OctConf;
use crate::store::Store;

verus! {

/// The request body of the credential-create endpoint. The `user_pid`
/// field is accepted but ignored: the stored owner is always the
/// authenticated caller.
#[derive(Debug, PartialEq)]
pub struct Params {
    pub token: Option<String>,
    pub user_pid: Option<String>,
    pub openid: Option<String>,
}

/// All credential rows, in insertion order, for every user.
pub fn list(store: &Store) -> (r: Vec<OctConf>)
    ensures
        r@ == store.confs@,
{
    let mut out: Vec<OctConf> = Vec::new();
    let mut i: usize = 0;
    while i < store.confs.len()
        invariant
            i <= store.confs.len(),
            out@ == store.confs@.take(i as int),
        decreases store.confs.len() - i,
    {
        out.push(store.confs[i].duplicate());
        proof {
            assert(store.confs@.take(i as int + 1)
                =~= store.confs@.take(i as int).push(store.confs@[i as int]));
        }
        i = i + 1;
    }
    proof {
        assert(store.confs@.take(store.confs.len() as int) =~= store.confs@);
    }
    out
}

/// Appends one credential row owned by the calling user, carrying the
/// token and openid of the request and the next free id.
pub fn add(store: &mut Store, user_pid: &String, params: &Params) -> (r: OctConf)
    requires
        old(store).wf(),
        old(store).next_conf_id < i32::MAX,
    ensures
        final(store).wf(),
        r.id == old(store).next_conf_id,
        r.user_pid == Option::Some(*user_pid),
        r.token == params.token,
        r.openid == params.openid,
        final(store).confs@ == old(store).confs@.push(r),
        final(store).next_conf_id == old(store).next_conf_id + 1,
        final(store).doors@ == old(store).doors@,
        final(store).links@ == old(store).links@,
{
    let c = OctConf {
        id: store.next_conf_id,
        token: clone_opt_string(&params.token),
        user_pid: Option::Some(user_pid.clone()),
        openid: clone_opt_string(&params.openid),
    };
    let r = c.duplicate();
    store.confs.push(c);
    store.next_conf_id = store.next_conf_id + 1;
    r
}

/// Point lookup of a credential row by id; ids are unique, so the row is
/// the one carrying `id`.
pub fn get_one(store: &Store, id: i32) -> (r: Result<OctConf, Error>)
    ensures
        match r {
            Ok(c) => store.confs@.contains(c) && c.id == id,
            Err(e) => e is NotFound && forall|i: int|
                0 <= i < store.confs@.len() ==> store.confs@[i].id != id,
        },
{
    let mut i: usize = 0;
    while i < store.confs.len()
        invariant
            i <= store.confs.len(),
            forall|j: int| 0 <= j < i ==> store.confs@[j].id != id,
        decreases store.confs.len() - i,
    {
        if store.confs[i].id == id {
            let c = store.confs[i].duplicate();
            assert(store.confs@.contains(store.confs@[i as int]));
            return Ok(c);
        }
        i = i + 1;
    }
    Err(Error::NotFound)
}

/// Deletes the credential row carrying `id`, or reports `NotFound` and
/// leaves the store unchanged. Door and link rows are never touched.
pub fn remove(store: &mut Store, id: i32) -> (r: Result<(), Error>)
    requires
        old(store).wf(),
    ensures
        final(store).wf(),
        final(store).doors@ == old(store).doors@,
        final(store).links@ == old(store).links@,
        final(store).next_conf_id == old(store).next_conf_id,
        match r {
            Ok(u) => exists|i: int|
                0 <= i < old(store).confs@.len() && old(store).confs@[i].id == id
                    && final(store).confs@ == old(store).confs@.remove(i),
            Err(e) => e is NotFound && (forall|i: int|
                0 <= i < old(store).confs@.len() ==> old(store).confs@[i].id != id)
                && *final(store) == *old(store),
        },
{
    let mut i: usize = 0;
    while i < store.confs.len()
        invariant
            i <= store.confs.len(),
            forall|j: int| 0 <= j < i ==> store.confs@[j].id != id,
            *store == *old(store),
            store.wf(),
        decreases store.confs.len() - i,
    {
        if store.confs[i].id == id {
            store.confs.remove(i);
            return Ok(());
        }
        i = i + 1;
    }
    Err(Error::NotFound)
}

} // verus!
