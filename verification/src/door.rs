//! The door registry and the door-open decision chain.
//!
//! `add` creates a door row and its ownership link in one step: either both
//! rows appear or the store is unchanged. `list` returns exactly the doors
//! the caller holds a link to. `open` authorizes one door-open attempt and,
//! when everything is in place, hands back the request the HTTP layer must
//! forward to the vendor; `open_finish` folds the vendor's outcome into the
//! final result.

use vstd::prelude::*;
use vstd::string::StringExecFns;
use crate::store::clone_opt_string;
use crate::store::spec_first_conf;
use crate::store::spec_has_door;
use crate::store::spec_linked;
use crate::store::Door;
use crate::store::Error;
use crate::store::Link;
use crate::store::Store;

verus! {

/// The request body of the door-create endpoint.
#[derive(Debug, PartialEq)]
pub struct Params {
    pub door_info: Option<String>,
}

/// Everything the HTTP layer needs to forward one vendor call: the door
/// (whose payload becomes the POST body) and the credential pair that goes
/// into the `openid` and `token` headers.
#[derive(Debug, PartialEq)]
pub struct OpenRequest {
    pub door: Door,
    pub openid: String,
    pub token: String,
}

/// What came back from the vendor call: a JSON body, a transport failure,
/// or a body that was not valid JSON.
#[derive(Debug, PartialEq)]
pub enum VendorOutcome {
    Delivered(String),
    SendFailed(String),
    ReadFailed(String),
}

/// A successful door-open: the door and the vendor's JSON body, verbatim.
#[derive(Debug, PartialEq)]
pub struct OpenResult {
    pub door: Door,
    pub response: String,
}

/// Whether a door belongs to the caller's list: some link row of `links`
/// grants `user` access to it.
pub open spec fn listed_pred(links: Seq<Link>, user: Seq<char>) -> spec_fn(Door) -> bool {
    |d: Door| spec_linked(links, user, d.uid@)
}

/// The doors `list` returns for `user`: the door rows the user holds a
/// link to, in insertion order.
pub open spec fn spec_list_doors(s: Store, user: Seq<char>) -> Seq<Door> {
    s.doors@.filter(listed_pred(s.links@, user))
}

/// All doors reachable via the caller's ownership links; a caller with no
/// links gets an empty list, never an error.
pub fn list(store: &Store, user_pid: &String) -> (r: Vec<Door>)
    ensures
        r@ == spec_list_doors(*store, user_pid@),
{
    let mut out: Vec<Door> = Vec::new();
    let mut i: usize = 0;
    while i < store.doors.len()
        invariant
            i <= store.doors.len(),
            out@ == store.doors@.take(i as int).filter(listed_pred(store.links@, user_pid@)),
        decreases store.doors.len() - i,
    {
        proof {
            store.doors@.take(i as int).lemma_filter_push(
                store.doors@[i as int],
                listed_pred(store.links@, user_pid@),
            );
            assert(store.doors@.take(i as int + 1)
                =~= store.doors@.take(i as int).push(store.doors@[i as int]));
            assert(listed_pred(store.links@, user_pid@)(store.doors@[i as int]) == spec_linked(
                store.links@,
                user_pid@,
                store.doors@[i as int].uid@,
            ));
        }
        if store.has_link(user_pid, &store.doors[i].uid) {
            out.push(store.doors[i].duplicate());
        }
        i = i + 1;
    }
    proof {
        assert(store.doors@.take(store.doors.len() as int) =~= store.doors@);
    }
    out
}

/// Creates the door row and the caller's ownership link as one step: on
/// `Ok` exactly one door row and one link row are appended, on `Err` (the
/// identifier is already taken) the store is unchanged — never one row
/// without the other.
pub fn add_with_uid(store: &mut Store, user_pid: &String, params: &Params, uid: String) -> (r:
    Result<Door, Error>)
    requires
        old(store).wf(),
    ensures
        final(store).wf(),
        match r {
            Ok(d) => {
                &&& !spec_has_door(old(store).doors@, d.uid@)
                &&& d.uid@ == uid@
                &&& d.door_info == params.door_info
                &&& final(store).doors@ == old(store).doors@.push(d)
                &&& final(store).links@.len() == old(store).links@.len() + 1
                &&& final(store).links@ == old(store).links@.push(final(store).links@.last())
                &&& final(store).links@.last().user_pid == *user_pid
                &&& final(store).links@.last().door_uid == d.uid
                &&& final(store).confs@ == old(store).confs@
                &&& final(store).next_conf_id == old(store).next_conf_id
            },
            Err(e) => {
                &&& spec_has_door(old(store).doors@, uid@)
                &&& e matches Error::BadRequest(m) && m@ == "door uid already taken"@
                &&& *final(store) == *old(store)
            },
        },
{
    if store.find_door(&uid).is_some() {
        return Err(Error::BadRequest("door uid already taken".to_owned()));
    }
    let door = Door { uid, door_info: clone_opt_string(&params.door_info) };
    let result = door.duplicate();
    let link = Link { user_pid: user_pid.clone(), door_uid: door.uid.clone() };
    store.doors.push(door);
    store.links.push(link);
    proof {
        assert forall|k: int| 0 <= k < store.links@.len() implies spec_has_door(
            store.doors@,
            (#[trigger] store.links@[k]).door_uid@,
        ) by {
            if k < store.links@.len() - 1 {
                assert(store.links@[k] == old(store).links@[k]);
                let j = choose|j: int|
                    0 <= j < old(store).doors@.len() && old(store).doors@[j].uid@ == old(
                        store,
                    ).links@[k].door_uid@;
                assert(store.doors@[j].uid@ == store.links@[k].door_uid@);
            } else {
                let n = store.doors@.len() - 1;
                assert(store.doors@[n].uid@ == store.links@[k].door_uid@);
            }
        }
    }
    Ok(result)
}

/// A lowercase hexadecimal digit.
pub open spec fn is_hex_char(c: char) -> bool {
    ('0' <= c && c <= '9') || ('a' <= c && c <= 'f')
}

/// The hyphenated rendering of a UUID: 36 characters, the hyphens at
/// positions 8, 13, 18 and 23, lowercase hexadecimal digits everywhere
/// else.
pub open spec fn is_hyphenated_uuid(s: Seq<char>) -> bool {
    &&& s.len() == 36
    &&& forall|i: int|
        0 <= i < 36 ==> if i == 8 || i == 13 || i == 18 || i == 23 {
            s[i] == '-'
        } else {
            is_hex_char(#[trigger] s[i])
        }
}

/// Relies on `uuid::Uuid::new_v4` and its `Display` impl, which renders
/// every UUID in the hyphenated form: 36 characters, hyphens at fixed
/// positions, lowercase hex digits elsewhere. The value is random, so
/// nothing more is promised of it.
#[verifier::external_body]
fn fresh_uid() -> (r: String)
    ensures
        is_hyphenated_uuid(r@),
{
    uuid::Uuid::new_v4().to_string()
}

/// Registers a new door for the caller: generates an identifier, persists
/// the payload, and links the door to the calling user — both rows or
/// neither. Failure takes a collision of the generated identifier with an
/// existing door's, so on a store holding no 36-character door uid — a
/// fresh store among them — success is owed.
pub fn add(store: &mut Store, user_pid: &String, params: &Params) -> (r: Result<Door, Error>)
    requires
        old(store).wf(),
    ensures
        final(store).wf(),
        match r {
            Ok(d) => {
                &&& !spec_has_door(old(store).doors@, d.uid@)
                &&& is_hyphenated_uuid(d.uid@)
                &&& d.door_info == params.door_info
                &&& final(store).doors@ == old(store).doors@.push(d)
                &&& final(store).links@.len() == old(store).links@.len() + 1
                &&& final(store).links@ == old(store).links@.push(final(store).links@.last())
                &&& final(store).links@.last().user_pid == *user_pid
                &&& final(store).links@.last().door_uid == d.uid
                &&& final(store).confs@ == old(store).confs@
                &&& final(store).next_conf_id == old(store).next_conf_id
            },
            Err(e) => {
                &&& e is BadRequest
                &&& *final(store) == *old(store)
                &&& exists|i: int|
                    0 <= i < old(store).doors@.len() && old(store).doors@[i].uid@.len() == 36
            },
        },
{
    let uid = fresh_uid();
    let ghost guid = uid@;
    let r = add_with_uid(store, user_pid, params, uid);
    proof {
        if r is Err {
            let j = choose|j: int|
                0 <= j < old(store).doors@.len() && old(store).doors@[j].uid@ == guid;
            assert(old(store).doors@[j].uid@.len() == 36);
        }
    }
    r
}

/// Point lookup of a door by identifier. No ownership check: the endpoint
/// is unauthenticated in the API.
pub fn get_one(store: &Store, uid: &String) -> (r: Result<Door, Error>)
    requires
        store.wf(),
    ensures
        match r {
            Ok(d) => store.doors@.contains(d) && d.uid@ == uid@,
            Err(e) => e is NotFound && !spec_has_door(store.doors@, uid@),
        },
{
    match store.find_door(uid) {
        Option::Some(d) => Ok(d),
        Option::None => Err(Error::NotFound),
    }
}

/// Authorizes one door-open attempt. In order: a caller without an
/// ownership link to the door gets `NotFound` whether or not the door
/// exists; a linked door that has no row is `NotFound`; a caller whose
/// first usable credential is missing, or carries a null openid, gets
/// `BadRequest` and no vendor call is attempted. Otherwise the vendor
/// request is handed back, built from that door and that credential.
pub fn open(store: &Store, user_pid: &String, door_uid: &String) -> (r: Result<
    OpenRequest,
    Error,
>)
    requires
        store.wf(),
    ensures
        match r {
            Ok(req) => {
                &&& spec_linked(store.links@, user_pid@, door_uid@)
                &&& store.doors@.contains(req.door) && req.door.uid@ == door_uid@
                &&& spec_first_conf(store.confs@, user_pid@) matches Option::Some(c)
                    && c.token == Option::Some(req.token) && c.openid == Option::Some(req.openid)
            },
            Err(e) => match e {
                Error::NotFound => !spec_linked(store.links@, user_pid@, door_uid@)
                    || !spec_has_door(store.doors@, door_uid@),
                Error::BadRequest(m) => {
                    &&& spec_linked(store.links@, user_pid@, door_uid@)
                    &&& spec_has_door(store.doors@, door_uid@)
                    &&& match spec_first_conf(store.confs@, user_pid@) {
                        Option::Some(c) => c.openid is None,
                        Option::None => true,
                    }
                    &&& m@ == "OCT configuration not found"@
                },
            },
        },
{
    if !store.has_link(user_pid, door_uid) {
        return Err(Error::NotFound);
    }
    let door = match store.find_door(door_uid) {
        Option::Some(d) => d,
        Option::None => {
            return Err(Error::NotFound);
        },
    };
    let conf = match store.find_conf(user_pid) {
        Option::Some(c) => c,
        Option::None => {
            return Err(Error::BadRequest("OCT configuration not found".to_owned()));
        },
    };
    proof {
        crate::store::lemma_first_conf_usable(store.confs@, user_pid@);
    }
    let token = match conf.token {
        Option::Some(t) => t,
        Option::None => vstd::pervasive::unreached(),
    };
    let openid = match conf.openid {
        Option::Some(o) => o,
        Option::None => {
            return Err(Error::BadRequest("OCT configuration not found".to_owned()));
        },
    };
    Ok(OpenRequest { door, openid, token })
}

/// A user who created a door can retrieve it via `list`: after `add`
/// appends the door row and the caller's link row, the door is among the
/// doors listed for that caller.
pub proof fn lemma_created_door_listed(pre: Store, post: Store, user: Seq<char>, d: Door)
    requires
        post.doors@ == pre.doors@.push(d),
        post.links@.len() == pre.links@.len() + 1,
        post.links@ == pre.links@.push(post.links@.last()),
        post.links@.last().user_pid@ == user,
        post.links@.last().door_uid@ == d.uid@,
    ensures
        spec_list_doors(post, user).contains(d),
{
    let pred = listed_pred(post.links@, user);
    assert(post.links@[post.links@.len() - 1].user_pid@ == user);
    assert(spec_linked(post.links@, user, d.uid@));
    assert(pred(d));
    pre.doors@.lemma_filter_push(d, pred);
    let out = spec_list_doors(post, user);
    assert(out[out.len() - 1] == d);
    assert(out.contains(d));
}

/// A user who holds no ownership links gets an empty door list — never
/// an error, since `list` is total.
pub proof fn lemma_no_links_empty_list(s: Store, user: Seq<char>)
    requires
        forall|i: int| 0 <= i < s.links@.len() ==> s.links@[i].user_pid@ != user,
    ensures
        spec_list_doors(s, user) =~= Seq::<Door>::empty(),
{
    let out = spec_list_doors(s, user);
    if out.len() > 0 {
        s.doors@.lemma_filter_pred(listed_pred(s.links@, user), 0);
        assert(listed_pred(s.links@, user)(out[0]));
        assert(spec_linked(s.links@, user, out[0].uid@));
        assert(false);
    }
}

/// Folds the vendor's outcome into the handler's result: a delivered JSON
/// body is returned verbatim beside the door; a transport or decode
/// failure becomes `BadRequest` carrying the failure text.
pub fn open_finish(door: Door, outcome: VendorOutcome) -> (r: Result<OpenResult, Error>)
    ensures
        match outcome {
            VendorOutcome::Delivered(body) => r == Ok::<OpenResult, Error>(
                OpenResult { door, response: body },
            ),
            VendorOutcome::SendFailed(t) => r matches Err(Error::BadRequest(m))
                && m@ == "Failed to send request: "@ + t@,
            VendorOutcome::ReadFailed(t) => r matches Err(Error::BadRequest(m))
                && m@ == "Failed to read response: "@ + t@,
        },
{
    match outcome {
        VendorOutcome::Delivered(body) => Ok(OpenResult { door, response: body }),
        VendorOutcome::SendFailed(t) => Err(
            Error::BadRequest("Failed to send request: ".to_owned().concat(t.as_str())),
        ),
        VendorOutcome::ReadFailed(t) => Err(
            Error::BadRequest("Failed to read response: ".to_owned().concat(t.as_str())),
        ),
    }
}

} // verus!
