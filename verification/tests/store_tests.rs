use door25::door;
use door25::oct_conf;
use door25::store::Error;
use door25::store::Store;

fn pid(s: &str) -> String {
    s.to_string()
}

fn door_params(info: Option<&str>) -> door::Params {
    door::Params { door_info: info.map(|s| s.to_string()) }
}

fn conf_params(token: Option<&str>, openid: Option<&str>) -> oct_conf::Params {
    oct_conf::Params {
        token: token.map(|s| s.to_string()),
        user_pid: None,
        openid: openid.map(|s| s.to_string()),
    }
}

#[test]
fn create_door_adds_one_door_and_one_link() {
    let mut store = Store::new();
    let alice = pid("alice");
    let d = door::add(&mut store, &alice, &door_params(Some("{\"room\":1}"))).unwrap();
    assert_eq!(store.doors.len(), 1);
    assert_eq!(store.links.len(), 1);
    assert_eq!(d.uid.len(), 36);
    for (i, c) in d.uid.chars().enumerate() {
        if i == 8 || i == 13 || i == 18 || i == 23 {
            assert_eq!(c, '-');
        } else {
            assert!(c.is_ascii_hexdigit() && !c.is_ascii_uppercase());
        }
    }
    assert_eq!(d.door_info, Some("{\"room\":1}".to_string()));
    assert_eq!(store.links[0].user_pid, "alice");
    assert_eq!(store.links[0].door_uid, d.uid);
    assert_eq!(store.doors[0], d);
}

#[test]
fn create_door_collision_leaves_store_unchanged() {
    let mut store = Store::new();
    let alice = pid("alice");
    let uid = "fixed-uid".to_string();
    let first = door::add_with_uid(&mut store, &alice, &door_params(None), uid.clone());
    assert!(first.is_ok());
    let again = door::add_with_uid(&mut store, &pid("bob"), &door_params(None), uid);
    match again {
        Err(Error::BadRequest(m)) => assert_eq!(m, "door uid already taken"),
        other => panic!("expected a collision error, got {:?}", other),
    }
    assert_eq!(store.doors.len(), 1);
    assert_eq!(store.links.len(), 1);
}

#[test]
fn created_door_listed_for_creator_absent_for_others() {
    let mut store = Store::new();
    let alice = pid("alice");
    let bob = pid("bob");
    let d = door::add(&mut store, &alice, &door_params(Some("{\"room\":1}"))).unwrap();
    let mine = door::list(&store, &alice);
    assert_eq!(mine.len(), 1);
    assert_eq!(mine[0].uid, d.uid);
    let theirs = door::list(&store, &bob);
    assert!(theirs.is_empty());
}

#[test]
fn user_with_no_links_gets_empty_list() {
    let store = Store::new();
    assert!(door::list(&store, &pid("nobody")).is_empty());
}

#[test]
fn get_one_needs_no_ownership() {
    let mut store = Store::new();
    let alice = pid("alice");
    let d = door::add(&mut store, &alice, &door_params(None)).unwrap();
    let got = door::get_one(&store, &d.uid).unwrap();
    assert_eq!(got.uid, d.uid);
    assert_eq!(door::get_one(&store, &pid("missing")), Err(Error::NotFound));
}

#[test]
fn open_unlinked_door_is_not_found() {
    let mut store = Store::new();
    let alice = pid("alice");
    let bob = pid("bob");
    let d = door::add(&mut store, &alice, &door_params(None)).unwrap();
    // Even with a perfectly good credential, another user's door is 404.
    oct_conf::add(&mut store, &bob, &conf_params(Some("t"), Some("o")));
    match door::open(&store, &bob, &d.uid) {
        Err(Error::NotFound) => {}
        other => panic!("expected NotFound, got {:?}", other),
    }
    // A door that does not exist at all is 404 too.
    match door::open(&store, &bob, &pid("no-such-door")) {
        Err(Error::NotFound) => {}
        other => panic!("expected NotFound, got {:?}", other),
    }
}

#[test]
fn open_without_usable_credential_is_bad_request() {
    let mut store = Store::new();
    let alice = pid("alice");
    let d = door::add(&mut store, &alice, &door_params(None)).unwrap();
    // No credential rows at all.
    match door::open(&store, &alice, &d.uid) {
        Err(Error::BadRequest(m)) => assert_eq!(m, "OCT configuration not found"),
        other => panic!("expected BadRequest, got {:?}", other),
    }
    // A credential with a null token does not count.
    oct_conf::add(&mut store, &alice, &conf_params(None, Some("o")));
    match door::open(&store, &alice, &d.uid) {
        Err(Error::BadRequest(m)) => assert_eq!(m, "OCT configuration not found"),
        other => panic!("expected BadRequest, got {:?}", other),
    }
    // A usable token whose openid is null cannot be forwarded either.
    oct_conf::add(&mut store, &alice, &conf_params(Some("t"), None));
    match door::open(&store, &alice, &d.uid) {
        Err(Error::BadRequest(m)) => assert_eq!(m, "OCT configuration not found"),
        other => panic!("expected BadRequest, got {:?}", other),
    }
}

#[test]
fn open_hands_back_door_and_credential() {
    let mut store = Store::new();
    let alice = pid("alice");
    let d = door::add(&mut store, &alice, &door_params(Some("{\"room\":7}"))).unwrap();
    oct_conf::add(&mut store, &alice, &conf_params(Some("tok"), Some("oid")));
    let req = door::open(&store, &alice, &d.uid).unwrap();
    assert_eq!(req.door.uid, d.uid);
    assert_eq!(req.door.door_info, Some("{\"room\":7}".to_string()));
    assert_eq!(req.token, "tok");
    assert_eq!(req.openid, "oid");
}

#[test]
fn open_picks_earliest_usable_credential() {
    let mut store = Store::new();
    let alice = pid("alice");
    let d = door::add(&mut store, &alice, &door_params(None)).unwrap();
    oct_conf::add(&mut store, &alice, &conf_params(None, Some("skipped")));
    oct_conf::add(&mut store, &alice, &conf_params(Some("first"), Some("o1")));
    oct_conf::add(&mut store, &alice, &conf_params(Some("second"), Some("o2")));
    let req = door::open(&store, &alice, &d.uid).unwrap();
    assert_eq!(req.token, "first");
    assert_eq!(req.openid, "o1");
}

#[test]
fn open_finish_returns_vendor_body_verbatim() {
    let mut store = Store::new();
    let alice = pid("alice");
    let d = door::add(&mut store, &alice, &door_params(None)).unwrap();
    let body = "{\"code\":0}".to_string();
    let res = door::open_finish(d, door::VendorOutcome::Delivered(body.clone())).unwrap();
    assert_eq!(res.response, body);
}

#[test]
fn open_finish_wraps_vendor_failures() {
    let mut store = Store::new();
    let alice = pid("alice");
    let d1 = door::add(&mut store, &alice, &door_params(None)).unwrap();
    let d2 = door::add(&mut store, &alice, &door_params(None)).unwrap();
    match door::open_finish(d1, door::VendorOutcome::SendFailed("boom".to_string())) {
        Err(Error::BadRequest(m)) => assert_eq!(m, "Failed to send request: boom"),
        other => panic!("expected BadRequest, got {:?}", other),
    }
    match door::open_finish(d2, door::VendorOutcome::ReadFailed("bad json".to_string())) {
        Err(Error::BadRequest(m)) => assert_eq!(m, "Failed to read response: bad json"),
        other => panic!("expected BadRequest, got {:?}", other),
    }
}

#[test]
fn can_get_oct_confs() {
    let store = Store::new();
    let confs = oct_conf::list(&store);
    assert_eq!(confs.len(), 0);
}

#[test]
fn oct_conf_add_scopes_to_caller_and_numbers_rows() {
    let mut store = Store::new();
    let c1 = oct_conf::add(&mut store, &pid("alice"), &conf_params(Some("t1"), Some("o1")));
    let c2 = oct_conf::add(
        &mut store,
        &pid("bob"),
        &oct_conf::Params {
            token: Some("t2".to_string()),
            // The request may claim any owner; the stored owner is the caller.
            user_pid: Some("mallory".to_string()),
            openid: None,
        },
    );
    assert_eq!(c1.id, 1);
    assert_eq!(c2.id, 2);
    assert_eq!(c1.user_pid, Some("alice".to_string()));
    assert_eq!(c2.user_pid, Some("bob".to_string()));
    assert_eq!(c2.token, Some("t2".to_string()));
    assert_eq!(c2.openid, None);
    // list is unscoped: every user's rows come back.
    let all = oct_conf::list(&store);
    assert_eq!(all.len(), 2);
    assert_eq!(all[0], c1);
    assert_eq!(all[1], c2);
}

#[test]
fn oct_conf_get_one_and_remove() {
    let mut store = Store::new();
    let c1 = oct_conf::add(&mut store, &pid("alice"), &conf_params(Some("t1"), Some("o1")));
    let c2 = oct_conf::add(&mut store, &pid("alice"), &conf_params(Some("t2"), Some("o2")));
    assert_eq!(oct_conf::get_one(&store, c1.id), Ok(c1));
    assert_eq!(oct_conf::get_one(&store, 99), Err(Error::NotFound));
    assert_eq!(oct_conf::remove(&mut store, c2.id), Ok(()));
    assert_eq!(store.confs.len(), 1);
    assert_eq!(oct_conf::get_one(&store, c2.id), Err(Error::NotFound));
    assert_eq!(oct_conf::remove(&mut store, c2.id), Err(Error::NotFound));
}
