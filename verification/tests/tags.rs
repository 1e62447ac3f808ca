use ruthub::db::store::Store;
use ruthub::db::tag::EnsureTag;
use ruthub::errors::ServiceError;
use ruthub::model::tag::{CheckTag, RutTag, StarOrTag, StarTagStatus, Tag, TagRut, UpdateTag};
use ruthub::model::TAG_STAR_CAP;

fn tagging(tnames: &[&str], rut_id: &str, action: u8) -> RutTag {
    RutTag { tnames: tnames.iter().map(|t| t.to_string()).collect(), rut_id: rut_id.to_string(), action }
}

fn star(tname: &str, uname: &str, action: u8) -> StarOrTag {
    StarOrTag { uname: uname.to_string(), tname: tname.to_string(), note: "n".to_string(), action }
}

fn post(tname: &str) -> CheckTag {
    CheckTag { tname: tname.to_string(), action: "POST".to_string() }
}

#[test]
fn new_tag_is_named_by_its_id() {
    let tag = Tag::new("rust".to_string());
    assert_eq!(tag.id, "rust");
    assert_eq!(tag.tname, "rust");
    assert_eq!(tag.intro, "");
    assert_eq!(tag.logo, "");
    assert_eq!(tag.pname, "");
    assert_eq!((tag.item_count, tag.rut_count, tag.etc_count, tag.star_count, tag.vote), (0, 0, 0, 0, 0));
}

#[test]
fn first_link_has_count_one_and_joined_id() {
    let link = TagRut::first(&"rust".to_string(), &"r1".to_string());
    assert_eq!(link.id, "rust-r1");
    assert_eq!(link.tname, "rust");
    assert_eq!(link.rut_id, "r1");
    assert_eq!(link.count, 1);
    assert_eq!(link.applied_again().unwrap().count, 2);
}

#[test]
fn link_count_at_the_top_cannot_rise() {
    let link = TagRut { id: "x".to_string(), tname: "t".to_string(), rut_id: "r".to_string(), count: i32::MAX };
    assert!(link.applied_again().is_none());
}

#[test]
fn tagging_twice_keeps_one_link_with_count_two() {
    let mut store = Store::new();
    store.upsert_association(&"rust".to_string(), &"r1".to_string()).unwrap();
    assert_eq!(store.tagruts().len(), 1);
    assert_eq!(store.tagruts()[0].count, 1);
    store.upsert_association(&"rust".to_string(), &"r1".to_string()).unwrap();
    assert_eq!(store.tagruts().len(), 1);
    assert_eq!(store.tagruts()[0].count, 2);
    assert_eq!(store.tags().len(), 1);
    assert_eq!(store.tags()[0].rut_count, 1);
    assert_eq!(store.tags()[0].vote, 2);
}

#[test]
fn tagging_creates_the_tag_once() {
    let mut store = Store::new();
    store.upsert_association(&"rust".to_string(), &"r1".to_string()).unwrap();
    store.upsert_association(&"rust".to_string(), &"r2".to_string()).unwrap();
    store.upsert_association(&"verus".to_string(), &"r1".to_string()).unwrap();
    assert_eq!(store.tags().len(), 2);
    assert_eq!(store.tags()[0].tname, "rust");
    assert_eq!(store.tags()[0].rut_count, 2);
    assert_eq!(store.tags()[0].vote, 4);
    assert_eq!(store.tags()[1].tname, "verus");
    assert_eq!(store.tags()[1].rut_count, 1);
    assert_eq!(store.tagruts().len(), 3);
}

#[test]
fn ensure_tag_tells_whether_it_created() {
    let mut store = Store::new();
    match store.ensure_tag(&"rust".to_string()) {
        EnsureTag::Created(tag) => assert_eq!(tag.tname, "rust"),
        EnsureTag::Found(_) => panic!("the tag did not exist"),
    }
    match store.ensure_tag(&"rust".to_string()) {
        EnsureTag::Found(tag) => assert_eq!(tag.tname, "rust"),
        EnsureTag::Created(_) => panic!("the tag existed"),
    }
    assert_eq!(store.tags().len(), 1);
}

#[test]
fn untag_removes_a_link_of_count_five_in_one_call() {
    let mut store = Store::new();
    for _ in 0..5 {
        store.upsert_association(&"rust".to_string(), &"r1".to_string()).unwrap();
    }
    store.upsert_association(&"rust".to_string(), &"r2".to_string()).unwrap();
    assert_eq!(store.tagruts()[0].count, 5);
    assert_eq!(store.remove_association(&"rust".to_string(), &"r1".to_string()), 1);
    assert_eq!(store.tagruts().len(), 1);
    assert_eq!(store.tagruts()[0].rut_id, "r2");
    assert_eq!(store.remove_association(&"rust".to_string(), &"r1".to_string()), 0);
    assert_eq!(store.tagruts().len(), 1);
    assert_eq!(store.tags()[0].rut_count, 2);
}

#[test]
fn rut_tag_applies_each_name() {
    let mut store = Store::new();
    let msg = store.rut_tag(tagging(&["a", "b", "a"], "r1", 1)).unwrap();
    assert_eq!((msg.status, msg.message.as_str()), (201, "Done"));
    assert_eq!(store.tagruts().len(), 2);
    assert_eq!(store.tagruts()[0].tname, "a");
    assert_eq!(store.tagruts()[0].count, 2);
    assert_eq!(store.tagruts()[1].tname, "b");
    assert_eq!(store.tagruts()[1].count, 1);
}

#[test]
fn rut_tag_with_other_action_untags() {
    let mut store = Store::new();
    store.rut_tag(tagging(&["a", "b", "c"], "r1", 1)).unwrap();
    store.rut_tag(tagging(&["a"], "r2", 1)).unwrap();
    let msg = store.rut_tag(tagging(&["a", "c", "zzz"], "r1", 0)).unwrap();
    assert_eq!((msg.status, msg.message.as_str()), (201, "Done"));
    let left: Vec<(String, String)> =
        store.tagruts().iter().map(|l| (l.tname.clone(), l.rut_id.clone())).collect();
    assert_eq!(left, vec![("b".to_string(), "r1".to_string()), ("a".to_string(), "r2".to_string())]);
    store.rut_tag(tagging(&["b"], "r1", 9)).unwrap();
    assert_eq!(store.tagruts().len(), 1);
}

#[test]
fn rut_tag_with_no_names_is_done() {
    let mut store = Store::new();
    assert_eq!(store.rut_tag(tagging(&[], "r1", 1)).unwrap().status, 201);
    assert_eq!(store.rut_tag(tagging(&[], "r1", 0)).unwrap().status, 201);
    assert_eq!(store.tagruts().len(), 0);
}

#[test]
fn check_tag_post_adds_and_get_reads() {
    let mut store = Store::new();
    let added = store.check_tag(post("rust")).unwrap();
    assert_eq!((added.status, added.message.as_str()), (200, "Added"));
    assert_eq!(added.tag.tname, "rust");
    let padded = store.check_tag(CheckTag { tname: "verus".to_string(), action: " POST\n".to_string() }).unwrap();
    assert_eq!(padded.message, "Added");
    let got = store.check_tag(CheckTag { tname: "rust".to_string(), action: "GET".to_string() }).unwrap();
    assert_eq!((got.status, got.message.as_str()), (200, "Get"));
    assert_eq!(got.tag.tname, "rust");
    let lower = store.check_tag(CheckTag { tname: "rust".to_string(), action: "post".to_string() }).unwrap();
    assert_eq!(lower.message, "Get");
    assert_eq!(store.tags().len(), 2);
}

#[test]
fn check_tag_errors() {
    let mut store = Store::new();
    let missing = store.check_tag(CheckTag { tname: "rust".to_string(), action: "GET".to_string() });
    assert_eq!(missing.unwrap_err(), ServiceError::NotFound);
    store.check_tag(post("rust")).unwrap();
    assert_eq!(store.check_tag(post("rust")).unwrap_err(), ServiceError::StoreFailure);
    assert_eq!(store.tags().len(), 1);
}

#[test]
fn update_tag_replaces_the_description() {
    let mut store = Store::new();
    store.check_tag(post("rust")).unwrap();
    store.check_tag(post("lang")).unwrap();
    let edit = UpdateTag {
        tname: "rust".to_string(),
        intro: "a language".to_string(),
        logo: "crab".to_string(),
        pname: "lang".to_string(),
    };
    let msg = store.update_tag(edit).unwrap();
    assert_eq!((msg.status, msg.message.as_str()), (201, "Updated"));
    assert_eq!(msg.tag.intro, "a language");
    assert_eq!(store.tags()[0].intro, "a language");
    assert_eq!(store.tags()[0].logo, "crab");
    assert_eq!(store.tags()[0].pname, "lang");
    assert_eq!(store.tags()[1].intro, "");
    let missing = UpdateTag {
        tname: "nope".to_string(),
        intro: "".to_string(),
        logo: "".to_string(),
        pname: "".to_string(),
    };
    assert_eq!(store.update_tag(missing).unwrap_err(), ServiceError::NotFound);
}

#[test]
fn star_tag_raises_counter_and_vote() {
    let mut store = Store::new();
    store.upsert_association(&"rust".to_string(), &"r1".to_string()).unwrap();
    let msg = store.star_or_tag_as(star("rust", "ann", 1), "s1".to_string(), 3).unwrap();
    assert_eq!((msg.status, msg.message.as_str()), (200, "star"));
    assert_eq!(store.tags()[0].star_count, 1);
    assert_eq!(store.tags()[0].vote, 3);
    assert_eq!(store.startags().len(), 1);
    assert_eq!(store.startags()[0].id, "s1");
    assert_eq!(store.startags()[0].star_at, 3);
    let again = store.star_or_tag(star("rust", "ann", 1)).unwrap();
    assert_eq!(again.message, "star");
    assert_eq!(store.tags()[0].star_count, 1);
    let off = store.star_or_tag(star("rust", "ann", 0)).unwrap();
    assert_eq!((off.status, off.message.as_str()), (200, "unstar"));
    assert_eq!(store.tags()[0].star_count, 0);
    assert_eq!(store.tags()[0].vote, 2);
    assert_eq!(store.startags().len(), 0);
    let off_again = store.star_or_tag(star("rust", "ann", 0)).unwrap();
    assert_eq!(off_again.message, "unstar");
    assert_eq!(store.tags()[0].star_count, 0);
}

#[test]
fn star_tag_errors_and_unknown_action() {
    let mut store = Store::new();
    assert_eq!(store.star_or_tag(star("nope", "ann", 1)).unwrap_err(), ServiceError::NotFound);
    assert_eq!(store.star_or_tag(star("nope", "ann", 0)).unwrap_err(), ServiceError::NotFound);
    let msg = store.star_or_tag(star("nope", "ann", 5)).unwrap();
    assert_eq!((msg.status, msg.message.as_str()), (400, "unstar"));
}

#[test]
fn cap_is_forty_two() {
    assert_eq!(TAG_STAR_CAP, 42);
    assert_eq!(Store::new().tag_star_cap(), 42);
}

#[test]
fn star_at_the_cap_returns_limit_and_changes_nothing() {
    let mut store = Store::new();
    for k in 0..43 {
        store.check_tag(post(&format!("t{}", k))).unwrap();
    }
    for k in 0..42 {
        let msg = store.star_or_tag(star(&format!("t{}", k), "ann", 1)).unwrap();
        assert_eq!(msg.status, 200);
    }
    assert_eq!(store.tag_stars_held(&"ann".to_string()), 42);
    let over = store.star_or_tag(star("t42", "ann", 1)).unwrap();
    assert_eq!((over.status, over.message.as_str()), (418, "unstar"));
    assert_eq!(store.tags()[42].star_count, 0);
    assert_eq!(store.startags().len(), 42);
    let same = store.star_or_tag(star("t0", "ann", 1)).unwrap();
    assert_eq!(same.status, 418);
    assert_eq!(store.tags()[0].star_count, 1);
    assert_eq!(store.tags()[0].vote, 1);
    assert_eq!(store.startags().len(), 42);
    let other = store.star_or_tag(star("t42", "bob", 1)).unwrap();
    assert_eq!(other.status, 200);
    store.star_or_tag(star("t0", "ann", 0)).unwrap();
    assert_eq!(store.tag_stars_held(&"ann".to_string()), 41);
    assert_eq!(store.star_or_tag(star("t42", "ann", 1)).unwrap().status, 200);
}

#[test]
fn cap_can_be_set() {
    let mut store = Store::with_tag_star_cap(1);
    store.check_tag(post("a")).unwrap();
    store.check_tag(post("b")).unwrap();
    assert_eq!(store.star_or_tag(star("a", "ann", 1)).unwrap().status, 200);
    assert_eq!(store.star_or_tag(star("b", "ann", 1)).unwrap().status, 418);
    let mut closed = Store::with_tag_star_cap(0);
    closed.check_tag(post("a")).unwrap();
    assert_eq!(closed.star_or_tag(star("a", "ann", 1)).unwrap().status, 418);
    assert_eq!(closed.star_or_tag(star("a", "ann", 0)).unwrap().status, 200);
}

#[test]
fn tag_star_status_reads_the_star_rows() {
    let mut store = Store::new();
    store.check_tag(post("rust")).unwrap();
    let status = StarTagStatus { uname: "ann".to_string(), tname: "rust".to_string() };
    assert_eq!(store.star_tag_status(&status).message, "unstar");
    store.star_or_tag(star("rust", "ann", 1)).unwrap();
    let msg = store.star_tag_status(&status);
    assert_eq!((msg.status, msg.message.as_str()), (200, "star"));
    store.star_or_tag(star("rust", "ann", 0)).unwrap();
    assert_eq!(store.star_tag_status(&status).message, "unstar");
}
