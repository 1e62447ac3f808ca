use ruthub::db::store::Store;
use ruthub::errors::ServiceError;
use ruthub::model::rut::{CreateRut, QueryRut, Rut, StarOrRut, StarRutStatus, UpdateRut};

fn submission(title: &str, url: &str, uname: &str) -> CreateRut {
    CreateRut {
        title: title.to_string(),
        url: url.to_string(),
        content: "content".to_string(),
        uname: uname.to_string(),
        author_id: "author".to_string(),
        credential: "cred".to_string(),
    }
}

fn star(rut_id: &str, uname: &str, action: u8) -> StarOrRut {
    StarOrRut { rut_id: rut_id.to_string(), uname: uname.to_string(), note: "note".to_string(), action }
}

fn settled(rut: &Rut) -> bool {
    rut.vote == rut.item_count * 2 + rut.comment_count + rut.star_count
}

#[test]
fn new_rut_has_zero_counters() {
    let rut = Rut::new("id1".to_string(), "r-id1".to_string(), submission("T", "http://x.test/a", "u"), 77);
    assert_eq!(rut.id, "id1");
    assert_eq!(rut.slug, "r-id1");
    assert_eq!(rut.title, "T");
    assert_eq!(rut.url, "http://x.test/a");
    assert_eq!(rut.uname, "u");
    assert_eq!(rut.create_at, 77);
    assert_eq!(rut.renew_at, 77);
    assert_eq!((rut.item_count, rut.comment_count, rut.star_count, rut.vote), (0, 0, 0, 0));
}

#[test]
fn create_returns_the_new_rut() {
    let mut store = Store::new();
    let msg = store
        .create_rut_as(submission("T", "http://x.test/a", "u"), "id1".to_string(), "r-id1".to_string(), 5)
        .unwrap();
    assert_eq!(msg.status, 201);
    assert_eq!(msg.message, "Created");
    assert_eq!(msg.rut.id, "id1");
    assert_eq!(msg.rut.create_at, 5);
    assert_eq!(store.ruts().len(), 1);
    assert_eq!(store.ruts()[0].id, "id1");
}

#[test]
fn create_twice_with_one_url_returns_the_first() {
    let mut store = Store::new();
    let first = store
        .create_rut_as(submission("first", "http://x.test/a", "u"), "id1".to_string(), "r-id1".to_string(), 5)
        .unwrap();
    assert_eq!(first.status, 201);
    let second = store
        .create_rut_as(submission("second", "http://x.test/a", "v"), "id2".to_string(), "r-id2".to_string(), 6)
        .unwrap();
    assert_eq!(second.status, 422);
    assert_eq!(second.message, "Existing");
    assert_eq!(second.rut.id, "id1");
    assert_eq!(second.rut.title, "first");
    assert_eq!(store.ruts().len(), 1);
}

#[test]
fn create_with_fresh_id_and_clock() {
    let mut store = Store::new();
    let first = store.create_rut(submission("first", "http://x.test/a", "u")).unwrap();
    assert_eq!(first.status, 201);
    assert_eq!(first.rut.slug, format!("r-{}", first.rut.id));
    assert_eq!(first.rut.create_at, first.rut.renew_at);
    assert!(first.rut.create_at > 1_500_000_000_000_000);
    assert_eq!(first.rut.id.len(), 36);
    let second = store.create_rut(submission("second", "http://x.test/a", "u")).unwrap();
    assert_eq!(second.status, 422);
    assert_eq!(second.rut.id, first.rut.id);
    let third = store.create_rut(submission("third", "http://x.test/b", "u")).unwrap();
    assert_eq!(third.status, 201);
    assert_ne!(third.rut.id, first.rut.id);
    assert_eq!(store.ruts().len(), 2);
}

#[test]
fn blank_urls_are_no_duplicates() {
    let mut store = Store::new();
    for (k, url) in ["", "  ", "\t", ""].iter().enumerate() {
        let msg = store
            .create_rut_as(submission("t", url, "u"), format!("id{}", k), format!("r-id{}", k), k as i64)
            .unwrap();
        assert_eq!(msg.status, 201);
    }
    assert_eq!(store.ruts().len(), 4);
}

#[test]
fn create_with_a_taken_id_fails() {
    let mut store = Store::new();
    store.create_rut_as(submission("a", "http://x.test/a", "u"), "id1".to_string(), "s".to_string(), 1).unwrap();
    let res = store.create_rut_as(submission("b", "http://x.test/b", "u"), "id1".to_string(), "s".to_string(), 2);
    assert_eq!(res.unwrap_err(), ServiceError::StoreFailure);
    assert_eq!(store.ruts().len(), 1);
    assert_eq!(store.ruts()[0].title, "a");
}

#[test]
fn query_rut_by_slug() {
    let mut store = Store::new();
    store.create_rut_as(submission("a", "http://x.test/a", "u"), "id1".to_string(), "slug-a".to_string(), 1).unwrap();
    store.create_rut_as(submission("b", "http://x.test/b", "u"), "id2".to_string(), "slug-b".to_string(), 2).unwrap();
    let msg = store.query_rut(&QueryRut { rut_slug: "slug-b".to_string() }).unwrap();
    assert_eq!(msg.status, 200);
    assert_eq!(msg.message, "Success");
    assert_eq!(msg.rut.id, "id2");
    let missing = store.query_rut(&QueryRut { rut_slug: "slug-c".to_string() });
    assert_eq!(missing.unwrap_err(), ServiceError::NotFound);
}

#[test]
fn update_edits_the_rut_and_its_renewal() {
    let mut store = Store::new();
    store.create_rut_as(submission("a", "http://x.test/a", "u"), "id1".to_string(), "s1".to_string(), 1).unwrap();
    store.create_rut_as(submission("b", "http://x.test/b", "u"), "id2".to_string(), "s2".to_string(), 2).unwrap();
    let edit = UpdateRut {
        id: "id1".to_string(),
        title: "A".to_string(),
        url: "http://x.test/A".to_string(),
        content: "C".to_string(),
        author_id: "auth".to_string(),
        credential: "k".to_string(),
    };
    let msg = store.update_rut_at(edit, 9).unwrap();
    assert_eq!(msg.status, 201);
    assert_eq!(msg.message, "Updated");
    assert_eq!(msg.rut.title, "A");
    assert_eq!(msg.rut.renew_at, 9);
    assert_eq!(msg.rut.create_at, 1);
    assert_eq!(msg.rut.slug, "s1");
    assert_eq!(store.ruts()[0].title, "A");
    assert_eq!(store.ruts()[0].url, "http://x.test/A");
    assert_eq!(store.ruts()[0].content, "C");
    assert_eq!(store.ruts()[0].author_id, "auth");
    assert_eq!(store.ruts()[0].credential, "k");
    assert_eq!(store.ruts()[1].title, "b");
    assert_eq!(store.ruts()[1].renew_at, 2);
}

#[test]
fn update_renews_now() {
    let mut store = Store::new();
    store.create_rut_as(submission("a", "http://x.test/a", "u"), "id1".to_string(), "s1".to_string(), 1).unwrap();
    let edit = UpdateRut {
        id: "id1".to_string(),
        title: "A".to_string(),
        url: "http://x.test/a".to_string(),
        content: "C".to_string(),
        author_id: "auth".to_string(),
        credential: "k".to_string(),
    };
    let msg = store.update_rut(edit).unwrap();
    assert_eq!(msg.status, 201);
    assert!(msg.rut.renew_at > 1_500_000_000_000_000);
    assert_eq!(msg.rut.create_at, 1);
    assert_eq!(store.ruts()[0].renew_at, msg.rut.renew_at);
}

#[test]
fn update_of_a_missing_rut_is_not_found() {
    let mut store = Store::new();
    let edit = UpdateRut {
        id: "nope".to_string(),
        title: "A".to_string(),
        url: "".to_string(),
        content: "".to_string(),
        author_id: "".to_string(),
        credential: "".to_string(),
    };
    assert_eq!(store.update_rut(edit).unwrap_err(), ServiceError::NotFound);
    assert_eq!(store.ruts().len(), 0);
}

#[test]
fn star_raises_counter_and_vote() {
    let mut store = Store::new();
    store.create_rut_as(submission("a", "http://x.test/a", "u"), "id1".to_string(), "s1".to_string(), 1).unwrap();
    let msg = store.star_or_rut_as(star("id1", "ann", 1), "star1".to_string(), 10).unwrap();
    assert_eq!((msg.status, msg.message.as_str()), (200, "star"));
    assert_eq!(store.ruts()[0].star_count, 1);
    assert_eq!(store.ruts()[0].vote, 1);
    assert_eq!(store.starruts().len(), 1);
    assert_eq!(store.starruts()[0].id, "star1");
    assert_eq!(store.starruts()[0].uname, "ann");
    assert_eq!(store.starruts()[0].rut_id, "id1");
    assert_eq!(store.starruts()[0].star_at, 10);
    assert_eq!(store.starruts()[0].note, "note");
}

#[test]
fn starring_twice_counts_once() {
    let mut store = Store::new();
    store.create_rut_as(submission("a", "http://x.test/a", "u"), "id1".to_string(), "s1".to_string(), 1).unwrap();
    store.star_or_rut_as(star("id1", "ann", 1), "star1".to_string(), 10).unwrap();
    let again = store.star_or_rut_as(star("id1", "ann", 1), "star2".to_string(), 11).unwrap();
    assert_eq!((again.status, again.message.as_str()), (200, "star"));
    assert_eq!(store.starruts().len(), 1);
    assert_eq!(store.ruts()[0].star_count, 1);
    assert_eq!(store.ruts()[0].vote, 1);
}

#[test]
fn unstar_lowers_counter_and_vote() {
    let mut store = Store::new();
    store.create_rut_as(submission("a", "http://x.test/a", "u"), "id1".to_string(), "s1".to_string(), 1).unwrap();
    store.star_or_rut_as(star("id1", "ann", 1), "star1".to_string(), 10).unwrap();
    store.star_or_rut_as(star("id1", "bob", 1), "star2".to_string(), 11).unwrap();
    assert_eq!(store.ruts()[0].star_count, 2);
    let msg = store.star_or_rut_as(star("id1", "ann", 0), "unused".to_string(), 12).unwrap();
    assert_eq!((msg.status, msg.message.as_str()), (200, "unstar"));
    assert_eq!(store.ruts()[0].star_count, 1);
    assert_eq!(store.ruts()[0].vote, 1);
    assert_eq!(store.starruts().len(), 1);
    assert_eq!(store.starruts()[0].uname, "bob");
}

#[test]
fn unstar_without_star_changes_nothing() {
    let mut store = Store::new();
    store.create_rut_as(submission("a", "http://x.test/a", "u"), "id1".to_string(), "s1".to_string(), 1).unwrap();
    let msg = store.star_or_rut_as(star("id1", "ann", 0), "unused".to_string(), 12).unwrap();
    assert_eq!((msg.status, msg.message.as_str()), (200, "unstar"));
    assert_eq!(store.ruts()[0].star_count, 0);
    assert_eq!(store.ruts()[0].vote, 0);
}

#[test]
fn star_of_a_missing_rut_is_not_found() {
    let mut store = Store::new();
    assert_eq!(
        store.star_or_rut_as(star("nope", "ann", 1), "s".to_string(), 1).unwrap_err(),
        ServiceError::NotFound
    );
    assert_eq!(
        store.star_or_rut_as(star("nope", "ann", 0), "s".to_string(), 1).unwrap_err(),
        ServiceError::NotFound
    );
    assert_eq!(store.starruts().len(), 0);
}

#[test]
fn unknown_star_action_is_status_400() {
    let mut store = Store::new();
    store.create_rut_as(submission("a", "http://x.test/a", "u"), "id1".to_string(), "s1".to_string(), 1).unwrap();
    for action in [2u8, 7, 255] {
        let msg = store.star_or_rut_as(star("id1", "ann", action), "s".to_string(), 1).unwrap();
        assert_eq!((msg.status, msg.message.as_str()), (400, "unstar"));
    }
    let missing = store.star_or_rut(star("nope", "ann", 9)).unwrap();
    assert_eq!(missing.status, 400);
    assert_eq!(store.starruts().len(), 0);
    assert_eq!(store.ruts()[0].star_count, 0);
}

#[test]
fn star_status_reads_the_star_rows() {
    let mut store = Store::new();
    store.create_rut_as(submission("a", "http://x.test/a", "u"), "id1".to_string(), "s1".to_string(), 1).unwrap();
    let status = StarRutStatus { uname: "ann".to_string(), rut_id: "id1".to_string() };
    let before = store.star_rut_status(&status);
    assert_eq!((before.status, before.message.as_str()), (200, "unstar"));
    store.star_or_rut(star("id1", "ann", 1)).unwrap();
    let starred = store.star_rut_status(&status);
    assert_eq!((starred.status, starred.message.as_str()), (200, "star"));
    let other = store.star_rut_status(&StarRutStatus { uname: "bob".to_string(), rut_id: "id1".to_string() });
    assert_eq!(other.message, "unstar");
    store.star_or_rut(star("id1", "ann", 0)).unwrap();
    assert_eq!(store.star_rut_status(&status).message, "unstar");
}

#[test]
fn votes_follow_counters_through_stars_and_unstars() {
    let mut store = Store::new();
    for k in 0..3 {
        store
            .create_rut_as(
                submission("t", &format!("http://x.test/{}", k), "u"),
                format!("id{}", k),
                format!("s{}", k),
                k,
            )
            .unwrap();
    }
    let events = [
        ("id0", "ann", 1u8),
        ("id0", "bob", 1),
        ("id1", "ann", 1),
        ("id0", "ann", 1),
        ("id0", "ann", 0),
        ("id2", "cat", 0),
        ("id0", "ann", 0),
        ("id1", "bob", 3),
        ("id0", "bob", 0),
        ("id2", "ann", 1),
    ];
    for (k, (rut, user, action)) in events.iter().enumerate() {
        store.star_or_rut_as(star(rut, user, *action), format!("star{}", k), k as i64).unwrap();
        for rut in store.ruts() {
            assert!(settled(rut));
        }
    }
    assert_eq!(store.ruts()[0].star_count, 0);
    assert_eq!(store.ruts()[1].star_count, 1);
    assert_eq!(store.ruts()[2].star_count, 1);
    assert_eq!(store.starruts().len(), 2);
}
