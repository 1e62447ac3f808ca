use ruthub::db::load::Tables;
use ruthub::db::store::Store;
use ruthub::model::rut::{Collect, CreateRut, QueryRuts, Rut, StarOrRut, StarRut};
use ruthub::model::tag::{QueryTags, StarTag, Tag, TagItem, TagRut};

fn rut(id: &str, title: &str, uname: &str, create_at: i64, renew_at: i64) -> Rut {
    Rut {
        id: id.to_string(),
        title: title.to_string(),
        url: format!("http://x.test/{}", id),
        content: "".to_string(),
        create_at,
        renew_at,
        author_id: "".to_string(),
        uname: uname.to_string(),
        credential: "".to_string(),
        slug: format!("r-{}", id),
        item_count: 0,
        comment_count: 0,
        star_count: 0,
        vote: 0,
    }
}

fn tag(tname: &str, pname: &str, rut_count: i32, star_count: i32) -> Tag {
    Tag {
        id: tname.to_string(),
        tname: tname.to_string(),
        intro: "".to_string(),
        logo: "".to_string(),
        pname: pname.to_string(),
        item_count: 0,
        rut_count,
        etc_count: 0,
        star_count,
        vote: rut_count * 2 + star_count,
    }
}

fn link(tname: &str, rut_id: &str, count: i32) -> TagRut {
    TagRut { id: format!("{}-{}", tname, rut_id), tname: tname.to_string(), rut_id: rut_id.to_string(), count }
}

fn empty_tables() -> Tables {
    Tables {
        ruts: vec![],
        tags: vec![],
        tagruts: vec![],
        tagitems: vec![],
        starruts: vec![],
        startags: vec![],
        collects: vec![],
        tag_star_cap: 42,
    }
}

fn ids(ruts: &[Rut]) -> Vec<String> {
    ruts.iter().map(|r| r.id.clone()).collect()
}

fn names(list: &[&str]) -> Vec<String> {
    list.iter().map(|s| s.to_string()).collect()
}

fn forty_five_ruts_of_ann() -> Store {
    let mut tables = empty_tables();
    for k in 1..=45 {
        // row k is the k-th in rank order: the latest submission first
        tables.ruts.push(rut(&format!("row{}", k), "t", "ann", 1000 - k, 0));
    }
    tables.ruts.push(rut("other", "t", "bob", 5000, 0));
    Store::from_tables(tables).unwrap()
}

#[test]
fn page_two_of_forty_five_rows() {
    let store = forty_five_ruts_of_ann();
    let msg = store.query_ruts(&QueryRuts::UserID("ann".to_string(), "create".to_string(), 2));
    assert_eq!(msg.status, 201);
    assert_eq!(msg.message, "Success");
    assert_eq!(msg.count, 45);
    let expected: Vec<String> = (21..=40).map(|k| format!("row{}", k)).collect();
    assert_eq!(ids(&msg.ruts), expected);
}

#[test]
fn page_three_of_forty_five_rows() {
    let store = forty_five_ruts_of_ann();
    let msg = store.query_ruts(&QueryRuts::UserID("ann".to_string(), "create".to_string(), 3));
    assert_eq!(msg.count, 45);
    let expected: Vec<String> = (41..=45).map(|k| format!("row{}", k)).collect();
    assert_eq!(ids(&msg.ruts), expected);
}

#[test]
fn page_below_one_is_all_forty_five_rows() {
    let store = forty_five_ruts_of_ann();
    for page in [0, -1, i32::MIN] {
        let msg = store.query_ruts(&QueryRuts::UserID("ann".to_string(), "create".to_string(), page));
        assert_eq!(msg.count, 45);
        let expected: Vec<String> = (1..=45).map(|k| format!("row{}", k)).collect();
        assert_eq!(ids(&msg.ruts), expected);
    }
}

#[test]
fn page_behind_the_last_is_empty_with_full_count() {
    let store = forty_five_ruts_of_ann();
    let msg = store.query_ruts(&QueryRuts::UserID("ann".to_string(), "create".to_string(), 4));
    assert_eq!(msg.count, 45);
    assert!(msg.ruts.is_empty());
}

#[test]
fn query_by_tag_without_links_is_empty() {
    let mut tables = empty_tables();
    tables.ruts.push(rut("r1", "t", "ann", 1, 1));
    tables.tags.push(tag("rust", "", 0, 0));
    let store = Store::from_tables(tables).unwrap();
    let msg = store.query_ruts(&QueryRuts::TagID("rust".to_string(), 1));
    assert_eq!(msg.status, 201);
    assert_eq!(msg.count, 0);
    assert!(msg.ruts.is_empty());
    assert!(store.ruts_among(&vec![]).is_empty());
}

#[test]
fn index_lists_the_latest_renewed_twenty() {
    let mut tables = empty_tables();
    for k in 0..25 {
        tables.ruts.push(rut(&format!("r{}", k), "t", "ann", 0, k));
    }
    let store = Store::from_tables(tables).unwrap();
    let msg = store.query_ruts(&QueryRuts::Index("".to_string()));
    assert_eq!(msg.count, 0);
    let expected: Vec<String> = (5..25).rev().map(|k| format!("r{}", k)).collect();
    assert_eq!(ids(&msg.ruts), expected);
}

#[test]
fn equal_keys_keep_table_order() {
    let mut tables = empty_tables();
    tables.ruts.push(rut("a", "t", "ann", 5, 0));
    tables.ruts.push(rut("b", "t", "ann", 7, 0));
    tables.ruts.push(rut("c", "t", "ann", 5, 0));
    tables.ruts.push(rut("d", "t", "ann", 7, 0));
    let store = Store::from_tables(tables).unwrap();
    let msg = store.query_ruts(&QueryRuts::UserID("ann".to_string(), "create".to_string(), 1));
    assert_eq!(ids(&msg.ruts), names(&["b", "d", "a", "c"]));
}

#[test]
fn starred_ruts_resolve_in_table_order() {
    let mut tables = empty_tables();
    for k in 0..4 {
        tables.ruts.push(rut(&format!("r{}", k), "t", "ann", k, k));
    }
    for (k, target) in ["r2", "r0", "gone", "r3"].iter().enumerate() {
        tables.starruts.push(StarRut {
            id: format!("s{}", k),
            uname: "bob".to_string(),
            rut_id: target.to_string(),
            star_at: k as i64,
            note: "".to_string(),
        });
    }
    tables.starruts.push(StarRut {
        id: "s9".to_string(),
        uname: "cat".to_string(),
        rut_id: "r1".to_string(),
        star_at: 9,
        note: "".to_string(),
    });
    let store = Store::from_tables(tables).unwrap();
    let msg = store.query_ruts(&QueryRuts::UserID("bob".to_string(), "star".to_string(), 1));
    assert_eq!(msg.count, 4);
    assert_eq!(ids(&msg.ruts), names(&["r0", "r2", "r3"]));
    let none = store.query_ruts(&QueryRuts::UserID("dan".to_string(), "star".to_string(), 1));
    assert_eq!(none.count, 0);
    assert!(none.ruts.is_empty());
}

#[test]
fn starred_ruts_page_over_the_stars() {
    let mut tables = empty_tables();
    for k in 0..30 {
        tables.ruts.push(rut(&format!("r{}", k), "t", "ann", k, k));
        tables.starruts.push(StarRut {
            id: format!("s{}", k),
            uname: "bob".to_string(),
            rut_id: format!("r{}", k),
            star_at: k,
            note: "".to_string(),
        });
    }
    let store = Store::from_tables(tables).unwrap();
    let first = store.query_ruts(&QueryRuts::UserID("bob".to_string(), "star".to_string(), 1));
    assert_eq!(first.count, 30);
    // the latest twenty stars are on r10..r29; the ruts come in table order
    let expected: Vec<String> = (10..30).map(|k| format!("r{}", k)).collect();
    assert_eq!(ids(&first.ruts), expected);
    let second = store.query_ruts(&QueryRuts::UserID("bob".to_string(), "star".to_string(), 2));
    let expected: Vec<String> = (0..10).map(|k| format!("r{}", k)).collect();
    assert_eq!(ids(&second.ruts), expected);
}

#[test]
fn ruts_by_item_and_by_tag() {
    let mut tables = empty_tables();
    for k in 0..4 {
        tables.ruts.push(rut(&format!("r{}", k), "t", "ann", k, k));
    }
    tables.collects.push(Collect {
        id: "c1".to_string(),
        rut_id: "r3".to_string(),
        item_id: "book".to_string(),
        collect_at: 1,
    });
    tables.collects.push(Collect {
        id: "c2".to_string(),
        rut_id: "r1".to_string(),
        item_id: "book".to_string(),
        collect_at: 2,
    });
    tables.collects.push(Collect {
        id: "c3".to_string(),
        rut_id: "r0".to_string(),
        item_id: "film".to_string(),
        collect_at: 3,
    });
    tables.tags.push(tag("rust", "", 2, 0));
    tables.tagruts.push(link("rust", "r2", 1));
    tables.tagruts.push(link("rust", "r0", 7));
    let store = Store::from_tables(tables).unwrap();
    let by_item = store.query_ruts(&QueryRuts::ItemID("book".to_string(), 1));
    assert_eq!(by_item.count, 2);
    assert_eq!(ids(&by_item.ruts), names(&["r1", "r3"]));
    let by_tag = store.query_ruts(&QueryRuts::TagID("rust".to_string(), 0));
    assert_eq!(by_tag.count, 2);
    assert_eq!(ids(&by_tag.ruts), names(&["r0", "r2"]));
}

#[test]
fn keyword_search_by_scope() {
    let mut tables = empty_tables();
    tables.ruts.push(rut("r0", "Learning Rust", "ann", 1, 0));
    tables.ruts.push(rut("r1", "rust belt", "bob", 2, 0));
    tables.ruts.push(rut("r2", "Gardening", "ann", 3, 0));
    tables.ruts.push(rut("r3", "TRUSTED code", "ann", 4, 0));
    tables.tags.push(tag("lang", "", 2, 0));
    tables.tagruts.push(link("lang", "r0", 1));
    tables.tagruts.push(link("lang", "r2", 1));
    tables.collects.push(Collect {
        id: "c1".to_string(),
        rut_id: "r1".to_string(),
        item_id: "book".to_string(),
        collect_at: 1,
    });
    let store = Store::from_tables(tables).unwrap();
    let all = store.query_ruts(&QueryRuts::KeyID("rust".to_string(), "".to_string(), "".to_string(), 1));
    assert_eq!(all.count, 0);
    assert_eq!(ids(&all.ruts), names(&["r3", "r1", "r0"]));
    let user = store.query_ruts(&QueryRuts::KeyID("rust".to_string(), " user ".to_string(), "ann".to_string(), 1));
    assert_eq!(ids(&user.ruts), names(&["r3", "r0"]));
    let tagged = store.query_ruts(&QueryRuts::KeyID("rust".to_string(), "tag".to_string(), "lang".to_string(), 1));
    assert_eq!(ids(&tagged.ruts), names(&["r0"]));
    let item = store.query_ruts(&QueryRuts::KeyID("rust".to_string(), "item".to_string(), "book".to_string(), 1));
    assert_eq!(ids(&item.ruts), names(&["r1"]));
    let other = store.query_ruts(&QueryRuts::KeyID("garden".to_string(), "else".to_string(), "x".to_string(), 9));
    assert_eq!(ids(&other.ruts), names(&["r2"]));
    let none = store.query_ruts(&QueryRuts::KeyID("python".to_string(), "".to_string(), "".to_string(), 1));
    assert!(none.ruts.is_empty());
}

#[test]
fn keyword_search_has_a_fixed_limit() {
    let mut tables = empty_tables();
    for k in 0..25 {
        tables.ruts.push(rut(&format!("r{}", k), "same title", "ann", k, 0));
    }
    let store = Store::from_tables(tables).unwrap();
    let msg = store.query_ruts(&QueryRuts::KeyID("TITLE".to_string(), "".to_string(), "".to_string(), 2));
    let expected: Vec<String> = (5..25).rev().map(|k| format!("r{}", k)).collect();
    assert_eq!(ids(&msg.ruts), expected);
}

#[test]
fn ruts_among_filters_by_membership() {
    let mut tables = empty_tables();
    for k in 0..4 {
        tables.ruts.push(rut(&format!("r{}", k), "t", "ann", k, k));
    }
    let store = Store::from_tables(tables).unwrap();
    let found = store.ruts_among(&names(&["r3", "nope", "r1", "r3"]));
    assert_eq!(ids(&found), names(&["r1", "r3"]));
}

#[test]
fn tag_lists() {
    let mut tables = empty_tables();
    tables.tags.push(tag("lang", "", 1, 0));
    tables.tags.push(tag("rust", "lang", 5, 1));
    tables.tags.push(tag("verus", "rust", 2, 0));
    tables.tags.push(tag("go", "lang", 5, 3));
    tables.tagruts.push(link("rust", "r1", 2));
    tables.tagruts.push(link("verus", "r1", 9));
    tables.tagruts.push(link("go", "r2", 1));
    tables.tagitems.push(TagItem {
        id: "x".to_string(),
        tname: "rust".to_string(),
        item_id: "book".to_string(),
        count: 1,
    });
    tables.tagitems.push(TagItem {
        id: "y".to_string(),
        tname: "go".to_string(),
        item_id: "book".to_string(),
        count: 4,
    });
    for (k, t) in ["rust", "go"].iter().enumerate() {
        tables.startags.push(StarTag {
            id: format!("s{}", k),
            uname: "ann".to_string(),
            tname: t.to_string(),
            star_at: k as i64,
            note: "".to_string(),
        });
    }
    let store = Store::from_tables(tables).unwrap();
    let of_rut = store.query_tags(&QueryTags::RutID("r1".to_string()));
    assert_eq!((of_rut.status, of_rut.message.as_str()), (200, "Success"));
    assert_eq!(of_rut.tags, names(&["verus", "rust"]));
    assert_eq!(of_rut.count, 2);
    let of_item = store.query_tags(&QueryTags::ItemID("book".to_string()));
    assert_eq!(of_item.tags, names(&["go", "rust"]));
    let children = store.query_tags(&QueryTags::TagID("lang".to_string()));
    assert_eq!(children.tags, names(&["go", "rust"]));
    let starred = store.query_tags(&QueryTags::UserID("ann".to_string()));
    assert_eq!(starred.tags, names(&["go", "rust"]));
    let index = store.query_tags(&QueryTags::Index("".to_string()));
    assert_eq!(index.tags, names(&["go", "rust", "verus", "lang"]));
    assert_eq!(index.count, 4);
    let nothing = store.query_tags(&QueryTags::RutID("r9".to_string()));
    assert!(nothing.tags.is_empty());
    assert_eq!(nothing.count, 0);
}

#[test]
fn tag_lists_have_fixed_limits() {
    let mut tables = empty_tables();
    for k in 0..50 {
        tables.tags.push(tag(&format!("t{}", k), "root", 0, k));
        tables.tagruts.push(link(&format!("t{}", k), "r1", k + 1));
        tables.startags.push(StarTag {
            id: format!("s{}", k),
            uname: "ann".to_string(),
            tname: format!("t{}", k),
            star_at: k as i64,
            note: "".to_string(),
        });
    }
    let store = Store::from_tables(tables).unwrap();
    assert_eq!(store.query_tags(&QueryTags::RutID("r1".to_string())).tags.len(), 10);
    assert_eq!(store.query_tags(&QueryTags::TagID("root".to_string())).tags.len(), 10);
    let starred = store.query_tags(&QueryTags::UserID("ann".to_string()));
    assert_eq!(starred.tags.len(), 42);
    assert_eq!(starred.count, 42);
    assert_eq!(starred.tags[0], "t49");
    let index = store.query_tags(&QueryTags::Index("".to_string()));
    assert_eq!(index.tags.len(), 16);
    assert_eq!(index.tags[0], "t49");
    assert_eq!(index.tags[15], "t34");
}

#[test]
fn tables_that_break_the_rules_are_refused() {
    let mut twice = empty_tables();
    twice.ruts.push(rut("r1", "a", "ann", 1, 1));
    twice.ruts.push(rut("r1", "b", "ann", 2, 2));
    assert!(!twice.check());
    assert!(Store::from_tables(twice).is_none());

    let mut orphan = empty_tables();
    orphan.tagruts.push(link("rust", "r1", 1));
    assert!(Store::from_tables(orphan).is_none());

    let mut stale = empty_tables();
    let mut row = rut("r1", "a", "ann", 1, 1);
    row.star_count = 3;
    stale.ruts.push(row);
    assert!(Store::from_tables(stale).is_none());

    let mut stale_tag = empty_tables();
    let mut t = tag("rust", "", 1, 1);
    t.vote = 0;
    stale_tag.tags.push(t);
    assert!(Store::from_tables(stale_tag).is_none());

    let mut two_links = empty_tables();
    two_links.tags.push(tag("rust", "", 0, 0));
    two_links.tagruts.push(link("rust", "r1", 1));
    two_links.tagruts.push(link("rust", "r1", 2));
    assert!(Store::from_tables(two_links).is_none());

    let mut two_stars = empty_tables();
    for k in 0..2 {
        two_stars.starruts.push(StarRut {
            id: format!("s{}", k),
            uname: "ann".to_string(),
            rut_id: "r1".to_string(),
            star_at: k,
            note: "".to_string(),
        });
    }
    assert!(Store::from_tables(two_stars).is_none());

    let mut two_tag_stars = empty_tables();
    for k in 0..2 {
        two_tag_stars.startags.push(StarTag {
            id: format!("s{}", k),
            uname: "ann".to_string(),
            tname: "rust".to_string(),
            star_at: k,
            note: "".to_string(),
        });
    }
    assert!(Store::from_tables(two_tag_stars).is_none());

    let mut two_item_links = empty_tables();
    two_item_links.tags.push(tag("rust", "", 0, 0));
    for k in 0..2 {
        two_item_links.tagitems.push(TagItem {
            id: format!("x{}", k),
            tname: "rust".to_string(),
            item_id: "book".to_string(),
            count: 1,
        });
    }
    assert!(Store::from_tables(two_item_links).is_none());

    let mut orphan_item_link = empty_tables();
    orphan_item_link.tagitems.push(TagItem {
        id: "x".to_string(),
        tname: "rust".to_string(),
        item_id: "book".to_string(),
        count: 1,
    });
    assert!(Store::from_tables(orphan_item_link).is_none());

    let mut two_tags = empty_tables();
    two_tags.tags.push(tag("rust", "", 0, 0));
    two_tags.tags.push(tag("rust", "x", 0, 0));
    assert!(Store::from_tables(two_tags).is_none());
}

#[test]
fn tables_round_trip() {
    let mut tables = empty_tables();
    tables.ruts.push(rut("r1", "a", "ann", 1, 1));
    tables.tags.push(tag("rust", "", 1, 0));
    tables.tagruts.push(link("rust", "r1", 3));
    tables.tag_star_cap = 7;
    assert!(tables.check());
    let store = Store::from_tables(tables).unwrap();
    assert_eq!(store.tag_star_cap(), 7);
    assert_eq!(store.collects().len(), 0);
    assert_eq!(store.tagitems().len(), 0);
    let back = store.into_tables();
    assert_eq!(back.ruts.len(), 1);
    assert_eq!(back.tagruts[0].count, 3);
    assert_eq!(back.tag_star_cap, 7);
}

#[test]
fn counter_at_the_top_is_a_store_failure() {
    let mut tables = empty_tables();
    let mut row = rut("r1", "a", "ann", 1, 1);
    row.star_count = i32::MAX;
    row.vote = i32::MAX;
    tables.ruts.push(row);
    let mut t = tag("rust", "", i32::MAX / 2, 1);
    t.vote = (i32::MAX / 2) * 2 + 1;
    tables.tags.push(t);
    tables.tagruts.push(link("rust", "r0", i32::MAX));
    let mut store = Store::from_tables(tables).unwrap();
    let star = StarOrRut { rut_id: "r1".to_string(), uname: "ann".to_string(), note: "".to_string(), action: 1 };
    assert_eq!(store.star_or_rut(star).unwrap_err(), ruthub::errors::ServiceError::StoreFailure);
    assert_eq!(store.starruts().len(), 0);
    assert_eq!(
        store.upsert_association(&"rust".to_string(), &"r0".to_string()).unwrap_err(),
        ruthub::errors::ServiceError::StoreFailure
    );
    assert_eq!(
        store.upsert_association(&"rust".to_string(), &"r5".to_string()).unwrap_err(),
        ruthub::errors::ServiceError::StoreFailure
    );
    assert_eq!(store.tagruts().len(), 1);
    let batch = ruthub::model::tag::RutTag {
        tnames: vec!["new".to_string(), "rust".to_string(), "later".to_string()],
        rut_id: "r5".to_string(),
        action: 1,
    };
    assert_eq!(store.rut_tag(batch).unwrap_err(), ruthub::errors::ServiceError::StoreFailure);
    let left: Vec<String> = store.tagruts().iter().map(|l| l.tname.clone()).collect();
    assert_eq!(left, names(&["rust", "new"]));
    let _ = CreateRut {
        title: "".to_string(),
        url: "".to_string(),
        content: "".to_string(),
        uname: "".to_string(),
        author_id: "".to_string(),
        credential: "".to_string(),
    };
}
