use ruthub::model::msg::Msg;
use ruthub::model::user::{CheckUser, Claims, User, TOKEN_LIFETIME};

#[test]
fn bare_user_has_only_id_name_and_time() {
    let user = CheckUser::bare("id1", "ann", 99);
    assert_eq!(user.id, "id1");
    assert_eq!(user.uname, "ann");
    assert_eq!(user.join_at, 99);
    assert_eq!(user.avatar, "");
    assert_eq!(user.email, "");
    assert_eq!(user.intro, "");
    assert_eq!(user.location, "");
    assert_eq!(user.nickname, "");
}

#[test]
fn new_user_joins_now() {
    let user = User::new("id1", "ann");
    assert_eq!(user.id, "id1");
    assert_eq!(user.uname, "ann");
    assert!(user.join_at > 1_500_000_000_000_000);
    assert_eq!(user.email, "");
}

#[test]
fn check_user_from_user_drops_the_password() {
    let user = User {
        id: "id1".to_string(),
        uname: "ann".to_string(),
        password: "secret".to_string(),
        join_at: 5,
        avatar: "a".to_string(),
        email: "e".to_string(),
        intro: "i".to_string(),
        location: "l".to_string(),
        nickname: "n".to_string(),
    };
    let shown = CheckUser::from(user);
    assert_eq!(shown.id, "id1");
    assert_eq!(shown.uname, "ann");
    assert_eq!(shown.join_at, 5);
    assert_eq!(shown.avatar, "a");
    assert_eq!(shown.email, "e");
    assert_eq!(shown.intro, "i");
    assert_eq!(shown.location, "l");
    assert_eq!(shown.nickname, "n");
}

#[test]
fn claims_expire_five_days_after_issue() {
    assert_eq!(TOKEN_LIFETIME, 5 * 24 * 60 * 60);
    let claims = Claims::issue("id1", "ann", 1000);
    assert_eq!(claims.iss, "ruthub");
    assert_eq!(claims.sub, "auth");
    assert_eq!(claims.iat, 1000);
    assert_eq!(claims.exp, 1000 + 432000);
    assert_eq!(claims.uid, "id1");
    assert_eq!(claims.uname, "ann");
    assert_eq!(Claims::issue("", "", i64::MAX - 5).exp, i64::MAX);
    assert_eq!(Claims::issue("", "", i64::MAX - 432000).exp, i64::MAX);
    assert_eq!(Claims::issue("", "", -432000).exp, 0);
}

#[test]
fn new_claims_are_issued_now() {
    let claims = Claims::new("id1", "ann");
    assert_eq!(claims.iss, "ruthub");
    assert_eq!(claims.sub, "auth");
    assert!(claims.iat > 1_500_000_000);
    assert!(claims.iat < 100_000_000_000);
    assert_eq!(claims.exp, claims.iat + 432000);
    assert_eq!(claims.uid, "id1");
    assert_eq!(claims.uname, "ann");
}

#[test]
fn check_user_from_claims() {
    let claims = Claims::issue("id1", "ann", 1000);
    let at = CheckUser::of_claims(claims, 77);
    assert_eq!((at.id.as_str(), at.uname.as_str(), at.join_at), ("id1", "ann", 77));
    let now = CheckUser::from(Claims::issue("id2", "bob", 1000));
    assert_eq!(now.id, "id2");
    assert_eq!(now.uname, "bob");
    assert!(now.join_at > 1_500_000_000_000_000);
    assert_eq!(now.nickname, "");
}

#[test]
fn msg_new_holds_status_and_message() {
    let msg = Msg::new(418, "unstar");
    assert_eq!(msg.status, 418);
    assert_eq!(msg.message, "unstar");
}
