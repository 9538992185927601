use vndb::Client;
use vndb::Error;
use vndb::QueryFormat;
use vndb::UserStat;
use vndb::get_data::select_user_stat;
use vndb::urls::post_vn_url;

#[test]
fn credential_gating_authinfo() {
    let c = Client::simple();
    let r = c.authinfo();
    assert!(matches!(r, Err(Error::TokenNotPresent)));
}

#[test]
fn credential_gating_ulist_labels() {
    let c = Client::simple();
    let r = c.ulist_labels(None);
    assert!(matches!(r, Err(Error::TokenNotPresent)));
    let scoped = c.ulist_labels(Some("u2")).unwrap();
    assert_eq!(scoped.auth_token, None);
    assert_eq!(
        scoped.query,
        vec![
            ("fields".to_string(), "count".to_string()),
            ("user".to_string(), "u2".to_string()),
        ]
    );
}

#[test]
fn credential_gating_get_request() {
    let c = Client::simple();
    let r = c.get_request("https://api.vndb.org/kana/authinfo", Vec::new(), true);
    assert!(matches!(r, Err(Error::TokenNotPresent)));
    let ungated = c.get_request("https://api.vndb.org/kana/stats", Vec::new(), false);
    assert!(ungated.is_ok());
}

#[test]
fn token_attached_when_configured() {
    let c = Client::with_token("token123".to_string());
    let plan = c.authinfo().unwrap();
    assert_eq!(plan.url, "https://api.vndb.org/kana/authinfo");
    assert_eq!(plan.auth_token, Some("token123".to_string()));
    assert!(plan.query.is_empty());
}

#[test]
fn set_token_enables_gated_operations() {
    let mut c = Client::simple();
    assert!(matches!(c.authinfo(), Err(Error::TokenNotPresent)));
    c.set_token("token123".to_string());
    assert!(c.authinfo().is_ok());
}

#[test]
fn vndbstats_plan_shape() {
    let c = Client::simple();
    let plan = c.vndbstats();
    assert_eq!(plan.url, "https://api.vndb.org/kana/stats");
    assert!(plan.query.is_empty());
    assert_eq!(plan.auth_token, None);
}

#[test]
fn users_stats_plan_shape() {
    let c = Client::simple();
    let plan = c.users_stats(&["u1", "AYO"]);
    assert_eq!(plan.url, "https://api.vndb.org/kana/user");
    assert_eq!(
        plan.query,
        vec![
            ("q".to_string(), "u1".to_string()),
            ("q".to_string(), "AYO".to_string()),
            ("fields".to_string(), "lengthvotes,lengthvotes_sum".to_string()),
        ]
    );
}

#[test]
fn post_request_carries_envelope() {
    let c = Client::with_token("token123".to_string());
    let q = QueryFormat::builder().fields("title, image.url".to_string()).build();
    let plan = c.post_request(post_vn_url(), &q, false).unwrap();
    assert_eq!(plan.url, "https://api.vndb.org/kana/vn");
    assert_eq!(plan.body, q.to_json());
    assert_eq!(plan.auth_token, Some("token123".to_string()));
}

#[test]
fn post_request_without_token_sends_unauthenticated() {
    let c = Client::simple();
    let q = QueryFormat::builder().build();
    let plan = c.post_request(post_vn_url(), &q, false).unwrap();
    assert_eq!(plan.auth_token, None);
}

#[test]
fn select_user_stat_picks_matching_entry() {
    let known = UserStat {
        id: "u1".to_string(),
        username: "AYO".to_string(),
        lengthvotes: Some(3),
        lengthvotes_sum: Some(700),
    };
    let stats = vec![
        ("NoUserWithThisNameExists".to_string(), None),
        ("u1".to_string(), Some(known.clone())),
    ];
    assert_eq!(select_user_stat(&stats, "u1"), Some(known));
    assert_eq!(select_user_stat(&stats, "NoUserWithThisNameExists"), None);
}
