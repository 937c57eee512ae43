use cnblogs_lib::context::config::Cache;
use cnblogs_lib::models::user::UserInfo;

fn sample_user() -> UserInfo {
    UserInfo {
        user_id: "u".into(),
        space_user_id: 1,
        account_id: 42,
        blog_id: 7,
        display_name: "alice".into(),
        face: String::new(),
        avatar: String::new(),
        seniority: String::new(),
        blog_app: "alice-blog".into(),
        following_count: 0,
        follower_count: 0,
        is_vip: false,
        joined: String::new(),
    }
}

#[test]
fn apply_user_preserves_existing_token() {
    let mut cache = Cache {
        token: "pat-secret".into(),
        id: 1,
        ..Cache::default()
    };
    cache.apply_user(&sample_user());

    assert_eq!(cache.token, "pat-secret");
    assert_eq!(cache.id, 42);
    assert_eq!(cache.blog_id, 7);
    assert_eq!(cache.blog_app, "alice-blog");
    assert_eq!(cache.username, "alice");
}

#[test]
fn from_user_info_does_not_invent_token() {
    let cache = Cache::from(sample_user());
    assert!(cache.is_token_empty());
    assert_eq!(cache.id, 42);
}
