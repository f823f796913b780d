use flovenet::scenarios::{GossipPropagationScenario, SequentialMessagesScenario};
use flovenet::gateway::{select_posts_lowered, select_profiles_lowered};
use flovenet::auth::AuthManager;
use flovenet::gateway::{AppState, GatewayConfig, InMemoryStore, MutationRoot, Post, Profile, QueryRoot};
use flovenet::time::Timestamp;

fn profile(id: &str, name: &str) -> Profile {
    Profile::fresh(id, name)
}

fn post(cid: &str, author: &str, content: &str, secs: i64) -> Post {
    Post {
        cid: cid.into(),
        author: author.into(),
        content: content.into(),
        media: vec![],
        parent: None,
        reply_count: 0,
        like_count: 0,
        timestamp: Timestamp { secs, nanos: 0 },
        signature: vec![],
    }
}

fn state() -> AppState {
    AppState::new(AuthManager::new("secret"))
}

#[test]
fn saved_profile_reads_back() {
    let mut s = InMemoryStore::new();
    assert!(s.get_profile("p1").is_none());
    s.save_profile("p1", profile("p1", "Alice"));
    assert_eq!(s.get_profile("p1").unwrap().display_name, "Alice");
    s.save_profile("p1", profile("p1", "Alicia"));
    assert_eq!(s.get_profile("p1").unwrap().display_name, "Alicia");
    assert_eq!(s.get_profiles().len(), 1);
}

#[test]
fn posts_are_newest_first_and_deletable() {
    let mut s = InMemoryStore::new();
    s.save_post("a", post("a", "x", "first", 10));
    s.save_post("b", post("b", "x", "second", 30));
    s.save_post("c", post("c", "x", "third", 20));
    let cids: Vec<String> = s.get_posts().into_iter().map(|p| p.cid).collect();
    assert_eq!(cids, vec!["b", "c", "a"]);
    assert!(s.delete_post("c"));
    assert!(!s.delete_post("c"));
    assert!(s.get_post("c").is_none());
    let cids: Vec<String> = s.get_posts().into_iter().map(|p| p.cid).collect();
    assert_eq!(cids, vec!["b", "a"]);
}

#[test]
fn equal_timestamps_keep_saving_order() {
    let mut s = InMemoryStore::new();
    s.save_post("a", post("a", "x", "1", 5));
    s.save_post("b", post("b", "x", "2", 5));
    let mut p = post("c", "x", "3", 5);
    p.timestamp.nanos = 1;
    s.save_post("c", p);
    let cids: Vec<String> = s.get_posts().into_iter().map(|p| p.cid).collect();
    assert_eq!(cids, vec!["c", "a", "b"]);
}

#[test]
fn follow_and_unfollow() {
    let mut s = InMemoryStore::new();
    s.follow("alice", "bob");
    s.follow("carol", "bob");
    assert_eq!(s.get_followers("bob"), vec!["alice", "carol"]);
    assert_eq!(s.get_following("alice"), vec!["bob"]);
    s.unfollow("alice", "bob");
    assert_eq!(s.get_followers("bob"), vec!["carol"]);
    assert!(s.get_following("alice").is_empty());
    assert!(s.get_followers("nobody").is_empty());
}

#[test]
fn repeated_follow_is_recorded_twice_and_unfollow_removes_all() {
    let mut s = InMemoryStore::new();
    s.follow("a", "b");
    s.follow("a", "b");
    assert_eq!(s.get_followers("b"), vec!["a", "a"]);
    s.unfollow("a", "b");
    assert!(s.get_followers("b").is_empty());
}

#[test]
fn feed_pages_with_author_profiles() {
    let mut st = state();
    st.store.save_profile("alice", profile("alice", "Alice"));
    for i in 0..5 {
        st.store.save_post(&format!("p{i}"), post(&format!("p{i}"), if i % 2 == 0 { "alice" } else { "zed" }, "x", i));
    }
    let page = st.get_feed(2, 1);
    let cids: Vec<&str> = page.iter().map(|f| f.post.cid.as_str()).collect();
    assert_eq!(cids, vec!["p3", "p2"]);
    assert_eq!(page[0].author.display_name, "zed");
    assert_eq!(page[0].author.peer_id, "zed");
    assert_eq!(page[1].author.display_name, "Alice");
    assert!(st.get_feed(10, 10).is_empty());
    assert_eq!(st.get_feed(10, 3).len(), 2);
    // consecutive pages fit together
    let a: Vec<String> = st.get_feed(2, 0).into_iter().map(|f| f.post.cid).collect();
    let b: Vec<String> = st.get_feed(3, 2).into_iter().map(|f| f.post.cid).collect();
    let all: Vec<String> = st.get_feed(5, 0).into_iter().map(|f| f.post.cid).collect();
    assert_eq!([a, b].concat(), all);
}

#[test]
fn search_ignores_case() {
    let mut st = state();
    st.store.save_profile("peer-1", profile("peer-1", "Alice Smith"));
    st.store.save_profile("PEER-2", profile("PEER-2", "Bob"));
    let names: Vec<String> = st.search_profiles("SMITH").into_iter().map(|p| p.display_name).collect();
    assert_eq!(names, vec!["Alice Smith"]);
    assert_eq!(st.search_profiles("peer").len(), 2);
    st.store.save_post("a", post("a", "x", "Hello World", 1));
    st.store.save_post("b", post("b", "x", "goodbye world", 2));
    let cids: Vec<String> = st.search_posts("WORLD").into_iter().map(|p| p.cid).collect();
    assert_eq!(cids, vec!["b", "a"]);
    assert!(st.search_posts("moon").is_empty());
}

#[test]
fn followers_with_profiles_only() {
    let mut st = state();
    st.store.save_profile("a", profile("a", "A"));
    assert!(st.follow_user("a", "c"));
    assert!(st.follow_user("b", "c"));
    let names: Vec<String> = st.get_followers("c", 50).into_iter().map(|p| p.display_name).collect();
    assert_eq!(names, vec!["A"]);
    assert!(st.get_following("a", 50).is_empty());
    assert!(st.unfollow_user("a", "c"));
    assert!(st.get_followers("c", 50).is_empty());
}

#[test]
fn register_user_saves_profile() {
    let mut st = state();
    let payload = st.register_user("u@x.com", "pw", "User", vec![9; 32], "peer-u").unwrap();
    assert_eq!(payload.profile.peer_id, "peer-u");
    assert_eq!(payload.profile.display_name, "User");
    assert!(payload.profile.bio.is_none());
    assert_eq!(st.get_profile("peer-u").unwrap().display_name, "User");
    let err = st.register_user("u@x.com", "pw", "Again", vec![], "peer-v").unwrap_err();
    assert_eq!(err.message, "email already registered");
    assert!(st.get_profile("peer-v").is_none());
}

#[test]
fn login_payload_uses_saved_profile_or_placeholder() {
    let mut st = state();
    st.register_user("u@x.com", "pw", "User", vec![], "peer-u").unwrap();
    let (token, user) = st.auth.login("u@x.com", "pw").unwrap();
    let p = st.login_payload(token.clone(), &user, "peer-u");
    assert_eq!(p.token, token);
    assert_eq!(p.profile.display_name, "User");
    let q = st.login_payload(token, &user, "other-peer");
    assert_eq!(q.profile.peer_id, "other-peer");
    assert_eq!(q.profile.display_name, "User");
}

#[test]
fn create_and_delete_posts() {
    let mut st = state();
    let p = st.create_post("user", "hi", vec!["m1".into()], Some("parent".into()));
    assert!(p.cid.starts_with("post-"));
    assert_eq!(p.cid.len(), 41);
    assert_eq!(p.author, "user");
    assert_eq!(p.media, vec!["m1"]);
    assert_eq!(p.parent.as_deref(), Some("parent"));
    assert!(p.signature.is_empty());
    assert_eq!(st.get_post(&p.cid).unwrap().content, "hi");
    assert!(st.delete_post(&p.cid));
    assert!(!st.delete_post(&p.cid));
    let fixed = st.create_post_with("me", "text", vec![], None, "cid-1".into(), Timestamp { secs: 42, nanos: 7 });
    assert_eq!(fixed.cid, "cid-1");
    assert_eq!(st.get_post("cid-1").unwrap().timestamp, Timestamp { secs: 42, nanos: 7 });
}

#[test]
fn update_profile_changes_given_fields() {
    let mut st = state();
    assert_eq!(st.update_profile("user", Some("X".into()), None, None).unwrap_err().message, "profile not found");
    st.store.save_profile("user", profile("user", "Old"));
    let p = st.update_profile("user", None, Some("bio".into()), None).unwrap();
    assert_eq!(p.display_name, "Old");
    assert_eq!(p.bio.as_deref(), Some("bio"));
    let p = st.update_profile("user", Some("New".into()), None, Some("cid".into())).unwrap();
    assert_eq!(p.display_name, "New");
    assert_eq!(p.bio.as_deref(), Some("bio"));
    assert_eq!(p.avatar_cid.as_deref(), Some("cid"));
    assert_eq!(st.get_profile("user").unwrap().display_name, "New");
}

#[test]
fn query_defaults() {
    assert_eq!(QueryRoot::feed_window(None, None), (20, 0));
    assert_eq!(QueryRoot::feed_window(Some(5), Some(3)), (5, 3));
    assert_eq!(QueryRoot::list_limit(None), 50);
    assert_eq!(QueryRoot::list_limit(Some(7)), 7);
    assert_eq!(MutationRoot::acting_user(), "user");
    let c = GatewayConfig::default();
    assert_eq!(c.port, 8080);
    assert!(c.peer_id.is_empty());
}

#[test]
fn saved_post_reads_back_and_delete_restores() {
    let mut s = InMemoryStore::new();
    s.save_post("a", post("a", "x", "first", 10));
    s.save_post("b", post("b", "y", "second", 20));
    assert_eq!(s.get_post("b").map(|p| p.content), Some("second".to_string()));
    assert_eq!(s.get_post("a").map(|p| p.content), Some("first".to_string()));
    assert!(s.delete_post("b"));
    let cids: Vec<String> = s.get_posts().into_iter().map(|p| p.cid).collect();
    assert_eq!(cids, vec!["a"]);
}

#[test]
fn selection_over_lowered_texts() {
    let profiles = vec![profile("peer-a", "Alice Smith"), profile("peer-b", "Bob")];
    let names = vec!["alice smith".to_string(), "bob".to_string()];
    let ids = vec!["peer-a".to_string(), "peer-b".to_string()];
    let found = select_profiles_lowered(&profiles, &names, &ids, "smith");
    assert_eq!(found.iter().map(|p| p.peer_id.as_str()).collect::<Vec<_>>(), vec!["peer-a"]);
    let found = select_profiles_lowered(&profiles, &names, &ids, "peer-");
    assert_eq!(found.len(), 2);
    let posts = vec![post("a", "x", "Hello World", 1), post("b", "x", "bye", 2)];
    let contents = vec!["hello world".to_string(), "bye".to_string()];
    let found = select_posts_lowered(&posts, &contents, "world");
    assert_eq!(found.iter().map(|p| p.cid.as_str()).collect::<Vec<_>>(), vec!["a"]);
    assert!(select_posts_lowered(&posts, &contents, "World").is_empty());
}

#[test]
fn scenario_stop_decisions() {
    assert!(GossipPropagationScenario::keep_polling(false, false));
    assert!(!GossipPropagationScenario::keep_polling(true, false));
    assert!(!GossipPropagationScenario::keep_polling(false, true));
    assert!(SequentialMessagesScenario::keep_collecting(&vec!["msg1".to_string()], 3, false));
    assert!(!SequentialMessagesScenario::keep_collecting(&vec!["a".into(), "b".into(), "c".into()], 3, false));
    assert!(!SequentialMessagesScenario::keep_collecting(&vec![], 3, true));
}
