use blog_icp_backend::blog::Blog;
use blog_icp_backend::command::{outcome_status, Command, WriteOutcome};
use blog_icp_backend::config::{not_found_message, Config, ConfigError};
use blog_icp_backend::identity::{is_owner, Identity};
use blog_icp_backend::store::{Operation, Store, StoreError};

fn alice() -> Identity {
    Identity::from_bytes(vec![1, 2, 3])
}

fn bob() -> Identity {
    Identity::from_bytes(vec![9, 9])
}

fn strings(v: &[&str]) -> Vec<String> {
    v.iter().map(|s| s.to_string()).collect()
}

fn store_with_tags(tags: &[&str]) -> Store {
    let mut cfg = Config::new();
    for t in tags {
        cfg.add_tag(t.to_string()).unwrap();
    }
    Store::new(cfg)
}

#[test]
fn config_defaults() {
    let c = Config::new();
    assert_eq!(c.max_tags_count, 3);
    assert_eq!(c.max_content_len, 2000);
    assert_eq!(c.max_title_len, 250);
    assert!(c.tags.is_empty());
}

#[test]
fn add_tag_rejects_duplicate() {
    let mut c = Config::new();
    assert_eq!(c.add_tag("rust".to_string()), Ok(()));
    assert_eq!(c.add_tag("rust".to_string()), Err(ConfigError::TagExists));
    assert_eq!(c.tags, strings(&["rust"]));
}

#[test]
fn remove_tag_missing_and_all_occurrences() {
    let mut c = Config::new();
    assert_eq!(c.remove_tag("go"), Err(ConfigError::TagNotFound));
    c.tags = strings(&["a", "b", "a"]);
    assert_eq!(c.remove_tag("a"), Ok(()));
    assert_eq!(c.tags, strings(&["b"]));
}

#[test]
fn config_error_messages() {
    assert_eq!(ConfigError::TagExists.message("rust"), "Ten tag już istnieje w config.tags");
    assert_eq!(ConfigError::TagNotFound.message("rust"), "Tag \"rust\" not found");
    assert_eq!(not_found_message(""), "Tag \"\" not found");
    let mut c = Config::new();
    let e = c.remove_tag("go").unwrap_err();
    assert_eq!(e.message("go"), "Tag \"go\" not found");
    assert_eq!(StoreError::TitleTooLong.message(Operation::CreatePost), "Title is too long!");
    assert_eq!(StoreError::NotFound.message(Operation::DeletePost), "Blog not found");
    assert_eq!(StoreError::CommentNotFound.message(Operation::EditComment), "Comment not found");
    assert_eq!(
        StoreError::Forbidden.message(Operation::EditPost),
        "You can only edit your own posts."
    );
    assert_eq!(
        StoreError::Forbidden.message(Operation::DeletePost),
        "You can only delete your own posts."
    );
    assert_eq!(
        StoreError::Forbidden.message(Operation::EditComment),
        "You can only edit your own comments."
    );
    assert_eq!(
        StoreError::Forbidden.message(Operation::RemoveComment),
        "You can only delete your own comments."
    );
}

#[test]
fn owner_check_compares_bytes() {
    assert!(is_owner(&alice(), &alice()));
    assert!(!is_owner(&alice(), &bob()));
    assert!(!is_owner(&Identity::from_bytes(vec![1, 2]), &Identity::from_bytes(vec![1, 3])));
    assert!(is_owner(&Identity::from_bytes(vec![]), &Identity::from_bytes(vec![])));
}

#[test]
fn scenario_tags_post_comment() {
    let mut s = Store::new(Config::new());
    assert!(s.config.tags.is_empty());
    assert_eq!(s.config.add_tag("rust".to_string()), Ok(()));
    let p = s
        .create_post(alice(), "Hi".to_string(), "World".to_string(), strings(&["rust"]), 10)
        .unwrap();
    assert_eq!(p.id, 0);
    let long = "x".repeat(300);
    assert_eq!(
        s.create_post(alice(), long, "y".to_string(), strings(&["rust"]), 11).unwrap_err(),
        StoreError::TitleTooLong
    );
    let c = s.add_comment(alice(), 0, "nice".to_string(), 12).unwrap();
    assert_eq!(c.id, 0);
    assert_eq!(
        s.edit_comment(&bob(), 0, 0, "nicer".to_string(), 13).unwrap_err(),
        StoreError::Forbidden
    );
    assert_eq!(s.config.remove_tag("rust"), Ok(()));
    assert!(s.config.tags.is_empty());
    assert_eq!(s.get_post(0).unwrap().tags, strings(&["rust"]));
}

#[test]
fn post_ids_increase_across_deletes() {
    let mut s = store_with_tags(&[]);
    let a = s.create_post(alice(), "a".into(), "".into(), vec![], 1).unwrap();
    let b = s.create_post(alice(), "b".into(), "".into(), vec![], 1).unwrap();
    assert_eq!(s.delete_post(&alice(), b.id), Ok(()));
    let c = s.create_post(bob(), "c".into(), "".into(), vec![], 1).unwrap();
    assert!(a.id < b.id && b.id < c.id);
    assert_eq!((a.id, b.id, c.id), (0, 1, 2));
    assert_eq!(s.next_post_id, 3);
}

#[test]
fn edits_keep_owner_and_date() {
    let mut s = store_with_tags(&["t"]);
    let p = s.create_post(alice(), "a".into(), "b".into(), vec![], 5).unwrap();
    let e1 = s.edit_post(&alice(), p.id, Some("A".into()), None, None).unwrap();
    let e2 = s.edit_post(&alice(), p.id, None, Some("B".into()), Some(strings(&["t"]))).unwrap();
    assert_eq!(e1.owner, alice());
    assert_eq!(e2.owner, alice());
    assert_eq!(e2.date, 5);
    assert_eq!(e2.title, "A");
    assert_eq!(e2.content, "B");
    assert_eq!(e2.tags, strings(&["t"]));
    assert_eq!(s.get_post(p.id).unwrap(), e2);
}

#[test]
fn non_owner_cannot_edit_or_delete_post() {
    let mut s = store_with_tags(&[]);
    let p = s.create_post(alice(), "a".into(), "b".into(), vec![], 1).unwrap();
    assert_eq!(
        s.edit_post(&bob(), p.id, Some("x".into()), None, None).unwrap_err(),
        StoreError::Forbidden
    );
    assert_eq!(s.delete_post(&bob(), p.id), Err(StoreError::Forbidden));
    assert_eq!(s.get_post(p.id).unwrap(), p);
}

#[test]
fn missing_post_is_not_found() {
    let mut s = store_with_tags(&[]);
    assert_eq!(s.edit_post(&alice(), 7, None, None, None).unwrap_err(), StoreError::NotFound);
    assert_eq!(s.delete_post(&alice(), 7), Err(StoreError::NotFound));
    assert_eq!(s.add_comment(alice(), 7, "c".into(), 1).unwrap_err(), StoreError::NotFound);
    assert_eq!(s.edit_comment(&alice(), 7, 0, "c".into(), 1).unwrap_err(), StoreError::NotFound);
    assert_eq!(s.remove_comment(&alice(), 7, 0), Err(StoreError::NotFound));
    assert!(s.get_post(7).is_none());
}

#[test]
fn validation_limits_and_boundaries() {
    let mut s = store_with_tags(&["a", "b", "c", "d"]);
    s.config.max_title_len = 5;
    s.config.max_content_len = 4;
    s.config.max_tags_count = 2;
    assert!(s.create_post(alice(), "12345".into(), "1234".into(), strings(&["a", "b"]), 1).is_ok());
    assert_eq!(
        s.create_post(alice(), "123456".into(), "1".into(), vec![], 1).unwrap_err(),
        StoreError::TitleTooLong
    );
    assert_eq!(
        s.create_post(alice(), "1".into(), "12345".into(), vec![], 1).unwrap_err(),
        StoreError::ContentTooLong
    );
    assert_eq!(
        s.create_post(alice(), "1".into(), "1".into(), strings(&["a", "b", "c"]), 1).unwrap_err(),
        StoreError::TooManyTags
    );
    assert_eq!(
        s.create_post(alice(), "1".into(), "1".into(), strings(&["zz"]), 1).unwrap_err(),
        StoreError::InvalidTags
    );
    // the first failing check wins
    assert_eq!(
        s.create_post(alice(), "123456".into(), "12345".into(), strings(&["zz"]), 1).unwrap_err(),
        StoreError::TitleTooLong
    );
    // byte length: "éé" is four bytes
    assert!(s.create_post(alice(), "1".into(), "éé".into(), vec![], 1).is_ok());
    assert_eq!(
        s.create_post(alice(), "1".into(), "ééé".into(), vec![], 1).unwrap_err(),
        StoreError::ContentTooLong
    );
    assert_eq!(s.posts.len(), 2);
}

#[test]
fn edit_validation_is_atomic() {
    let mut s = store_with_tags(&["a"]);
    s.config.max_content_len = 3;
    let p = s.create_post(alice(), "t".into(), "c".into(), vec![], 1).unwrap();
    assert_eq!(
        s.edit_post(&alice(), p.id, Some("new".into()), Some("long".into()), None).unwrap_err(),
        StoreError::ContentTooLong
    );
    assert_eq!(
        s.edit_post(&alice(), p.id, Some("new".into()), None, Some(strings(&["b"]))).unwrap_err(),
        StoreError::InvalidTags
    );
    assert_eq!(s.get_post(p.id).unwrap().title, "t");
    let e = s.edit_post(&alice(), p.id, Some("new".into()), Some("abc".into()), None).unwrap();
    assert_eq!((e.title.as_str(), e.content.as_str()), ("new", "abc"));
}

#[test]
fn comment_owner_rules_and_visibility() {
    let mut s = store_with_tags(&[]);
    let p = s.create_post(alice(), "t".into(), "c".into(), vec![], 1).unwrap();
    let c = s.add_comment(bob(), p.id, "hello".into(), 2).unwrap();
    assert_eq!(s.edit_comment(&alice(), p.id, c.id, "x".into(), 3).unwrap_err(), StoreError::Forbidden);
    assert_eq!(s.remove_comment(&alice(), p.id, c.id), Err(StoreError::Forbidden));
    let e = s.edit_comment(&bob(), p.id, c.id, "edited".into(), 4).unwrap();
    assert_eq!(e.content, "edited");
    assert_eq!(e.date, 4);
    let got = s.get_post(p.id).unwrap();
    assert_eq!(got.comments[0].content, "edited");
    assert_eq!(s.remove_comment(&bob(), p.id, c.id), Ok(()));
    assert!(s.get_post(p.id).unwrap().comments.is_empty());
    assert_eq!(
        s.remove_comment(&bob(), p.id, c.id),
        Err(StoreError::CommentNotFound)
    );
    assert_eq!(
        s.edit_comment(&bob(), p.id, c.id, "x".into(), 5).unwrap_err(),
        StoreError::CommentNotFound
    );
}

#[test]
fn comment_ids_are_global() {
    let mut s = store_with_tags(&[]);
    let p = s.create_post(alice(), "a".into(), "".into(), vec![], 1).unwrap();
    let q = s.create_post(alice(), "b".into(), "".into(), vec![], 1).unwrap();
    let c0 = s.add_comment(alice(), p.id, "1".into(), 1).unwrap();
    let c1 = s.add_comment(alice(), q.id, "2".into(), 1).unwrap();
    let c2 = s.add_comment(bob(), p.id, "3".into(), 1).unwrap();
    assert_eq!((c0.id, c1.id, c2.id), (0, 1, 2));
    let got = s.get_post(p.id).unwrap();
    assert_eq!(got.comments.len(), 2);
    assert_eq!(got.comments[1].owner, bob());
}

#[test]
fn create_then_get_round_trip() {
    let mut s = store_with_tags(&["x", "y"]);
    let p = s.create_post(bob(), "T".into(), "C".into(), strings(&["y", "x"]), 42).unwrap();
    let got = s.get_post(p.id).unwrap();
    assert_eq!(got.title, "T");
    assert_eq!(got.content, "C");
    assert_eq!(got.tags, strings(&["y", "x"]));
    assert!(got.comments.is_empty());
    assert_eq!(got.owner, bob());
    assert_eq!(got.date, 42);
}

#[test]
fn delete_discards_comments() {
    let mut s = store_with_tags(&[]);
    let p = s.create_post(alice(), "a".into(), "".into(), vec![], 1).unwrap();
    s.add_comment(bob(), p.id, "c".into(), 1).unwrap();
    assert_eq!(s.delete_post(&alice(), p.id), Ok(()));
    assert!(s.get_post(p.id).is_none());
    assert!(s.list_posts().is_empty());
}

#[test]
fn list_posts_range_slices() {
    let mut s = store_with_tags(&[]);
    for i in 0..5u64 {
        s.create_post(alice(), format!("p{}", i), "".into(), vec![], i).unwrap();
    }
    let ids = |v: Vec<Blog>| v.iter().map(|b| b.id).collect::<Vec<u64>>();
    assert_eq!(ids(s.list_posts_range(1, 2)), vec![1, 2]);
    assert_eq!(ids(s.list_posts_range(3, 50)), vec![3, 4]);
    assert_eq!(ids(s.list_posts_range(5, 1)), Vec::<u64>::new());
    assert_eq!(ids(s.list_posts_range(0, 0)), Vec::<u64>::new());
    assert_eq!(ids(s.list_posts_range(2, usize::MAX)), vec![2, 3, 4]);
    assert_eq!(ids(s.list_posts()), vec![0, 1, 2, 3, 4]);
}

#[test]
fn execute_commands_and_statuses() {
    let mut s = store_with_tags(&[]);
    let o = s.execute(
        alice(),
        Command::CreatePost { title: "t".into(), content: "c".into(), tags: vec![] },
        1,
    );
    assert_eq!(outcome_status(&o), 201);
    assert!(matches!(o, WriteOutcome::PostCreated(ref b) if b.id == 0));
    let o = s.execute(bob(), Command::DeletePost { id: 0 }, 2);
    assert!(matches!(o, WriteOutcome::Failed(StoreError::Forbidden)));
    assert_eq!(outcome_status(&o), 403);
    let o = s.execute(bob(), Command::AddComment { post_id: 0, content: "hi".into() }, 3);
    assert_eq!(outcome_status(&o), 201);
    let o = s.execute(
        bob(),
        Command::EditComment { post_id: 0, comment_id: 0, content: "yo".into() },
        4,
    );
    assert_eq!(outcome_status(&o), 200);
    let o = s.execute(bob(), Command::RemoveComment { post_id: 0, comment_id: 0 }, 5);
    assert!(matches!(o, WriteOutcome::Deleted));
    assert_eq!(outcome_status(&o), 204);
    let o = s.execute(
        alice(),
        Command::EditPost { id: 0, title: Some("u".into()), content: None, tags: None },
        6,
    );
    assert_eq!(outcome_status(&o), 200);
    let o = s.execute(alice(), Command::DeletePost { id: 9 }, 7);
    assert_eq!(outcome_status(&o), 404);
    let o = s.execute(
        alice(),
        Command::CreatePost { title: "t".into(), content: "c".into(), tags: strings(&["no"]) },
        8,
    );
    assert_eq!(outcome_status(&o), 400);
    let cmd = Command::RemoveComment { post_id: 0, comment_id: 0 };
    assert_eq!(cmd.operation(), Operation::RemoveComment);
}

#[test]
fn replace_config_keeps_posts() {
    let mut s = store_with_tags(&["a"]);
    let p = s.create_post(alice(), "t".into(), "c".into(), strings(&["a"]), 1).unwrap();
    let mut cfg = Config::new();
    cfg.max_title_len = 1;
    s.replace_config(cfg.clone());
    assert_eq!(s.get_config(), cfg);
    assert_eq!(s.get_post(p.id).unwrap().tags, strings(&["a"]));
    assert_eq!(
        s.create_post(alice(), "tt".into(), "c".into(), vec![], 1).unwrap_err(),
        StoreError::TitleTooLong
    );
}
