use memo_app_backend::cache::RedisCache;
use memo_app_backend::dto::{default_limit, default_page};
use memo_app_backend::error::AppError;
use memo_app_backend::index::ElasticsearchClient;
use memo_app_backend::memo::Memo;
use memo_app_backend::primary::{CasOutcome, ScyllaDB};
use memo_app_backend::repository::cache_key;

fn memo(id: u128, user_id: u128, title: &str, content: &str, tags: &[&str], updated_at: i64, version: i32) -> Memo {
    Memo {
        id,
        title: title.to_string(),
        content: content.to_string(),
        tags: tags.iter().map(|t| t.to_string()).collect(),
        user_id,
        created_at: 0,
        updated_at,
        version,
    }
}

#[test]
fn test_save_and_find_memo() {
    let mut scylla = ScyllaDB::new("scylla://localhost:9042").unwrap();

    let memo = Memo {
        id: uuid::Uuid::new_v4().as_u128(),
        title: "Test Memo".to_string(),
        content: "Test Content".to_string(),
        tags: vec!["test".to_string()],
        user_id: uuid::Uuid::new_v4().as_u128(),
        created_at: chrono::Utc::now().timestamp_millis(),
        updated_at: chrono::Utc::now().timestamp_millis(),
        version: 1,
    };

    scylla.save(&memo).unwrap();

    let found = scylla.find_by_id(memo.id).unwrap().unwrap();
    assert_eq!(found.id, memo.id);
    assert_eq!(found.title, memo.title);
    assert_eq!(found.content, memo.content);
    assert_eq!(found.tags, memo.tags);
    assert_eq!(found.user_id, memo.user_id);
    assert_eq!(found.version, memo.version);

    scylla.delete(memo.id).unwrap();
    assert!(scylla.find_by_id(memo.id).unwrap().is_none());
}

#[test]
fn primary_insert_rejects_duplicate() {
    let mut db = ScyllaDB::new("x").unwrap();
    db.save(&memo(1, 2, "a", "b", &[], 5, 1)).unwrap();
    assert!(matches!(db.save(&memo(1, 2, "c", "d", &[], 5, 1)), Err(AppError::Conflict(_))));
    assert_eq!(db.find_by_id(1).unwrap().unwrap().title, "a");
}

#[test]
fn primary_rejects_malformed_records() {
    let mut db = ScyllaDB::new("x").unwrap();
    let mut m = memo(1, 2, "a", "b", &[], 5, 1);
    m.created_at = 6;
    assert!(matches!(db.save(&m), Err(AppError::ValidationError(_))));
    assert!(matches!(db.save(&memo(2, 2, "a", "b", &[], 5, 0)), Err(AppError::ValidationError(_))));
    assert_eq!(db.contains(1).unwrap(), false);
}

#[test]
fn primary_compare_and_swap() {
    let mut db = ScyllaDB::new("x").unwrap();
    db.save(&memo(1, 2, "a", "b", &["t"], 50, 1)).unwrap();
    // The owner and creation time of the stored record are kept; the version is expected + 1.
    let mut change = memo(1, 99, "a2", "b2", &["u"], 40, 7);
    change.created_at = 33;
    match db.update_if_version(&change, 1).unwrap() {
        CasOutcome::Applied(m) => {
            assert_eq!(m.version, 2);
            assert_eq!(m.title, "a2");
            assert_eq!(m.tags, vec!["u"]);
            assert_eq!(m.user_id, 2);
            assert_eq!(m.created_at, 0);
            assert_eq!(m.updated_at, 50);
        }
        CasOutcome::VersionMismatch => panic!("expected the swap to apply"),
    }
    assert!(matches!(db.update_if_version(&change, 1).unwrap(), CasOutcome::VersionMismatch));
    assert!(matches!(db.update_if_version(&memo(5, 2, "a", "b", &[], 1, 1), 1).unwrap(), CasOutcome::VersionMismatch));
    assert_eq!(db.find_by_id(1).unwrap().unwrap().version, 2);
}

#[test]
fn primary_unavailable() {
    let mut db = ScyllaDB::new("x").unwrap();
    db.set_available(false);
    assert!(matches!(db.find_by_id(1), Err(AppError::StorageUnavailable(_))));
    assert!(matches!(db.delete(1), Err(AppError::StorageUnavailable(_))));
    assert!(matches!(db.contains(1), Err(AppError::StorageUnavailable(_))));
    assert!(db.health_check().is_err());
    db.set_available(true);
    assert_eq!(db.health_check().unwrap(), true);
    assert_eq!(db.contains(1).unwrap(), false);
}

#[test]
fn primary_lists_by_owner() {
    let mut db = ScyllaDB::new("x").unwrap();
    db.save(&memo(1, 10, "a", "b", &[], 5, 1)).unwrap();
    db.save(&memo(2, 11, "a", "b", &[], 5, 1)).unwrap();
    db.save(&memo(3, 10, "a", "b", &[], 5, 1)).unwrap();
    let mut ids: Vec<u128> = db.find_all_by_user_id(10).unwrap().iter().map(|m| m.id).collect();
    ids.sort();
    assert_eq!(ids, vec![1, 3]);
    assert!(db.find_all_by_user_id(12).unwrap().is_empty());
}

#[test]
fn cache_key_is_prefix_and_hyphenated_id() {
    let k = cache_key(0x67e5504410b1426f9247bb680e5fe0c8);
    assert_eq!(k, "memo:67e55044-10b1-426f-9247-bb680e5fe0c8");
    assert_eq!(cache_key(0), "memo:00000000-0000-0000-0000-000000000000");
}

#[test]
fn cache_entries_expire() {
    let mut cache = RedisCache::new("redis://localhost:6379").unwrap();
    let key = "k".to_string();
    cache.set(&key, &memo(1, 2, "a", "b", &[], 5, 1), Some(10), 1_000).unwrap();
    assert_eq!(cache.get(&key, 1_000).unwrap().unwrap().id, 1);
    assert!(cache.get(&key, 10_999).unwrap().is_some());
    assert!(cache.get(&key, 11_000).unwrap().is_none());
    assert_eq!(cache.contains_key(&key, 11_000).unwrap(), false);
    cache.set(&key, &memo(2, 2, "a", "b", &[], 5, 1), None, 1_000).unwrap();
    assert_eq!(cache.get(&key, i64::MAX).unwrap().unwrap().id, 2);
    cache.delete(&key).unwrap();
    assert!(cache.get(&key, 0).unwrap().is_none());
    cache.delete(&key).unwrap();
}

#[test]
fn cache_unavailable_errors() {
    let mut cache = RedisCache::new("redis://localhost:6379").unwrap();
    cache.set_available(false);
    let key = "k".to_string();
    assert!(matches!(cache.get(&key, 0), Err(AppError::DatabaseError(_))));
    assert!(matches!(cache.set(&key, &memo(1, 2, "a", "b", &[], 5, 1), None, 0), Err(AppError::DatabaseError(_))));
    assert!(matches!(cache.delete(&key), Err(AppError::DatabaseError(_))));
    assert!(matches!(cache.contains_key(&key, 0), Err(AppError::DatabaseError(_))));
}

fn ids(v: &[Memo]) -> Vec<u128> {
    v.iter().map(|m| m.id).collect()
}

#[test]
fn search_ranks_title_over_content_then_recency() {
    let mut es = ElasticsearchClient::new("http://localhost:9200").unwrap();
    es.index_memo(&memo(1, 7, "other", "rust in content", &[], 300, 1)).unwrap();
    es.index_memo(&memo(2, 7, "rust title", "nothing", &[], 100, 1)).unwrap();
    es.index_memo(&memo(3, 7, "rust both", "rust too", &[], 50, 1)).unwrap();
    es.index_memo(&memo(4, 7, "rust title later", "x", &[], 200, 1)).unwrap();
    es.index_memo(&memo(5, 7, "unrelated", "nothing", &[], 999, 1)).unwrap();
    es.index_memo(&memo(6, 8, "rust", "rust", &[], 999, 1)).unwrap();
    let out = es.search_memos("rust", None, 7).unwrap();
    assert_eq!(ids(&out), vec![3, 4, 2, 1]);
}

#[test]
fn search_empty_query_lists_owner_newest_first() {
    let mut es = ElasticsearchClient::new("x").unwrap();
    es.index_memo(&memo(1, 7, "a", "b", &[], 10, 1)).unwrap();
    es.index_memo(&memo(2, 7, "c", "d", &[], 30, 1)).unwrap();
    es.index_memo(&memo(3, 8, "e", "f", &[], 20, 1)).unwrap();
    es.index_memo(&memo(4, 7, "g", "h", &[], 20, 1)).unwrap();
    assert_eq!(ids(&es.search_memos("", None, 7).unwrap()), vec![2, 4, 1]);
    assert!(es.search_memos("", None, 9).unwrap().is_empty());
    assert!(es.search_memos("zzz", None, 7).unwrap().is_empty());
}

#[test]
fn search_tag_filter_is_exact() {
    let mut es = ElasticsearchClient::new("x").unwrap();
    es.index_memo(&memo(1, 7, "a", "b", &["home"], 10, 1)).unwrap();
    es.index_memo(&memo(2, 7, "a", "b", &["homework"], 20, 1)).unwrap();
    es.index_memo(&memo(3, 7, "a", "b", &["work", "home"], 30, 1)).unwrap();
    assert_eq!(ids(&es.search_memos("", Some("home".to_string()), 7).unwrap()), vec![3, 1]);
    assert_eq!(ids(&es.search_memos("a", Some("work".to_string()), 7).unwrap()), vec![3]);
}

#[test]
fn index_upsert_is_last_write_wins_and_delete() {
    let mut es = ElasticsearchClient::new("x").unwrap();
    es.index_memo(&memo(1, 7, "new title", "b", &[], 10, 2)).unwrap();
    es.index_memo(&memo(1, 7, "old title", "b", &[], 5, 1)).unwrap();
    let out = es.search_memos("", None, 7).unwrap();
    assert_eq!(out.len(), 1);
    assert_eq!(out[0].title, "old title");
    es.delete_memo(1).unwrap();
    es.delete_memo(1).unwrap();
    assert!(es.search_memos("", None, 7).unwrap().is_empty());
}

#[test]
fn index_unavailable() {
    let mut es = ElasticsearchClient::new("x").unwrap();
    es.set_available(false);
    assert!(matches!(es.search_memos("", None, 7), Err(AppError::IndexUnavailable(_))));
    assert!(matches!(es.index_memo(&memo(1, 7, "a", "b", &[], 1, 1)), Err(AppError::IndexUnavailable(_))));
    assert!(matches!(es.delete_memo(1), Err(AppError::IndexUnavailable(_))));
    assert!(es.health_check().is_err());
}

#[test]
fn error_presentation() {
    let cases = [
        (AppError::NotFound("m".to_string()), 404, "Not Found", "m"),
        (AppError::BadRequest("m".to_string()), 400, "Bad Request", "m"),
        (AppError::ValidationError("m".to_string()), 422, "Validation Error", "m"),
        (AppError::Unauthorized("m".to_string()), 401, "Unauthorized", "m"),
        (AppError::Conflict("m".to_string()), 409, "Conflict", "m"),
        (AppError::DatabaseError("m".to_string()), 500, "Internal Server Error", "An unexpected error occurred"),
        (AppError::InternalServerError("m".to_string()), 500, "Internal Server Error", "An unexpected error occurred"),
        (AppError::StorageUnavailable("m".to_string()), 500, "Internal Server Error", "An unexpected error occurred"),
        (AppError::IndexUnavailable("m".to_string()), 500, "Internal Server Error", "An unexpected error occurred"),
    ];
    for (e, status, title, message) in cases.iter() {
        assert_eq!(e.status_code(), *status);
        assert_eq!(e.error_title(), *title);
        assert_eq!(e.client_message(), *message);
    }
}

#[test]
fn search_param_defaults() {
    assert_eq!(default_page(), 1);
    assert_eq!(default_limit(), 20);
}
