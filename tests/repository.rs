use memo_app_backend::cache::RedisCache;
use memo_app_backend::dto::{CreateMemoDto, UpdateMemoDto};
use memo_app_backend::error::AppError;
use memo_app_backend::index::ElasticsearchClient;
use memo_app_backend::memo::Memo;
use memo_app_backend::primary::ScyllaDB;
use memo_app_backend::repository::{cache_key, MemoRepositoryImpl, CACHE_TTL_SECS};
use memo_app_backend::service::MemoService;

fn repo() -> MemoRepositoryImpl {
    MemoRepositoryImpl::new(
        ScyllaDB::new("scylla://localhost:9042").unwrap(),
        RedisCache::new("redis://localhost:6379").unwrap(),
        ElasticsearchClient::new("http://localhost:9200").unwrap(),
    )
}

fn memo(id: u128, user_id: u128, title: &str, version: i32) -> Memo {
    Memo {
        id,
        title: title.to_string(),
        content: "content".to_string(),
        tags: vec!["home".to_string()],
        user_id,
        created_at: 0,
        updated_at: 100,
        version,
    }
}

#[test]
fn only_first_of_competing_saves_wins() {
    let mut r = repo();
    r.save(&memo(1, 5, "v1", 1), None).unwrap();
    let a = r.save(&memo(1, 5, "from a", 2), Some(1)).unwrap();
    assert_eq!(a.memo.version, 2);
    assert!(!a.report.is_degraded());
    let b = r.save(&memo(1, 5, "from b", 2), Some(1));
    assert!(matches!(b, Err(AppError::Conflict(_))));
    assert_eq!(r.find_by_id(1).unwrap().unwrap().title, "from a");
}

#[test]
fn delete_twice_is_not_an_error() {
    let mut r = repo();
    r.save(&memo(1, 5, "x", 1), None).unwrap();
    assert!(r.delete(1).is_ok());
    assert!(r.delete(1).is_ok());
    assert!(r.find_by_id(1).unwrap().is_none());
    assert!(r.delete(42).is_ok());
}

#[test]
fn read_after_save_is_never_stale() {
    let mut r = repo();
    r.save(&memo(1, 5, "v1", 1), None).unwrap();
    assert_eq!(r.find_by_id_at(1, 1_000).unwrap().unwrap().version, 1);
    let key = cache_key(1);
    assert!(r.cache().contains_key(&key, 1_000).unwrap());
    let saved = r.save(&memo(1, 5, "v2", 2), Some(1)).unwrap();
    assert!(!r.cache().contains_key(&key, 1_000).unwrap());
    let found = r.find_by_id_at(1, 1_000).unwrap().unwrap();
    assert_eq!(found.version, saved.memo.version);
    assert_eq!(found.title, "v2");
}

#[test]
fn insert_then_find_round_trip() {
    let mut r = repo();
    let m = memo(0x77, 5, "round", 1);
    r.save(&m, None).unwrap();
    let f = r.find_by_id(0x77).unwrap().unwrap();
    assert_eq!(f.id, m.id);
    assert_eq!(f.title, m.title);
    assert_eq!(f.content, m.content);
    assert_eq!(f.tags, m.tags);
    assert_eq!(f.user_id, m.user_id);
    assert_eq!(f.created_at, m.created_at);
    assert_eq!(f.updated_at, m.updated_at);
    assert_eq!(f.version, m.version);
}

#[test]
fn search_without_text_lists_owned_newest_first() {
    let mut r = repo();
    let mut a = memo(1, 5, "a", 1);
    a.updated_at = 10;
    let mut b = memo(2, 5, "b", 1);
    b.updated_at = 30;
    let mut c = memo(3, 6, "c", 1);
    c.updated_at = 20;
    r.save(&a, None).unwrap();
    r.save(&b, None).unwrap();
    r.save(&c, None).unwrap();
    let ids: Vec<u128> = r.search("", None, 5).unwrap().iter().map(|m| m.id).collect();
    assert_eq!(ids, vec![2, 1]);
}

#[test]
fn duplicate_create_conflicts() {
    let mut r = repo();
    r.save(&memo(1, 5, "x", 1), None).unwrap();
    assert!(matches!(r.save(&memo(1, 5, "y", 1), None), Err(AppError::Conflict(_))));
}

#[test]
fn save_without_expected_version_swaps_against_predecessor() {
    let mut r = repo();
    r.save(&memo(1, 5, "x", 1), None).unwrap();
    let s = r.save(&memo(1, 5, "y", 2), None).unwrap();
    assert_eq!(s.memo.version, 2);
    assert!(matches!(r.save(&memo(1, 5, "z", 0), None), Err(AppError::BadRequest(_))));
    assert!(matches!(r.save(&memo(1, 5, "z", 3), Some(i32::MAX)), Err(AppError::BadRequest(_))));
}

#[test]
fn secondary_failures_degrade_but_do_not_fail_writes() {
    let mut r = repo();
    r.set_availability(true, false, false);
    let s = r.save(&memo(1, 5, "x", 1), None).unwrap();
    assert!(s.report.is_degraded());
    assert!(!s.report.cache_invalidated);
    assert!(!s.report.index_updated);
    // Reads fall back to the primary store while the cache is down.
    assert_eq!(r.find_by_id(1).unwrap().unwrap().title, "x");
    assert_eq!(r.memo_exists(1).unwrap(), true);
    // Search has no fallback.
    assert!(matches!(r.search("", None, 5), Err(AppError::IndexUnavailable(_))));
    let d = r.delete(1).unwrap();
    assert!(d.is_degraded());
    assert_eq!(r.memo_exists(1).unwrap(), false);
}

#[test]
fn primary_outage_fails_reads_and_writes() {
    let mut r = repo();
    r.save(&memo(1, 5, "x", 1), None).unwrap();
    r.set_availability(false, true, true);
    assert!(matches!(r.find_by_id(1), Err(AppError::StorageUnavailable(_))));
    assert!(matches!(r.save(&memo(2, 5, "y", 1), None), Err(AppError::StorageUnavailable(_))));
    assert!(matches!(r.delete(1), Err(AppError::StorageUnavailable(_))));
    assert!(matches!(r.find_all_by_user_id(5), Err(AppError::StorageUnavailable(_))));
    // A cached entry still answers reads and existence checks.
    r.set_availability(true, true, true);
    r.find_by_id_at(1, 0).unwrap();
    r.set_availability(false, true, true);
    assert_eq!(r.find_by_id_at(1, 1).unwrap().unwrap().id, 1);
    assert_eq!(r.memo_exists_at(1, 1).unwrap(), true);
}

#[test]
fn cached_reads_expire_after_ttl() {
    let mut r = repo();
    r.save(&memo(1, 5, "x", 1), None).unwrap();
    r.find_by_id_at(1, 0).unwrap();
    let key = cache_key(1);
    let ttl_ms = (CACHE_TTL_SECS * 1000) as i64;
    assert!(r.cache().contains_key(&key, ttl_ms - 1).unwrap());
    assert!(!r.cache().contains_key(&key, ttl_ms).unwrap());
}

fn service() -> MemoService {
    MemoService::new(repo())
}

#[test]
fn scenario_create_update_conflict_search_delete() {
    let mut svc = service();
    let u1: u128 = 0x1111;
    let a = svc
        .create_memo(
            CreateMemoDto { title: "Groceries".to_string(), content: "milk".to_string(), tags: vec!["home".to_string()] },
            u1,
        )
        .unwrap()
        .0;
    let found = svc.get_memo(a.id, u1).unwrap();
    assert_eq!(found.version, 1);

    let updated = svc
        .update_memo(
            a.id,
            UpdateMemoDto { title: Some("Groceries v2".to_string()), content: None, tags: None, version: 1 },
            u1,
        )
        .unwrap()
        .0;
    assert_eq!(updated.version, 2);
    assert_eq!(updated.title, "Groceries v2");
    let key = cache_key(a.id);
    assert!(!svc.repository().cache().contains_key(&key, chrono::Utc::now().timestamp_millis()).unwrap());

    let retry = svc.update_memo(
        a.id,
        UpdateMemoDto { title: Some("Groceries v2".to_string()), content: None, tags: None, version: 1 },
        u1,
    );
    assert!(matches!(retry, Err(AppError::Conflict(_))));

    let results = svc.search_memos("Groceries", None, u1).unwrap();
    assert_eq!(results.total, 1);
    assert_eq!(results.items[0].id, a.id);
    assert_eq!(results.page, 1);
    assert_eq!(results.total_pages, 1);

    svc.delete_memo(a.id, u1).unwrap();
    assert!(matches!(svc.get_memo(a.id, u1), Err(AppError::NotFound(_))));
}

#[test]
fn service_scopes_access_to_owner() {
    let mut svc = service();
    let a = svc
        .create_memo(CreateMemoDto { title: "t".to_string(), content: "c".to_string(), tags: vec![] }, 1)
        .unwrap()
        .0;
    assert!(matches!(svc.get_memo(a.id, 2), Err(AppError::Unauthorized(_))));
    assert!(matches!(svc.delete_memo(a.id, 2), Err(AppError::Unauthorized(_))));
    let upd = UpdateMemoDto { title: None, content: None, tags: None, version: 1 };
    assert!(matches!(svc.update_memo(a.id, upd, 2), Err(AppError::Unauthorized(_))));
    assert!(matches!(svc.get_memo(12345, 1), Err(AppError::NotFound(_))));
    assert_eq!(svc.get_user_memos(1).unwrap().len(), 1);
    assert!(svc.get_user_memos(2).unwrap().is_empty());
}

#[test]
fn service_stale_update_is_conflict() {
    let mut svc = service();
    let a = svc
        .create_memo(CreateMemoDto { title: "t".to_string(), content: "c".to_string(), tags: vec![] }, 1)
        .unwrap()
        .0;
    let upd = UpdateMemoDto { title: None, content: Some("d".to_string()), tags: None, version: 3 };
    assert!(matches!(svc.update_memo(a.id, upd, 1), Err(AppError::Conflict(_))));
    svc.set_availability(false, true, true);
    let c = svc.create_memo(CreateMemoDto { title: "t".to_string(), content: "c".to_string(), tags: vec![] }, 1);
    assert!(matches!(c, Err(AppError::StorageUnavailable(_))));
}

#[test]
fn live_cache_hit_is_returned_without_primary_read() {
    let mut db = ScyllaDB::new("x").unwrap();
    db.save(&memo(1, 5, "stored", 1)).unwrap();
    let mut cache = RedisCache::new("x").unwrap();
    cache.set(&cache_key(1), &memo(1, 5, "cached", 1), None, 0).unwrap();
    let mut r = MemoRepositoryImpl::new(db, cache, ElasticsearchClient::new("x").unwrap());
    assert_eq!(r.find_by_id_at(1, 0).unwrap().unwrap().title, "cached");
    r.set_availability(false, true, true);
    assert_eq!(r.find_by_id_at(1, 0).unwrap().unwrap().title, "cached");
}

#[test]
fn version_one_memo_with_expected_version_is_created_when_absent() {
    let mut r = repo();
    let s = r.save(&memo(9, 5, "new", 1), Some(1)).unwrap();
    assert_eq!(s.memo.version, 1);
    assert_eq!(r.find_by_id(9).unwrap().unwrap().title, "new");
    // Present now: the same call swaps against version 1.
    let s = r.save(&memo(9, 5, "newer", 1), Some(1)).unwrap();
    assert_eq!(s.memo.version, 2);
    assert!(matches!(r.save(&memo(9, 5, "late", 1), Some(1)), Err(AppError::Conflict(_))));
}

#[test]
fn creation_of_malformed_memo_is_rejected() {
    let mut r = repo();
    let mut m = memo(3, 5, "bad", 1);
    m.created_at = 200;
    assert!(matches!(r.save(&m, None), Err(AppError::ValidationError(_))));
    assert!(r.find_by_id(3).unwrap().is_none());
}

#[test]
fn creation_reports_degraded_write() {
    let mut svc = service();
    svc.set_availability(true, true, false);
    let (m, report) = svc
        .create_memo(CreateMemoDto { title: "t".to_string(), content: "c".to_string(), tags: vec![] }, 1)
        .unwrap();
    assert!(report.is_degraded());
    assert!(report.cache_invalidated);
    assert!(!report.index_updated);
    svc.set_availability(true, true, true);
    let upd = UpdateMemoDto { title: Some("u".to_string()), content: None, tags: None, version: 1 };
    let (_, report) = svc.update_memo(m.id, upd, 1).unwrap();
    assert!(!report.is_degraded());
}

#[test]
fn memo_at_largest_version_cannot_be_updated() {
    let mut db = ScyllaDB::new("x").unwrap();
    db.save(&memo(1, 5, "one", i32::MAX)).unwrap();
    let r = MemoRepositoryImpl::new(db, RedisCache::new("x").unwrap(), ElasticsearchClient::new("x").unwrap());
    let mut svc = MemoService::new(r);
    let upd = UpdateMemoDto { title: Some("x".to_string()), content: None, tags: None, version: i32::MAX };
    assert!(matches!(svc.update_memo(1, upd, 5), Err(AppError::BadRequest(_))));
    assert_eq!(svc.get_memo(1, 5).unwrap().title, "one");
}

#[test]
fn update_without_changes_still_bumps_version() {
    let mut svc = service();
    let a = svc
        .create_memo(CreateMemoDto { title: "t".to_string(), content: "c".to_string(), tags: vec!["x".to_string()] }, 1)
        .unwrap()
        .0;
    let upd = UpdateMemoDto { title: None, content: None, tags: None, version: 1 };
    let b = svc.update_memo(a.id, upd, 1)
        .unwrap()
        .0;
    assert_eq!(b.version, 2);
    assert_eq!(b.title, "t");
    assert_eq!(b.tags, vec!["x"]);
    assert!(b.updated_at > a.updated_at);
    assert_eq!(b.created_at, a.created_at);
}
