use std::sync::Arc;

use auth_service::user::User;
use auth_service::user_store::{HashmapUserStore, UserStore, UserStoreError};
use tokio::sync::RwLock;

/// Many tasks race to sign the same email key up; the writer lock
/// serializes them, so exactly one insertion is accepted and every other
/// one is turned away, leaving a single record behind.
#[test]
fn concurrent_add_user_has_one_winner() {
    let runtime = tokio::runtime::Builder::new_multi_thread()
        .worker_threads(4)
        .build()
        .unwrap();

    let tasks: usize = 8;
    let store = Arc::new(RwLock::new(HashmapUserStore::new()));

    let results = runtime.block_on(async {
        let mut handles = Vec::new();
        for _ in 0..tasks {
            let store = Arc::clone(&store);
            handles.push(tokio::spawn(async move {
                let user = User::new(
                    "race@example.com".to_string(),
                    "Race_passw0rd1!".to_string(),
                    false,
                )
                .unwrap();
                let mut guard = store.write().await;
                guard.add_user(user)
            }));
        }
        let mut results = Vec::new();
        for handle in handles {
            results.push(handle.await.unwrap());
        }
        results
    });

    let wins = results.iter().filter(|r| r.is_ok()).count();
    let rejections = results
        .iter()
        .filter(|r| r.as_ref().err() == Some(&UserStoreError::UserAlreadyExists))
        .count();
    assert_eq!(wins, 1);
    assert_eq!(rejections, tasks - 1);

    let guard = runtime.block_on(async { store.read().await.get_user("race@example.com").is_ok() });
    assert!(guard);
}
