use std::sync::Arc;

use task_manager::TaskManager;
use tokio::sync::Mutex;

fn runtime() -> tokio::runtime::Runtime {
    tokio::runtime::Builder::new_multi_thread()
        .worker_threads(4)
        .build()
        .expect("a runtime")
}

#[test]
fn concurrent_creates_lose_no_task() {
    let store = Arc::new(Mutex::new(TaskManager::new()));
    let listed = runtime().block_on(async {
        let mut handles = Vec::new();
        for n in 0..64 {
            let store = store.clone();
            handles.push(tokio::spawn(async move {
                store.lock().await.create_task(format!("task {}", n))
            }));
        }
        let mut returned = Vec::new();
        for handle in handles {
            returned.push(handle.await.expect("the call completes"));
        }
        let listed = store.lock().await.get_tasks();
        for task in &returned {
            assert_eq!(listed.iter().filter(|t| t.id == task.id).count(), 1);
        }
        listed
    });

    assert_eq!(listed.len(), 64);
    let mut titles: Vec<String> = listed.iter().map(|t| t.title.clone()).collect();
    titles.sort();
    let mut expected: Vec<String> = (0..64).map(|n| format!("task {}", n)).collect();
    expected.sort();
    assert_eq!(titles, expected);

    let mut ids: Vec<String> = listed.iter().map(|t| t.id.clone()).collect();
    ids.sort();
    ids.dedup();
    assert_eq!(ids.len(), 64);
    assert!(listed.iter().all(|t| !t.complete));
}

#[test]
fn delete_racing_update_leaves_a_consistent_store() {
    let store = Arc::new(Mutex::new(TaskManager::new()));
    runtime().block_on(async {
        let mut ids = Vec::new();
        for n in 0..32 {
            ids.push(store.lock().await.create_task(format!("task {}", n)).id);
        }

        let mut handles = Vec::new();
        for id in ids.iter().cloned() {
            let deleter = store.clone();
            let updater = store.clone();
            let id_again = id.clone();
            handles.push(tokio::spawn(async move {
                deleter.lock().await.delete_task(id).is_some()
            }));
            handles.push(tokio::spawn(async move {
                updater
                    .lock()
                    .await
                    .set_task_complete(id_again, true)
                    .is_some();
                true
            }));
        }
        for handle in handles {
            assert!(handle.await.expect("the call completes"));
        }

        assert!(store.lock().await.get_tasks().is_empty());
        for id in ids {
            assert!(store.lock().await.delete_task(id).is_none());
        }
    });
}
