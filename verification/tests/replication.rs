use ahnlich_ai_proxy::models::{AiModel, SupportedModels};
use ahnlich_ai_proxy::replication::{
    AiCommand, AiResponseKind, AiSnapshot, AiStateMachineHandler, ClientWriteRequest, CreateStore,
    DelKey, DropStore,
};
use ahnlich_ai_proxy::store::AIStoreHandler;

fn new_state_machine() -> AiStateMachineHandler {
    let store_handler = AIStoreHandler::new(false, vec![SupportedModels::AllMiniLML6V2]);
    AiStateMachineHandler::new(store_handler)
}

fn create_store_command(store: &str) -> ClientWriteRequest {
    let req = CreateStore {
        store: store.to_string(),
        query_model: AiModel::AllMiniLmL6V2,
        index_model: AiModel::AllMiniLmL6V2,
        predicates: vec![],
        non_linear_indices: vec![],
        error_if_exists: true,
        store_original: true,
    };

    ClientWriteRequest {
        client_id: format!("client-{store}"),
        request_id: 1,
        command: AiCommand::CreateStore(req),
    }
}

fn store_count(snapshot: &AiSnapshot) -> usize {
    snapshot.stores.len()
}

#[test]
fn apply_create_store_writes_store() {
    let mut sm = new_state_machine();
    let applied = sm
        .apply(&create_store_command("test_store"))
        .expect("create_store apply should succeed");

    assert_eq!(applied.response.kind, AiResponseKind::Unit);
    assert_eq!(applied.response.deleted_count, 0, "valid Unit payload");

    let snapshot = sm.get_snapshot();
    let has_store = snapshot
        .stores
        .iter()
        .any(|store| store.name.value == "test_store");
    assert!(has_store, "store should exist in state machine snapshot");
}

#[test]
fn apply_drop_store_deletes_store() {
    let mut sm = new_state_machine();
    sm.apply(&create_store_command("drop_me"))
        .expect("seed create_store should succeed");

    let req = DropStore {
        store: "drop_me".to_string(),
        error_if_not_exists: true,
    };
    let applied = sm
        .apply(&ClientWriteRequest {
            client_id: "c2".to_string(),
            request_id: 2,
            command: AiCommand::DropStore(req),
        })
        .expect("drop_store apply should succeed");

    assert_eq!(applied.response.kind, AiResponseKind::Del);
    assert_eq!(applied.response.deleted_count, 1, "valid Del payload");
    assert_eq!(store_count(&sm.get_snapshot()), 0);
}

#[test]
fn apply_purge_stores_deletes_all() {
    let mut sm = new_state_machine();
    sm.apply(&create_store_command("s1"))
        .expect("seed create_store s1 should succeed");
    sm.apply(&create_store_command("s2"))
        .expect("seed create_store s2 should succeed");
    assert_eq!(store_count(&sm.get_snapshot()), 2);

    let applied = sm
        .apply(&ClientWriteRequest {
            client_id: "c3".to_string(),
            request_id: 3,
            command: AiCommand::PurgeStores,
        })
        .expect("purge_stores apply should succeed");

    assert_eq!(applied.response.kind, AiResponseKind::Del);
    assert_eq!(applied.response.deleted_count, 2, "valid Del payload");
    assert_eq!(store_count(&sm.get_snapshot()), 0);
}

#[test]
fn apply_idempotent_replay_returns_cached_response() {
    let mut sm = new_state_machine();
    sm.apply(&create_store_command("replay_store"))
        .expect("seed create_store should succeed");
    assert_eq!(store_count(&sm.get_snapshot()), 1);

    let request = ClientWriteRequest {
        client_id: "same-client".to_string(),
        request_id: 10,
        command: AiCommand::PurgeStores,
    };

    let first = sm
        .apply(&request)
        .expect("first purge apply should succeed")
        .response;
    let count_after_first = store_count(&sm.get_snapshot());
    let second = sm
        .apply(&request)
        .expect("second purge apply should return cached response")
        .response;
    let count_after_second = store_count(&sm.get_snapshot());

    assert_eq!(first.kind, second.kind);
    assert_eq!(first.deleted_count, second.deleted_count);
    assert_eq!(count_after_first, 0);
    assert_eq!(count_after_second, 0);
}

#[test]
fn apply_unsupported_command_returns_error() {
    let mut sm = new_state_machine();
    let initial_count = store_count(&sm.get_snapshot());

    let unsupported = ClientWriteRequest {
        client_id: "c4".to_string(),
        request_id: 4,
        command: AiCommand::DelKey(DelKey {
            store: "unused".to_string(),
            keys: vec![],
        }),
    };

    let result = sm.apply(&unsupported);
    assert!(result.is_err(), "unsupported command should fail");
    assert_eq!(store_count(&sm.get_snapshot()), initial_count);
}

#[test]
fn an_older_request_of_a_client_is_answered_with_its_latest_response() {
    let mut sm = new_state_machine();
    sm.apply(&create_store_command("kept")).unwrap();
    let purge = ClientWriteRequest {
        client_id: "client-kept".to_string(),
        request_id: 5,
        command: AiCommand::PurgeStores,
    };
    let answered = sm.apply(&purge).unwrap().response;
    assert_eq!(answered.deleted_count, 1);
    // A create with a lower number is not applied again: the purge answer comes back.
    let replay = sm.apply(&create_store_command("kept")).unwrap().response;
    assert_eq!(replay, answered);
    assert_eq!(store_count(&sm.get_snapshot()), 0);
}

#[test]
fn a_failed_command_is_not_remembered() {
    let mut sm = new_state_machine();
    sm.apply(&create_store_command("dup")).unwrap();
    let again = ClientWriteRequest {
        client_id: "other".to_string(),
        request_id: 1,
        command: AiCommand::CreateStore(CreateStore {
            store: "dup".to_string(),
            query_model: AiModel::AllMiniLmL6V2,
            index_model: AiModel::AllMiniLmL6V2,
            predicates: vec![],
            non_linear_indices: vec![],
            error_if_exists: true,
            store_original: false,
        }),
    };
    assert!(sm.apply(&again).is_err());
    let snapshot = sm.get_snapshot();
    assert_eq!(snapshot.client_last.len(), 1);
    assert_eq!(snapshot.stores.len(), 1);
    assert!(snapshot.stores[0].store_original);
}

#[test]
fn a_restored_snapshot_gives_back_the_state() {
    let mut sm = new_state_machine();
    sm.apply(&create_store_command("a")).unwrap();
    sm.apply(&create_store_command("b")).unwrap();
    let snapshot = sm.get_snapshot();

    let mut other = new_state_machine();
    other.restore_snapshot(snapshot);
    let again = other.get_snapshot();
    let mut names: Vec<String> = again.stores.iter().map(|s| s.name.value.clone()).collect();
    names.sort();
    assert_eq!(names, vec!["a".to_string(), "b".to_string()]);
    let mut clients: Vec<(String, u64)> = again
        .client_last
        .iter()
        .map(|(c, id, _)| (c.clone(), *id))
        .collect();
    clients.sort();
    assert_eq!(
        clients,
        vec![("client-a".to_string(), 1), ("client-b".to_string(), 1)]
    );
    // The restored machine remembers the requests it answered.
    let replay = other.apply(&create_store_command("a")).unwrap().response;
    assert_eq!(replay.kind, AiResponseKind::Unit);
    assert_eq!(other.get_snapshot().stores.len(), 2);
}

#[test]
fn dropping_a_missing_store_is_an_error_when_asked() {
    let mut sm = new_state_machine();
    let res = sm.apply(&ClientWriteRequest {
        client_id: "c".to_string(),
        request_id: 1,
        command: AiCommand::DropStore(DropStore {
            store: "nowhere".to_string(),
            error_if_not_exists: true,
        }),
    });
    assert!(res.is_err());
    let res = sm
        .apply(&ClientWriteRequest {
            client_id: "c".to_string(),
            request_id: 2,
            command: AiCommand::DropStore(DropStore {
                store: "nowhere".to_string(),
                error_if_not_exists: false,
            }),
        })
        .unwrap();
    assert_eq!(res.response.deleted_count, 0);
}

#[test]
fn applied_changes_set_the_change_flag_and_replays_do_not() {
    let mut sm = new_state_machine();
    assert!(!sm.store_handler().write_flag());

    // Purging an empty handler marks nothing.
    sm.apply(&ClientWriteRequest {
        client_id: "p".to_string(),
        request_id: 1,
        command: AiCommand::PurgeStores,
    })
    .unwrap();
    assert!(!sm.store_handler().write_flag());

    // Dropping a store that is not there marks nothing.
    sm.apply(&ClientWriteRequest {
        client_id: "d".to_string(),
        request_id: 1,
        command: AiCommand::DropStore(DropStore {
            store: "missing".to_string(),
            error_if_not_exists: false,
        }),
    })
    .unwrap();
    assert!(!sm.store_handler().write_flag());

    // A successful create does.
    sm.apply(&create_store_command("flagged")).unwrap();
    assert!(sm.store_handler().write_flag());
}
