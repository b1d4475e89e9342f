use ahnlich_ai_proxy::errors::AIProxyError;
use ahnlich_ai_proxy::models::{AiModel, SupportedModels};
use ahnlich_ai_proxy::pipeline::{
    answer_all, answer_of, db_request, next_step, record_answer, response_kind, server_step,
    DbCall, DbEvent, DbRequest, PipelineAnswer, PipelineQuery, PipelineStep, ResponseKind,
    ServerAction, ServerAnswer, ServerQuery,
};
use ahnlich_ai_proxy::replication::{CreateStore, DropStore};
use ahnlich_ai_proxy::store::{AIStoreHandler, DbStoreInfo};

#[test]
fn each_query_is_answered_with_its_own_kind() {
    assert_eq!(response_kind(PipelineQuery::Ping), ResponseKind::Pong);
    assert_eq!(response_kind(PipelineQuery::CreateStore), ResponseKind::Unit);
    assert_eq!(response_kind(PipelineQuery::GetKey), ResponseKind::Get);
    assert_eq!(response_kind(PipelineQuery::DropStore), ResponseKind::Del);
    assert_eq!(response_kind(PipelineQuery::SetEntries), ResponseKind::Upsert);
}

#[test]
fn only_some_queries_reach_the_database() {
    assert_eq!(db_request(PipelineQuery::Ping), DbRequest::NoRequest);
    assert_eq!(db_request(PipelineQuery::InfoServer), DbRequest::NoRequest);
    assert_eq!(db_request(PipelineQuery::ListClients), DbRequest::NoRequest);
    assert_eq!(db_request(PipelineQuery::ListStores), DbRequest::ListStores);
    assert_eq!(db_request(PipelineQuery::DropStore), DbRequest::DropStore);
    assert_eq!(db_request(PipelineQuery::PurgeStores), DbRequest::DropEachStore);
    assert_eq!(db_request(PipelineQuery::GetKey), DbRequest::GetPred);
    assert_eq!(db_request(PipelineQuery::DelKey), DbRequest::DelPred);
    assert_eq!(db_request(PipelineQuery::SetEntries), DbRequest::DeleteThenSet);
}

#[test]
fn a_missing_query_refuses_the_pipeline() {
    assert_eq!(
        next_step(None),
        PipelineStep::Refuse { message: "query is required".to_string(), code: 3 }
    );
    assert_eq!(next_step(Some(PipelineQuery::Ping)), PipelineStep::Run(PipelineQuery::Ping));
}

#[test]
fn answers_keep_the_order_of_the_queries_and_errors_do_not_stop_them() {
    let queries = vec![PipelineQuery::Ping, PipelineQuery::DropStore, PipelineQuery::ListStores];
    let outcomes: Vec<Result<u32, (String, i32)>> =
        vec![Ok(1), Err(("Store a not found".to_string(), 5)), Ok(3)];
    let answers = answer_all(&queries, outcomes);
    assert_eq!(answers.len(), 3);
    assert!(matches!(answers[0], PipelineAnswer::Response(ResponseKind::Pong, 1)));
    match &answers[1] {
        PipelineAnswer::Error { message, code } => {
            assert_eq!(message, "Store a not found");
            assert_eq!(*code, 5);
        }
        _ => panic!("the failed query is answered with its error"),
    }
    assert!(matches!(answers[2], PipelineAnswer::Response(ResponseKind::StoreList, 3)));

    let mut more = answers;
    record_answer(&mut more, PipelineQuery::GetKey, Ok(9));
    assert!(matches!(more[3], PipelineAnswer::Response(ResponseKind::Get, 9)));
    assert!(matches!(answer_of::<u8>(PipelineQuery::Ping, Err(("x".to_string(), 2))), PipelineAnswer::Error { code: 2, .. }));
}

fn handler() -> AIStoreHandler {
    AIStoreHandler::new(false, vec![SupportedModels::AllMiniLML6V2])
}

fn create(store: &str) -> ServerQuery {
    ServerQuery::CreateStore(CreateStore {
        store: store.to_string(),
        query_model: AiModel::AllMiniLmL6V2,
        index_model: AiModel::AllMiniLmL6V2,
        predicates: vec![],
        non_linear_indices: vec![],
        error_if_exists: true,
        store_original: true,
    })
}

fn drop(store: &str) -> ServerQuery {
    ServerQuery::DropStore(DropStore { store: store.to_string(), error_if_not_exists: true })
}

#[test]
fn a_store_is_created_locally_only_after_the_database_created_it() {
    let mut h = handler();
    match server_step(&mut h, &create("a"), DbEvent::Arrived) {
        ServerAction::Send(DbCall::CreateStore(p)) => {
            assert_eq!(p.store, "a");
            assert_eq!(p.dimension, 384);
            assert_eq!(p.create_predicates, vec!["_ahnlich_input_key".to_string()]);
        }
        other => panic!("expected a creation request, got {other:?}"),
    }
    assert!(h.list_stores().is_empty());

    let failed = server_step(
        &mut h,
        &create("a"),
        DbEvent::Failed { message: "db down".to_string(), code: 14 },
    );
    assert!(matches!(failed, ServerAction::Answer(ServerAnswer::DbError { ref message, code: 14 }) if message == "db down"));
    assert!(h.list_stores().is_empty());

    assert!(matches!(server_step(&mut h, &create("a"), DbEvent::Done), ServerAction::Answer(ServerAnswer::Unit)));
    assert_eq!(h.list_stores().len(), 1);
    assert!(h.write_flag());

    match server_step(&mut h, &create("a"), DbEvent::Done) {
        ServerAction::Answer(ServerAnswer::ProxyError(e)) => {
            assert_eq!(e, AIProxyError::StoreAlreadyExists("a".to_string()))
        }
        other => panic!("expected the proxy's error, got {other:?}"),
    }
}

#[test]
fn a_store_is_dropped_in_the_database_only_when_the_proxy_has_it() {
    let mut h = handler();
    // Unknown store: no database request, the proxy answers at once.
    match server_step(&mut h, &drop("x"), DbEvent::Arrived) {
        ServerAction::Answer(ServerAnswer::ProxyError(e)) => {
            assert_eq!(e, AIProxyError::StoreNotFound("x".to_string()))
        }
        other => panic!("expected StoreNotFound, got {other:?}"),
    }
    server_step(&mut h, &create("x"), DbEvent::Done);
    match server_step(&mut h, &drop("x"), DbEvent::Arrived) {
        ServerAction::Send(DbCall::DropStores { stores, error_if_not_exists }) => {
            assert_eq!(stores, vec!["x".to_string()]);
            assert!(error_if_not_exists);
        }
        other => panic!("expected a drop request, got {other:?}"),
    }
    assert_eq!(h.list_stores().len(), 1);
    assert!(matches!(server_step(&mut h, &drop("x"), DbEvent::Done), ServerAction::Answer(ServerAnswer::Deleted(1))));
    assert!(h.list_stores().is_empty());
}

#[test]
fn a_purge_drops_every_store_in_the_database_first() {
    let mut h = handler();
    server_step(&mut h, &create("a"), DbEvent::Done);
    server_step(&mut h, &create("b"), DbEvent::Done);
    match server_step(&mut h, &ServerQuery::PurgeStores, DbEvent::Arrived) {
        ServerAction::Send(DbCall::DropStores { mut stores, error_if_not_exists }) => {
            stores.sort();
            assert_eq!(stores, vec!["a".to_string(), "b".to_string()]);
            assert!(!error_if_not_exists);
        }
        other => panic!("expected drop requests, got {other:?}"),
    }
    let failed = server_step(
        &mut h,
        &ServerQuery::PurgeStores,
        DbEvent::Failed { message: "no".to_string(), code: 2 },
    );
    assert!(matches!(failed, ServerAction::Answer(ServerAnswer::DbError { code: 2, .. })));
    assert_eq!(h.list_stores().len(), 2);
    assert!(matches!(
        server_step(&mut h, &ServerQuery::PurgeStores, DbEvent::Done),
        ServerAction::Answer(ServerAnswer::Deleted(2))
    ));
    assert!(h.list_stores().is_empty());
}

#[test]
fn pings_and_listings_follow_their_steps() {
    let mut h = handler();
    assert!(matches!(server_step(&mut h, &ServerQuery::Ping, DbEvent::Arrived), ServerAction::Answer(ServerAnswer::Pong)));
    assert!(matches!(
        server_step(&mut h, &ServerQuery::ListStores, DbEvent::Arrived),
        ServerAction::Send(DbCall::ListStores)
    ));
    server_step(&mut h, &create("s"), DbEvent::Done);
    let listed = server_step(
        &mut h,
        &ServerQuery::ListStores,
        DbEvent::Listed(vec![DbStoreInfo {
            name: "s".to_string(),
            predicate_indices: vec!["_ahnlich_input_key".to_string(), "colour".to_string()],
        }]),
    );
    match listed {
        ServerAction::Answer(ServerAnswer::StoreList(l)) => {
            assert_eq!(l.len(), 1);
            assert_eq!(l[0].predicate_indices, vec!["colour".to_string()]);
        }
        other => panic!("expected a listing, got {other:?}"),
    }
    match server_step(&mut h, &ServerQuery::ListStores, DbEvent::Failed { message: "m".to_string(), code: 1 }) {
        ServerAction::Answer(ServerAnswer::StoreList(l)) => {
            assert_eq!(l.len(), 1);
            assert!(l[0].db_info.is_none());
        }
        other => panic!("expected a listing, got {other:?}"),
    }
    assert!(matches!(
        server_step(&mut h, &ServerQuery::Forward(PipelineQuery::GetKey), DbEvent::Arrived),
        ServerAction::Send(DbCall::Request(DbRequest::GetPred))
    ));
    assert!(matches!(
        server_step(&mut h, &ServerQuery::Forward(PipelineQuery::GetKey), DbEvent::Done),
        ServerAction::Answer(ServerAnswer::FromReply(ResponseKind::Get))
    ));
}

fn raw(s: &str) -> ahnlich_ai_proxy::keyval::StoreInput {
    ahnlich_ai_proxy::keyval::StoreInput {
        value: Some(ahnlich_ai_proxy::keyval::StoreInputValue::RawString(s.to_string())),
    }
}

#[test]
fn deletions_searches_and_sets_are_checked_before_the_database() {
    let mut h = handler();
    let del = ServerQuery::DelKey { store: "k".to_string(), keys: vec![raw("a")] };
    match server_step(&mut h, &del, DbEvent::Arrived) {
        ServerAction::Answer(ServerAnswer::ProxyError(e)) => {
            assert_eq!(e, AIProxyError::StoreNotFound("k".to_string()))
        }
        other => panic!("expected StoreNotFound, got {other:?}"),
    }
    server_step(&mut h, &create("k"), DbEvent::Done);
    match server_step(&mut h, &del, DbEvent::Arrived) {
        ServerAction::Send(DbCall::DelPred(c)) => {
            assert_eq!(c.key, "_ahnlich_input_key");
            assert_eq!(c.values.len(), 1);
        }
        other => panic!("expected a deletion, got {other:?}"),
    }
    assert!(matches!(
        server_step(&mut h, &del, DbEvent::Done),
        ServerAction::Answer(ServerAnswer::FromReply(ResponseKind::Del))
    ));

    let search = ServerQuery::GetSimN { store: "none".to_string() };
    assert!(matches!(
        server_step(&mut h, &search, DbEvent::Arrived),
        ServerAction::Answer(ServerAnswer::ProxyError(AIProxyError::StoreNotFound(_)))
    ));
    let search = ServerQuery::GetSimN { store: "k".to_string() };
    assert!(matches!(
        server_step(&mut h, &search, DbEvent::Arrived),
        ServerAction::EmbedAndSearch(AiModel::AllMiniLmL6V2)
    ));

    let set = ServerQuery::SetEntries {
        store: "k".to_string(),
        inputs: vec![ahnlich_ai_proxy::operations::SetInput { key: Some(raw("a")), value: None }],
        model_params: ahnlich_ai_proxy::keyed::StrMap::new(),
    };
    match server_step(&mut h, &set, DbEvent::Arrived) {
        ServerAction::EmbedAndSet(plan) => {
            assert_eq!(plan.inputs.len(), 1);
            assert_eq!(plan.replaced.map(|r| r.len()), Some(1));
        }
        other => panic!("expected a plan, got {other:?}"),
    }
    let empty = ServerQuery::SetEntries {
        store: "k".to_string(),
        inputs: vec![],
        model_params: ahnlich_ai_proxy::keyed::StrMap::new(),
    };
    assert!(matches!(server_step(&mut h, &empty, DbEvent::Arrived), ServerAction::Send(DbCall::EmptySet)));
    assert!(matches!(
        server_step(&mut h, &set, DbEvent::Done),
        ServerAction::Answer(ServerAnswer::FromReply(ResponseKind::Upsert))
    ));
}
