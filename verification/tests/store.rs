use ahnlich_ai_proxy::errors::AIProxyError;
use ahnlich_ai_proxy::keyval::{
    MetadataKind, MetadataValue, StoreInput, StoreInputValue, StoreName, StoreValue,
};
use ahnlich_ai_proxy::models::{AiModel, AiStoreInputType, InputAction, SupportedModels};
use ahnlich_ai_proxy::store::{
    preprocess_store_input, query_key_from_responses, set_entries, AIStoreHandler, DbStoreEntry,
    ModelResponse,
};

fn name(s: &str) -> StoreName {
    StoreName { value: s.to_string() }
}

fn text(s: &str) -> StoreInput {
    StoreInput { value: Some(StoreInputValue::RawString(s.to_string())) }
}

fn meta_text(s: &str) -> MetadataValue {
    MetadataValue { value: Some(MetadataKind::RawString(s.to_string())) }
}

fn value_with(pairs: &[(&str, &str)]) -> StoreValue {
    let mut v = StoreValue::new();
    for (k, x) in pairs {
        v.insert(k.to_string(), meta_text(x));
    }
    v
}

fn text_of(v: &StoreValue, key: &str) -> Option<String> {
    v.value
        .get(key)
        .and_then(|m| match &m.value {
            Some(MetadataKind::RawString(s)) => Some(s.clone()),
            _ => None,
        })
}

fn handler() -> AIStoreHandler {
    AIStoreHandler::new(
        false,
        vec![
            SupportedModels::AllMiniLML6V2,
            SupportedModels::AllMiniLML12V2,
            SupportedModels::BGEBaseEnV15,
            SupportedModels::Resnet50,
        ],
    )
}

#[test]
fn creating_a_store_records_it_and_sets_the_write_flag() {
    let mut h = handler();
    assert!(!h.write_flag());
    h.create_store(name("s"), AiModel::AllMiniLmL6V2, AiModel::AllMiniLmL12V2, true, true)
        .unwrap();
    assert!(h.write_flag());
    let store = h.get(&name("s")).unwrap();
    assert_eq!(store.query_model, AiModel::AllMiniLmL6V2);
    assert_eq!(store.index_model, AiModel::AllMiniLmL12V2);
    assert!(store.store_original);
    assert!(h.take_write_flag());
    assert!(!h.write_flag());
}

#[test]
fn creating_a_store_with_an_unloaded_model_fails() {
    let mut h = handler();
    let res = h.create_store(name("s"), AiModel::ClipVitB32Text, AiModel::AllMiniLmL6V2, true, false);
    assert_eq!(res, Err(AIProxyError::AIModelNotInitialized));
    assert!(h.list_stores().is_empty());
}

#[test]
fn creating_a_store_with_models_of_different_sizes_fails() {
    let mut h = handler();
    let res = h.create_store(name("s"), AiModel::AllMiniLmL6V2, AiModel::BgeBaseEnV15, true, false);
    assert_eq!(
        res,
        Err(AIProxyError::DimensionsMismatchError { index_model_dim: 768, query_model_dim: 384 })
    );
}

#[test]
fn creating_an_existing_store_fails_only_when_asked() {
    let mut h = handler();
    h.create_store(name("s"), AiModel::AllMiniLmL6V2, AiModel::AllMiniLmL6V2, true, false)
        .unwrap();
    let res = h.create_store(name("s"), AiModel::AllMiniLmL6V2, AiModel::AllMiniLmL6V2, true, true);
    assert_eq!(res, Err(AIProxyError::StoreAlreadyExists("s".to_string())));
    h.create_store(name("s"), AiModel::AllMiniLmL6V2, AiModel::AllMiniLmL6V2, false, true)
        .unwrap();
    // The first creation stands.
    assert!(!h.store_original(name("s")).unwrap());
}

#[test]
fn dropping_and_purging_stores() {
    let mut h = handler();
    assert_eq!(h.drop_store(name("x"), false), Ok(0));
    assert_eq!(h.drop_store(name("x"), true), Err(AIProxyError::StoreNotFound("x".to_string())));
    h.create_store(name("a"), AiModel::Resnet50, AiModel::Resnet50, true, false).unwrap();
    h.create_store(name("b"), AiModel::Resnet50, AiModel::Resnet50, true, false).unwrap();
    assert_eq!(h.drop_store(name("a"), true), Ok(1));
    assert_eq!(h.get(&name("a")).unwrap_err(), AIProxyError::StoreNotFound("a".to_string()));
    assert_eq!(h.purge_stores(), 1);
    assert!(h.list_stores().is_empty());
}

#[test]
fn listing_reports_the_index_model_size() {
    let mut h = handler();
    h.create_store(name("img"), AiModel::Resnet50, AiModel::Resnet50, true, false).unwrap();
    let list = h.list_stores();
    assert_eq!(list.len(), 1);
    assert_eq!(list[0].name, "img");
    assert_eq!(list[0].embedding_size, 2048);
    assert!(list[0].predicate_indices.is_empty());
    assert!(list[0].db_info.is_none());
}

#[test]
fn a_snapshot_restores_the_stores() {
    let mut h = handler();
    h.create_store(name("a"), AiModel::AllMiniLmL6V2, AiModel::AllMiniLmL6V2, true, true).unwrap();
    h.create_store(name("b"), AiModel::Resnet50, AiModel::Resnet50, true, false).unwrap();
    let snap = h.get_snapshot();
    assert_eq!(snap.len(), 2);
    let mut other = handler();
    other.use_snapshot(snap);
    assert!(other.store_original(name("a")).unwrap());
    assert_eq!(other.get(&name("b")).unwrap().index_model, AiModel::Resnet50);
    assert_eq!(other.list_stores().len(), 2);
}

#[test]
fn preprocessing_records_the_original_and_lists_it_once() {
    let inputs = vec![
        (text("hello"), value_with(&[("k", "v")])),
        (text("hello"), StoreValue::new()),
        (text("world"), StoreValue::new()),
    ];
    let (out, delete) = preprocess_store_input(AiModel::AllMiniLmL6V2, inputs, true).unwrap();
    assert_eq!(out.len(), 3);
    assert_eq!(text_of(&out[0].1, "_ahnlich_input_key"), Some("hello".to_string()));
    assert_eq!(text_of(&out[0].1, "k"), Some("v".to_string()));
    assert_eq!(text_of(&out[2].1, "_ahnlich_input_key"), Some("world".to_string()));
    let delete = delete.unwrap();
    assert_eq!(delete.len(), 2);
}

#[test]
fn preprocessing_without_originals_leaves_the_metadata() {
    let inputs = vec![(text("hello"), value_with(&[("_ahnlich_input_key", "mine")]))];
    let (out, delete) = preprocess_store_input(AiModel::AllMiniLmL6V2, inputs, false).unwrap();
    assert!(delete.is_none());
    assert_eq!(text_of(&out[0].1, "_ahnlich_input_key"), Some("mine".to_string()));
}

#[test]
fn preprocessing_reports_the_first_bad_input() {
    let missing = vec![(text("ok"), StoreValue::new()), (StoreInput { value: None }, StoreValue::new())];
    assert_eq!(
        preprocess_store_input(AiModel::AllMiniLmL6V2, missing, true).unwrap_err(),
        AIProxyError::InputNotSpecified("Store Input Value".to_string())
    );
    let image = vec![(StoreInput { value: Some(StoreInputValue::Image(vec![1, 2])) }, StoreValue::new())];
    assert_eq!(
        preprocess_store_input(AiModel::AllMiniLmL6V2, image, true).unwrap_err(),
        AIProxyError::StoreTypeMismatchError {
            action: InputAction::Index,
            index_model_type: AiStoreInputType::RawString,
            storeinput_type: AiStoreInputType::Image,
        }
    );
    let reserved = vec![(text("x"), value_with(&[("_ahnlich_input_key", "y")]))];
    assert_eq!(
        preprocess_store_input(AiModel::AllMiniLmL6V2, reserved, true).unwrap_err(),
        AIProxyError::ReservedError("_ahnlich_input_key".to_string())
    );
}

#[test]
fn validation_needs_the_store() {
    let mut h = handler();
    let res = h.validate_and_prepare_store_data(&name("none"), vec![]);
    assert_eq!(res.unwrap_err(), AIProxyError::StoreNotFound("none".to_string()));
    h.create_store(name("s"), AiModel::AllMiniLmL6V2, AiModel::AllMiniLmL6V2, true, true).unwrap();
    let (out, delete) = h
        .validate_and_prepare_store_data(&name("s"), vec![(text("a"), StoreValue::new())])
        .unwrap();
    assert_eq!(out.len(), 1);
    // A store that keeps originals gets the inputs whose earlier entries the set replaces.
    let delete = delete.expect("a store keeping originals lists the replaced inputs");
    assert_eq!(delete.len(), 1);
    assert!(matches!(&delete[0].value, Some(MetadataKind::RawString(s)) if s == "a"));
    assert!(matches!(h.set_prepare(&name("s"), vec![]), Ok(None)));
    match h.set_prepare(&name("s"), vec![(text("a"), StoreValue::new())]) {
        Ok(Some((model, prepared, replaced))) => {
            assert_eq!(model, AiModel::AllMiniLmL6V2);
            assert_eq!(text_of(&prepared[0].1, "_ahnlich_input_key"), Some("a".to_string()));
            assert_eq!(replaced.map(|r| r.len()), Some(1));
        }
        other => panic!("unexpected {other:?}"),
    }
    // A store that keeps no originals replaces nothing.
    h.create_store(name("plain"), AiModel::AllMiniLmL6V2, AiModel::AllMiniLmL6V2, true, false).unwrap();
    let (_, delete) = h
        .validate_and_prepare_store_data(&name("plain"), vec![(text("a"), StoreValue::new())])
        .unwrap();
    assert!(delete.is_none());
}

#[test]
fn model_responses_become_database_entries() {
    let responses = vec![ModelResponse::OneToOne(1u32), ModelResponse::OneToMany(vec![2u32, 3u32]), ModelResponse::OneToMany(vec![])];
    let values = vec![value_with(&[("a", "1")]), value_with(&[("b", "2")]), value_with(&[("c", "3")])];
    let entries = set_entries(responses, values);
    assert_eq!(entries.len(), 3);
    assert_eq!(entries[0].key, Some(1));
    assert_eq!(entries[1].key, Some(2));
    assert_eq!(entries[2].key, Some(3));
    assert_eq!(text_of(entries[2].value.as_ref().unwrap(), "b"), Some("2".to_string()));
}

#[test]
fn a_query_needs_exactly_one_embedding() {
    assert_eq!(query_key_from_responses(vec![ModelResponse::OneToOne(7u8)]), Ok(7));
    assert_eq!(
        query_key_from_responses::<u8>(vec![]),
        Err(AIProxyError::ModelInputToEmbeddingError)
    );
    assert_eq!(
        query_key_from_responses(vec![ModelResponse::OneToMany(vec![1u8, 2])]),
        Err(AIProxyError::MultipleEmbeddingsForQuery(2))
    );
    assert_eq!(query_key_from_responses(vec![ModelResponse::OneToMany(vec![9u8])]), Ok(9));
    assert_eq!(
        query_key_from_responses::<u8>(vec![ModelResponse::OneToMany(vec![])]),
        Err(AIProxyError::ModelInputToEmbeddingError)
    );
}

#[test]
fn reading_entries_gives_back_the_original_input() {
    let h = handler();
    let entries = vec![
        DbStoreEntry { key: Some(1u8), value: Some(value_with(&[("_ahnlich_input_key", "orig"), ("m", "n")])) },
        DbStoreEntry { key: Some(2u8), value: None },
        DbStoreEntry { key: Some(3u8), value: Some(value_with(&[("m", "o")])) },
    ];
    let got = h.db_store_entry_to_store_get_key(entries);
    assert_eq!(got.len(), 2);
    match &got[0].key {
        Some(StoreInput { value: Some(StoreInputValue::RawString(s)) }) => assert_eq!(s, "orig"),
        other => panic!("unexpected {other:?}"),
    }
    let v0 = got[0].value.as_ref().unwrap();
    assert_eq!(text_of(v0, "_ahnlich_input_key"), None);
    assert_eq!(text_of(v0, "m"), Some("n".to_string()));
    assert!(got[1].key.is_none());

    let pairs = h.store_key_val_to_store_input_val(vec![(5u8, value_with(&[("_ahnlich_input_key", "x")]))]);
    assert!(matches!(&pairs[0].0, Some(StoreInput { value: Some(StoreInputValue::RawString(s)) }) if s == "x"));
    assert_eq!(pairs[0].1.value.len(), 0);
}

#[test]
fn what_is_stored_is_read_back_with_its_original() {
    let h = handler();
    let inputs = vec![(text("cat"), value_with(&[("colour", "black")]))];
    let (prepared, _) = preprocess_store_input(AiModel::AllMiniLmL6V2, inputs, true).unwrap();
    let (_, values): (Vec<StoreInput>, Vec<StoreValue>) = prepared.into_iter().unzip();
    let entries = set_entries(vec![ModelResponse::OneToOne(1u8)], values);
    let got = h.db_store_entry_to_store_get_key(entries);
    assert_eq!(got.len(), 1);
    assert!(matches!(&got[0].key, Some(StoreInput { value: Some(StoreInputValue::RawString(s)) }) if s == "cat"));
    let v = got[0].value.as_ref().unwrap();
    assert_eq!(text_of(v, "colour"), Some("black".to_string()));
    assert_eq!(v.value.len(), 1);
}

#[test]
fn recording_an_original_replaces_the_reserved_key() {
    let h = handler();
    let (input, value) = h
        .store_input_to_store_key_val(text("x"), value_with(&[("_ahnlich_input_key", "old")]))
        .unwrap();
    assert!(matches!(input.value, Some(StoreInputValue::RawString(ref s)) if s == "x"));
    assert_eq!(text_of(&value, "_ahnlich_input_key"), Some("x".to_string()));
    assert_eq!(
        h.store_input_to_store_key_val(StoreInput { value: None }, StoreValue::new()).unwrap_err(),
        AIProxyError::InputNotSpecified("Store Input Value".to_string())
    );
}
