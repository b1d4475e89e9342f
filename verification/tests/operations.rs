use ahnlich_ai_proxy::errors::AIProxyError;
use ahnlich_ai_proxy::images::{checked_image_dimensions, image_dimensions};
use ahnlich_ai_proxy::keyed::StrMap;
use ahnlich_ai_proxy::keyval::{
    MetadataKind, MetadataValue, StoreInput, StoreInputValue, StoreName, StoreValue,
};
use ahnlich_ai_proxy::models::{AiModel, SupportedModels};
use ahnlich_ai_proxy::operations::{
    create_store_db_params, del_key_condition, extract_and_inject_image_dimensions, get_key_condition,
    interpret_set_replies, list_stores_merged, required_value, set_begin, set_inputs, sim_n_entries,
    without_reserved_predicates, DbReply, DbSimEntry, SetInput,
};
use ahnlich_ai_proxy::replication::CreateStore;
use ahnlich_ai_proxy::store::{AIStoreHandler, DbStoreInfo};

fn name(s: &str) -> StoreName {
    StoreName { value: s.to_string() }
}

fn text(s: &str) -> StoreInput {
    StoreInput { value: Some(StoreInputValue::RawString(s.to_string())) }
}

fn png(width: u32, height: u32) -> Vec<u8> {
    let img = image::RgbImage::new(width, height);
    let mut bytes = std::io::Cursor::new(Vec::new());
    img.write_to(&mut bytes, image::ImageFormat::Png).unwrap();
    bytes.into_inner()
}

fn handler() -> AIStoreHandler {
    AIStoreHandler::new(false, vec![SupportedModels::AllMiniLML6V2, SupportedModels::Resnet50])
}

#[test]
fn store_creation_asks_the_database_for_the_reserved_predicate() {
    let params = CreateStore {
        store: "s".to_string(),
        query_model: AiModel::Resnet50,
        index_model: AiModel::Resnet50,
        predicates: vec!["a".to_string()],
        non_linear_indices: vec![1],
        error_if_exists: true,
        store_original: true,
    };
    let db = create_store_db_params(&params);
    assert_eq!(db.store, "s");
    assert_eq!(db.dimension, 2048);
    assert_eq!(db.create_predicates, vec!["a".to_string(), "_ahnlich_input_key".to_string()]);
    assert_eq!(db.non_linear_indices, vec![1]);
    assert!(db.error_if_exists);
    let plain = CreateStore { store_original: false, ..params };
    assert_eq!(create_store_db_params(&plain).create_predicates, vec!["a".to_string()]);
    assert_eq!(required_value(Some(3u8), "Index model"), Ok(3));
    assert_eq!(
        required_value::<u8>(None, "Index model"),
        Err(AIProxyError::InputNotSpecified("Index model".to_string()))
    );
}

#[test]
fn the_reserved_predicate_is_never_dropped() {
    let preds = vec!["x".to_string(), "_ahnlich_input_key".to_string(), "y".to_string()];
    assert_eq!(without_reserved_predicates(&preds), vec!["x".to_string(), "y".to_string()]);
}

#[test]
fn deleting_by_key_needs_a_store_that_keeps_originals() {
    let mut h = handler();
    let keys = vec![text("a")];
    assert_eq!(
        del_key_condition(&h, &"s".to_string(), &keys).unwrap_err(),
        AIProxyError::StoreNotFound("s".to_string())
    );
    h.create_store(name("s"), AiModel::AllMiniLmL6V2, AiModel::AllMiniLmL6V2, true, false).unwrap();
    assert_eq!(del_key_condition(&h, &"s".to_string(), &keys).unwrap_err(), AIProxyError::DelKeyError);
    h.create_store(name("t"), AiModel::AllMiniLmL6V2, AiModel::AllMiniLmL6V2, true, true).unwrap();
    let c = del_key_condition(&h, &"t".to_string(), &keys).unwrap();
    assert_eq!(c.key, "_ahnlich_input_key");
    assert!(matches!(&c.values[0].value, Some(MetadataKind::RawString(s)) if s == "a"));
    let bad = vec![text("a"), StoreInput { value: None }];
    assert_eq!(
        del_key_condition(&h, &"t".to_string(), &bad).unwrap_err(),
        AIProxyError::InputNotSpecified("Store Input Value".to_string())
    );
}

#[test]
fn set_replies_are_a_set_or_a_delete_then_a_set() {
    assert_eq!(interpret_set_replies(&vec![DbReply::Upsert(4u8)], String::new()), Ok(4));
    assert_eq!(interpret_set_replies(&vec![DbReply::Deleted, DbReply::Upsert(5u8)], String::new()), Ok(5));
    assert_eq!(
        interpret_set_replies::<u8>(&vec![DbReply::Deleted], "[Del]".to_string()),
        Err(AIProxyError::UnexpectedDBResponse("[Del]".to_string()))
    );
    assert_eq!(
        interpret_set_replies(&vec![DbReply::Upsert(1u8), DbReply::Upsert(2u8)], "two".to_string()),
        Err(AIProxyError::UnexpectedDBResponse("two".to_string()))
    );
}

#[test]
fn set_inputs_without_a_key_are_left_out() {
    let mut v = StoreValue::new();
    v.insert("k".to_string(), MetadataValue { value: None });
    let pairs = set_inputs(vec![
        SetInput { key: Some(text("a")), value: None },
        SetInput { key: None, value: Some(StoreValue::new()) },
        SetInput { key: Some(text("b")), value: Some(v) },
    ]);
    assert_eq!(pairs.len(), 2);
    assert_eq!(pairs[0].1.value.len(), 0);
    assert!(pairs[1].1.contains_key("k"));
}

#[test]
fn the_size_of_each_image_is_recorded() {
    let inputs = vec![
        StoreInput { value: Some(StoreInputValue::Image(png(3, 2))) },
        text("not an image"),
        StoreInput { value: Some(StoreInputValue::Image(vec![1, 2, 3])) },
        StoreInput { value: Some(StoreInputValue::Image(png(5, 7))) },
    ];
    let mut params: StrMap<String> = StrMap::new();
    params.insert("attributes".to_string(), "genderage".to_string());
    extract_and_inject_image_dimensions(&inputs, &mut params);
    assert_eq!(params.len(), 5);
    assert_eq!(params.get("orig_width_0"), Some(&"3".to_string()));
    assert_eq!(params.get("orig_height_0"), Some(&"2".to_string()));
    assert_eq!(params.get("orig_width_3"), Some(&"5".to_string()));
    assert_eq!(params.get("orig_height_3"), Some(&"7".to_string()));
    assert_eq!(params.get("orig_width_2"), None);
}

#[test]
fn image_bytes_decode_to_their_size() {
    assert_eq!(image_dimensions(&png(4, 9)), Ok((4, 9)));
    assert_eq!(image_dimensions(&vec![0, 1, 2]), Err(AIProxyError::ImageBytesDecodeError));
    assert_eq!(
        checked_image_dimensions(Some((0, 3))),
        Err(AIProxyError::ImageNonzeroDimensionError { width: 0, height: 3 })
    );
    assert_eq!(checked_image_dimensions(None), Err(AIProxyError::ImageBytesDecodeError));
}

#[test]
fn listing_is_sorted_and_merged_with_the_database() {
    let mut h = handler();
    for n in ["zeta", "alpha", "mid"] {
        h.create_store(name(n), AiModel::AllMiniLmL6V2, AiModel::AllMiniLmL6V2, true, true).unwrap();
    }
    let plain = list_stores_merged(&h, None);
    let names: Vec<&str> = plain.iter().map(|s| s.name.as_str()).collect();
    assert_eq!(names, vec!["alpha", "mid", "zeta"]);
    assert!(plain.iter().all(|s| s.db_info.is_none() && s.predicate_indices.is_empty()));

    let db = vec![
        DbStoreInfo {
            name: "mid".to_string(),
            predicate_indices: vec!["old".to_string()],
        },
        DbStoreInfo {
            name: "mid".to_string(),
            predicate_indices: vec![
                "_ahnlich_input_key".to_string(),
                "p".to_string(),
                "_ahnlich_one_to_many_index".to_string(),
            ],
        },
        DbStoreInfo { name: "other".to_string(), predicate_indices: vec!["q".to_string()] },
    ];
    let merged = list_stores_merged(&h, Some(db));
    assert_eq!(merged.len(), 3);
    assert_eq!(merged[1].name, "mid");
    assert_eq!(merged[1].predicate_indices, vec!["p".to_string()]);
    assert_eq!(merged[1].db_info.as_ref().unwrap().predicate_indices.len(), 3);
    assert!(merged[0].db_info.is_none());
    assert_eq!(merged[2].embedding_size, 384);
}

#[test]
fn search_results_give_back_originals_and_similarities() {
    let h = handler();
    let mut with_orig = StoreValue::new();
    with_orig.insert(
        "_ahnlich_input_key".to_string(),
        MetadataValue { value: Some(MetadataKind::RawString("dog".to_string())) },
    );
    let entries = vec![
        DbSimEntry { key: Some(1u8), value: Some(with_orig), similarity: Some(0.5f32) },
        DbSimEntry { key: None, value: Some(StoreValue::new()), similarity: Some(0.9f32) },
        DbSimEntry { key: Some(2u8), value: Some(StoreValue::new()), similarity: Some(0.1f32) },
    ];
    let out = sim_n_entries(&h, entries);
    assert_eq!(out.len(), 2);
    assert_eq!(out[0].similarity, Some(0.5));
    assert!(matches!(&out[0].key, Some(StoreInput { value: Some(StoreInputValue::RawString(s)) }) if s == "dog"));
    assert_eq!(out[0].value.as_ref().unwrap().value.len(), 0);
    assert!(out[1].key.is_none());
    assert_eq!(out[1].similarity, Some(0.1));
}

#[test]
fn a_set_begins_by_checking_and_preparing_its_inputs() {
    let mut h = handler();
    let params: StrMap<String> = StrMap::new();
    let inputs = vec![SetInput { key: Some(text("a")), value: None }];
    assert_eq!(
        set_begin(&h, &name("s"), inputs, params).unwrap_err(),
        AIProxyError::StoreNotFound("s".to_string())
    );
    h.create_store(name("s"), AiModel::AllMiniLmL6V2, AiModel::AllMiniLmL6V2, true, true).unwrap();
    assert!(matches!(set_begin(&h, &name("s"), vec![SetInput { key: None, value: None }], StrMap::new()), Ok(None)));
    let plan = set_begin(
        &h,
        &name("s"),
        vec![SetInput { key: Some(text("a")), value: None }, SetInput { key: Some(text("b")), value: None }],
        StrMap::new(),
    )
    .unwrap()
    .unwrap();
    assert_eq!(plan.index_model, AiModel::AllMiniLmL6V2);
    assert_eq!(plan.inputs.len(), 2);
    assert!(plan.values[1].contains_key("_ahnlich_input_key"));
    assert_eq!(plan.model_params.len(), 0);
    assert_eq!(plan.replaced.as_ref().map(|r| r.len()), Some(2));

    h.create_store(name("img"), AiModel::Resnet50, AiModel::Resnet50, true, false).unwrap();
    let plan = set_begin(
        &h,
        &name("img"),
        vec![SetInput { key: Some(StoreInput { value: Some(StoreInputValue::Image(png(6, 4))) }), value: None }],
        StrMap::new(),
    )
    .unwrap()
    .unwrap();
    assert_eq!(plan.model_params.get("orig_width_0"), Some(&"6".to_string()));
    assert!(!plan.values[0].contains_key("_ahnlich_input_key"));
    assert!(plan.replaced.is_none());
    let wrong = set_begin(&h, &name("img"), vec![SetInput { key: Some(text("t")), value: None }], StrMap::new());
    assert!(matches!(wrong, Err(AIProxyError::StoreTypeMismatchError { .. })));
}

#[test]
fn lookups_by_key_skip_empty_keys() {
    let c = get_key_condition(&vec![text("a"), StoreInput { value: None }, text("b")]);
    assert_eq!(c.key, "_ahnlich_input_key");
    assert_eq!(c.values.len(), 2);
    assert!(matches!(&c.values[1].value, Some(MetadataKind::RawString(s)) if s == "b"));
}
