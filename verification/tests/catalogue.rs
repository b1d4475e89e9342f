use ahnlich_ai_proxy::config::{AIProxyConfig, CommonConfig, ModelConfig};
use ahnlich_ai_proxy::inference::{
    batch_ranges, check_modality, check_text_model, image_input_name, join_path, ort_full_cache_path,
    pooled_text_normalized, image_embeddings_normalized, register_provider, token_matrix,
    AIExecutionProvider, InnerAIExecutionProvider, InputKind, ModelConfig as OrtModelConfig,
    ORTModality, ProviderRegistry,
};
use ahnlich_ai_proxy::errors::AIProxyError;
use ahnlich_ai_proxy::models::{AiModel, AiStoreInputType, InputAction, ModelType, SupportedModelArgs, SupportedModels};
use ahnlich_ai_proxy::text::{concat_str, decimal_string};

#[test]
fn the_supported_models_are_listed_by_name() {
    let args = SupportedModelArgs { names: vec![] };
    assert_eq!(
        args.list_supported_models(),
        "all-MiniLM-L6-v2, all-MiniLM-L12-v2, BGEBase-En-v1.5, BGELarge-En-v1.5, Resnet-50, ClipVit-B32-Image, ClipVit-B32-Text, "
    );
}

#[test]
fn model_details_follow_the_catalogue() {
    let d = SupportedModels::BGELargeEnV15.to_model_details();
    assert_eq!(d.embedding_size, 1024);
    assert_eq!(d.max_input_token(), Some(512));
    assert_eq!(d.expected_image_dimensions(), None);
    assert_eq!(d.input_type(), AiStoreInputType::RawString);
    assert_eq!(d.model_name(), "BGELarge-En-v1.5");
    let r = SupportedModels::Resnet50.to_model_details();
    assert_eq!(r.model_type, ModelType::Image { expected_image_dimensions: (224, 224) });
    assert_eq!(r.max_input_token(), None);
    assert_eq!(r.expected_image_dimensions(), Some((224, 224)));
    assert_eq!(r.input_type(), AiStoreInputType::Image);
    assert_eq!(SupportedModels::ClipVitB32Text.to_model_details().max_input_token(), Some(77));
    let args = SupportedModelArgs { names: vec![SupportedModels::Resnet50, SupportedModels::AllMiniLML6V2] };
    let details = args.requested_model_details();
    assert_eq!(details.len(), 2);
    assert_eq!(details[1].embedding_size, 384);
}

#[test]
fn wire_models_convert_both_ways() {
    for m in SupportedModels::variants() {
        assert_eq!(SupportedModels::from_ai_model(&m.to_ai_model()), m);
    }
    assert_eq!(SupportedModels::from_ai_model(&AiModel::ClipVitB32Image), SupportedModels::ClipVitB32Image);
    let names: Vec<String> = SupportedModels::variants().iter().map(|m| m.display_string()).collect();
    let mut unique = names.clone();
    unique.sort();
    unique.dedup();
    assert_eq!(unique.len(), names.len());
    assert_eq!(InputAction::Index.display_string(), "index");
    assert_eq!(AiStoreInputType::Image.display_string(), "Image");
}

#[test]
fn batches_split_the_items_in_order() {
    assert_eq!(batch_ranges(0, 4), vec![]);
    assert_eq!(batch_ranges(10, 4), vec![(0, 4), (4, 8), (8, 10)]);
    assert_eq!(batch_ranges(8, 4), vec![(0, 4), (4, 8)]);
    assert_eq!(batch_ranges(3, 16), vec![(0, 3)]);
    // Each item lies in exactly one batch.
    let ranges = batch_ranges(37, 5);
    for i in 0..37usize {
        assert_eq!(ranges.iter().filter(|(a, b)| *a <= i && i < *b).count(), 1);
    }
}

#[test]
fn a_model_runs_on_its_own_kind_of_input() {
    assert!(check_modality(ORTModality::Text, InputKind::Texts).is_ok());
    assert_eq!(
        check_modality(ORTModality::Image, InputKind::Texts),
        Err(AIProxyError::AIModelNotSupported { model_name: "Image model".to_string() })
    );
    assert_eq!(
        check_modality(ORTModality::Audio, InputKind::Images),
        Err(AIProxyError::AIModelNotSupported { model_name: "Audio model".to_string() })
    );
}

#[test]
fn model_weights_come_from_their_repositories() {
    let c = OrtModelConfig::from_supported_model(&SupportedModels::AllMiniLML12V2);
    assert_eq!(c.repo_name, "Xenova/all-MiniLM-L12-v2");
    assert_eq!(c.weights_file, "onnx/model.onnx");
    assert_eq!(c.batch_size, 128);
    assert_eq!(c.modality, ORTModality::Text);
    let r = OrtModelConfig::from_supported_model(&SupportedModels::Resnet50);
    assert_eq!(r.repo_name, "Qdrant/resnet50-onnx");
    assert_eq!(r.batch_size, 16);
    assert_eq!(r.modality, ORTModality::Image);
}

#[test]
fn cache_paths_join_like_path_buf() {
    assert_eq!(ort_full_cache_path("/tmp/models"), "/tmp/models/huggingface");
    assert_eq!(ort_full_cache_path("/tmp/models/"), "/tmp/models/huggingface");
    assert_eq!(ort_full_cache_path(""), "huggingface");
    assert_eq!(join_path("a", "b"), "a/b");
}

#[test]
fn only_accelerators_are_registered() {
    let mut reg = ProviderRegistry { registered: vec![] };
    register_provider(InnerAIExecutionProvider::CPU, &mut reg, Ok(())).unwrap();
    assert!(reg.registered.is_empty());
    register_provider(InnerAIExecutionProvider::CPU, &mut reg, Err("ignored".to_string())).unwrap();
    assert!(reg.registered.is_empty());
    register_provider(InnerAIExecutionProvider::CUDA, &mut reg, Ok(())).unwrap();
    register_provider(InnerAIExecutionProvider::CoreML, &mut reg, Ok(())).unwrap();
    assert_eq!(reg.registered, vec![InnerAIExecutionProvider::CUDA, InnerAIExecutionProvider::CoreML]);
    assert_eq!(InnerAIExecutionProvider::for_request(None), InnerAIExecutionProvider::CPU);
    assert_eq!(
        InnerAIExecutionProvider::for_request(Some(AIExecutionProvider::TensorRt)),
        InnerAIExecutionProvider::TensorRT
    );
}

#[test]
fn graph_inputs_and_normalization_per_model() {
    assert_eq!(image_input_name(SupportedModels::Resnet50).unwrap(), "input");
    assert_eq!(image_input_name(SupportedModels::ClipVitB32Image).unwrap(), "pixel_values");
    assert_eq!(
        image_input_name(SupportedModels::AllMiniLML6V2),
        Err(AIProxyError::AIModelNotSupported { model_name: "all-MiniLM-L6-v2".to_string() })
    );
    assert!(image_embeddings_normalized(SupportedModels::Resnet50));
    assert!(!image_embeddings_normalized(SupportedModels::ClipVitB32Image));
    assert!(pooled_text_normalized(SupportedModels::BGEBaseEnV15));
    assert!(!pooled_text_normalized(SupportedModels::ClipVitB32Text));
}

#[test]
fn token_rows_form_a_matrix_only_when_aligned() {
    assert_eq!(token_matrix(&vec![vec![1, 2], vec![3, 4]]), Some(vec![1i64, 2, 3, 4]));
    assert_eq!(token_matrix(&vec![vec![1, 2], vec![3]]), None);
    assert_eq!(token_matrix(&vec![vec![u32::MAX]]), Some(vec![u32::MAX as i64]));
}

#[test]
fn decimal_numerals() {
    assert_eq!(decimal_string(0), "0");
    assert_eq!(decimal_string(7), "7");
    assert_eq!(decimal_string(10), "10");
    assert_eq!(decimal_string(4032), "4032");
    assert_eq!(decimal_string(usize::MAX), usize::MAX.to_string());
    assert_eq!(concat_str("ab", "cd"), "abcd");
}

fn common() -> CommonConfig {
    CommonConfig {
        persist_location: None,
        enable_persistence: false,
        persistence_interval: 300,
        maximum_clients: 1000,
    }
}

#[test]
fn configuration_defaults_and_builders() {
    let c = AIProxyConfig::default_in("/home/u", common());
    assert_eq!(c.port, 1370);
    assert_eq!(c.db_host, "127.0.0.1");
    assert_eq!(c.db_port, 1369);
    assert_eq!(c.db_client_pool_size, 10);
    assert_eq!(c.supported_models.len(), 7);
    assert_eq!(c.supported_models[4], SupportedModels::ClipVitB32Text);
    assert_eq!(c.model_cache_location, "/home/u/.ahnlich/models");
    assert_eq!(c.ai_model_idle_time, 300);
    let c = c
        .os_select_port()
        .set_persist_location("/tmp/p".to_string())
        .set_persistence_interval(60)
        .set_maximum_clients(3)
        .set_model_cache_location("/m".to_string())
        .set_supported_models(vec![SupportedModels::Resnet50]);
    assert_eq!(c.port, 0);
    assert_eq!(c.common.persist_location.as_deref(), Some("/tmp/p"));
    assert!(c.common.enable_persistence);
    assert_eq!(c.common.persistence_interval, 60);
    assert_eq!(c.common.maximum_clients, 3);
    let m = ModelConfig::from_config(&c);
    assert_eq!(m.model_cache_location, "/m");
    assert_eq!(m.supported_models, vec![SupportedModels::Resnet50]);
    assert_eq!(m.model_idle_time, 300);
    let d = ModelConfig::default_in("/root/");
    assert_eq!(d.model_cache_location, "/root/.ahnlich/models");
    assert_eq!(d.supported_models, vec![SupportedModels::AllMiniLML6V2]);
    if let Some(d) = ModelConfig::try_default() {
        assert!(d.model_cache_location.ends_with(".ahnlich/models"));
    }
}

#[test]
fn a_refused_registration_is_an_ort_error() {
    let mut reg = ProviderRegistry { registered: vec![InnerAIExecutionProvider::CUDA] };
    let res = register_provider(
        InnerAIExecutionProvider::TensorRT,
        &mut reg,
        Err("no TensorRT here".to_string()),
    );
    assert_eq!(res, Err(AIProxyError::ORTError("no TensorRT here".to_string())));
    assert_eq!(reg.registered, vec![InnerAIExecutionProvider::CUDA]);
}

#[test]
fn errors_read_as_the_proxy_words_them() {
    assert_eq!(AIProxyError::StoreNotFound("main".to_string()).message(), "Store main not found");
    assert_eq!(
        AIProxyError::StoreAlreadyExists("main".to_string()).message(),
        "Store main already exists"
    );
    assert_eq!(
        AIProxyError::StoreTypeMismatchError {
            action: InputAction::Index,
            index_model_type: AiStoreInputType::RawString,
            storeinput_type: AiStoreInputType::Image,
        }
        .message(),
        "Cannot index Input. Store expects [RawString], input type [Image] was provided"
    );
    assert_eq!(
        AIProxyError::TokenExceededError { max_token_size: 256, input_token_size: 300 }.message(),
        "Max Token Exceeded. Model Expects [256], input type was [300]."
    );
    assert_eq!(
        AIProxyError::ImageDimensionsMismatchError {
            image_dimensions: (100, 50),
            expected_dimensions: (224, 224),
        }
        .message(),
        "Image Dimensions [(100, 50)] does not match the expected model dimensions [(224, 224)]"
    );
    assert_eq!(
        AIProxyError::DimensionsMismatchError { index_model_dim: 384, query_model_dim: 512 }.message(),
        "Dimensions Mismatch between index [384], and Query [512] Models."
    );
    assert_eq!(
        AIProxyError::ImageNonzeroDimensionError { width: 0, height: 7 }.message(),
        "Image can't have zero value in any dimension. Found height: 7, width: 0"
    );
    assert_eq!(AIProxyError::StandardError("boom".to_string()).message(), "Proxy Errored with boom ");
    assert_eq!(
        AIProxyError::DelKeyError.message(),
        "Cannot call DelKey on store with `store_original` as false"
    );
    assert_eq!(AIProxyError::ORTError("x".to_string()).message(), "ORT Error x");
}

#[test]
fn text_inference_needs_a_text_model() {
    assert!(check_text_model(ORTModality::Text, SupportedModels::AllMiniLML6V2).is_ok());
    assert_eq!(
        check_text_model(ORTModality::Image, SupportedModels::Resnet50),
        Err(AIProxyError::AIModelNotSupported { model_name: "Resnet-50".to_string() })
    );
}
