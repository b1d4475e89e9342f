use ahnlich_ai_proxy::errors::AIProxyError;
use ahnlich_ai_proxy::json::{config_from_parse, read_config, JsonValue};
use ahnlich_ai_proxy::keyval::{MetadataKind, MetadataValue, StoreInput, StoreInputValue, StoreValue};
use ahnlich_ai_proxy::manager::{
    check_image_shape, check_token_count, ensure_supported, expected_image_size, image_chunks,
    max_token_size, prepare_inputs, PreparedInput,
};
use ahnlich_ai_proxy::models::{AiModel, SupportedModels};
use ahnlich_ai_proxy::pool::{process_store_inputs, StoreValidatorThreadPool, WorkerName};
use ahnlich_ai_proxy::processors::{
    Array3, CenterCrop, CropAction, ImageArrayToNdArray, ORTImagePostprocessor, ORTTextPostprocessor,
    OnnxOutputTransform, OutputRank, Pooling, PostprocessorData, RegularPooling, Resize, ResizePlan,
    SpecialToken, TokenizerFiles, tokenizer_settings, ImageNormalize, Rescale, ORTImagePreprocessor,
};

fn obj(members: Vec<(&str, JsonValue)>) -> JsonValue {
    JsonValue::Object(members.into_iter().map(|(k, v)| (k.to_string(), v)).collect())
}

fn num(n: u64) -> JsonValue {
    JsonValue::Number(Some(n))
}

fn text(s: &str) -> JsonValue {
    JsonValue::Str(s.to_string())
}

fn config_message(e: AIProxyError) -> String {
    match e {
        AIProxyError::ModelConfigLoadError { message } => message,
        other => panic!("unexpected {other:?}"),
    }
}

#[test]
fn center_crop_configuration() {
    let off = CenterCrop::try_from(&obj(vec![])).unwrap();
    assert!(!off.process);
    assert_eq!(off.crop_size, (0, 0));

    let square = CenterCrop::try_from(&obj(vec![("do_center_crop", JsonValue::Bool(true)), ("crop_size", num(224))])).unwrap();
    assert_eq!(square.crop_size, (224, 224));
    assert!(square.process);

    let rect = CenterCrop::try_from(&obj(vec![
        ("do_center_crop", JsonValue::Bool(true)),
        ("crop_size", obj(vec![("height", num(100)), ("width", num(200))])),
    ]))
    .unwrap();
    assert_eq!(rect.crop_size, (200, 100));

    let missing = CenterCrop::try_from(&obj(vec![("do_center_crop", JsonValue::Bool(true))])).unwrap_err();
    assert_eq!(
        config_message(missing),
        "The key 'crop_size' is missing from the configuration or has the wrong type; it should be an integer or an object containing 'height' and 'width' mappings."
    );
    let no_height = CenterCrop::try_from(&obj(vec![
        ("do_center_crop", JsonValue::Bool(true)),
        ("crop_size", obj(vec![("width", num(200))])),
    ]))
    .unwrap_err();
    assert!(config_message(no_height).starts_with("The key 'height' is missing"));

    let convnext = CenterCrop::try_from(&obj(vec![
        ("do_center_crop", JsonValue::Bool(true)),
        ("image_processor_type", text("ConvNextFeatureExtractor")),
        ("size", obj(vec![("shortest_edge", num(224))])),
    ]))
    .unwrap();
    assert_eq!(convnext.crop_size, (224, 224));
    assert!(convnext.process);
    let big = CenterCrop::try_from(&obj(vec![
        ("do_center_crop", JsonValue::Bool(true)),
        ("image_processor_type", text("ConvNextFeatureExtractor")),
        ("size", obj(vec![("shortest_edge", num(384))])),
    ]))
    .unwrap();
    assert!(!big.process);

    let other = CenterCrop::try_from(&obj(vec![
        ("do_center_crop", JsonValue::Bool(true)),
        ("image_processor_type", text("Other")),
    ]))
    .unwrap_err();
    assert_eq!(
        config_message(other),
        "The key 'image_processor_type' in the configuration has the wrong value: Other; it should be either 'CLIPImageProcessor' or 'ConvNextFeatureExtractor'."
    );
}

#[test]
fn center_crop_cuts_the_middle_or_resizes() {
    let crop = CenterCrop { crop_size: (224, 224), process: true };
    assert_eq!(crop.crop_action(224, 224), CropAction::Keep);
    assert_eq!(crop.crop_action(300, 250), CropAction::Crop { x: 38, y: 13, width: 224, height: 224 });
    assert_eq!(crop.crop_action(100, 100), CropAction::Resize { width: 224, height: 224 });
    let off = CenterCrop { crop_size: (224, 224), process: false };
    assert_eq!(off.crop_action(10, 10), CropAction::Keep);
}

#[test]
fn resize_configuration() {
    assert_eq!(Resize::initialize(&obj(vec![])), Ok(None));
    let yes = JsonValue::Bool(true);
    assert_eq!(
        Resize::initialize(&obj(vec![("do_resize", JsonValue::Bool(true)), ("size", obj(vec![("shortest_edge", num(224))]))])),
        Ok(Some(ResizePlan::Exact { width: 224, height: 224 }))
    );
    assert_eq!(
        Resize::initialize(&obj(vec![("do_resize", yes), ("size", obj(vec![("width", num(30)), ("height", num(20))]))])),
        Ok(Some(ResizePlan::Exact { width: 30, height: 20 }))
    );
    assert_eq!(
        Resize::initialize(&obj(vec![
            ("do_resize", JsonValue::Bool(true)),
            ("image_processor_type", text("ConvNextFeatureExtractor")),
            ("size", obj(vec![("shortest_edge", num(224))])),
        ])),
        Ok(Some(ResizePlan::ConvNextUpsample { edge: 224 }))
    );
    let no_size = Resize::initialize(&obj(vec![("do_resize", JsonValue::Bool(true))])).unwrap_err();
    assert!(config_message(no_size).starts_with("The key 'size' is missing"));
    let width_only_convnext = Resize::initialize(&obj(vec![
        ("do_resize", JsonValue::Bool(true)),
        ("image_processor_type", text("ConvNextFeatureExtractor")),
        ("size", obj(vec![("width", num(30)), ("height", num(20))])),
    ]))
    .unwrap_err();
    assert!(config_message(width_only_convnext).starts_with("The ['size'] section"));
    let unknown = Resize::initialize(&obj(vec![
        ("do_resize", JsonValue::Bool(true)),
        ("image_processor_type", text("Weird")),
        ("size", obj(vec![("shortest_edge", num(5))])),
    ]))
    .unwrap_err();
    assert_eq!(config_message(unknown), "Resize init failed. image_processor_type Weird not supported");
}

#[test]
fn output_selection_and_pooling() {
    let t = OnnxOutputTransform::new("last_hidden_state");
    assert_eq!(t.output_rank(true, true, 2), Ok(OutputRank::Two));
    assert_eq!(t.output_rank(true, true, 3), Ok(OutputRank::Three));
    assert_eq!(
        t.output_rank(false, true, 3),
        Err(AIProxyError::OnnxOutputTransformError {
            message: "Output key 'last_hidden_state' not found in the OnnxOutput.".to_string()
        })
    );
    assert_eq!(
        t.output_rank(true, true, 4),
        Err(AIProxyError::OnnxOutputTransformError { message: "Only 2D and 3D tensors are supported.".to_string() })
    );
    assert!(t.output_rank(true, false, 2).is_err());

    // Two sequences of three tokens of width two: keep each first token.
    let a = Array3 { d0: 2, d1: 3, d2: 2, data: (0..12).collect::<Vec<u32>>() };
    match RegularPooling.process(PostprocessorData::NdArray3(a)).unwrap() {
        PostprocessorData::NdArray2(m) => {
            assert_eq!((m.rows, m.cols), (2, 2));
            assert_eq!(m.data, vec![0, 1, 6, 7]);
        }
        _ => panic!("expected a matrix"),
    }
    assert!(matches!(
        RegularPooling.process::<u32>(PostprocessorData::OnnxOutput),
        Err(AIProxyError::PoolingError { .. })
    ));
}

#[test]
fn postprocessors_per_model() {
    let img = ORTImagePostprocessor::load(SupportedModels::Resnet50).unwrap();
    assert_eq!(img.onnx_output_transform.output_key, "output");
    assert!(img.normalize.is_some());
    let clip = ORTImagePostprocessor::load(SupportedModels::ClipVitB32Image).unwrap();
    assert_eq!(clip.onnx_output_transform.output_key, "image_embeds");
    assert!(clip.normalize.is_none());
    assert_eq!(
        ORTImagePostprocessor::load(SupportedModels::AllMiniLML6V2).unwrap_err(),
        AIProxyError::ModelPostprocessingError {
            model_name: "all-MiniLM-L6-v2".to_string(),
            message: "Unsupported model for ORTImagePostprocessor".to_string()
        }
    );
    let bge = ORTTextPostprocessor::load(SupportedModels::BGEBaseEnV15).unwrap();
    assert!(matches!(bge.pooling, Pooling::Regular(_)));
    assert!(bge.normalize.is_some());
    let clip_text = ORTTextPostprocessor::load(SupportedModels::ClipVitB32Text).unwrap();
    assert_eq!(clip_text.onnx_output_transform.output_key, "text_embeds");
    assert!(matches!(clip_text.pooling, Pooling::Mean(_)));
    assert!(ORTTextPostprocessor::load(SupportedModels::Resnet50).is_err());
    let files = TokenizerFiles::standard();
    assert_eq!(files.special_tokens_map_file, "special_tokens_map.json");
}

#[test]
fn images_stack_only_when_alike() {
    assert!(ImageArrayToNdArray.check_dimensions(&vec![(224, 224), (224, 224)]).is_ok());
    assert_eq!(
        ImageArrayToNdArray.check_dimensions(&vec![(224, 224), (100, 50)]),
        Err(AIProxyError::ImageArrayToNdArrayError {
            message: "Images must have same dimensions, instead found: [(224, 224), (100, 50)].".to_string()
        })
    );
    assert!(ImageArrayToNdArray.check_dimensions(&vec![]).is_err());
}

#[test]
fn model_thread_checks() {
    let supported = vec![SupportedModels::AllMiniLML6V2];
    assert_eq!(ensure_supported(&supported, AiModel::AllMiniLmL6V2), Ok(SupportedModels::AllMiniLML6V2));
    assert_eq!(ensure_supported(&supported, AiModel::Resnet50), Err(AIProxyError::AIModelNotInitialized));

    let model_name = "all-MiniLM-L6-v2".to_string();
    assert!(matches!(
        prepare_inputs(&model_name, &vec![]),
        Err(AIProxyError::ModelPreprocessingError { message, .. }) if message == "Input is empty"
    ));
    assert_eq!(
        prepare_inputs(&model_name, &vec![StoreInput { value: None }]).unwrap_err(),
        AIProxyError::InputNotSpecified("Store input value".to_string())
    );
    let mixed = vec![
        StoreInput { value: Some(StoreInputValue::RawString("a".to_string())) },
        StoreInput { value: Some(StoreInputValue::Image(vec![1])) },
        StoreInput { value: Some(StoreInputValue::RawString("b".to_string())) },
    ];
    match prepare_inputs(&model_name, &mixed).unwrap() {
        PreparedInput::Texts(t) => assert_eq!(t, vec!["a".to_string(), "b".to_string()]),
        other => panic!("unexpected {other:?}"),
    }

    let text_details = SupportedModels::AllMiniLML6V2.to_model_details();
    let image_details = SupportedModels::Resnet50.to_model_details();
    assert_eq!(max_token_size(&text_details), Ok(256));
    assert!(max_token_size(&image_details).is_err());
    assert_eq!(check_token_count(&model_name, 256, Some(256)), Ok(()));
    assert_eq!(
        check_token_count(&model_name, 256, Some(300)),
        Err(AIProxyError::TokenExceededError { max_token_size: 256, input_token_size: 300 })
    );
    assert!(check_token_count(&model_name, 256, None).is_err());
    assert_eq!(expected_image_size(&image_details), Ok((224, 224)));
    assert!(expected_image_size(&text_details).is_err());
    assert_eq!(check_image_shape(&vec![2, 3, 224, 224], (224, 224)), Ok(()));
    assert_eq!(
        check_image_shape(&vec![2, 3, 100, 224], (224, 224)),
        Err(AIProxyError::ImageDimensionsMismatchError {
            image_dimensions: (100, 224),
            expected_dimensions: (224, 224)
        })
    );
    assert_eq!(image_chunks(&model_name, 5, 2), Ok(vec![(0, 2), (2, 4), (4, 5)]));
    assert!(image_chunks(&model_name, 0, 2).is_err());
}

#[test]
fn workers_check_and_record_inputs() {
    assert_eq!(WorkerName::name(0), "Worker-0");
    assert_eq!(WorkerName::name(42), "Worker-42");
    let inputs = vec![
        (StoreInput { value: Some(StoreInputValue::RawString("a".to_string())) }, StoreValue::new()),
        (StoreInput { value: Some(StoreInputValue::RawString("a".to_string())) }, StoreValue::new()),
    ];
    let (out, originals) = process_store_inputs(AiModel::AllMiniLmL6V2, inputs).unwrap();
    assert_eq!(out.len(), 2);
    assert!(out[1].1.contains_key("_ahnlich_input_key"));
    assert_eq!(originals.len(), 1);
    let mut reserved = StoreValue::new();
    reserved.insert(
        "_ahnlich_input_key".to_string(),
        MetadataValue { value: Some(MetadataKind::RawString("x".to_string())) },
    );
    let bad = vec![(StoreInput { value: Some(StoreInputValue::Image(vec![1])) }, reserved)];
    assert_eq!(
        process_store_inputs(AiModel::AllMiniLmL6V2, bad).unwrap_err(),
        AIProxyError::ReservedError("_ahnlich_input_key".to_string())
    );
    let image = vec![(StoreInput { value: Some(StoreInputValue::Image(vec![1])) }, StoreValue::new())];
    assert_eq!(
        process_store_inputs(AiModel::AllMiniLmL6V2, image).unwrap_err(),
        AIProxyError::StoreSetTypeMismatchError {
            index_model_type: "RawString".to_string(),
            storeinput_type: "Image".to_string()
        }
    );
}

fn raw(s: &str) -> (StoreInput, StoreValue) {
    (StoreInput { value: Some(StoreInputValue::RawString(s.to_string())) }, StoreValue::new())
}

#[test]
fn a_pool_checks_one_chunk_per_worker() {
    let pool = StoreValidatorThreadPool { pool_size: 2 };
    let inputs = vec![raw("a"), raw("b"), raw("c"), raw("d"), raw("e")];
    let (out, originals) = pool.execute(inputs, AiModel::AllMiniLmL6V2).unwrap();
    // Two workers take two chunks of two: the fifth input has no worker.
    assert_eq!(out.len(), 4);
    assert_eq!(originals.len(), 4);

    let mut bad = vec![raw("a"), raw("b"), raw("c")];
    bad[2].0 = StoreInput { value: None };
    assert_eq!(
        pool.execute(bad, AiModel::AllMiniLmL6V2).unwrap_err(),
        AIProxyError::InputNotSpecified("Store Input Value".to_string())
    );
    let mut beyond = vec![raw("a"), raw("b"), raw("c"), raw("d"), raw("e")];
    beyond[4].0 = StoreInput { value: None };
    assert_eq!(pool.execute(beyond, AiModel::AllMiniLmL6V2).unwrap().0.len(), 4);
}

#[test]
fn tokenizer_settings_from_configuration() {
    let config = obj(vec![("pad_token_id", num(7))]);
    let tokenizer_config = obj(vec![("pad_token", text("[PAD]"))]);
    let special = obj(vec![
        ("cls_token", text("[CLS]")),
        (
            "mask_token",
            obj(vec![
                ("content", text("[MASK]")),
                ("single_word", JsonValue::Bool(false)),
                ("lstrip", JsonValue::Bool(true)),
                ("rstrip", JsonValue::Bool(false)),
                ("normalized", JsonValue::Bool(false)),
            ]),
        ),
        ("ignored", num(3)),
    ]);
    let settings = tokenizer_settings(&config, &tokenizer_config, &special, Some(512)).unwrap();
    assert_eq!(settings.model_max_length, 512);
    assert_eq!(settings.pad_id, 7);
    assert_eq!(settings.pad_token, "[PAD]");
    assert_eq!(settings.special_tokens.len(), 2);
    assert!(matches!(&settings.special_tokens[0], SpecialToken::Plain(s) if s == "[CLS]"));
    assert!(matches!(&settings.special_tokens[1], SpecialToken::Detailed { content, lstrip: true, .. } if content == "[MASK]"));

    let no_pad_id = tokenizer_settings(&obj(vec![]), &tokenizer_config, &obj(vec![]), Some(8)).unwrap();
    assert_eq!(no_pad_id.pad_id, 0);
    assert!(matches!(
        tokenizer_settings(&config, &tokenizer_config, &special, None),
        Err(AIProxyError::ModelTokenizerLoadError { message }) if message == "Error reading model_max_length from tokenizer_config"
    ));
    assert!(matches!(
        tokenizer_settings(&config, &obj(vec![]), &special, Some(1)),
        Err(AIProxyError::ModelTokenizerLoadError { message }) if message == "Error reading pad_token from tokenizer_config"
    ));
}

#[test]
fn normalization_and_rescaling_configuration() {
    assert!(!ImageNormalize::try_from(&obj(vec![])).unwrap().process);
    let floats = JsonValue::Array(vec![JsonValue::Number(None), JsonValue::Number(Some(1))]);
    let ok = ImageNormalize::try_from(&obj(vec![
        ("do_normalize", JsonValue::Bool(true)),
        ("image_mean", floats),
        ("image_std", JsonValue::Array(vec![JsonValue::Number(None)])),
    ]))
    .unwrap();
    assert!(ok.process);
    assert_eq!(
        config_message(ImageNormalize::try_from(&obj(vec![("do_normalize", JsonValue::Bool(true))])).unwrap_err()),
        "The key 'image_mean' is missing from the configuration."
    );
    assert_eq!(
        config_message(
            ImageNormalize::try_from(&obj(vec![
                ("do_normalize", JsonValue::Bool(true)),
                ("image_mean", JsonValue::Array(vec![])),
                ("image_std", JsonValue::Array(vec![text("x")])),
            ]))
            .unwrap_err()
        ),
        "The key 'image_std' in the configuration must be an array of floats."
    );
    assert!(Rescale::initialize(&obj(vec![])).is_some());
    assert!(Rescale::initialize(&obj(vec![("do_rescale", JsonValue::Bool(false))])).is_none());
    assert!(Rescale::initialize(&obj(vec![("do_rescale", JsonValue::Bool(true))])).is_some());
}

#[test]
fn an_image_preprocessor_follows_its_configuration() {
    let config = obj(vec![
        ("do_resize", JsonValue::Bool(true)),
        ("size", obj(vec![("shortest_edge", num(224))])),
        ("do_center_crop", JsonValue::Bool(true)),
        ("crop_size", num(224)),
        ("do_normalize", JsonValue::Bool(true)),
        ("image_mean", JsonValue::Array(vec![JsonValue::Number(None)])),
        ("image_std", JsonValue::Array(vec![JsonValue::Number(None)])),
    ]);
    let p = ORTImagePreprocessor::from_config(SupportedModels::ClipVitB32Image, &config).unwrap();
    assert_eq!(p.resize, Some(ResizePlan::Exact { width: 224, height: 224 }));
    assert_eq!(p.center_crop.crop_size, (224, 224));
    assert!(p.rescale.is_some());
    assert!(p.normalize.process);
    let broken = obj(vec![("do_resize", JsonValue::Bool(true))]);
    assert!(config_message(ORTImagePreprocessor::from_config(SupportedModels::Resnet50, &broken).unwrap_err())
        .starts_with("The key 'size' is missing"));
}

#[test]
fn configuration_files_are_parsed_from_their_bytes() {
    let bytes = br#"{"do_resize": true, "size": {"shortest_edge": 224}, "crop_pct": 0.9, "name": "x", "list": [1, null]}"#.to_vec();
    let config = read_config("preprocessor_config.json", &bytes).unwrap();
    assert_eq!(
        Resize::initialize(&config),
        Ok(Some(ResizePlan::Exact { width: 224, height: 224 }))
    );
    assert!(matches!(config.get("crop_pct"), Some(JsonValue::Number(None))));
    assert!(matches!(config.get("name"), Some(JsonValue::Str(s)) if s == "x"));
    match config.get("list") {
        Some(JsonValue::Array(items)) => {
            assert_eq!(items.len(), 2);
            assert!(matches!(items[0], JsonValue::Number(Some(1))));
            assert!(matches!(items[1], JsonValue::Null));
        }
        other => panic!("unexpected {other:?}"),
    }

    let broken = read_config("config.json", &b"{".to_vec()).unwrap_err();
    assert!(config_message(broken).starts_with("failed to parse config.json, "));

    let refused = config_from_parse("tokenizer.json", Err("bad".to_string())).unwrap_err();
    assert_eq!(config_message(refused), "failed to parse tokenizer.json, bad");
    assert!(matches!(config_from_parse("a", Ok(JsonValue::Null)), Ok(JsonValue::Null)));
}
