//! The errors the proxy reports.
use vstd::prelude::*;
use crate::models::{AiStoreInputType, InputAction};
use crate::text::{concat_str, decimal, decimal_string};

verus! {

/// An error of the AI proxy.
#[allow(inconsistent_fields)]
#[derive(Debug, PartialEq, Eq)]
pub enum AIProxyError {
    StoreNotFound(String),
    StoreAlreadyExists(String),
    StandardError(String),
    DatabaseClientError(String),
    ReservedError(String),
    UnexpectedDBResponse(String),
    StoreTypeMismatchError {
        action: InputAction,
        index_model_type: AiStoreInputType,
        storeinput_type: AiStoreInputType,
    },
    StoreSetTypeMismatchError { index_model_type: String, storeinput_type: String },
    TokenExceededError { max_token_size: usize, input_token_size: usize },
    ModelPreprocessingError { model_name: String, message: String },
    ModelPostprocessingError { model_name: String, message: String },
    PoolingError { message: String },
    ImageDimensionsMismatchError {
        image_dimensions: (usize, usize),
        expected_dimensions: (usize, usize),
    },
    TextEmbeddingInitError(String),
    APIBuilderError(String),
    TokenizerInitError(String),
    ORTError(String),
    PreprocessingMismatchError { input_type: AiStoreInputType, preprocess_action: String },
    AIModelNotInitialized,
    CacheLocationNotInitiailized,
    AIModelNotSupported { model_name: String },
    AIModelInvalidOperation { operation: String, model_name: String },
    VectorNormalizationError { message: String },
    ImageNormalizationError { message: String },
    ImageArrayToNdArrayError { message: String },
    OnnxOutputTransformError { message: String },
    RescaleError { message: String },
    CenterCropError { message: String },
    AIModelThreadSendError,
    AIModelRecvError(String),
    DimensionsMismatchError { index_model_dim: usize, query_model_dim: usize },
    Allocation(String),
    ModelInitializationError(String),
    ImageBytesDecodeError,
    ImageBytesEncodeError,
    ImageNonzeroDimensionError { width: usize, height: usize },
    ImageResizeError,
    ImageCropError,
    ModelProviderPreprocessingError(String),
    ModelProviderRunInferenceError(String),
    ModelProviderPostprocessingError(String),
    ModelTokenizationError { message: String },
    DelKeyError,
    ModelTokenizerLoadError { message: String },
    ModelConfigLoadError { message: String },
    InputNotSpecified(String),
    ModelInputToEmbeddingError,
    MultipleEmbeddingsForQuery(usize),
}


/// How an action is written in messages.
pub open spec fn action_text(a: InputAction) -> Seq<char> {
    match a {
        InputAction::Query => "query"@,
        InputAction::Index => "index"@,
    }
}

/// How an input kind is written in messages.
pub open spec fn input_type_text(t: AiStoreInputType) -> Seq<char> {
    match t {
        AiStoreInputType::RawString => "RawString"@,
        AiStoreInputType::Image => "Image"@,
    }
}

/// The numeral of a count, as messages write it.
pub open spec fn num(n: usize) -> Seq<char> {
    decimal(n as nat)
}

/// The text a client receives for an error.
pub open spec fn error_text(e: AIProxyError) -> Seq<char> {
    match e {
        AIProxyError::StoreNotFound(n) => "Store "@ + n@ + " not found"@,
        AIProxyError::StoreAlreadyExists(n) => "Store "@ + n@ + " already exists"@,
        AIProxyError::StandardError(s) => "Proxy Errored with "@ + s@ + " "@,
        AIProxyError::DatabaseClientError(s) => "Proxy Errored with "@ + s@ + " "@,
        AIProxyError::ReservedError(s) => "Reserved key "@ + s@ + " used"@,
        AIProxyError::UnexpectedDBResponse(s) => "Unexpected DB Response "@ + s@ + " "@,
        AIProxyError::StoreTypeMismatchError { action, index_model_type, storeinput_type } => "Cannot "@
            + action_text(action) + " Input. Store expects ["@ + input_type_text(index_model_type)
            + "], input type ["@ + input_type_text(storeinput_type) + "] was provided"@,
        AIProxyError::StoreSetTypeMismatchError { index_model_type, storeinput_type } => "Cannot set Input. Store expects ["@
            + index_model_type@ + "], input type ["@ + storeinput_type@ + "] was provided"@,
        AIProxyError::TokenExceededError { max_token_size, input_token_size } => "Max Token Exceeded. Model Expects ["@
            + num(max_token_size) + "], input type was ["@ + num(input_token_size) + "]."@,
        AIProxyError::ModelPreprocessingError { model_name, message } => "Model preprocessing for "@
            + model_name@ + " failed: "@ + message@ + "."@,
        AIProxyError::ModelPostprocessingError { model_name, message } => "Model postprocessing for "@
            + model_name@ + " failed: "@ + message@ + "."@,
        AIProxyError::PoolingError { message } => "Pooling operation failed: "@ + message@ + "."@,
        AIProxyError::ImageDimensionsMismatchError { image_dimensions, expected_dimensions } => "Image Dimensions [("@
            + num(image_dimensions.0) + ", "@ + num(image_dimensions.1)
            + ")] does not match the expected model dimensions [("@ + num(expected_dimensions.0) + ", "@
            + num(expected_dimensions.1) + ")]"@,
        AIProxyError::TextEmbeddingInitError(_) => "Error initializing text embedding"@,
        AIProxyError::APIBuilderError(s) => "API Builder Error: "@ + s@,
        AIProxyError::TokenizerInitError(s) => "Tokenizer initialization error "@ + s@,
        AIProxyError::ORTError(s) => "ORT Error "@ + s@,
        AIProxyError::PreprocessingMismatchError { input_type, preprocess_action } => "Used ["@
            + preprocess_action@ + "] for ["@ + input_type_text(input_type) + "] type"@,
        AIProxyError::AIModelNotInitialized => "index_model or query_model not selected or loaded during aiproxy startup"@,
        AIProxyError::CacheLocationNotInitiailized => "Cache location for model was not initialized"@,
        AIProxyError::AIModelNotSupported { model_name } => "index_model or query_model ["@ + model_name@
            + "] not supported"@,
        AIProxyError::AIModelInvalidOperation { operation, model_name } => "Invalid operation ["@
            + operation@ + "] on model ["@ + model_name@ + "]"@,
        AIProxyError::VectorNormalizationError { message } => "Vector normalization error: ["@ + message@
            + "]"@,
        AIProxyError::ImageNormalizationError { message } => "Image normalization error: ["@ + message@
            + "]"@,
        AIProxyError::ImageArrayToNdArrayError { message } => "ImageArray to NdArray conversion error: ["@
            + message@ + "]"@,
        AIProxyError::OnnxOutputTransformError { message } => "Onnx output transform error: ["@ + message@
            + "]"@,
        AIProxyError::RescaleError { message } => "Rescale error: ["@ + message@ + "]"@,
        AIProxyError::CenterCropError { message } => "Center crop error: ["@ + message@ + "]"@,
        AIProxyError::AIModelThreadSendError => "Error sending request to model thread"@,
        AIProxyError::AIModelRecvError(_) => "Error receiving response from model thread"@,
        AIProxyError::DimensionsMismatchError { index_model_dim, query_model_dim } => "Dimensions Mismatch between index ["@
            + num(index_model_dim) + "], and Query ["@ + num(query_model_dim) + "] Models."@,
        AIProxyError::Allocation(s) => "allocation error "@ + s@,
        AIProxyError::ModelInitializationError(s) => "Error initializing a model thread "@ + s@ + "."@,
        AIProxyError::ImageBytesDecodeError => "Bytes could not be successfully decoded into an image."@,
        AIProxyError::ImageBytesEncodeError => "Image could not be successfully encoded into bytes."@,
        AIProxyError::ImageNonzeroDimensionError { width, height } => "Image can't have zero value in any dimension. Found height: "@
            + num(height) + ", width: "@ + num(width),
        AIProxyError::ImageResizeError => "Image could not be resized."@,
        AIProxyError::ImageCropError => "Image could not be cropped."@,
        AIProxyError::ModelProviderPreprocessingError(s) => "Model provider failed on preprocessing the input "@
            + s@,
        AIProxyError::ModelProviderRunInferenceError(s) => "Model provider failed on running inference "@
            + s@,
        AIProxyError::ModelProviderPostprocessingError(s) => "Model provider failed on postprocessing the output "@
            + s@,
        AIProxyError::ModelTokenizationError { message } => "Tokenize error: "@ + message@,
        AIProxyError::DelKeyError => "Cannot call DelKey on store with `store_original` as false"@,
        AIProxyError::ModelTokenizerLoadError { message } => "Tokenizer for model failed to load: "@
            + message@,
        AIProxyError::ModelConfigLoadError { message } => "Unable to load config: ["@ + message@ + "]."@,
        AIProxyError::InputNotSpecified(s) => s@ + " not specified"@,
        AIProxyError::ModelInputToEmbeddingError => "Model input could not be turned into an embedding"@,
        AIProxyError::MultipleEmbeddingsForQuery(n) => "Query produced "@ + num(n)
            + " embeddings; expected exactly one"@,
    }
}

/// `a` followed by `b`.
fn cat(a: String, b: &str) -> (res: String)
    ensures
        res@ == a@ + b@,
{
    concat_str(a.as_str(), b)
}

/// `a` as an owned string.
fn lit(a: &str) -> (res: String)
    ensures
        res@ == a@,
{
    String::from_str(a)
}

/// How an action is written in messages.
fn action_string(a: InputAction) -> (res: String)
    ensures
        res@ == action_text(a),
{
    match a {
        InputAction::Query => lit("query"),
        InputAction::Index => lit("index"),
    }
}

/// How an input kind is written in messages.
fn input_type_string(t: AiStoreInputType) -> (res: String)
    ensures
        res@ == input_type_text(t),
{
    match t {
        AiStoreInputType::RawString => lit("RawString"),
        AiStoreInputType::Image => lit("Image"),
    }
}

impl AIProxyError {
    /// The text a client receives for this error.
    pub fn message(&self) -> (res: String)
        ensures
            res@ == error_text(*self),
    {
        match self {
            AIProxyError::StoreNotFound(n) => cat(cat(lit("Store "), n.as_str()), " not found"),
            AIProxyError::StoreAlreadyExists(n) => cat(cat(lit("Store "), n.as_str()), " already exists"),
            AIProxyError::StandardError(s) => cat(cat(lit("Proxy Errored with "), s.as_str()), " "),
            AIProxyError::DatabaseClientError(s) => cat(cat(lit("Proxy Errored with "), s.as_str()), " "),
            AIProxyError::ReservedError(s) => cat(cat(lit("Reserved key "), s.as_str()), " used"),
            AIProxyError::UnexpectedDBResponse(s) => cat(cat(lit("Unexpected DB Response "), s.as_str()), " "),
            AIProxyError::StoreTypeMismatchError { action, index_model_type, storeinput_type } => {
                let a = action_string(*action);
                let i = input_type_string(*index_model_type);
                let t = input_type_string(*storeinput_type);
                cat(cat(cat(cat(cat(cat(lit("Cannot "), a.as_str()), " Input. Store expects ["), i.as_str()),
                    "], input type ["), t.as_str()), "] was provided")
            },
            AIProxyError::StoreSetTypeMismatchError { index_model_type, storeinput_type } => cat(
                cat(cat(cat(lit("Cannot set Input. Store expects ["), index_model_type.as_str()), "], input type ["),
                    storeinput_type.as_str()),
                "] was provided",
            ),
            AIProxyError::TokenExceededError { max_token_size, input_token_size } => {
                let m = decimal_string(*max_token_size);
                let i = decimal_string(*input_token_size);
                cat(cat(cat(cat(lit("Max Token Exceeded. Model Expects ["), m.as_str()), "], input type was ["),
                    i.as_str()), "].")
            },
            AIProxyError::ModelPreprocessingError { model_name, message } => cat(
                cat(cat(cat(lit("Model preprocessing for "), model_name.as_str()), " failed: "), message.as_str()),
                ".",
            ),
            AIProxyError::ModelPostprocessingError { model_name, message } => cat(
                cat(cat(cat(lit("Model postprocessing for "), model_name.as_str()), " failed: "), message.as_str()),
                ".",
            ),
            AIProxyError::PoolingError { message } => cat(cat(lit("Pooling operation failed: "), message.as_str()), "."),
            AIProxyError::ImageDimensionsMismatchError { image_dimensions, expected_dimensions } => {
                let a = decimal_string(image_dimensions.0);
                let b = decimal_string(image_dimensions.1);
                let c = decimal_string(expected_dimensions.0);
                let d = decimal_string(expected_dimensions.1);
                cat(cat(cat(cat(cat(cat(cat(cat(lit("Image Dimensions [("), a.as_str()), ", "), b.as_str()),
                    ")] does not match the expected model dimensions [("), c.as_str()), ", "), d.as_str()), ")]")
            },
            AIProxyError::TextEmbeddingInitError(_) => lit("Error initializing text embedding"),
            AIProxyError::APIBuilderError(s) => cat(lit("API Builder Error: "), s.as_str()),
            AIProxyError::TokenizerInitError(s) => cat(lit("Tokenizer initialization error "), s.as_str()),
            AIProxyError::ORTError(s) => cat(lit("ORT Error "), s.as_str()),
            AIProxyError::PreprocessingMismatchError { input_type, preprocess_action } => {
                let t = input_type_string(*input_type);
                cat(cat(cat(cat(lit("Used ["), preprocess_action.as_str()), "] for ["), t.as_str()), "] type")
            },
            AIProxyError::AIModelNotInitialized => lit(
                "index_model or query_model not selected or loaded during aiproxy startup",
            ),
            AIProxyError::CacheLocationNotInitiailized => lit("Cache location for model was not initialized"),
            AIProxyError::AIModelNotSupported { model_name } => cat(
                cat(lit("index_model or query_model ["), model_name.as_str()),
                "] not supported",
            ),
            AIProxyError::AIModelInvalidOperation { operation, model_name } => cat(
                cat(cat(cat(lit("Invalid operation ["), operation.as_str()), "] on model ["), model_name.as_str()),
                "]",
            ),
            AIProxyError::VectorNormalizationError { message } => cat(
                cat(lit("Vector normalization error: ["), message.as_str()),
                "]",
            ),
            AIProxyError::ImageNormalizationError { message } => cat(
                cat(lit("Image normalization error: ["), message.as_str()),
                "]",
            ),
            AIProxyError::ImageArrayToNdArrayError { message } => cat(
                cat(lit("ImageArray to NdArray conversion error: ["), message.as_str()),
                "]",
            ),
            AIProxyError::OnnxOutputTransformError { message } => cat(
                cat(lit("Onnx output transform error: ["), message.as_str()),
                "]",
            ),
            AIProxyError::RescaleError { message } => cat(cat(lit("Rescale error: ["), message.as_str()), "]"),
            AIProxyError::CenterCropError { message } => cat(cat(lit("Center crop error: ["), message.as_str()), "]"),
            AIProxyError::AIModelThreadSendError => lit("Error sending request to model thread"),
            AIProxyError::AIModelRecvError(_) => lit("Error receiving response from model thread"),
            AIProxyError::DimensionsMismatchError { index_model_dim, query_model_dim } => {
                let i = decimal_string(*index_model_dim);
                let q = decimal_string(*query_model_dim);
                cat(cat(cat(cat(lit("Dimensions Mismatch between index ["), i.as_str()), "], and Query ["),
                    q.as_str()), "] Models.")
            },
            AIProxyError::Allocation(s) => cat(lit("allocation error "), s.as_str()),
            AIProxyError::ModelInitializationError(s) => cat(
                cat(lit("Error initializing a model thread "), s.as_str()),
                ".",
            ),
            AIProxyError::ImageBytesDecodeError => lit("Bytes could not be successfully decoded into an image."),
            AIProxyError::ImageBytesEncodeError => lit("Image could not be successfully encoded into bytes."),
            AIProxyError::ImageNonzeroDimensionError { width, height } => {
                let h = decimal_string(*height);
                let w = decimal_string(*width);
                cat(cat(cat(lit("Image can't have zero value in any dimension. Found height: "), h.as_str()),
                    ", width: "), w.as_str())
            },
            AIProxyError::ImageResizeError => lit("Image could not be resized."),
            AIProxyError::ImageCropError => lit("Image could not be cropped."),
            AIProxyError::ModelProviderPreprocessingError(s) => cat(
                lit("Model provider failed on preprocessing the input "),
                s.as_str(),
            ),
            AIProxyError::ModelProviderRunInferenceError(s) => cat(
                lit("Model provider failed on running inference "),
                s.as_str(),
            ),
            AIProxyError::ModelProviderPostprocessingError(s) => cat(
                lit("Model provider failed on postprocessing the output "),
                s.as_str(),
            ),
            AIProxyError::ModelTokenizationError { message } => cat(lit("Tokenize error: "), message.as_str()),
            AIProxyError::DelKeyError => lit("Cannot call DelKey on store with `store_original` as false"),
            AIProxyError::ModelTokenizerLoadError { message } => cat(
                lit("Tokenizer for model failed to load: "),
                message.as_str(),
            ),
            AIProxyError::ModelConfigLoadError { message } => cat(
                cat(lit("Unable to load config: ["), message.as_str()),
                "].",
            ),
            AIProxyError::InputNotSpecified(s) => cat(lit(s.as_str()), " not specified"),
            AIProxyError::ModelInputToEmbeddingError => lit("Model input could not be turned into an embedding"),
            AIProxyError::MultipleEmbeddingsForQuery(n) => {
                let d = decimal_string(*n);
                cat(cat(lit("Query produced "), d.as_str()), " embeddings; expected exactly one")
            },
        }
    }
}

} // verus!
