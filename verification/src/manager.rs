//! The checks a model thread makes on a request before and after running the
//! model: that the model is loaded, which kind of input the request carries,
//! and that the input fits what the model accepts.
use vstd::prelude::*;
use crate::errors::AIProxyError;
use crate::inference::{batch_ranges, is_batching};
use crate::keyval::{StoreInput, StoreInputValue, ValueView};
use crate::models::{AiModel, ModelDetails, ModelType, SupportedModels, spec_from_ai_model};
use crate::operations::input_views;

verus! {

/// The model a request names, when the proxy was started with it; otherwise
/// `AIModelNotInitialized`.
pub fn ensure_supported(supported: &Vec<SupportedModels>, model: AiModel) -> (res: Result<
    SupportedModels,
    AIProxyError,
>)
    ensures
        supported@.contains(spec_from_ai_model(model)) ==> res == Ok::<SupportedModels, AIProxyError>(
            spec_from_ai_model(model),
        ),
        !supported@.contains(spec_from_ai_model(model)) ==> res == Err::<
            SupportedModels,
            AIProxyError,
        >(AIProxyError::AIModelNotInitialized),
{
    let m = SupportedModels::from_ai_model(&model);
    let mut i: usize = 0;
    while i < supported.len()
        invariant
            0 <= i <= supported@.len(),
            m == spec_from_ai_model(model),
            forall|j: int| 0 <= j < i ==> supported@[j] != m,
        decreases supported@.len() - i,
    {
        if supported[i] == m {
            assert(supported@[i as int] == m);
            return Ok(m);
        }
        i = i + 1;
    }
    Err(AIProxyError::AIModelNotInitialized)
}

/// The inputs of a request, by kind.
#[derive(Debug)]
pub enum PreparedInput {
    Texts(Vec<String>),
    Images(Vec<Vec<u8>>),
}

/// The texts among some inputs, in order.
pub open spec fn texts_of(s: Seq<Option<ValueView>>) -> Seq<Seq<char>>
    decreases s.len(),
{
    if s.len() == 0 {
        Seq::empty()
    } else {
        match s.last() {
            Some(ValueView::RawString(t)) => texts_of(s.drop_last()).push(t),
            _ => texts_of(s.drop_last()),
        }
    }
}

/// The images among some inputs, in order.
pub open spec fn images_of(s: Seq<Option<ValueView>>) -> Seq<Seq<u8>>
    decreases s.len(),
{
    if s.len() == 0 {
        Seq::empty()
    } else {
        match s.last() {
            Some(ValueView::Image(b)) => images_of(s.drop_last()).push(b),
            _ => images_of(s.drop_last()),
        }
    }
}

/// The kind of a request's inputs is that of its first input; inputs of the
/// other kind are passed over.
pub fn prepare_inputs(model_name: &String, inputs: &Vec<StoreInput>) -> (res: Result<
    PreparedInput,
    AIProxyError,
>)
    ensures
        inputs@.len() == 0 ==> (res matches Err(
            AIProxyError::ModelPreprocessingError { model_name: n, message: m },
        ) && n@ == model_name@ && m@ == "Input is empty"@),
        inputs@.len() > 0 ==> match inputs@[0]@ {
            None => res matches Err(AIProxyError::InputNotSpecified(m)) && m@
                == "Store input value"@,
            Some(ValueView::RawString(_)) => res matches Ok(PreparedInput::Texts(t)) && t@.map_values(
                |x: String| x@,
            ) == texts_of(input_views(inputs@)),
            Some(ValueView::Image(_)) => res matches Ok(PreparedInput::Images(b)) && b@.map_values(
                |x: Vec<u8>| x@,
            ) == images_of(input_views(inputs@)),
        },
{
    if inputs.len() == 0 {
        return Err(
            AIProxyError::ModelPreprocessingError {
                model_name: model_name.clone(),
                message: String::from_str("Input is empty"),
            },
        );
    }
    let text = match &inputs[0].value {
        None => {
            return Err(AIProxyError::InputNotSpecified(String::from_str("Store input value")));
        },
        Some(StoreInputValue::RawString(_)) => true,
        Some(StoreInputValue::Image(_)) => false,
    };
    let mut texts: Vec<String> = Vec::new();
    let mut images: Vec<Vec<u8>> = Vec::new();
    let mut i: usize = 0;
    while i < inputs.len()
        invariant
            0 <= i <= inputs@.len(),
            texts@.map_values(|x: String| x@) == texts_of(input_views(inputs@.subrange(0, i as int))),
            images@.map_values(|x: Vec<u8>| x@) == images_of(
                input_views(inputs@.subrange(0, i as int)),
            ),
        decreases inputs@.len() - i,
    {
        proof {
            assert(input_views(inputs@.subrange(0, i as int + 1)).drop_last() =~= input_views(
                inputs@.subrange(0, i as int),
            ));
            assert(input_views(inputs@.subrange(0, i as int + 1)).last() == inputs@[i as int]@);
        }
        let ghost t0 = texts@;
        let ghost i0 = images@;
        match &inputs[i].value {
            Some(StoreInputValue::RawString(s)) => {
                texts.push(s.clone());
                proof {
                    assert(texts@.map_values(|x: String| x@) =~= t0.map_values(|x: String| x@).push(s@));
                }
            },
            Some(StoreInputValue::Image(b)) => {
                images.push(crate::keyval::copy_bytes(b));
                proof {
                    assert(images@.map_values(|x: Vec<u8>| x@) =~= i0.map_values(|x: Vec<u8>| x@).push(
                        b@,
                    ));
                }
            },
            None => {},
        }
        i = i + 1;
    }
    proof {
        assert(inputs@.subrange(0, inputs@.len() as int) =~= inputs@);
    }
    if text {
        Ok(PreparedInput::Texts(texts))
    } else {
        Ok(PreparedInput::Images(images))
    }
}

/// The token limit of a text model; an error for a model that takes no text.
pub fn max_token_size(details: &ModelDetails) -> (res: Result<usize, AIProxyError>)
    ensures
        match details.model_type {
            ModelType::Text { max_input_tokens } => res == Ok::<usize, AIProxyError>(max_input_tokens),
            ModelType::Image { .. } => res matches Err(
                AIProxyError::ModelPreprocessingError { model_name: n, message: m },
            ) && n@ == crate::models::display_name(details.supported_model) && m@
                == "RawString preprocessing is not supported."@,
        },
{
    match details.max_input_token() {
        Some(m) => Ok(m),
        None => Err(
            AIProxyError::ModelPreprocessingError {
                model_name: details.model_name(),
                message: String::from_str("RawString preprocessing is not supported."),
            },
        ),
    }
}

/// Checks the tokenized batch against the limit: all texts of a batch are
/// padded to one length, that of the first; none may be over the limit.
pub fn check_token_count(model_name: &String, max_token_size: usize, first_len: Option<usize>) -> (res:
    Result<(), AIProxyError>)
    ensures
        match first_len {
            None => res matches Err(AIProxyError::ModelPreprocessingError { model_name: n, message: m })
                && n@ == model_name@ && m@ == "Processed output is empty"@,
            Some(n) => if n > max_token_size {
                res == Err::<(), AIProxyError>(
                    AIProxyError::TokenExceededError { max_token_size, input_token_size: n },
                )
            } else {
                res is Ok
            },
        },
{
    match first_len {
        None => Err(
            AIProxyError::ModelPreprocessingError {
                model_name: model_name.clone(),
                message: String::from_str("Processed output is empty"),
            },
        ),
        Some(n) => {
            if n > max_token_size {
                Err(AIProxyError::TokenExceededError { max_token_size, input_token_size: n })
            } else {
                Ok(())
            }
        },
    }
}

/// The (width, height) an image model expects; an error for a model that
/// takes no images.
pub fn expected_image_size(details: &ModelDetails) -> (res: Result<(usize, usize), AIProxyError>)
    ensures
        match details.model_type {
            ModelType::Image { expected_image_dimensions } => res == Ok::<(usize, usize), AIProxyError>(
                expected_image_dimensions,
            ),
            ModelType::Text { .. } => res matches Err(
                AIProxyError::ModelPreprocessingError { model_name: n, message: m },
            ) && n@ == crate::models::display_name(details.supported_model) && m@
                == "Image preprocessing is not supported."@,
        },
{
    match details.expected_image_dimensions() {
        Some(d) => Ok(d),
        None => Err(
            AIProxyError::ModelPreprocessingError {
                model_name: details.model_name(),
                message: String::from_str("Image preprocessing is not supported."),
            },
        ),
    }
}

/// Checks a preprocessed batch of shape (batch, channels, width, height)
/// against the size the model expects.
pub fn check_image_shape(shape: &Vec<usize>, expected: (usize, usize)) -> (res: Result<(), AIProxyError>)
    requires
        shape@.len() >= 4,
    ensures
        (shape@[2], shape@[3]) == expected ==> res is Ok,
        (shape@[2], shape@[3]) != expected ==> res == Err::<(), AIProxyError>(
            AIProxyError::ImageDimensionsMismatchError {
                image_dimensions: (shape@[2], shape@[3]),
                expected_dimensions: expected,
            },
        ),
{
    let width = shape[2];
    let height = shape[3];
    if width != expected.0 || height != expected.1 {
        Err(
            AIProxyError::ImageDimensionsMismatchError {
                image_dimensions: (width, height),
                expected_dimensions: expected,
            },
        )
    } else {
        Ok(())
    }
}

/// The chunks in which a request's images are decoded and preprocessed, to
/// bound the memory held at once; an error when there are no images.
pub fn image_chunks(model_name: &String, total: usize, batch_size: usize) -> (res: Result<
    Vec<(usize, usize)>,
    AIProxyError,
>)
    requires
        batch_size > 0,
    ensures
        total == 0 ==> (res matches Err(
            AIProxyError::ModelPreprocessingError { model_name: n, message: m },
        ) && n@ == model_name@ && m@ == "No images were successfully decoded"@),
        total > 0 ==> (res matches Ok(r) && is_batching(r@, total as nat, batch_size as nat)),
{
    let ranges = batch_ranges(total, batch_size);
    if ranges.len() == 0 {
        return Err(
            AIProxyError::ModelPreprocessingError {
                model_name: model_name.clone(),
                message: String::from_str("No images were successfully decoded"),
            },
        );
    }
    Ok(ranges)
}

} // verus!
