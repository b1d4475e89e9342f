//! The catalogue of embedding models: which models the proxy supports, what
//! kind of input each takes, and the size of the embeddings it produces.
use vstd::prelude::*;

verus! {

/// A model as named on the wire by clients.
#[derive(Clone, Copy, Debug, PartialEq, Eq, Structural, Hash)]
pub enum AiModel {
    AllMiniLmL6V2,
    AllMiniLmL12V2,
    BgeBaseEnV15,
    BgeLargeEnV15,
    Resnet50,
    ClipVitB32Image,
    ClipVitB32Text,
}

/// A model that the proxy can load.
#[derive(Clone, Copy, Debug, PartialEq, Eq, Structural, Hash, PartialOrd, Ord)]
pub enum SupportedModels {
    AllMiniLML6V2,
    AllMiniLML12V2,
    BGEBaseEnV15,
    BGELargeEnV15,
    Resnet50,
    ClipVitB32Image,
    ClipVitB32Text,
}

/// The kind of input a store is indexed by.
#[derive(Clone, Copy, Debug, PartialEq, Eq, Structural, Hash)]
pub enum AiStoreInputType {
    RawString,
    Image,
}

/// Whether an input is being indexed or used as a query.
#[derive(Clone, Copy, Debug, PartialEq, Eq, Structural)]
pub enum InputAction {
    Query,
    Index,
}

/// What a model consumes: text of bounded token length, or images of a fixed size.
#[derive(Clone, Copy, Debug, PartialEq, Eq)]
pub enum ModelType {
    Text { max_input_tokens: usize },
    /// The expected image size, as (width, height).
    Image { expected_image_dimensions: (usize, usize) },
}

/// The public facts about a supported model.
#[derive(Debug)]
pub struct ModelDetails {
    pub model_type: ModelType,
    pub description: String,
    pub supported_model: SupportedModels,
    pub embedding_size: usize,
}

/// Every supported model, in declaration order.
pub open spec fn all_supported_models() -> Seq<SupportedModels> {
    seq![
        SupportedModels::AllMiniLML6V2,
        SupportedModels::AllMiniLML12V2,
        SupportedModels::BGEBaseEnV15,
        SupportedModels::BGELargeEnV15,
        SupportedModels::Resnet50,
        SupportedModels::ClipVitB32Image,
        SupportedModels::ClipVitB32Text,
    ]
}

/// The name under which a supported model is displayed.
pub open spec fn display_name(m: SupportedModels) -> Seq<char> {
    match m {
        SupportedModels::AllMiniLML6V2 => "all-MiniLM-L6-v2"@,
        SupportedModels::AllMiniLML12V2 => "all-MiniLM-L12-v2"@,
        SupportedModels::BGEBaseEnV15 => "BGEBase-En-v1.5"@,
        SupportedModels::BGELargeEnV15 => "BGELarge-En-v1.5"@,
        SupportedModels::Resnet50 => "Resnet-50"@,
        SupportedModels::ClipVitB32Image => "ClipVit-B32-Image"@,
        SupportedModels::ClipVitB32Text => "ClipVit-B32-Text"@,
    }
}

/// The input a supported model consumes.
pub open spec fn model_type_of(m: SupportedModels) -> ModelType {
    match m {
        SupportedModels::AllMiniLML6V2 => ModelType::Text { max_input_tokens: 256 },
        SupportedModels::AllMiniLML12V2 => ModelType::Text { max_input_tokens: 256 },
        SupportedModels::BGEBaseEnV15 => ModelType::Text { max_input_tokens: 512 },
        SupportedModels::BGELargeEnV15 => ModelType::Text { max_input_tokens: 512 },
        SupportedModels::Resnet50 => ModelType::Image { expected_image_dimensions: (224, 224) },
        SupportedModels::ClipVitB32Image => ModelType::Image {
            expected_image_dimensions: (224, 224),
        },
        SupportedModels::ClipVitB32Text => ModelType::Text { max_input_tokens: 77 },
    }
}

/// The length of the embeddings a supported model produces.
pub open spec fn embedding_size_of(m: SupportedModels) -> nat {
    match m {
        SupportedModels::AllMiniLML6V2 => 384,
        SupportedModels::AllMiniLML12V2 => 384,
        SupportedModels::BGEBaseEnV15 => 768,
        SupportedModels::BGELargeEnV15 => 1024,
        SupportedModels::Resnet50 => 2048,
        SupportedModels::ClipVitB32Image => 512,
        SupportedModels::ClipVitB32Text => 512,
    }
}

/// The description of a supported model.
pub open spec fn description_of(m: SupportedModels) -> Seq<char> {
    match m {
        SupportedModels::AllMiniLML6V2 => "Sentence Transformer model, with 6 layers, version 2"@,
        SupportedModels::AllMiniLML12V2 => "Sentence Transformer model, with 12 layers, version 2."@,
        SupportedModels::BGEBaseEnV15 => "BAAI General Embedding model with English support, base scale, version 1.5."@,
        SupportedModels::BGELargeEnV15 => "BAAI General Embedding model with English support, large scale, version 1.5."@,
        SupportedModels::Resnet50 => "Residual Networks model, with 50 layers."@,
        SupportedModels::ClipVitB32Image => "Contrastive Language-Image Pre-Training Vision transformer model, base scale."@,
        SupportedModels::ClipVitB32Text => "Contrastive Language-Image Pre-Training Text transformer model, base scale. Ideal for embedding very short text and using in combination with ClipVitB32Image"@,
    }
}

/// The input type a model type accepts.
pub open spec fn input_type_of(t: ModelType) -> AiStoreInputType {
    match t {
        ModelType::Text { .. } => AiStoreInputType::RawString,
        ModelType::Image { .. } => AiStoreInputType::Image,
    }
}

/// The wire model that a supported model corresponds to.
pub open spec fn spec_to_ai_model(m: SupportedModels) -> AiModel {
    match m {
        SupportedModels::AllMiniLML6V2 => AiModel::AllMiniLmL6V2,
        SupportedModels::AllMiniLML12V2 => AiModel::AllMiniLmL12V2,
        SupportedModels::BGEBaseEnV15 => AiModel::BgeBaseEnV15,
        SupportedModels::BGELargeEnV15 => AiModel::BgeLargeEnV15,
        SupportedModels::Resnet50 => AiModel::Resnet50,
        SupportedModels::ClipVitB32Image => AiModel::ClipVitB32Image,
        SupportedModels::ClipVitB32Text => AiModel::ClipVitB32Text,
    }
}

/// The supported model that a wire model corresponds to.
pub open spec fn spec_from_ai_model(m: AiModel) -> SupportedModels {
    match m {
        AiModel::AllMiniLmL6V2 => SupportedModels::AllMiniLML6V2,
        AiModel::AllMiniLmL12V2 => SupportedModels::AllMiniLML12V2,
        AiModel::BgeBaseEnV15 => SupportedModels::BGEBaseEnV15,
        AiModel::BgeLargeEnV15 => SupportedModels::BGELargeEnV15,
        AiModel::Resnet50 => SupportedModels::Resnet50,
        AiModel::ClipVitB32Image => SupportedModels::ClipVitB32Image,
        AiModel::ClipVitB32Text => SupportedModels::ClipVitB32Text,
    }
}

/// The listing that names each model followed by ", ".
pub open spec fn models_listing(s: Seq<SupportedModels>) -> Seq<char>
    decreases s.len(),
{
    if s.len() == 0 {
        Seq::empty()
    } else {
        models_listing(s.drop_last()) + display_name(s.last()) + ", "@
    }
}

/// Converting a supported model to its wire model and back gives the model
/// again, and the same holds the other way round.
pub proof fn law_model_conversion_round_trip(s: SupportedModels, a: AiModel)
    ensures
        spec_from_ai_model(spec_to_ai_model(s)) == s,
        spec_to_ai_model(spec_from_ai_model(a)) == a,
{
}

/// The embedding lengths of the catalogue: 384 for the MiniLM sentence
/// transformers, 768 and 1024 for the base and large BGE models, 2048 for
/// ResNet-50, and 512 for both towers of CLIP, so that text queries can search
/// a store of image embeddings.
pub proof fn law_embedding_sizes(m: SupportedModels)
    ensures
        embedding_size_of(SupportedModels::AllMiniLML6V2) == 384,
        embedding_size_of(SupportedModels::AllMiniLML12V2) == 384,
        embedding_size_of(SupportedModels::BGEBaseEnV15) == 768,
        embedding_size_of(SupportedModels::BGELargeEnV15) == 1024,
        embedding_size_of(SupportedModels::Resnet50) == 2048,
        embedding_size_of(SupportedModels::ClipVitB32Image) == 512,
        embedding_size_of(SupportedModels::ClipVitB32Text) == 512,
        embedding_size_of(SupportedModels::ClipVitB32Image) == embedding_size_of(SupportedModels::ClipVitB32Text),
        embedding_size_of(m) == 384 || embedding_size_of(m) == 512 || embedding_size_of(m) == 768
            || embedding_size_of(m) == 1024 || embedding_size_of(m) == 2048,
        embedding_size_of(m) == 512 <==> (m == SupportedModels::ClipVitB32Image || m == SupportedModels::ClipVitB32Text),
{
}

/// Two supported models with the same display name are the same model.
pub proof fn law_display_names_are_distinct(a: SupportedModels, b: SupportedModels)
    requires
        display_name(a) == display_name(b),
    ensures
        a == b,
{
    reveal_strlit("all-MiniLM-L6-v2");
    reveal_strlit("all-MiniLM-L12-v2");
    reveal_strlit("BGEBase-En-v1.5");
    reveal_strlit("BGELarge-En-v1.5");
    reveal_strlit("Resnet-50");
    reveal_strlit("ClipVit-B32-Image");
    reveal_strlit("ClipVit-B32-Text");
    assert(display_name(a).len() == display_name(b).len());
    assert(display_name(a)[0] == display_name(b)[0]);
    match a {
        SupportedModels::AllMiniLML6V2 => assert(display_name(a)[0] == 'a' && display_name(a).len() == 16),
        SupportedModels::AllMiniLML12V2 => assert(display_name(a)[0] == 'a' && display_name(a).len() == 17),
        SupportedModels::BGEBaseEnV15 => assert(display_name(a)[0] == 'B' && display_name(a).len() == 15),
        SupportedModels::BGELargeEnV15 => assert(display_name(a)[0] == 'B' && display_name(a).len() == 16),
        SupportedModels::Resnet50 => assert(display_name(a)[0] == 'R' && display_name(a).len() == 9),
        SupportedModels::ClipVitB32Image => assert(display_name(a)[0] == 'C' && display_name(a).len() == 17),
        SupportedModels::ClipVitB32Text => assert(display_name(a)[0] == 'C' && display_name(a).len() == 16),
    }
    match b {
        SupportedModels::AllMiniLML6V2 => assert(display_name(b)[0] == 'a' && display_name(b).len() == 16),
        SupportedModels::AllMiniLML12V2 => assert(display_name(b)[0] == 'a' && display_name(b).len() == 17),
        SupportedModels::BGEBaseEnV15 => assert(display_name(b)[0] == 'B' && display_name(b).len() == 15),
        SupportedModels::BGELargeEnV15 => assert(display_name(b)[0] == 'B' && display_name(b).len() == 16),
        SupportedModels::Resnet50 => assert(display_name(b)[0] == 'R' && display_name(b).len() == 9),
        SupportedModels::ClipVitB32Image => assert(display_name(b)[0] == 'C' && display_name(b).len() == 17),
        SupportedModels::ClipVitB32Text => assert(display_name(b)[0] == 'C' && display_name(b).len() == 16),
    }
}

impl SupportedModels {
    /// The wire model for this supported model.
    pub fn to_ai_model(&self) -> (res: AiModel)
        ensures
            res == spec_to_ai_model(*self),
    {
        match self {
            SupportedModels::AllMiniLML6V2 => AiModel::AllMiniLmL6V2,
            SupportedModels::AllMiniLML12V2 => AiModel::AllMiniLmL12V2,
            SupportedModels::BGEBaseEnV15 => AiModel::BgeBaseEnV15,
            SupportedModels::BGELargeEnV15 => AiModel::BgeLargeEnV15,
            SupportedModels::Resnet50 => AiModel::Resnet50,
            SupportedModels::ClipVitB32Image => AiModel::ClipVitB32Image,
            SupportedModels::ClipVitB32Text => AiModel::ClipVitB32Text,
        }
    }

    /// The supported model for a wire model.
    pub fn from_ai_model(m: &AiModel) -> (res: SupportedModels)
        ensures
            res == spec_from_ai_model(*m),
    {
        match m {
            AiModel::AllMiniLmL6V2 => SupportedModels::AllMiniLML6V2,
            AiModel::AllMiniLmL12V2 => SupportedModels::AllMiniLML12V2,
            AiModel::BgeBaseEnV15 => SupportedModels::BGEBaseEnV15,
            AiModel::BgeLargeEnV15 => SupportedModels::BGELargeEnV15,
            AiModel::Resnet50 => SupportedModels::Resnet50,
            AiModel::ClipVitB32Image => SupportedModels::ClipVitB32Image,
            AiModel::ClipVitB32Text => SupportedModels::ClipVitB32Text,
        }
    }

    /// Every supported model, in declaration order.
    pub fn variants() -> (res: Vec<SupportedModels>)
        ensures
            res@ == all_supported_models(),
    {
        let res = vec![
            SupportedModels::AllMiniLML6V2,
            SupportedModels::AllMiniLML12V2,
            SupportedModels::BGEBaseEnV15,
            SupportedModels::BGELargeEnV15,
            SupportedModels::Resnet50,
            SupportedModels::ClipVitB32Image,
            SupportedModels::ClipVitB32Text,
        ];
        assert(res@ =~= all_supported_models());
        res
    }

    /// The name under which this model is displayed.
    pub fn display_string(&self) -> (res: String)
        ensures
            res@ == display_name(*self),
    {
        match self {
            SupportedModels::AllMiniLML6V2 => String::from_str("all-MiniLM-L6-v2"),
            SupportedModels::AllMiniLML12V2 => String::from_str("all-MiniLM-L12-v2"),
            SupportedModels::BGEBaseEnV15 => String::from_str("BGEBase-En-v1.5"),
            SupportedModels::BGELargeEnV15 => String::from_str("BGELarge-En-v1.5"),
            SupportedModels::Resnet50 => String::from_str("Resnet-50"),
            SupportedModels::ClipVitB32Image => String::from_str("ClipVit-B32-Image"),
            SupportedModels::ClipVitB32Text => String::from_str("ClipVit-B32-Text"),
        }
    }

    /// The kind of input this model consumes.
    pub fn model_type(&self) -> (res: ModelType)
        ensures
            res == model_type_of(*self),
    {
        match self {
            SupportedModels::AllMiniLML6V2 => ModelType::Text { max_input_tokens: 256 },
            SupportedModels::AllMiniLML12V2 => ModelType::Text { max_input_tokens: 256 },
            SupportedModels::BGEBaseEnV15 => ModelType::Text { max_input_tokens: 512 },
            SupportedModels::BGELargeEnV15 => ModelType::Text { max_input_tokens: 512 },
            SupportedModels::Resnet50 => ModelType::Image { expected_image_dimensions: (224, 224) },
            SupportedModels::ClipVitB32Image => ModelType::Image {
                expected_image_dimensions: (224, 224),
            },
            SupportedModels::ClipVitB32Text => ModelType::Text { max_input_tokens: 77 },
        }
    }

    /// The length of the embeddings this model produces.
    pub fn embedding_size(&self) -> (res: usize)
        ensures
            res == embedding_size_of(*self),
    {
        match self {
            SupportedModels::AllMiniLML6V2 => 384,
            SupportedModels::AllMiniLML12V2 => 384,
            SupportedModels::BGEBaseEnV15 => 768,
            SupportedModels::BGELargeEnV15 => 1024,
            SupportedModels::Resnet50 => 2048,
            SupportedModels::ClipVitB32Image => 512,
            SupportedModels::ClipVitB32Text => 512,
        }
    }

    fn description(&self) -> (res: String)
        ensures
            res@ == description_of(*self),
    {
        match self {
            SupportedModels::AllMiniLML6V2 => String::from_str(
                "Sentence Transformer model, with 6 layers, version 2",
            ),
            SupportedModels::AllMiniLML12V2 => String::from_str(
                "Sentence Transformer model, with 12 layers, version 2.",
            ),
            SupportedModels::BGEBaseEnV15 => String::from_str(
                "BAAI General Embedding model with English support, base scale, version 1.5.",
            ),
            SupportedModels::BGELargeEnV15 => String::from_str(
                "BAAI General Embedding model with English support, large scale, version 1.5.",
            ),
            SupportedModels::Resnet50 => String::from_str("Residual Networks model, with 50 layers."),
            SupportedModels::ClipVitB32Image => String::from_str(
                "Contrastive Language-Image Pre-Training Vision transformer model, base scale.",
            ),
            SupportedModels::ClipVitB32Text => String::from_str(
                "Contrastive Language-Image Pre-Training Text transformer model, base scale. Ideal for embedding very short text and using in combination with ClipVitB32Image",
            ),
        }
    }

    /// The public facts about this model.
    pub fn to_model_details(&self) -> (res: ModelDetails)
        ensures
            res.model_type == model_type_of(*self),
            res.supported_model == *self,
            res.embedding_size == embedding_size_of(*self),
            res.description@ == description_of(*self),
    {
        ModelDetails {
            model_type: self.model_type(),
            description: self.description(),
            supported_model: *self,
            embedding_size: self.embedding_size(),
        }
    }
}

impl ModelDetails {
    /// The kind of store input the model accepts.
    pub fn input_type(&self) -> (res: AiStoreInputType)
        ensures
            res == input_type_of(self.model_type),
    {
        match self.model_type {
            ModelType::Text { .. } => AiStoreInputType::RawString,
            ModelType::Image { .. } => AiStoreInputType::Image,
        }
    }

    /// The token limit of a text model; none for an image model.
    pub fn max_input_token(&self) -> (res: Option<usize>)
        ensures
            match self.model_type {
                ModelType::Text { max_input_tokens } => res == Some(max_input_tokens),
                ModelType::Image { .. } => res is None,
            },
    {
        match self.model_type {
            ModelType::Text { max_input_tokens } => Some(max_input_tokens),
            ModelType::Image { .. } => None,
        }
    }

    /// The (width, height) an image model expects; none for a text model.
    pub fn expected_image_dimensions(&self) -> (res: Option<(usize, usize)>)
        ensures
            match self.model_type {
                ModelType::Text { .. } => res is None,
                ModelType::Image { expected_image_dimensions } => res == Some(
                    expected_image_dimensions,
                ),
            },
    {
        match self.model_type {
            ModelType::Text { .. } => None,
            ModelType::Image { expected_image_dimensions: (width, height) } => Some((width, height)),
        }
    }

    /// The display name of the model.
    pub fn model_name(&self) -> (res: String)
        ensures
            res@ == display_name(self.supported_model),
    {
        self.supported_model.display_string()
    }
}

impl InputAction {
    /// "query" or "index".
    pub fn display_string(&self) -> (res: String)
        ensures
            res@ == (match *self {
                InputAction::Query => "query"@,
                InputAction::Index => "index"@,
            }),
    {
        match self {
            InputAction::Query => String::from_str("query"),
            InputAction::Index => String::from_str("index"),
        }
    }
}

impl AiStoreInputType {
    /// "RawString" or "Image".
    pub fn display_string(&self) -> (res: String)
        ensures
            res@ == (match *self {
                AiStoreInputType::RawString => "RawString"@,
                AiStoreInputType::Image => "Image"@,
            }),
    {
        match self {
            AiStoreInputType::RawString => String::from_str("RawString"),
            AiStoreInputType::Image => String::from_str("Image"),
        }
    }
}

/// Arguments of the command that lists supported models.
pub struct SupportedModelArgs {
    /// Models to display information about.
    pub names: Vec<SupportedModels>,
}

impl SupportedModelArgs {
    /// The names of all supported models, each followed by ", ".
    pub fn list_supported_models(&self) -> (res: String)
        ensures
            res@ == models_listing(all_supported_models()),
    {
        let variants = SupportedModels::variants();
        let mut output = String::new();
        let mut i: usize = 0;
        while i < variants.len()
            invariant
                variants@ == all_supported_models(),
                0 <= i <= variants@.len(),
                output@ == models_listing(variants@.subrange(0, i as int)),
            decreases variants@.len() - i,
        {
            let name = variants[i].display_string();
            let sep = String::from_str(", ");
            proof {
                let s = variants@.subrange(0, i as int + 1);
                assert(s.drop_last() =~= variants@.subrange(0, i as int));
            }
            output.append(name.as_str());
            output.append(sep.as_str());
            i = i + 1;
        }
        assert(variants@.subrange(0, variants@.len() as int) =~= variants@);
        output
    }

    /// The details of each requested model, in the order requested.
    pub fn requested_model_details(&self) -> (res: Vec<ModelDetails>)
        ensures
            res@.len() == self.names@.len(),
            forall|i: int|
                0 <= i < res@.len() ==> (#[trigger] res@[i]).supported_model == self.names@[i]
                    && res@[i].model_type == model_type_of(self.names@[i])
                    && res@[i].embedding_size == embedding_size_of(self.names@[i])
                    && res@[i].description@ == description_of(self.names@[i]),
    {
        let mut output: Vec<ModelDetails> = Vec::new();
        let mut i: usize = 0;
        while i < self.names.len()
            invariant
                0 <= i <= self.names@.len(),
                output@.len() == i,
                forall|j: int|
                    0 <= j < i ==> (#[trigger] output@[j]).supported_model == self.names@[j]
                        && output@[j].model_type == model_type_of(self.names@[j])
                        && output@[j].embedding_size == embedding_size_of(self.names@[j])
                        && output@[j].description@ == description_of(self.names@[j]),
            decreases self.names@.len() - i,
        {
            output.push(self.names[i].to_model_details());
            i = i + 1;
        }
        output
    }
}

} // verus!
