//! The pre- and postprocessing steps of the models: their configuration, read
//! from the model's JSON files, and the integer side of each step. The pixel
//! and floating-point arithmetic runs in the server.
use vstd::prelude::*;
use crate::errors::AIProxyError;
use crate::json::{
    JsonValue, as_bool, as_str, as_u64, bool_of, field, get_at, is_object, object_at, str_of, u64_of,
};
use crate::models::{SupportedModels, display_name};
use crate::text::{concat_str, decimal, decimal_string};

verus! {

/// Below this edge a ConvNeXt feature extractor crops its images.
pub const CONV_NEXT_FEATURE_EXTRACTOR_CENTER_CROP_THRESHOLD: u32 = 384;

/// Cropping to a fixed size around the image's centre, when enabled.
#[derive(Debug)]
pub struct CenterCrop {
    /// (width, height)
    pub crop_size: (u32, u32),
    pub process: bool,
}

/// The processor type a configuration names, `CLIPImageProcessor` when none.
pub open spec fn processor_type(config: JsonValue) -> Seq<char> {
    match str_of(field(Some(config), "image_processor_type"@)) {
        Some(t) => t,
        None => "CLIPImageProcessor"@,
    }
}

pub open spec fn crop_size_message() -> Seq<char> {
    "The key 'crop_size' is missing from the configuration or has the wrong type; it should be an integer or an object containing 'height' and 'width' mappings."@
}

pub open spec fn crop_height_message() -> Seq<char> {
    "The key 'height' is missing from the ['crop_size'] section of the configuration or has the wrong type; it should be an integer"@
}

pub open spec fn crop_width_message() -> Seq<char> {
    "The key 'width' is missing from the ['crop_size'] section of the configuration or has the wrong type; it should be an integer"@
}

pub open spec fn crop_size_object_message() -> Seq<char> {
    "The key 'size' is missing from the configuration or has the wrong type; it should be an object containing a 'shortest_edge' mapping."@
}

pub open spec fn shortest_edge_message() -> Seq<char> {
    "The key 'shortest_edge' is missing from the ['size'] section of the configuration or has the wrong type; it should be an integer"@
}

pub open spec fn processor_type_message(t: Seq<char>) -> Seq<char> {
    "The key 'image_processor_type' in the configuration has the wrong value: "@ + t
        + "; it should be either 'CLIPImageProcessor' or 'ConvNextFeatureExtractor'."@
}

/// The centre crop a configuration asks for, as ((width, height), enabled), or
/// the message of what is wrong with it.
pub open spec fn center_crop_config(config: JsonValue) -> Result<((u32, u32), bool), Seq<char>> {
    let c = Some(config);
    if bool_of(field(c, "do_center_crop"@)) != Some(true) {
        Ok(((0, 0), false))
    } else if processor_type(config) == "CLIPImageProcessor"@ {
        let crop = field(c, "crop_size"@);
        if !(is_object(crop) || u64_of(crop) is Some) {
            Err(crop_size_message())
        } else if is_object(crop) {
            match u64_of(field(crop, "height"@)) {
                None => Err(crop_height_message()),
                Some(h) => match u64_of(field(crop, "width"@)) {
                    None => Err(crop_width_message()),
                    Some(w) => Ok(((w as u32, h as u32), true)),
                },
            }
        } else {
            let s = u64_of(crop)->0 as u32;
            Ok(((s, s), true))
        }
    } else if processor_type(config) == "ConvNextFeatureExtractor"@ {
        let size = field(c, "size"@);
        if !is_object(size) {
            Err(crop_size_object_message())
        } else {
            match u64_of(field(size, "shortest_edge"@)) {
                None => Err(shortest_edge_message()),
                Some(e) => Ok(
                    ((e as u32, e as u32), (e as u32) < CONV_NEXT_FEATURE_EXTRACTOR_CENTER_CROP_THRESHOLD),
                ),
            }
        }
    } else {
        Err(processor_type_message(processor_type(config)))
    }
}

fn config_error(message: &str) -> (res: AIProxyError)
    ensures
        res matches AIProxyError::ModelConfigLoadError { message: m } && m@ == message@,
{
    AIProxyError::ModelConfigLoadError { message: String::from_str(message) }
}

/// The processor type a configuration names.
fn processor_type_of(config: &JsonValue) -> (res: String)
    ensures
        res@ == processor_type(*config),
{
    match as_str(config.get("image_processor_type")) {
        Some(t) => t.clone(),
        None => String::from_str("CLIPImageProcessor"),
    }
}

impl CenterCrop {
    /// Reads the centre crop from a model's preprocessor configuration.
    pub fn try_from(config: &JsonValue) -> (res: Result<CenterCrop, AIProxyError>)
        ensures
            match center_crop_config(*config) {
                Ok((size, process)) => res matches Ok(c) && c.crop_size == size && c.process
                    == process,
                Err(m) => res matches Err(AIProxyError::ModelConfigLoadError { message }) && message@
                    == m,
            },
    {
        if as_bool(config.get("do_center_crop")) != Some(true) {
            return Ok(CenterCrop { crop_size: (0, 0), process: false });
        }
        let t = processor_type_of(config);
        if crate::keyed::str_equal(t.as_str(), "CLIPImageProcessor") {
            let crop = config.get("crop_size");
            let crop_is_object = object_at(crop);
            let crop_int = as_u64(crop);
            if !(crop_is_object || crop_int.is_some()) {
                return Err(
                    config_error(
                        "The key 'crop_size' is missing from the configuration or has the wrong type; it should be an integer or an object containing 'height' and 'width' mappings.",
                    ),
                );
            }
            if crop_is_object {
                let h = match as_u64(get_at(crop, "height")) {
                    Some(h) => h,
                    None => {
                        return Err(
                            config_error(
                                "The key 'height' is missing from the ['crop_size'] section of the configuration or has the wrong type; it should be an integer",
                            ),
                        );
                    },
                };
                let w = match as_u64(get_at(crop, "width")) {
                    Some(w) => w,
                    None => {
                        return Err(
                            config_error(
                                "The key 'width' is missing from the ['crop_size'] section of the configuration or has the wrong type; it should be an integer",
                            ),
                        );
                    },
                };
                Ok(CenterCrop { crop_size: (w as u32, h as u32), process: true })
            } else {
                let s = crop_int.unwrap() as u32;
                Ok(CenterCrop { crop_size: (s, s), process: true })
            }
        } else if crate::keyed::str_equal(t.as_str(), "ConvNextFeatureExtractor") {
            let size = config.get("size");
            if !object_at(size) {
                return Err(
                    config_error(
                        "The key 'size' is missing from the configuration or has the wrong type; it should be an object containing a 'shortest_edge' mapping.",
                    ),
                );
            }
            match as_u64(get_at(size, "shortest_edge")) {
                Some(e) => {
                    let edge = e as u32;
                    Ok(
                        CenterCrop {
                            crop_size: (edge, edge),
                            process: edge < CONV_NEXT_FEATURE_EXTRACTOR_CENTER_CROP_THRESHOLD,
                        },
                    )
                },
                None => Err(
                    config_error(
                        "The key 'shortest_edge' is missing from the ['size'] section of the configuration or has the wrong type; it should be an integer",
                    ),
                ),
            }
        } else {
            let a = concat_str(
                "The key 'image_processor_type' in the configuration has the wrong value: ",
                t.as_str(),
            );
            let m = concat_str(
                a.as_str(),
                "; it should be either 'CLIPImageProcessor' or 'ConvNextFeatureExtractor'.",
            );
            Err(AIProxyError::ModelConfigLoadError { message: m })
        }
    }

    /// What the crop does to an image of this (width, height): leave it, cut
    /// the centred window out of it, or, when the window is larger, resize the
    /// image to the window's size.
    pub fn crop_action(&self, width: u32, height: u32) -> (res: CropAction)
        requires
            self.process && !(self.crop_size.0 == width && self.crop_size.1 == height) && (
            self.crop_size.0 <= width || self.crop_size.1 <= height) ==> self.crop_size.0 <= width
                && self.crop_size.1 <= height,
        ensures
            res == crop_action_of(self.crop_size, self.process, width, height),
            self.process ==> size_after(res, width, height) == self.crop_size,
            !self.process ==> res == CropAction::Keep,
    {
        proof {
            law_center_crop_yields_crop_size(self.crop_size, self.process, width, height);
        }
        let (cw, ch) = self.crop_size;
        if !self.process {
            CropAction::Keep
        } else if cw == width && ch == height {
            CropAction::Keep
        } else if cw <= width || ch <= height {
            CropAction::Crop { x: (width - cw) / 2, y: (height - ch) / 2, width: cw, height: ch }
        } else {
            CropAction::Resize { width: cw, height: ch }
        }
    }
}

/// What a crop does to one image.
#[derive(Clone, Copy, Debug, PartialEq, Eq, Structural)]
pub enum CropAction {
    Keep,
    Crop { x: u32, y: u32, width: u32, height: u32 },
    Resize { width: u32, height: u32 },
}

/// What a crop of `size` does to an image of (width, height).
pub open spec fn crop_action_of(size: (u32, u32), process: bool, width: u32, height: u32) -> CropAction {
    let (cw, ch) = size;
    if !process || (cw == width && ch == height) {
        CropAction::Keep
    } else if cw <= width || ch <= height {
        CropAction::Crop {
            x: ((width - cw) / 2) as u32,
            y: ((height - ch) / 2) as u32,
            width: cw,
            height: ch,
        }
    } else {
        CropAction::Resize { width: cw, height: ch }
    }
}

/// The (width, height) of an image of (width, height) after a crop action.
pub open spec fn size_after(action: CropAction, width: u32, height: u32) -> (u32, u32) {
    match action {
        CropAction::Keep => (width, height),
        CropAction::Crop { width: w, height: h, .. } => (w, h),
        CropAction::Resize { width: w, height: h } => (w, h),
    }
}

/// With processing on, a centre crop always yields an image of exactly the
/// crop size: cut out, when the window fits, as the window centred in the
/// image (the left and top margins are half the slack, rounded down), and
/// resized to it otherwise. With processing off, the image is left as it is.
pub proof fn law_center_crop_yields_crop_size(size: (u32, u32), process: bool, width: u32, height: u32)
    requires
        process && !(size.0 == width && size.1 == height) && (size.0 <= width || size.1 <= height)
            ==> size.0 <= width && size.1 <= height,
    ensures
        !process ==> crop_action_of(size, process, width, height) == CropAction::Keep,
        process ==> size_after(crop_action_of(size, process, width, height), width, height) == size,
        crop_action_of(size, process, width, height) matches CropAction::Crop { x, y, width: cw, height: ch }
            ==> x + cw <= width && y + ch <= height && 2 * x <= width - cw <= 2 * x + 1 && 2 * y
            <= height - ch <= 2 * y + 1,
{
}

/// The resizing a configuration asks for.
#[derive(Clone, Copy, Debug, PartialEq, Eq, Structural)]
pub enum ResizePlan {
    /// Resize to exactly (width, height), with Catmull-Rom filtering.
    Exact { width: u32, height: u32 },
    /// Resize to a square whose edge is `edge` divided by the configuration's
    /// `crop_pct` (0.875 when absent), a floating-point step the server takes.
    ConvNextUpsample { edge: u32 },
}

pub open spec fn resize_size_message() -> Seq<char> {
    "The key 'size' is missing from the configuration or has the wrong type; it should be an object containing a 'shortest_edge' mapping or a 'width' and 'height' mapping."@
}

pub open spec fn resize_value_message() -> Seq<char> {
    "The ['size'] section of the configuration must contain either a 'shortest_edge' mapping or 'width' and 'height' mappings (when 'image_processor_type' is 'CLIPImageProcessor'); they should be integers."@
}

pub open spec fn resize_type_message(t: Seq<char>) -> Seq<char> {
    "Resize init failed. image_processor_type "@ + t + " not supported"@
}

/// The resizing a configuration asks for, none when disabled, or the message
/// of what is wrong with it.
pub open spec fn resize_config(config: JsonValue) -> Result<Option<ResizePlan>, Seq<char>> {
    let c = Some(config);
    let t = processor_type(config);
    let size = field(c, "size"@);
    let edge = u64_of(field(size, "shortest_edge"@));
    let sw = u64_of(field(size, "width"@));
    let sh = u64_of(field(size, "height"@));
    if bool_of(field(c, "do_resize"@)) != Some(true) {
        Ok(None)
    } else if !is_object(size) {
        Err(resize_size_message())
    } else if !(edge is Some || (sw is Some && sh is Some && t == "CLIPImageProcessor"@)) {
        Err(resize_value_message())
    } else {
        let (w, h) = if edge is Some {
            (edge->0 as u32, edge->0 as u32)
        } else {
            (sw->0 as u32, sh->0 as u32)
        };
        if t == "CLIPImageProcessor"@ {
            Ok(Some(ResizePlan::Exact { width: w, height: h }))
        } else if t == "ConvNextFeatureExtractor"@ {
            if w >= CONV_NEXT_FEATURE_EXTRACTOR_CENTER_CROP_THRESHOLD {
                Ok(Some(ResizePlan::Exact { width: w, height: h }))
            } else {
                Ok(Some(ResizePlan::ConvNextUpsample { edge: w }))
            }
        } else {
            Err(resize_type_message(t))
        }
    }
}

/// Resizing of images to a model's input size.
#[derive(Debug)]
pub struct Resize {
    pub plan: ResizePlan,
}

impl Resize {
    /// Reads the resizing from a model's preprocessor configuration.
    pub fn initialize(config: &JsonValue) -> (res: Result<Option<ResizePlan>, AIProxyError>)
        ensures
            match resize_config(*config) {
                Ok(p) => res == Ok::<Option<ResizePlan>, AIProxyError>(p),
                Err(m) => res matches Err(AIProxyError::ModelConfigLoadError { message }) && message@
                    == m,
            },
    {
        if as_bool(config.get("do_resize")) != Some(true) {
            return Ok(None);
        }
        let t = processor_type_of(config);
        let size = config.get("size");
        if !object_at(size) {
            return Err(
                config_error(
                    "The key 'size' is missing from the configuration or has the wrong type; it should be an object containing a 'shortest_edge' mapping or a 'width' and 'height' mapping.",
                ),
            );
        }
        let edge = as_u64(get_at(size, "shortest_edge"));
        let sw = as_u64(get_at(size, "width"));
        let sh = as_u64(get_at(size, "height"));
        let clip = crate::keyed::str_equal(t.as_str(), "CLIPImageProcessor");
        if !(edge.is_some() || (sw.is_some() && sh.is_some() && clip)) {
            return Err(
                config_error(
                    "The ['size'] section of the configuration must contain either a 'shortest_edge' mapping or 'width' and 'height' mappings (when 'image_processor_type' is 'CLIPImageProcessor'); they should be integers.",
                ),
            );
        }
        let (w, h): (u32, u32) = match edge {
            Some(e) => (e as u32, e as u32),
            None => (sw.unwrap() as u32, sh.unwrap() as u32),
        };
        if clip {
            Ok(Some(ResizePlan::Exact { width: w, height: h }))
        } else if crate::keyed::str_equal(t.as_str(), "ConvNextFeatureExtractor") {
            if w >= CONV_NEXT_FEATURE_EXTRACTOR_CENTER_CROP_THRESHOLD {
                Ok(Some(ResizePlan::Exact { width: w, height: h }))
            } else {
                Ok(Some(ResizePlan::ConvNextUpsample { edge: w }))
            }
        } else {
            let a = concat_str("Resize init failed. image_processor_type ", t.as_str());
            let m = concat_str(a.as_str(), " not supported");
            Err(AIProxyError::ModelConfigLoadError { message: m })
        }
    }
}

/// Selects one named output of a model's graph and passes it on as a matrix
/// or a rank-3 tensor.
#[derive(Debug)]
pub struct OnnxOutputTransform {
    pub output_key: String,
}

/// The rank of a selected output.
#[derive(Clone, Copy, Debug, PartialEq, Eq, Structural)]
pub enum OutputRank {
    Two,
    Three,
}

impl OnnxOutputTransform {
    /// Selects the output named `output_key`.
    pub fn new(output_key: &str) -> (res: OnnxOutputTransform)
        ensures
            res.output_key@ == output_key@,
    {
        OnnxOutputTransform { output_key: String::from_str(output_key) }
    }

    /// What becomes of the output: an error when it is missing, is not a
    /// tensor of floats, or is neither a matrix nor of rank three.
    pub fn output_rank(&self, found: bool, float_tensor: bool, ndim: usize) -> (res: Result<
        OutputRank,
        AIProxyError,
    >)
        ensures
            !found ==> (res matches Err(AIProxyError::OnnxOutputTransformError { message: m }) && m@
                == "Output key '"@ + self.output_key@ + "' not found in the OnnxOutput."@),
            found && !float_tensor ==> (res matches Err(
                AIProxyError::OnnxOutputTransformError { message: m },
            ) && m@ == "Failed to extract tensor from OnnxOutput."@),
            found && float_tensor && ndim == 2 ==> res == Ok::<OutputRank, AIProxyError>(
                OutputRank::Two,
            ),
            found && float_tensor && ndim == 3 ==> res == Ok::<OutputRank, AIProxyError>(
                OutputRank::Three,
            ),
            found && float_tensor && ndim != 2 && ndim != 3 ==> (res matches Err(
                AIProxyError::OnnxOutputTransformError { message: m },
            ) && m@ == "Only 2D and 3D tensors are supported."@),
    {
        if !found {
            let a = concat_str("Output key '", self.output_key.as_str());
            let m = concat_str(a.as_str(), "' not found in the OnnxOutput.");
            return Err(AIProxyError::OnnxOutputTransformError { message: m });
        }
        if !float_tensor {
            return Err(
                AIProxyError::OnnxOutputTransformError {
                    message: String::from_str("Failed to extract tensor from OnnxOutput."),
                },
            );
        }
        if ndim == 2 {
            Ok(OutputRank::Two)
        } else if ndim == 3 {
            Ok(OutputRank::Three)
        } else {
            Err(
                AIProxyError::OnnxOutputTransformError {
                    message: String::from_str("Only 2D and 3D tensors are supported."),
                },
            )
        }
    }
}

/// A matrix in row-major order.
#[derive(Debug)]
pub struct Array2<T> {
    pub rows: usize,
    pub cols: usize,
    pub data: Vec<T>,
}

/// A rank-three tensor in row-major order.
#[derive(Debug)]
pub struct Array3<T> {
    pub d0: usize,
    pub d1: usize,
    pub d2: usize,
    pub data: Vec<T>,
}

/// What a postprocessing step works on.
#[derive(Debug)]
pub enum PostprocessorData<T> {
    /// The raw outputs of a session, before an output is selected.
    OnnxOutput,
    NdArray2(Array2<T>),
    NdArray3(Array3<T>),
}

/// The entry at row `b`, column `h` of row-major data with `cols` columns.
pub open spec fn at2<T>(data: Seq<T>, cols: int, b: int, h: int) -> T {
    data[b * cols + h]
}

/// Pooling that keeps each sequence's first token.
#[derive(Debug)]
pub struct RegularPooling;

/// Pooling that averages the tokens under the attention mask, computed in
/// floating point by the server.
#[derive(Debug)]
pub struct MeanPooling;

/// How a text model's token embeddings are pooled into one vector.
#[derive(Debug)]
pub enum Pooling {
    Regular(RegularPooling),
    Mean(MeanPooling),
}

/// Scaling of each embedding to unit length, computed in floating point by
/// the server.
#[derive(Debug)]
pub struct VectorNormalize;

impl RegularPooling {
    /// Keeps the first token of each sequence of a rank-three tensor; a
    /// matrix is already pooled.
    pub fn process<T: Copy>(&self, data: PostprocessorData<T>) -> (res: Result<PostprocessorData<T>, AIProxyError>)
        requires
            data matches PostprocessorData::NdArray3(a) ==> a.data@.len() == a.d0 * a.d1 * a.d2
                && a.d1 > 0,
        ensures
            match data {
                PostprocessorData::NdArray3(a) => res matches Ok(PostprocessorData::NdArray2(m))
                    && m.rows == a.d0 && m.cols == a.d2 && m.data@.len() == a.d0 * a.d2 && forall|
                    b: int,
                    h: int,
                |
                    0 <= b < a.d0 && 0 <= h < a.d2 ==> #[trigger] at2(m.data@, a.d2 as int, b, h)
                        == at2(a.data@, a.d1 * a.d2, b, h),
                PostprocessorData::NdArray2(m) => res == Ok::<PostprocessorData<T>, AIProxyError>(
                    PostprocessorData::NdArray2(m),
                ),
                PostprocessorData::OnnxOutput => res matches Err(
                    AIProxyError::PoolingError { message: msg },
                ) && msg@ == "Expected NdArray3, NdArray2"@,
            },
    {
        match data {
            PostprocessorData::NdArray3(a) => {
                let total = a.data.len();
                let ghost len = a.data@.len();
                let d0 = a.d0;
                let d1 = a.d1;
                let d2 = a.d2;
                assert(d1 * d2 <= len || d0 == 0) by (nonlinear_arith)
                    requires
                        len == d0 * d1 * d2,
                        d1 > 0,
                ;
                let step: usize = if d0 == 0 {
                    0
                } else {
                    d1 * d2
                };
                let mut out: Vec<T> = Vec::new();
                let mut b: usize = 0;
                let mut base: usize = 0;
                while b < d0
                    invariant
                        a.data@.len() == d0 * d1 * d2,
                        total == a.data@.len(),
                        d1 > 0,
                        d0 > 0 ==> step == d1 * d2,
                        b <= d0,
                        base == b * step,
                        out@.len() == b * d2,
                        forall|bb: int, h: int|
                            0 <= bb < b && 0 <= h < d2 ==> #[trigger] at2(out@, d2 as int, bb, h)
                                == at2(a.data@, d1 * d2, bb, h),
                    decreases d0 - b,
                {
                    assert(base + d2 <= a.data@.len()) by (nonlinear_arith)
                        requires
                            base == b * (d1 * d2),
                            b < d0,
                            d1 > 0,
                            a.data@.len() == d0 * d1 * d2,
                    ;
                    let mut h: usize = 0;
                    while h < d2
                        invariant
                            a.data@.len() == d0 * d1 * d2,
                            total == a.data@.len(),
                            base + d2 <= a.data@.len(),
                            h <= d2,
                            b < d0,
                            base == b * step,
                            d0 > 0 ==> step == d1 * d2,
                            out@.len() == b * d2 + h,
                            forall|bb: int, hh: int|
                                0 <= bb < b && 0 <= hh < d2 ==> #[trigger] at2(out@, d2 as int, bb, hh)
                                    == at2(a.data@, d1 * d2, bb, hh),
                            forall|hh: int|
                                0 <= hh < h ==> #[trigger] at2(out@, d2 as int, b as int, hh) == at2(
                                    a.data@,
                                    d1 * d2,
                                    b as int,
                                    hh,
                                ),
                        decreases d2 - h,
                    {
                        let ghost before = out@;
                        out.push(a.data[base + h]);
                        proof {
                            assert forall|bb: int, hh: int|
                                0 <= bb < b && 0 <= hh < d2 implies #[trigger] at2(out@, d2 as int, bb, hh)
                                == at2(a.data@, d1 * d2, bb, hh) by {
                                assert(bb * d2 + hh < b * d2) by (nonlinear_arith)
                                    requires
                                        0 <= bb < b,
                                        0 <= hh < d2,
                                ;
                                assert(out@[bb * d2 + hh] == before[bb * d2 + hh]);
                                assert(at2(before, d2 as int, bb, hh) == at2(a.data@, d1 * d2, bb, hh));
                            }
                            assert forall|hh: int|
                                0 <= hh < h + 1 implies #[trigger] at2(out@, d2 as int, b as int, hh)
                                == at2(a.data@, d1 * d2, b as int, hh) by {
                                if hh < h {
                                    assert(at2(before, d2 as int, b as int, hh) == at2(a.data@, d1 * d2, b as int, hh));
                                }
                            }
                        }
                        h = h + 1;
                    }
                    proof {
                        assert((b + 1) * step <= total) by (nonlinear_arith)
                            requires
                                b < d0,
                                step == d1 * d2,
                                total == d0 * d1 * d2,
                        ;
                        assert(out@.len() == (b + 1) * d2) by (nonlinear_arith)
                            requires
                                out@.len() == b * d2 + d2,
                        ;
                        assert(base + step == (b + 1) * step) by (nonlinear_arith)
                            requires
                                base == b * step,
                        ;
                        assert forall|bb: int, hh: int|
                            0 <= bb < b + 1 && 0 <= hh < d2 implies #[trigger] at2(out@, d2 as int, bb, hh)
                            == at2(a.data@, d1 * d2, bb, hh) by {
                            if bb == b {
                                assert(at2(out@, d2 as int, b as int, hh) == at2(a.data@, d1 * d2, b as int, hh));
                            }
                        }
                    }
                    base = base + step;
                    b = b + 1;
                }
                Ok(PostprocessorData::NdArray2(Array2 { rows: d0, cols: d2, data: out }))
            },
            PostprocessorData::NdArray2(m) => Ok(PostprocessorData::NdArray2(m)),
            PostprocessorData::OnnxOutput => Err(
                AIProxyError::PoolingError { message: String::from_str("Expected NdArray3, NdArray2") },
            ),
        }
    }
}

/// The postprocessing of an image model: the output it takes and whether its
/// embeddings are normalized.
#[derive(Debug)]
pub struct ORTImagePostprocessor {
    pub model: SupportedModels,
    pub onnx_output_transform: OnnxOutputTransform,
    pub normalize: Option<VectorNormalize>,
}

/// The postprocessing of a text model: the output it takes, how tokens are
/// pooled and whether the embeddings are normalized.
#[derive(Debug)]
pub struct ORTTextPostprocessor {
    pub model: SupportedModels,
    pub onnx_output_transform: OnnxOutputTransform,
    pub pooling: Pooling,
    pub normalize: Option<VectorNormalize>,
}

/// The error of a model a postprocessor does not handle.
pub open spec fn unsupported_postprocessor(model: SupportedModels, which: Seq<char>, e: AIProxyError) -> bool {
    e matches AIProxyError::ModelPostprocessingError { model_name: n, message: m } && n@
        == display_name(model) && m@ == "Unsupported model for "@ + which
}

impl ORTImagePostprocessor {
    /// The postprocessing of an image model.
    pub fn load(supported_model: SupportedModels) -> (res: Result<Self, AIProxyError>)
        ensures
            match supported_model {
                SupportedModels::Resnet50 => res matches Ok(p) && p.model == supported_model
                    && p.onnx_output_transform.output_key@ == "output"@ && p.normalize is Some,
                SupportedModels::ClipVitB32Image => res matches Ok(p) && p.model == supported_model
                    && p.onnx_output_transform.output_key@ == "image_embeds"@ && p.normalize is None,
                _ => res matches Err(e) && unsupported_postprocessor(
                    supported_model,
                    "ORTImagePostprocessor"@,
                    e,
                ),
            },
    {
        match supported_model {
            SupportedModels::Resnet50 => Ok(
                ORTImagePostprocessor {
                    model: supported_model,
                    onnx_output_transform: OnnxOutputTransform::new("output"),
                    normalize: Some(VectorNormalize),
                },
            ),
            SupportedModels::ClipVitB32Image => Ok(
                ORTImagePostprocessor {
                    model: supported_model,
                    onnx_output_transform: OnnxOutputTransform::new("image_embeds"),
                    normalize: None,
                },
            ),
            _ => Err(
                AIProxyError::ModelPostprocessingError {
                    model_name: supported_model.display_string(),
                    message: concat_str("Unsupported model for ", "ORTImagePostprocessor"),
                },
            ),
        }
    }
}

impl ORTTextPostprocessor {
    /// The postprocessing of a text model.
    pub fn load(supported_model: SupportedModels) -> (res: Result<Self, AIProxyError>)
        ensures
            match supported_model {
                SupportedModels::AllMiniLML6V2 | SupportedModels::AllMiniLML12V2 => res matches Ok(p)
                    && p.model == supported_model && p.onnx_output_transform.output_key@
                    == "last_hidden_state"@ && p.pooling is Mean && p.normalize is Some,
                SupportedModels::BGEBaseEnV15 | SupportedModels::BGELargeEnV15 => res matches Ok(p)
                    && p.model == supported_model && p.onnx_output_transform.output_key@
                    == "last_hidden_state"@ && p.pooling is Regular && p.normalize is Some,
                SupportedModels::ClipVitB32Text => res matches Ok(p) && p.model == supported_model
                    && p.onnx_output_transform.output_key@ == "text_embeds"@ && p.pooling is Mean
                    && p.normalize is None,
                _ => res matches Err(e) && unsupported_postprocessor(
                    supported_model,
                    "ORTTextPostprocessor"@,
                    e,
                ),
            },
            res matches Ok(p) ==> (p.normalize is Some <==> crate::inference::normalizes_pooled_text(
                supported_model,
            )),
    {
        match supported_model {
            SupportedModels::AllMiniLML6V2 | SupportedModels::AllMiniLML12V2 => Ok(
                ORTTextPostprocessor {
                    model: supported_model,
                    onnx_output_transform: OnnxOutputTransform::new("last_hidden_state"),
                    pooling: Pooling::Mean(MeanPooling),
                    normalize: Some(VectorNormalize),
                },
            ),
            SupportedModels::BGEBaseEnV15 | SupportedModels::BGELargeEnV15 => Ok(
                ORTTextPostprocessor {
                    model: supported_model,
                    onnx_output_transform: OnnxOutputTransform::new("last_hidden_state"),
                    pooling: Pooling::Regular(RegularPooling),
                    normalize: Some(VectorNormalize),
                },
            ),
            SupportedModels::ClipVitB32Text => Ok(
                ORTTextPostprocessor {
                    model: supported_model,
                    onnx_output_transform: OnnxOutputTransform::new("text_embeds"),
                    pooling: Pooling::Mean(MeanPooling),
                    normalize: None,
                },
            ),
            _ => Err(
                AIProxyError::ModelPostprocessingError {
                    model_name: supported_model.display_string(),
                    message: concat_str("Unsupported model for ", "ORTTextPostprocessor"),
                },
            ),
        }
    }
}

/// Stacks decoded images into one batch tensor.
#[derive(Debug)]
pub struct ImageArrayToNdArray;

/// "(w, h)" for a pair of sizes.
pub open spec fn pair_text(p: (usize, usize)) -> Seq<char> {
    "("@ + decimal(p.0 as nat) + ", "@ + decimal(p.1 as nat) + ")"@
}

/// The pairs of a list, each as "(w, h)", separated by ", ".
pub open spec fn pairs_text(s: Seq<(usize, usize)>) -> Seq<char>
    decreases s.len(),
{
    if s.len() == 0 {
        Seq::empty()
    } else if s.len() == 1 {
        pair_text(s[0])
    } else {
        pairs_text(s.drop_last()) + ", "@ + pair_text(s.last())
    }
}

/// The images can be stacked: there is at least one, and all have the size
/// of the first.
pub open spec fn stackable(dims: Seq<(usize, usize)>) -> bool {
    dims.len() > 0 && forall|i: int| 0 <= i < dims.len() ==> #[trigger] dims[i] == dims[0]
}

fn pair_string(p: (usize, usize)) -> (res: String)
    ensures
        res@ == pair_text(p),
{
    let a = concat_str("(", decimal_string(p.0).as_str());
    let b = concat_str(a.as_str(), ", ");
    let c = concat_str(b.as_str(), decimal_string(p.1).as_str());
    concat_str(c.as_str(), ")")
}

impl ImageArrayToNdArray {
    /// Whether images of these (width, height) sizes can be stacked into one
    /// batch; the error lists the sizes found.
    pub fn check_dimensions(&self, dims: &Vec<(usize, usize)>) -> (res: Result<(), AIProxyError>)
        ensures
            stackable(dims@) ==> res is Ok,
            !stackable(dims@) ==> (res matches Err(AIProxyError::ImageArrayToNdArrayError { message: m })
                && m@ == "Images must have same dimensions, instead found: ["@ + pairs_text(dims@)
                + "]."@),
    {
        let mut same = dims.len() > 0;
        let mut listing = String::new();
        let mut i: usize = 0;
        while i < dims.len()
            invariant
                0 <= i <= dims@.len(),
                listing@ == pairs_text(dims@.subrange(0, i as int)),
                same == (dims@.len() > 0 && forall|j: int| 0 <= j < i ==> #[trigger] dims@[j] == dims@[0]),
            decreases dims@.len() - i,
        {
            let p = pair_string(dims[i]);
            let ghost before = listing@;
            proof {
                let s = dims@.subrange(0, i as int + 1);
                assert(s.drop_last() =~= dims@.subrange(0, i as int));
                assert(s.last() == dims@[i as int]);
                if i == 0 {
                    assert(s.len() == 1);
                    assert(s[0] == dims@[0]);
                }
            }
            if i == 0 {
                listing = p;
            } else {
                let a = concat_str(listing.as_str(), ", ");
                listing = concat_str(a.as_str(), p.as_str());
            }
            if dims[i].0 != dims[0].0 || dims[i].1 != dims[0].1 {
                same = false;
            }
            i = i + 1;
        }
        proof {
            assert(dims@.subrange(0, dims@.len() as int) =~= dims@);
        }
        if same {
            Ok(())
        } else {
            let a = concat_str("Images must have same dimensions, instead found: [", listing.as_str());
            let m = concat_str(a.as_str(), "].");
            Err(AIProxyError::ImageArrayToNdArrayError { message: m })
        }
    }
}

/// The files of a model repository that a tokenizer is built from.
#[derive(Debug)]
pub struct TokenizerFiles {
    pub tokenizer_file: String,
    pub config_file: String,
    pub special_tokens_map_file: String,
    pub tokenizer_config_file: String,
}

impl TokenizerFiles {
    /// The files every text model of the catalogue ships.
    pub fn standard() -> (res: TokenizerFiles)
        ensures
            res.tokenizer_file@ == "tokenizer.json"@,
            res.config_file@ == "config.json"@,
            res.special_tokens_map_file@ == "special_tokens_map.json"@,
            res.tokenizer_config_file@ == "tokenizer_config.json"@,
    {
        TokenizerFiles {
            tokenizer_file: String::from_str("tokenizer.json"),
            config_file: String::from_str("config.json"),
            special_tokens_map_file: String::from_str("special_tokens_map.json"),
            tokenizer_config_file: String::from_str("tokenizer_config.json"),
        }
    }
}

/// The providers that can run a model.
#[derive(Clone, Copy, Debug, PartialEq, Eq, Structural)]
pub enum ModelProviderTypes {
    FastEmbed,
}

/// A special token a tokenizer is given: its text alone, or its text with
/// how it matches.
#[derive(Debug)]
pub enum SpecialToken {
    Plain(String),
    Detailed { content: String, single_word: bool, lstrip: bool, rstrip: bool, normalized: bool },
}

/// The abstract value of a special token.
pub enum TokenView {
    Plain(Seq<char>),
    Detailed(Seq<char>, bool, bool, bool, bool),
}

impl View for SpecialToken {
    type V = TokenView;

    open spec fn view(&self) -> TokenView {
        match self {
            SpecialToken::Plain(s) => TokenView::Plain(s@),
            SpecialToken::Detailed { content, single_word, lstrip, rstrip, normalized } => TokenView::Detailed(
                content@,
                *single_word,
                *lstrip,
                *rstrip,
                *normalized,
            ),
        }
    }
}

/// The settings of a text model's tokenizer, read from its configuration files.
#[derive(Debug)]
pub struct TokenizerSettings {
    pub model_max_length: usize,
    pub pad_id: u32,
    pub pad_token: String,
    pub special_tokens: Vec<SpecialToken>,
}

/// The token a member of the special tokens map gives: a string is a plain
/// token, an object a detailed one; other values give none.
pub open spec fn special_token_of(v: JsonValue) -> Option<TokenView> {
    let o = Some(v);
    match v {
        JsonValue::Str(s) => Some(TokenView::Plain(s@)),
        JsonValue::Object(_) => Some(
            TokenView::Detailed(
                str_of(field(o, "content"@))->0,
                bool_of(field(o, "single_word"@))->0,
                bool_of(field(o, "lstrip"@))->0,
                bool_of(field(o, "rstrip"@))->0,
                bool_of(field(o, "normalized"@))->0,
            ),
        ),
        _ => None,
    }
}

/// A detailed member names its text and all four flags.
pub open spec fn complete_token(v: JsonValue) -> bool {
    let o = Some(v);
    v is Object ==> str_of(field(o, "content"@)) is Some && bool_of(field(o, "single_word"@)) is Some
        && bool_of(field(o, "lstrip"@)) is Some && bool_of(field(o, "rstrip"@)) is Some && bool_of(
        field(o, "normalized"@),
    ) is Some
}

/// The tokens of the members of the special tokens map, in order.
pub open spec fn special_tokens_of(members: Seq<(String, JsonValue)>) -> Seq<TokenView>
    decreases members.len(),
{
    if members.len() == 0 {
        Seq::empty()
    } else {
        let prev = special_tokens_of(members.drop_last());
        match special_token_of(members.last().1) {
            Some(t) => prev.push(t),
            None => prev,
        }
    }
}

/// The members of a map, when it is an object.
pub open spec fn members_of(v: JsonValue) -> Seq<(String, JsonValue)> {
    match v {
        JsonValue::Object(m) => m@,
        _ => Seq::empty(),
    }
}

fn token_error(message: &str) -> (res: AIProxyError)
    ensures
        res matches AIProxyError::ModelTokenizerLoadError { message: m } && m@ == message@,
{
    AIProxyError::ModelTokenizerLoadError { message: String::from_str(message) }
}

/// Reads a text model's tokenizer settings: the length limit (which the
/// caller reads as a number from the tokenizer configuration, none when it is
/// not one), the padding id (0 when the model configuration has none), the
/// padding token, and the special tokens in the order of their map.
pub fn tokenizer_settings(
    config: &JsonValue,
    tokenizer_config: &JsonValue,
    special_tokens_map: &JsonValue,
    model_max_length: Option<usize>,
) -> (res: Result<TokenizerSettings, AIProxyError>)
    requires
        forall|i: int|
            0 <= i < members_of(*special_tokens_map).len() ==> complete_token(
                (#[trigger] members_of(*special_tokens_map)[i]).1,
            ),
    ensures
        model_max_length is None ==> (res matches Err(
            AIProxyError::ModelTokenizerLoadError { message: m },
        ) && m@ == "Error reading model_max_length from tokenizer_config"@),
        model_max_length is Some && str_of(field(Some(*tokenizer_config), "pad_token"@)) is None
            ==> (res matches Err(AIProxyError::ModelTokenizerLoadError { message: m }) && m@
            == "Error reading pad_token from tokenizer_config"@),
        model_max_length is Some && str_of(field(Some(*tokenizer_config), "pad_token"@)) is Some
            ==> (res matches Ok(t) && t.model_max_length == model_max_length->0 && t.pad_id == (
        match u64_of(field(Some(*config), "pad_token_id"@)) {
            Some(n) => n as u32,
            None => 0u32,
        }) && t.pad_token@ == str_of(field(Some(*tokenizer_config), "pad_token"@))->0
            && t.special_tokens@.map_values(|x: SpecialToken| x@) == special_tokens_of(
            members_of(*special_tokens_map),
        )),
{
    let max_len = match model_max_length {
        Some(m) => m,
        None => {
            return Err(token_error("Error reading model_max_length from tokenizer_config"));
        },
    };
    let pad_id: u32 = match as_u64(config.get("pad_token_id")) {
        Some(n) => n as u32,
        None => 0,
    };
    let pad_token = match as_str(tokenizer_config.get("pad_token")) {
        Some(t) => t.clone(),
        None => {
            return Err(token_error("Error reading pad_token from tokenizer_config"));
        },
    };
    let mut tokens: Vec<SpecialToken> = Vec::new();
    match special_tokens_map {
        JsonValue::Object(members) => {
            let mut i: usize = 0;
            proof {
                assert(members@ == members_of(*special_tokens_map));
                assert forall|j: int| 0 <= j < members@.len() implies complete_token(
                    (#[trigger] members@[j]).1,
                ) by {
                    assert(members@[j] == members_of(*special_tokens_map)[j]);
                }
                assert(members@.subrange(0, 0) =~= Seq::<(String, JsonValue)>::empty());
            }
            while i < members.len()
                invariant
                    0 <= i <= members@.len(),
                    members@ == members_of(*special_tokens_map),
                    forall|j: int| 0 <= j < members@.len() ==> complete_token((#[trigger] members@[j]).1),
                    tokens@.map_values(|x: SpecialToken| x@) == special_tokens_of(
                        members@.subrange(0, i as int),
                    ),
                decreases members@.len() - i,
            {
                proof {
                    assert(members@.subrange(0, i as int + 1).drop_last() =~= members@.subrange(
                        0,
                        i as int,
                    ));
                    assert(members@.subrange(0, i as int + 1).last() == members@[i as int]);
                    assert(complete_token(members@[i as int].1));
                }
                let ghost before = tokens@;
                let value = &members[i].1;
                match value {
                    JsonValue::Str(s) => {
                        tokens.push(SpecialToken::Plain(s.clone()));
                        proof {
                            assert(tokens@.map_values(|x: SpecialToken| x@) =~= before.map_values(
                                |x: SpecialToken| x@,
                            ).push(TokenView::Plain(s@)));
                        }
                    },
                    JsonValue::Object(_) => {
                        let v = Some(value);
                        let content = as_str(get_at(v, "content")).unwrap().clone();
                        let single_word = as_bool(get_at(v, "single_word")).unwrap();
                        let lstrip = as_bool(get_at(v, "lstrip")).unwrap();
                        let rstrip = as_bool(get_at(v, "rstrip")).unwrap();
                        let normalized = as_bool(get_at(v, "normalized")).unwrap();
                        let ghost t = TokenView::Detailed(content@, single_word, lstrip, rstrip, normalized);
                        tokens.push(
                            SpecialToken::Detailed { content, single_word, lstrip, rstrip, normalized },
                        );
                        proof {
                            assert(tokens@.map_values(|x: SpecialToken| x@) =~= before.map_values(
                                |x: SpecialToken| x@,
                            ).push(t));
                        }
                    },
                    _ => {},
                }
                i = i + 1;
            }
            proof {
                assert(members@.subrange(0, members@.len() as int) =~= members@);
            }
        },
        _ => {},
    }
    Ok(TokenizerSettings { model_max_length: max_len, pad_id, pad_token, special_tokens: tokens })
}

/// The value is an array of numbers.
pub open spec fn number_array(v: Option<JsonValue>) -> bool {
    match v {
        Some(JsonValue::Array(items)) => forall|i: int|
            0 <= i < items@.len() ==> (#[trigger] items@[i]) is Number,
        _ => false,
    }
}

/// The message of a missing or malformed float array.
pub open spec fn float_array_message(key: Seq<char>, present: bool) -> Seq<char> {
    if present {
        "The key '"@ + key + "' in the configuration must be an array of floats."@
    } else {
        "The key '"@ + key + "' is missing from the configuration."@
    }
}

/// Whether an image normalization is asked for, or the message of what is
/// wrong with its means and standard deviations, which must both be arrays of
/// numbers (read as floats by the caller).
pub open spec fn image_normalize_config(config: JsonValue) -> Result<bool, Seq<char>> {
    let c = Some(config);
    let mean = field(c, "image_mean"@);
    let std = field(c, "image_std"@);
    if bool_of(field(c, "do_normalize"@)) != Some(true) {
        Ok(false)
    } else if !number_array(mean) {
        Err(float_array_message("image_mean"@, mean is Some))
    } else if !number_array(std) {
        Err(float_array_message("image_std"@, std is Some))
    } else {
        Ok(true)
    }
}

fn check_float_array(v: Option<&JsonValue>, key: &str) -> (res: Result<(), AIProxyError>)
    ensures
        number_array(
            match v {
                Some(x) => Some(*x),
                None => None,
            },
        ) ==> res is Ok,
        !number_array(
            match v {
                Some(x) => Some(*x),
                None => None,
            },
        ) ==> (res matches Err(AIProxyError::ModelConfigLoadError { message: m }) && m@
            == float_array_message(key@, v is Some)),
{
    match v {
        Some(JsonValue::Array(items)) => {
            let mut i: usize = 0;
            let ghost whole = match v {
                Some(x) => Some(*x),
                None => None,
            };
            while i < items.len()
                invariant
                    0 <= i <= items@.len(),
                    whole is Some,
                    v is Some,
                    whole == (match v {
                        Some(x) => Some(*x),
                        None => None,
                    }),
                    number_array(whole) <==> forall|j: int|
                        0 <= j < items@.len() ==> (#[trigger] items@[j]) is Number,
                    forall|j: int| 0 <= j < i ==> (#[trigger] items@[j]) is Number,
                decreases items@.len() - i,
            {
                match &items[i] {
                    JsonValue::Number(_) => {},
                    _ => {
                        assert(!(items@[i as int] is Number));
                        let a = concat_str("The key '", key);
                        let m = concat_str(a.as_str(), "' in the configuration must be an array of floats.");
                        return Err(AIProxyError::ModelConfigLoadError { message: m });
                    },
                }
                i = i + 1;
            }
            Ok(())
        },
        Some(_) => {
            let a = concat_str("The key '", key);
            let m = concat_str(a.as_str(), "' in the configuration must be an array of floats.");
            Err(AIProxyError::ModelConfigLoadError { message: m })
        },
        None => {
            let a = concat_str("The key '", key);
            let m = concat_str(a.as_str(), "' is missing from the configuration.");
            Err(AIProxyError::ModelConfigLoadError { message: m })
        },
    }
}

/// The per-channel normalization of images, when enabled; the means and
/// standard deviations are floats, read by the server.
#[derive(Debug)]
pub struct ImageNormalize {
    pub process: bool,
}

impl ImageNormalize {
    /// Reads whether normalization is enabled, checking that the means and
    /// standard deviations are there.
    pub fn try_from(config: &JsonValue) -> (res: Result<ImageNormalize, AIProxyError>)
        ensures
            match image_normalize_config(*config) {
                Ok(p) => res matches Ok(n) && n.process == p,
                Err(m) => res matches Err(AIProxyError::ModelConfigLoadError { message }) && message@
                    == m,
            },
    {
        if as_bool(config.get("do_normalize")) != Some(true) {
            return Ok(ImageNormalize { process: false });
        }
        match check_float_array(config.get("image_mean"), "image_mean") {
            Ok(()) => {},
            Err(e) => {
                return Err(e);
            },
        }
        match check_float_array(config.get("image_std"), "image_std") {
            Ok(()) => {},
            Err(e) => {
                return Err(e);
            },
        }
        Ok(ImageNormalize { process: true })
    }
}

/// Whether images are rescaled: unless the configuration turns it off.
pub open spec fn rescale_enabled(config: JsonValue) -> bool {
    bool_of(field(Some(config), "do_rescale"@)) != Some(false)
}

/// Rescaling of pixel values by a factor, read as a float by the server.
#[derive(Debug)]
pub struct Rescale;

impl Rescale {
    /// Whether the configuration asks for rescaling; it does unless
    /// `do_rescale` is false.
    pub fn initialize(config: &JsonValue) -> (res: Option<Rescale>)
        ensures
            res is Some == rescale_enabled(*config),
    {
        match as_bool(config.get("do_rescale")) {
            Some(false) => None,
            _ => Some(Rescale),
        }
    }
}

/// The preprocessing of an image model, as its configuration sets it up:
/// resize, centre crop, conversion to a tensor, rescale and normalize, in
/// that order.
#[derive(Debug)]
pub struct ORTImagePreprocessor {
    pub model: SupportedModels,
    pub imagearray_to_ndarray: ImageArrayToNdArray,
    pub resize: Option<ResizePlan>,
    pub center_crop: CenterCrop,
    pub rescale: Option<Rescale>,
    pub normalize: ImageNormalize,
}

impl ORTImagePreprocessor {
    /// Sets up the preprocessing from a model's `preprocessor_config.json`;
    /// the first step whose configuration is wrong gives the error.
    pub fn from_config(model: SupportedModels, config: &JsonValue) -> (res: Result<Self, AIProxyError>)
        ensures
            match (resize_config(*config), center_crop_config(*config), image_normalize_config(*config)) {
                (Err(m), _, _) | (Ok(_), Err(m), _) | (Ok(_), Ok(_), Err(m)) => res matches Err(
                    AIProxyError::ModelConfigLoadError { message },
                ) && message@ == m,
                (Ok(r), Ok((size, process)), Ok(normalize)) => res matches Ok(p) && p.model == model
                    && p.resize == r && p.center_crop.crop_size == size && p.center_crop.process
                    == process && (p.rescale is Some == rescale_enabled(*config))
                    && p.normalize.process == normalize,
            },
    {
        let resize = match Resize::initialize(config) {
            Ok(r) => r,
            Err(e) => {
                return Err(e);
            },
        };
        let center_crop = match CenterCrop::try_from(config) {
            Ok(c) => c,
            Err(e) => {
                return Err(e);
            },
        };
        let rescale = Rescale::initialize(config);
        let normalize = match ImageNormalize::try_from(config) {
            Ok(n) => n,
            Err(e) => {
                return Err(e);
            },
        };
        Ok(
            ORTImagePreprocessor {
                model,
                imagearray_to_ndarray: ImageArrayToNdArray,
                resize,
                center_crop,
                rescale,
                normalize,
            },
        )
    }
}

} // verus!
