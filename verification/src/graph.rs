use vstd::prelude::*;

verus! {

/// Kinds of operations in the graph programming model.
///
/// The graph model is a companion surface to the primitive pipeline: these
/// descriptions name operations and their required attributes as plain
/// data; building and compiling the graph itself is not part of this
/// library.
#[derive(Debug, Clone, Copy, PartialEq, Eq, Structural)]
pub enum GraphOpKind {
    Abs,
    AbsBackward,
    Add,
    AvgPool,
    AvgPoolBackward,
    BatchNormInference,
    BiasAdd,
    Clamp,
    Concat,
    Convolution,
    Divide,
    Elu,
    End,
    Exp,
    Gelu,
    MatMul,
    MaxPool,
    Multiply,
    Reorder,
    Sigmoid,
    Softmax,
    StaticReshape,
    Subtract,
}

/// Attribute keys a graph operation can carry.
#[derive(Debug, Clone, Copy, PartialEq, Eq, Structural)]
pub enum OpAttrKind {
    AutoBroadcast,
    AutoPad,
    Axis,
    DataFormat,
    Dilations,
    ExcludePad,
    Kernel,
    Mode,
    PadsBegin,
    PadsEnd,
    RoundingType,
    Shape,
    SpecialZero,
    Strides,
    TransposeA,
    TransposeB,
}

/// Value of one graph-operation attribute.
#[derive(Debug)]
pub enum AttrValue {
    Bool(bool),
    Int(Vec<i64>),
    Str(String),
}

/// The attributes an operation demands before it is well formed: either
/// none, or a keyed list.
#[derive(Debug)]
pub enum RequiredAttrs {
    Empty,
    List(Vec<(OpAttrKind, AttrValue)>),
}

/// Description of the elementwise absolute-value operation.
#[derive(Debug, Clone, Copy)]
pub struct AbsSpec;

impl AbsSpec {
    /// The graph operation kind this description names.
    pub fn kind(&self) -> (r: GraphOpKind)
        ensures
            r == GraphOpKind::Abs,
    {
        GraphOpKind::Abs
    }
}

/// Description of the backward absolute-value operation.
#[derive(Debug, Clone, Copy)]
pub struct AbsBackwardSpec;

impl AbsBackwardSpec {
    /// The graph operation kind this description names.
    pub fn kind(&self) -> (r: GraphOpKind)
        ensures
            r == GraphOpKind::AbsBackward,
    {
        GraphOpKind::AbsBackward
    }
}

/// Description of the elementwise addition operation.
#[derive(Debug, Clone, Copy)]
pub struct AddSpec;

impl AddSpec {
    /// The graph operation kind this description names.
    pub fn kind(&self) -> (r: GraphOpKind)
        ensures
            r == GraphOpKind::Add,
    {
        GraphOpKind::Add
    }
}

/// Description of the average-pooling operation.
#[derive(Debug, Clone, Copy)]
pub struct AvgPoolSpec;

impl AvgPoolSpec {
    /// The graph operation kind this description names.
    pub fn kind(&self) -> (r: GraphOpKind)
        ensures
            r == GraphOpKind::AvgPool,
    {
        GraphOpKind::AvgPool
    }
}

/// The attributes average pooling requires.
#[derive(Debug)]
pub struct AvgPoolAttrs {
    pub strides: Vec<i64>,
    pub pads_begin: Vec<i64>,
    pub pads_end: Vec<i64>,
    pub exclude_pad: bool,
    pub kernel: Vec<i64>,
}

impl AvgPoolAttrs {
    /// The keyed attribute list this set spells.
    pub fn to_required_attrs(self) -> (r: RequiredAttrs)
        ensures
            r matches RequiredAttrs::List(v) && v@ == seq![
                (OpAttrKind::Strides, AttrValue::Int(self.strides)),
                (OpAttrKind::PadsBegin, AttrValue::Int(self.pads_begin)),
                (OpAttrKind::PadsEnd, AttrValue::Int(self.pads_end)),
                (OpAttrKind::ExcludePad, AttrValue::Bool(self.exclude_pad)),
                (OpAttrKind::Kernel, AttrValue::Int(self.kernel)),
            ],
    {
        let mut v: Vec<(OpAttrKind, AttrValue)> = Vec::new();
        v.push((OpAttrKind::Strides, AttrValue::Int(self.strides)));
        v.push((OpAttrKind::PadsBegin, AttrValue::Int(self.pads_begin)));
        v.push((OpAttrKind::PadsEnd, AttrValue::Int(self.pads_end)));
        v.push((OpAttrKind::ExcludePad, AttrValue::Bool(self.exclude_pad)));
        v.push((OpAttrKind::Kernel, AttrValue::Int(self.kernel)));
        RequiredAttrs::List(v)
    }
}

/// Description of the backward average-pooling operation.
#[derive(Debug, Clone, Copy)]
pub struct AvgPoolBackwardSpec;

impl AvgPoolBackwardSpec {
    /// The graph operation kind this description names.
    pub fn kind(&self) -> (r: GraphOpKind)
        ensures
            r == GraphOpKind::AvgPoolBackward,
    {
        GraphOpKind::AvgPoolBackward
    }
}

/// The attributes backward average pooling requires.
#[derive(Debug)]
pub struct AvgPoolBackwardAttrs {
    pub data_format: String,
}

impl AvgPoolBackwardAttrs {
    /// The keyed attribute list this set spells.
    pub fn to_required_attrs(self) -> (r: RequiredAttrs)
        ensures
            r matches RequiredAttrs::List(v) && v@ == seq![
                (OpAttrKind::DataFormat, AttrValue::Str(self.data_format)),
            ],
    {
        let mut v: Vec<(OpAttrKind, AttrValue)> = Vec::new();
        v.push((OpAttrKind::DataFormat, AttrValue::Str(self.data_format)));
        RequiredAttrs::List(v)
    }
}

/// Description of the batch-normalization inference operation.
#[derive(Debug, Clone, Copy)]
pub struct BatchNormInferenceSpec;

impl BatchNormInferenceSpec {
    /// The graph operation kind this description names.
    pub fn kind(&self) -> (r: GraphOpKind)
        ensures
            r == GraphOpKind::BatchNormInference,
    {
        GraphOpKind::BatchNormInference
    }
}

/// Description of the bias-addition operation.
#[derive(Debug, Clone, Copy)]
pub struct BiasAddSpec;

impl BiasAddSpec {
    /// The graph operation kind this description names.
    pub fn kind(&self) -> (r: GraphOpKind)
        ensures
            r == GraphOpKind::BiasAdd,
    {
        GraphOpKind::BiasAdd
    }
}

/// Description of the clamping operation.
#[derive(Debug, Clone, Copy)]
pub struct ClampSpec;

impl ClampSpec {
    /// The graph operation kind this description names.
    pub fn kind(&self) -> (r: GraphOpKind)
        ensures
            r == GraphOpKind::Clamp,
    {
        GraphOpKind::Clamp
    }
}

/// Description of the concatenation operation.
#[derive(Debug, Clone, Copy)]
pub struct ConcatSpec;

impl ConcatSpec {
    /// The graph operation kind this description names.
    pub fn kind(&self) -> (r: GraphOpKind)
        ensures
            r == GraphOpKind::Concat,
    {
        GraphOpKind::Concat
    }
}

/// The attributes concatenation requires.
#[derive(Debug, Clone, Copy)]
pub struct ConcatAttrs {
    pub axis: i64,
}

impl ConcatAttrs {
    /// The keyed attribute list this set spells.
    pub fn to_required_attrs(self) -> (r: RequiredAttrs)
        ensures
            r matches RequiredAttrs::List(v) && v@.len() == 1 && v@[0].0 == OpAttrKind::Axis && (
            v@[0].1 matches AttrValue::Int(x) && x@ == seq![self.axis]),
    {
        let mut axis: Vec<i64> = Vec::new();
        axis.push(self.axis);
        proof {
            assert(axis@ =~= seq![self.axis]);
        }
        let mut v: Vec<(OpAttrKind, AttrValue)> = Vec::new();
        v.push((OpAttrKind::Axis, AttrValue::Int(axis)));
        RequiredAttrs::List(v)
    }
}

/// Description of the convolution operation.
#[derive(Debug, Clone, Copy)]
pub struct ConvolutionSpec;

impl ConvolutionSpec {
    /// The graph operation kind this description names.
    pub fn kind(&self) -> (r: GraphOpKind)
        ensures
            r == GraphOpKind::Convolution,
    {
        GraphOpKind::Convolution
    }
}

/// The attributes convolution requires.
#[derive(Debug)]
pub struct ConvolutionAttrs {
    pub strides: Vec<i64>,
    pub pads_begin: Vec<i64>,
    pub pads_end: Vec<i64>,
    pub dilations: Vec<i64>,
}

impl ConvolutionAttrs {
    /// The keyed attribute list this set spells.
    pub fn to_required_attrs(self) -> (r: RequiredAttrs)
        ensures
            r matches RequiredAttrs::List(v) && v@ == seq![
                (OpAttrKind::Strides, AttrValue::Int(self.strides)),
                (OpAttrKind::PadsBegin, AttrValue::Int(self.pads_begin)),
                (OpAttrKind::PadsEnd, AttrValue::Int(self.pads_end)),
                (OpAttrKind::Dilations, AttrValue::Int(self.dilations)),
            ],
    {
        let mut v: Vec<(OpAttrKind, AttrValue)> = Vec::new();
        v.push((OpAttrKind::Strides, AttrValue::Int(self.strides)));
        v.push((OpAttrKind::PadsBegin, AttrValue::Int(self.pads_begin)));
        v.push((OpAttrKind::PadsEnd, AttrValue::Int(self.pads_end)));
        v.push((OpAttrKind::Dilations, AttrValue::Int(self.dilations)));
        RequiredAttrs::List(v)
    }
}

/// Description of the elementwise division operation.
#[derive(Debug, Clone, Copy)]
pub struct DivideSpec;

impl DivideSpec {
    /// The graph operation kind this description names.
    pub fn kind(&self) -> (r: GraphOpKind)
        ensures
            r == GraphOpKind::Divide,
    {
        GraphOpKind::Divide
    }
}

/// Description of the exponential-linear-unit operation.
#[derive(Debug, Clone, Copy)]
pub struct EluSpec;

impl EluSpec {
    /// The graph operation kind this description names.
    pub fn kind(&self) -> (r: GraphOpKind)
        ensures
            r == GraphOpKind::Elu,
    {
        GraphOpKind::Elu
    }
}

/// Description of the graph-terminating operation.
#[derive(Debug, Clone, Copy)]
pub struct EndSpec;

impl EndSpec {
    /// The graph operation kind this description names.
    pub fn kind(&self) -> (r: GraphOpKind)
        ensures
            r == GraphOpKind::End,
    {
        GraphOpKind::End
    }
}

/// Description of the elementwise exponential operation.
#[derive(Debug, Clone, Copy)]
pub struct ExpSpec;

impl ExpSpec {
    /// The graph operation kind this description names.
    pub fn kind(&self) -> (r: GraphOpKind)
        ensures
            r == GraphOpKind::Exp,
    {
        GraphOpKind::Exp
    }
}

/// Description of the Gaussian-error-linear-unit operation.
#[derive(Debug, Clone, Copy)]
pub struct GeluSpec;

impl GeluSpec {
    /// The graph operation kind this description names.
    pub fn kind(&self) -> (r: GraphOpKind)
        ensures
            r == GraphOpKind::Gelu,
    {
        GraphOpKind::Gelu
    }
}

/// The attributes the Gaussian error linear unit requires.
#[derive(Debug)]
pub struct GeluAttrs {
    pub mode: String,
}

impl GeluAttrs {
    /// The keyed attribute list this set spells.
    pub fn to_required_attrs(self) -> (r: RequiredAttrs)
        ensures
            r matches RequiredAttrs::List(v) && v@ == seq![
                (OpAttrKind::Mode, AttrValue::Str(self.mode)),
            ],
    {
        let mut v: Vec<(OpAttrKind, AttrValue)> = Vec::new();
        v.push((OpAttrKind::Mode, AttrValue::Str(self.mode)));
        RequiredAttrs::List(v)
    }
}

/// Description of the matrix-multiplication operation.
#[derive(Debug, Clone, Copy)]
pub struct MatMulSpec;

impl MatMulSpec {
    /// The graph operation kind this description names.
    pub fn kind(&self) -> (r: GraphOpKind)
        ensures
            r == GraphOpKind::MatMul,
    {
        GraphOpKind::MatMul
    }
}

/// The attributes matrix multiplication requires.
#[derive(Debug, Clone, Copy)]
pub struct MatMulAttrs {
    pub transpose_a: bool,
    pub transpose_b: bool,
}

impl MatMulAttrs {
    /// The keyed attribute list this set spells.
    pub fn to_required_attrs(self) -> (r: RequiredAttrs)
        ensures
            r matches RequiredAttrs::List(v) && v@ == seq![
                (OpAttrKind::TransposeA, AttrValue::Bool(self.transpose_a)),
                (OpAttrKind::TransposeB, AttrValue::Bool(self.transpose_b)),
            ],
    {
        let mut v: Vec<(OpAttrKind, AttrValue)> = Vec::new();
        v.push((OpAttrKind::TransposeA, AttrValue::Bool(self.transpose_a)));
        v.push((OpAttrKind::TransposeB, AttrValue::Bool(self.transpose_b)));
        RequiredAttrs::List(v)
    }
}

/// Description of the maximum-pooling operation.
#[derive(Debug, Clone, Copy)]
pub struct MaxPoolSpec;

impl MaxPoolSpec {
    /// The graph operation kind this description names.
    pub fn kind(&self) -> (r: GraphOpKind)
        ensures
            r == GraphOpKind::MaxPool,
    {
        GraphOpKind::MaxPool
    }
}

/// The attributes maximum pooling requires.
#[derive(Debug)]
pub struct MaxPoolAttrs {
    pub strides: Vec<i64>,
    pub pads_begin: Vec<i64>,
    pub pads_end: Vec<i64>,
    pub kernel: Vec<i64>,
}

impl MaxPoolAttrs {
    /// The keyed attribute list this set spells.
    pub fn to_required_attrs(self) -> (r: RequiredAttrs)
        ensures
            r matches RequiredAttrs::List(v) && v@ == seq![
                (OpAttrKind::Strides, AttrValue::Int(self.strides)),
                (OpAttrKind::PadsBegin, AttrValue::Int(self.pads_begin)),
                (OpAttrKind::PadsEnd, AttrValue::Int(self.pads_end)),
                (OpAttrKind::Kernel, AttrValue::Int(self.kernel)),
            ],
    {
        let mut v: Vec<(OpAttrKind, AttrValue)> = Vec::new();
        v.push((OpAttrKind::Strides, AttrValue::Int(self.strides)));
        v.push((OpAttrKind::PadsBegin, AttrValue::Int(self.pads_begin)));
        v.push((OpAttrKind::PadsEnd, AttrValue::Int(self.pads_end)));
        v.push((OpAttrKind::Kernel, AttrValue::Int(self.kernel)));
        RequiredAttrs::List(v)
    }
}

/// Description of the elementwise multiplication operation.
#[derive(Debug, Clone, Copy)]
pub struct MultiplySpec;

impl MultiplySpec {
    /// The graph operation kind this description names.
    pub fn kind(&self) -> (r: GraphOpKind)
        ensures
            r == GraphOpKind::Multiply,
    {
        GraphOpKind::Multiply
    }
}

/// Description of the layout-reordering operation.
#[derive(Debug, Clone, Copy)]
pub struct ReorderSpec;

impl ReorderSpec {
    /// The graph operation kind this description names.
    pub fn kind(&self) -> (r: GraphOpKind)
        ensures
            r == GraphOpKind::Reorder,
    {
        GraphOpKind::Reorder
    }
}

/// Description of the sigmoid operation.
#[derive(Debug, Clone, Copy)]
pub struct SigmoidSpec;

impl SigmoidSpec {
    /// The graph operation kind this description names.
    pub fn kind(&self) -> (r: GraphOpKind)
        ensures
            r == GraphOpKind::Sigmoid,
    {
        GraphOpKind::Sigmoid
    }
}

/// Description of the softmax operation.
#[derive(Debug, Clone, Copy)]
pub struct SoftmaxSpec;

impl SoftmaxSpec {
    /// The graph operation kind this description names.
    pub fn kind(&self) -> (r: GraphOpKind)
        ensures
            r == GraphOpKind::Softmax,
    {
        GraphOpKind::Softmax
    }
}

/// Description of the static-reshape operation.
#[derive(Debug, Clone, Copy)]
pub struct StaticReshapeSpec;

impl StaticReshapeSpec {
    /// The graph operation kind this description names.
    pub fn kind(&self) -> (r: GraphOpKind)
        ensures
            r == GraphOpKind::StaticReshape,
    {
        GraphOpKind::StaticReshape
    }
}

/// The attributes static reshaping requires.
#[derive(Debug)]
pub struct StaticReshapeAttrs {
    pub shape: Vec<i64>,
    pub special_zero: bool,
}

impl StaticReshapeAttrs {
    /// The keyed attribute list this set spells.
    pub fn to_required_attrs(self) -> (r: RequiredAttrs)
        ensures
            r matches RequiredAttrs::List(v) && v@ == seq![
                (OpAttrKind::Shape, AttrValue::Int(self.shape)),
                (OpAttrKind::SpecialZero, AttrValue::Bool(self.special_zero)),
            ],
    {
        let mut v: Vec<(OpAttrKind, AttrValue)> = Vec::new();
        v.push((OpAttrKind::Shape, AttrValue::Int(self.shape)));
        v.push((OpAttrKind::SpecialZero, AttrValue::Bool(self.special_zero)));
        RequiredAttrs::List(v)
    }
}

/// Description of the elementwise subtraction operation.
#[derive(Debug, Clone, Copy)]
pub struct SubtractSpec;

impl SubtractSpec {
    /// The graph operation kind this description names.
    pub fn kind(&self) -> (r: GraphOpKind)
        ensures
            r == GraphOpKind::Subtract,
    {
        GraphOpKind::Subtract
    }
}

} // verus!
