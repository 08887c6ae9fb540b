//! Command-line vocabulary and the rules on how options combine.

use crate::error::ArgError;
use crate::metric::{metric_named, MetricKind};
use vstd::prelude::*;

verus! {

/// The type of the vectors.
#[derive(Clone, Copy, Debug, PartialEq, Eq, Structural)]
pub enum DatasetType {
    Dense,
    Sparse,
}

/// The type of stored values.
#[derive(Clone, Copy, Debug, PartialEq, Eq, Structural)]
pub enum ValueTypeArg {
    F16,
    F32,
    Fixedu8,
    Fixedu16,
}

/// How vectors are encoded.
#[derive(Clone, Copy, Debug, PartialEq, Eq, Structural)]
pub enum EncoderType {
    Plain,
    Pq,
    Dotvbyte,
    Rabitq,
    RabitqExt,
}

/// How the graph is ordered and stored.
#[derive(Clone, Copy, Debug, PartialEq, Eq, Structural)]
pub enum GraphType {
    /// Plain neighbor lists, original node order.
    Standard,
    /// Padded neighbor lists, original node order.
    FixedDegree,
    /// Plain neighbor lists, reordered nodes.
    Permuted,
    /// Compressed neighbor lists, reordered nodes.
    Streamvbyte,
}

/// The type of the components of sparse vectors.
#[derive(Clone, Copy, Debug, PartialEq, Eq, Structural)]
pub enum ComponentTypeArg {
    U16,
    U32,
}

impl Default for ValueTypeArg {
    fn default() -> (value: ValueTypeArg)
        ensures
            value == ValueTypeArg::F32,
    {
        ValueTypeArg::F32
    }
}

impl Default for EncoderType {
    fn default() -> (encoder: EncoderType)
        ensures
            encoder == EncoderType::Plain,
    {
        EncoderType::Plain
    }
}

impl Default for ComponentTypeArg {
    fn default() -> (component: ComponentTypeArg)
        ensures
            component == ComponentTypeArg::U16,
    {
        ComponentTypeArg::U16
    }
}

impl ValueTypeArg {
    pub open spec fn name_spec(self) -> Seq<char> {
        match self {
            ValueTypeArg::F16 => "f16"@,
            ValueTypeArg::F32 => "f32"@,
            ValueTypeArg::Fixedu8 => "fixedu8"@,
            ValueTypeArg::Fixedu16 => "fixedu16"@,
        }
    }

    /// The name of the value type.
    pub fn name(self) -> (name: &'static str)
        ensures
            name@ == self.name_spec(),
    {
        match self {
            ValueTypeArg::F16 => "f16",
            ValueTypeArg::F32 => "f32",
            ValueTypeArg::Fixedu8 => "fixedu8",
            ValueTypeArg::Fixedu16 => "fixedu16",
        }
    }

    pub open spec fn is_fixed_spec(self) -> bool {
        self is Fixedu8 || self is Fixedu16
    }

    /// Whether values are stored in fixed point.
    pub fn is_fixed(self) -> (fixed: bool)
        ensures
            fixed == self.is_fixed_spec(),
    {
        match self {
            ValueTypeArg::Fixedu8 | ValueTypeArg::Fixedu16 => true,
            _ => false,
        }
    }
}

impl EncoderType {
    pub open spec fn name_spec(self) -> Seq<char> {
        match self {
            EncoderType::Plain => "plain"@,
            EncoderType::Pq => "pq"@,
            EncoderType::Dotvbyte => "dotvbyte"@,
            EncoderType::Rabitq => "rabitq"@,
            EncoderType::RabitqExt => "rabitq-ext"@,
        }
    }

    /// The name of the encoder.
    pub fn name(self) -> (name: &'static str)
        ensures
            name@ == self.name_spec(),
    {
        match self {
            EncoderType::Plain => "plain",
            EncoderType::Pq => "pq",
            EncoderType::Dotvbyte => "dotvbyte",
            EncoderType::Rabitq => "rabitq",
            EncoderType::RabitqExt => "rabitq-ext",
        }
    }
}

/// No two value types share a name.
pub proof fn law_value_type_names_differ(a: ValueTypeArg, b: ValueTypeArg)
    ensures
        a.name_spec() == b.name_spec() <==> a == b,
{
    reveal_strlit("f16");
    reveal_strlit("f32");
    reveal_strlit("fixedu8");
    reveal_strlit("fixedu16");
    assert("f16"@.len() == 3 && "f32"@.len() == 3);
    assert("fixedu8"@.len() == 7 && "fixedu16"@.len() == 8);
    assert("f16"@[1] != "f32"@[1]);
}

/// No two encoders share a name.
pub proof fn law_encoder_names_differ(a: EncoderType, b: EncoderType)
    ensures
        a.name_spec() == b.name_spec() <==> a == b,
{
    reveal_strlit("plain");
    reveal_strlit("pq");
    reveal_strlit("dotvbyte");
    reveal_strlit("rabitq");
    reveal_strlit("rabitq-ext");
    assert("plain"@.len() == 5 && "pq"@.len() == 2 && "dotvbyte"@.len() == 8);
    assert("rabitq"@.len() == 6 && "rabitq-ext"@.len() == 10);
}

/// What is wrong with a combination of vectors, encoder, values and components: the
/// first of the rules that it breaks.
pub open spec fn combination_error(
    dataset_type: DatasetType,
    encoder: EncoderType,
    value_type: ValueTypeArg,
    component_type: ComponentTypeArg,
) -> Option<ArgError> {
    match (dataset_type, encoder) {
        (DatasetType::Sparse, EncoderType::Pq) => Some(ArgError::PqIsDenseOnly),
        (DatasetType::Sparse, EncoderType::Rabitq) => Some(ArgError::RabitqIsDenseOnly),
        (DatasetType::Sparse, EncoderType::RabitqExt) => Some(ArgError::RabitqIsDenseOnly),
        (DatasetType::Sparse, EncoderType::Dotvbyte) => if component_type is U16 {
            None
        } else {
            Some(ArgError::DotvbyteNeedsU16)
        },
        (DatasetType::Sparse, EncoderType::Plain) => None,
        (DatasetType::Dense, EncoderType::Dotvbyte) => Some(ArgError::DotvbyteIsSparseOnly),
        (DatasetType::Dense, _) => if !(encoder is Pq) && value_type.is_fixed_spec() {
            Some(ArgError::FixedPointIsSparseOnly)
        } else if component_type is U32 {
            Some(ArgError::ComponentTypeIsSparseOnly)
        } else {
            None
        },
    }
}

/// Checks how vectors, encoder, values and components combine.
pub fn check_combination(
    dataset_type: DatasetType,
    encoder: EncoderType,
    value_type: ValueTypeArg,
    component_type: ComponentTypeArg,
) -> (checked: Result<(), ArgError>)
    ensures
        checked == (match combination_error(dataset_type, encoder, value_type, component_type) {
            Some(error) => Err::<(), ArgError>(error),
            None => Ok(()),
        }),
{
    match (dataset_type, encoder) {
        (DatasetType::Sparse, EncoderType::Pq) => Err(ArgError::PqIsDenseOnly),
        (DatasetType::Sparse, EncoderType::Rabitq) => Err(ArgError::RabitqIsDenseOnly),
        (DatasetType::Sparse, EncoderType::RabitqExt) => Err(ArgError::RabitqIsDenseOnly),
        (DatasetType::Dense, EncoderType::Dotvbyte) => Err(ArgError::DotvbyteIsSparseOnly),
        (DatasetType::Dense, EncoderType::Pq) => check_dense_component(component_type),
        (DatasetType::Dense, _) => {
            if value_type.is_fixed() {
                Err(ArgError::FixedPointIsSparseOnly)
            } else {
                check_dense_component(component_type)
            }
        },
        (DatasetType::Sparse, EncoderType::Dotvbyte) => match component_type {
            ComponentTypeArg::U16 => Ok(()),
            ComponentTypeArg::U32 => Err(ArgError::DotvbyteNeedsU16),
        },
        (DatasetType::Sparse, EncoderType::Plain) => Ok(()),
    }
}

fn check_dense_component(component_type: ComponentTypeArg) -> (checked: Result<(), ArgError>)
    ensures
        checked == if component_type is U16 {
            Ok::<(), ArgError>(())
        } else {
            Err(ArgError::ComponentTypeIsSparseOnly)
        },
{
    match component_type {
        ComponentTypeArg::U16 => Ok(()),
        ComponentTypeArg::U32 => Err(ArgError::ComponentTypeIsSparseOnly),
    }
}

/// A combination is accepted exactly where product quantization and RaBitQ encode
/// dense vectors, DotVByte encodes sparse ones with 16-bit components, fixed-point
/// values are chosen for sparse vectors only (product quantization ignores the choice),
/// and no component type is chosen for dense vectors.
pub proof fn law_accepted_combinations(
    dataset_type: DatasetType,
    encoder: EncoderType,
    value_type: ValueTypeArg,
    component_type: ComponentTypeArg,
)
    ensures
        combination_error(dataset_type, encoder, value_type, component_type) is None <==> {
            &&& encoder is Pq ==> dataset_type is Dense
            &&& encoder is Rabitq || encoder is RabitqExt ==> dataset_type is Dense
            &&& encoder is Dotvbyte ==> dataset_type is Sparse
            &&& dataset_type is Dense && !(encoder is Pq) ==> !value_type.is_fixed_spec()
            &&& dataset_type is Dense ==> component_type is U16
            &&& encoder is Dotvbyte ==> component_type is U16
        },
{
}

/// What an index stores its vectors as.
#[derive(Clone, Copy, Debug, PartialEq, Eq, Structural)]
pub enum StoredAs {
    DensePlain { value: ValueTypeArg },
    DensePq,
    DenseRabitq,
    DenseRabitqExt,
    SparsePlain { component: ComponentTypeArg, value: ValueTypeArg },
    SparseScalar { component: ComponentTypeArg, value: ValueTypeArg },
    SparseDotvbyte,
}

/// What vectors are stored as; values that an encoder fixes itself play no part.
pub open spec fn stored_as_spec(
    dataset_type: DatasetType,
    encoder: EncoderType,
    value_type: ValueTypeArg,
    component_type: ComponentTypeArg,
) -> StoredAs {
    match encoder {
        EncoderType::Pq => StoredAs::DensePq,
        EncoderType::Rabitq => StoredAs::DenseRabitq,
        EncoderType::RabitqExt => StoredAs::DenseRabitqExt,
        EncoderType::Dotvbyte => StoredAs::SparseDotvbyte,
        EncoderType::Plain => if dataset_type is Dense {
            StoredAs::DensePlain { value: value_type }
        } else if value_type.is_fixed_spec() {
            StoredAs::SparseScalar { component: component_type, value: value_type }
        } else {
            StoredAs::SparsePlain { component: component_type, value: value_type }
        },
    }
}

/// What vectors are stored as.
pub fn stored_as(
    dataset_type: DatasetType,
    encoder: EncoderType,
    value_type: ValueTypeArg,
    component_type: ComponentTypeArg,
) -> (stored: StoredAs)
    ensures
        stored == stored_as_spec(dataset_type, encoder, value_type, component_type),
{
    match encoder {
        EncoderType::Pq => StoredAs::DensePq,
        EncoderType::Rabitq => StoredAs::DenseRabitq,
        EncoderType::RabitqExt => StoredAs::DenseRabitqExt,
        EncoderType::Dotvbyte => StoredAs::SparseDotvbyte,
        EncoderType::Plain => match dataset_type {
            DatasetType::Dense => StoredAs::DensePlain { value: value_type },
            DatasetType::Sparse => {
                if value_type.is_fixed() {
                    StoredAs::SparseScalar { component: component_type, value: value_type }
                } else {
                    StoredAs::SparsePlain { component: component_type, value: value_type }
                }
            },
        },
    }
}

/// What a graph is stored as.
#[derive(Clone, Copy, Debug, PartialEq, Eq, Structural)]
pub enum GraphStorage {
    Plain,
    FixedDegree,
    StreamVByte,
}

impl GraphType {
    pub open spec fn storage_spec(self) -> GraphStorage {
        match self {
            GraphType::Standard => GraphStorage::Plain,
            GraphType::FixedDegree => GraphStorage::FixedDegree,
            GraphType::Permuted => GraphStorage::Plain,
            GraphType::Streamvbyte => GraphStorage::StreamVByte,
        }
    }

    /// What a graph of this type is stored as.
    pub fn storage(self) -> (storage: GraphStorage)
        ensures
            storage == self.storage_spec(),
    {
        match self {
            GraphType::Standard => GraphStorage::Plain,
            GraphType::FixedDegree => GraphStorage::FixedDegree,
            GraphType::Permuted => GraphStorage::Plain,
            GraphType::Streamvbyte => GraphStorage::StreamVByte,
        }
    }

    pub open spec fn permutes_spec(self) -> bool {
        self is Permuted || self is Streamvbyte
    }

    /// Whether the nodes of a graph of this type are reordered.
    pub fn permutes(self) -> (permutes: bool)
        ensures
            permutes == self.permutes_spec(),
    {
        match self {
            GraphType::Permuted | GraphType::Streamvbyte => true,
            _ => false,
        }
    }
}

/// The metric with the given name, as it is written.
pub fn parse_metric(metric: &str) -> (parsed: Result<MetricKind, ArgError>)
    ensures
        parsed == (match crate::metric::metric_named_spec(metric@) {
            Some(kind) => Ok::<MetricKind, ArgError>(kind),
            None => Err(ArgError::InvalidDistance),
        }),
{
    match metric_named(metric) {
        Some(kind) => Ok(kind),
        None => Err(ArgError::InvalidDistance),
    }
}

} // verus!
