use crate::error::DnnlError;
use crate::memory::format_tag::{
    spec_tag_code, spec_tag_fits, spec_tag_from_code, FormatTag,
};
use vstd::arithmetic::div_mod::lemma_fundamental_div_mod_converse;
use vstd::prelude::*;

verus! {

/// Element type a layout descriptor declares for its tensor.
#[derive(Debug, Clone, Copy, PartialEq, Eq, Structural)]
pub enum DataType {
    /// 16-bit floating point.
    F16,
    /// 16-bit brain floating point.
    Bf16,
    /// 32-bit floating point.
    F32,
    /// 32-bit signed integer.
    S32,
    /// 8-bit signed integer.
    S8,
    /// 8-bit unsigned integer.
    U8,
    /// 64-bit floating point.
    F64,
}

/// Size in bytes of one element of a data type.
pub open spec fn spec_data_type_size(dt: DataType) -> nat {
    match dt {
        DataType::F16 => 2,
        DataType::Bf16 => 2,
        DataType::F32 => 4,
        DataType::S32 => 4,
        DataType::S8 => 1,
        DataType::U8 => 1,
        DataType::F64 => 8,
    }
}

/// Size in bytes of one element of a data type.
pub fn data_type_size(dt: DataType) -> (r: usize)
    ensures
        r == spec_data_type_size(dt),
        1 <= r <= 8,
{
    match dt {
        DataType::F16 => 2,
        DataType::Bf16 => 2,
        DataType::F32 => 4,
        DataType::S32 => 4,
        DataType::S8 => 1,
        DataType::U8 => 1,
        DataType::F64 => 8,
    }
}

/// Code under which a data type is serialized into a descriptor blob.
pub open spec fn spec_data_type_code(dt: DataType) -> u8 {
    match dt {
        DataType::F16 => 1,
        DataType::Bf16 => 2,
        DataType::F32 => 3,
        DataType::S32 => 4,
        DataType::S8 => 5,
        DataType::U8 => 6,
        DataType::F64 => 7,
    }
}

/// Data type denoted by a blob code.
pub open spec fn spec_data_type_from_code(code: u8) -> Option<DataType> {
    if code == 1 {
        Some(DataType::F16)
    } else if code == 2 {
        Some(DataType::Bf16)
    } else if code == 3 {
        Some(DataType::F32)
    } else if code == 4 {
        Some(DataType::S32)
    } else if code == 5 {
        Some(DataType::S8)
    } else if code == 6 {
        Some(DataType::U8)
    } else if code == 7 {
        Some(DataType::F64)
    } else {
        None
    }
}

impl DataType {
    /// Blob code of this data type.
    pub fn code(&self) -> (r: u8)
        ensures
            r == spec_data_type_code(*self),
    {
        match self {
            DataType::F16 => 1,
            DataType::Bf16 => 2,
            DataType::F32 => 3,
            DataType::S32 => 4,
            DataType::S8 => 5,
            DataType::U8 => 6,
            DataType::F64 => 7,
        }
    }

    /// Data type denoted by a blob code, if the code is in range.
    pub fn from_code(code: u8) -> (r: Option<DataType>)
        ensures
            r == spec_data_type_from_code(code),
    {
        match code {
            1 => Some(DataType::F16),
            2 => Some(DataType::Bf16),
            3 => Some(DataType::F32),
            4 => Some(DataType::S32),
            5 => Some(DataType::S8),
            6 => Some(DataType::U8),
            7 => Some(DataType::F64),
            _ => None,
        }
    }
}

/// Product of a dimension vector: the tensor's element count.
pub open spec fn spec_prod(dims: Seq<i64>) -> int
    decreases dims.len(),
{
    if dims.len() == 0 {
        1
    } else {
        dims[0] * spec_prod(dims.skip(1))
    }
}

/// A product of nonnegative dimensions is nonnegative.
pub proof fn lemma_prod_nonneg(dims: Seq<i64>)
    requires
        forall|i: int| 0 <= i < dims.len() ==> #[trigger] dims[i] >= 0,
    ensures
        spec_prod(dims) >= 0,
    decreases dims.len(),
{
    if dims.len() > 0 {
        lemma_prod_nonneg(dims.skip(1));
        assert(dims[0] >= 0);
        assert(dims[0] * spec_prod(dims.skip(1)) >= 0) by (nonlinear_arith)
            requires
                dims[0] >= 0,
                spec_prod(dims.skip(1)) >= 0,
        ;
    }
}

/// A dimension vector containing a zero has a zero product.
pub proof fn lemma_prod_zero(dims: Seq<i64>, i: int)
    requires
        0 <= i < dims.len(),
        dims[i] == 0,
    ensures
        spec_prod(dims) == 0,
    decreases dims.len(),
{
    if i == 0 {
        assert(dims[0] * spec_prod(dims.skip(1)) == 0) by (nonlinear_arith)
            requires
                dims[0] == 0,
        ;
    } else {
        lemma_prod_zero(dims.skip(1), i - 1);
        assert(dims[0] * spec_prod(dims.skip(1)) == 0) by (nonlinear_arith)
            requires
                spec_prod(dims.skip(1)) == 0,
        ;
    }
}

/// Extending a prefix by one dimension multiplies its product.
pub proof fn lemma_prod_take_step(dims: Seq<i64>, k: int)
    requires
        0 <= k < dims.len(),
    ensures
        spec_prod(dims.take(k + 1)) == spec_prod(dims.take(k)) * dims[k],
    decreases k,
{
    if k == 0 {
        assert(dims.take(1).skip(1) =~= Seq::<i64>::empty());
        assert(dims.take(0) =~= Seq::<i64>::empty());
        assert(spec_prod(Seq::<i64>::empty()) == 1);
        assert(dims.take(1).len() == 1);
        assert(dims.take(1)[0] == dims[0]);
        assert(spec_prod(dims.take(1)) == dims.take(1)[0] * spec_prod(dims.take(1).skip(1)));
    } else {
        lemma_prod_take_step(dims.skip(1), k - 1);
        assert(dims.take(k + 1).skip(1) =~= dims.skip(1).take(k));
        assert(dims.take(k).skip(1) =~= dims.skip(1).take(k - 1));
        assert(dims.take(k + 1)[0] == dims[0]);
        assert(dims.take(k)[0] == dims[0]);
        assert(dims.skip(1)[k - 1] == dims[k]);
        assert(spec_prod(dims.take(k + 1)) == dims[0] * spec_prod(dims.skip(1).take(k)));
        assert(spec_prod(dims.take(k)) == dims[0] * spec_prod(dims.skip(1).take(k - 1)));
        assert(dims[0] * (spec_prod(dims.skip(1).take(k - 1)) * dims[k]) == (dims[0] * spec_prod(
            dims.skip(1).take(k - 1),
        )) * dims[k]) by (nonlinear_arith);
    }
}

/// With every dimension at least one, a prefix product never exceeds the
/// whole product.
pub proof fn lemma_prod_take_le(dims: Seq<i64>, k: int)
    requires
        0 <= k <= dims.len(),
        forall|i: int| 0 <= i < dims.len() ==> #[trigger] dims[i] >= 1,
    ensures
        spec_prod(dims.take(k)) >= 1,
        spec_prod(dims.take(k)) <= spec_prod(dims),
    decreases dims.len() - k,
{
    if k == dims.len() {
        assert(dims.take(k) =~= dims);
        lemma_prod_pos(dims);
    } else {
        lemma_prod_take_le(dims, k + 1);
        lemma_prod_take_step(dims, k);
        lemma_prod_pos(dims.take(k));
        assert(spec_prod(dims.take(k)) <= spec_prod(dims.take(k)) * dims[k]) by (nonlinear_arith)
            requires
                spec_prod(dims.take(k)) >= 1,
                dims[k] >= 1,
        ;
    }
}

/// Unfolded product of a three-dimensional shape.
pub proof fn lemma_prod3(dims: Seq<i64>)
    requires
        dims.len() == 3,
    ensures
        spec_prod(dims) == dims[0] * dims[1] * dims[2],
{
    let s1 = dims.skip(1);
    let s2 = s1.skip(1);
    assert(s2.skip(1) =~= Seq::<i64>::empty());
    assert(s1[0] == dims[1]);
    assert(s2[0] == dims[2]);
    assert(s2.len() == 1);
    assert(spec_prod(Seq::<i64>::empty()) == 1);
    assert(spec_prod(s2) == dims[2] * 1);
    assert(spec_prod(s1) == dims[1] * spec_prod(s2));
    assert(spec_prod(dims) == dims[0] * spec_prod(s1));
    assert(dims[0] * (dims[1] * (dims[2] * 1)) == dims[0] * dims[1] * dims[2]) by (nonlinear_arith);
}

/// A product of positive dimensions is positive.
pub proof fn lemma_prod_pos(dims: Seq<i64>)
    requires
        forall|i: int| 0 <= i < dims.len() ==> #[trigger] dims[i] >= 1,
    ensures
        spec_prod(dims) >= 1,
    decreases dims.len(),
{
    if dims.len() > 0 {
        lemma_prod_pos(dims.skip(1));
        assert(dims[0] * spec_prod(dims.skip(1)) >= 1) by (nonlinear_arith)
            requires
                dims[0] >= 1,
                spec_prod(dims.skip(1)) >= 1,
        ;
    }
}

/// Validity of the raw ingredients of a layout descriptor: a dimension count
/// between one and [`crate::MAX_NDIMS`], a physical tag declared for that
/// count, no negative extent, and a total byte size that fits the machine.
pub open spec fn spec_desc_valid(dims: Seq<i64>, dt: DataType, tag: FormatTag) -> bool {
    &&& 1 <= dims.len() <= crate::MAX_NDIMS
    &&& spec_tag_fits(tag, dims.len())
    &&& forall|i: int| 0 <= i < dims.len() ==> #[trigger] dims[i] >= 0
    &&& spec_prod(dims) * spec_data_type_size(dt) <= usize::MAX
}

/// Little-endian bytes of a 64-bit value.
pub open spec fn spec_u64_le(x: u64) -> Seq<u8> {
    seq![
        (x & 0xff) as u8,
        ((x >> 8) & 0xff) as u8,
        ((x >> 16) & 0xff) as u8,
        ((x >> 24) & 0xff) as u8,
        ((x >> 32) & 0xff) as u8,
        ((x >> 40) & 0xff) as u8,
        ((x >> 48) & 0xff) as u8,
        ((x >> 56) & 0xff) as u8,
    ]
}

/// 64-bit value read from eight little-endian bytes.
pub open spec fn spec_le_u64(s: Seq<u8>) -> u64 {
    ((s[0] as u64) | ((s[1] as u64) << 8) | ((s[2] as u64) << 16) | ((s[3] as u64) << 24) | ((
    s[4] as u64) << 32) | ((s[5] as u64) << 40) | ((s[6] as u64) << 48) | ((s[7] as u64) << 56))
}

/// Reading back the little-endian bytes of a value gives the value.
pub proof fn lemma_u64_le_round_trip(x: u64)
    ensures
        spec_le_u64(spec_u64_le(x)) == x,
{
    assert(((((x & 0xff) as u8) as u64) | (((((x >> 8) & 0xff) as u8) as u64) << 8) | (((((x >> 16)
        & 0xff) as u8) as u64) << 16) | (((((x >> 24) & 0xff) as u8) as u64) << 24) | (((((x >> 32)
        & 0xff) as u8) as u64) << 32) | (((((x >> 40) & 0xff) as u8) as u64) << 40) | (((((x >> 48)
        & 0xff) as u8) as u64) << 48) | (((((x >> 56) & 0xff) as u8) as u64) << 56)) == x)
        by (bit_vector);
}

/// Serialized form of a descriptor: one byte each for the dimension count,
/// the data type and the tag, then eight little-endian bytes per dimension.
pub open spec fn spec_encode_desc(dims: Seq<i64>, dt: DataType, tag: FormatTag) -> Seq<u8> {
    Seq::new(
        (3 + 8 * dims.len()) as nat,
        |i: int|
            if i == 0 {
                dims.len() as u8
            } else if i == 1 {
                spec_data_type_code(dt)
            } else if i == 2 {
                spec_tag_code(tag)
            } else {
                spec_u64_le((dims[(i - 3) / 8] as u64))[(i - 3) % 8]
            },
    )
}

/// Descriptor ingredients read back from a blob, or `None` when the bytes do
/// not spell a valid descriptor.
pub open spec fn spec_parse_desc(b: Seq<u8>) -> Option<(Seq<i64>, DataType, FormatTag)> {
    if b.len() < 3 {
        None
    } else {
        let n = b[0] as int;
        if b.len() != 3 + 8 * n {
            None
        } else {
            match (spec_data_type_from_code(b[1]), spec_tag_from_code(b[2])) {
                (Some(dt), Some(tag)) => {
                    let dims = Seq::new(
                        n as nat,
                        |i: int| spec_le_u64(b.subrange(3 + 8 * i, 3 + 8 * i + 8)) as i64,
                    );
                    if spec_desc_valid(dims, dt, tag) {
                        Some((dims, dt, tag))
                    } else {
                        None
                    }
                },
                _ => None,
            }
        }
    }
}

/// Round trip: parsing the serialized form of a valid descriptor yields
/// exactly its ingredients.
#[verifier::rlimit(60)]
pub proof fn lemma_desc_blob_round_trip(dims: Seq<i64>, dt: DataType, tag: FormatTag)
    requires
        spec_desc_valid(dims, dt, tag),
    ensures
        spec_parse_desc(spec_encode_desc(dims, dt, tag)) == Some((dims, dt, tag)),
{
    let b = spec_encode_desc(dims, dt, tag);
    let n = dims.len() as int;
    assert(b.len() == 3 + 8 * n);
    assert(b[0] == dims.len() as u8);
    assert(b[0] as int == n);
    let parsed = Seq::new(
        n as nat,
        |i: int| spec_le_u64(b.subrange(3 + 8 * i, 3 + 8 * i + 8)) as i64,
    );
    assert forall|i: int| 0 <= i < n implies parsed[i] == dims[i] by {
        let sub = b.subrange(3 + 8 * i, 3 + 8 * i + 8);
        assert forall|t: int| 0 <= t < 8 implies sub[t] == spec_u64_le((dims[i] as u64))[t] by {
            assert(sub[t] == b[3 + 8 * i + t]);
            lemma_fundamental_div_mod_converse(8 * i + t, 8, i, t);
            assert((3 + 8 * i + t - 3) / 8 == i);
            assert((3 + 8 * i + t - 3) % 8 == t);
        }
        assert(sub =~= spec_u64_le((dims[i] as u64)));
        lemma_u64_le_round_trip(dims[i] as u64);
        let d = dims[i];
        assert(((d as u64) as i64) == d) by (bit_vector);
    }
    assert(parsed =~= dims);
}

/// Describes the element type, dimensionality and physical arrangement of a
/// tensor, independent of any storage.
///
/// A descriptor is immutable after construction and always well formed: its
/// dimension count matches its tag's declared arity and its total byte size
/// fits the machine word.
#[derive(Debug)]
pub struct MemoryDescriptor {
    dims: Vec<i64>,
    data_type: DataType,
    tag: FormatTag,
}

impl MemoryDescriptor {
    /// Well-formedness carried by every descriptor.
    #[verifier::type_invariant]
    pub open spec fn wf(&self) -> bool {
        spec_desc_valid(self.spec_dims(), self.spec_data_type(), self.spec_tag())
    }

    /// Spec-level dimensions.
    pub closed spec fn spec_dims(&self) -> Seq<i64> {
        self.dims@
    }

    /// Spec-level data type.
    pub closed spec fn spec_data_type(&self) -> DataType {
        self.data_type
    }

    /// Spec-level physical tag.
    pub closed spec fn spec_tag(&self) -> FormatTag {
        self.tag
    }

    /// Spec-level element count.
    pub open spec fn spec_elem_count(&self) -> int {
        spec_prod(self.spec_dims())
    }

    /// Spec-level size in bytes.
    pub open spec fn spec_size(&self) -> int {
        spec_prod(self.spec_dims()) * spec_data_type_size(self.spec_data_type())
    }

    /// Structural equality of two descriptors: same dimensions, same data
    /// type, same tag.
    pub open spec fn spec_equal(&self, other: &MemoryDescriptor) -> bool {
        &&& self.spec_dims() == other.spec_dims()
        &&& self.spec_data_type() == other.spec_data_type()
        &&& self.spec_tag() == other.spec_tag()
    }

    /// Creates a descriptor from dimensions, a data type and a concrete
    /// physical tag.
    ///
    /// Succeeds exactly on valid ingredients; a dimension count that the tag
    /// is not declared for, a count outside one to twelve, or a negative
    /// extent is rejected as invalid arguments, and a byte size beyond the
    /// machine word as out of memory.
    pub fn new(dims: Vec<i64>, data_type: DataType, tag: FormatTag) -> (r: Result<
        MemoryDescriptor,
        DnnlError,
    >)
        ensures
            spec_desc_valid(dims@, data_type, tag) ==> (r matches Ok(d) && d.spec_dims() == dims@
                && d.spec_data_type() == data_type && d.spec_tag() == tag),
            !spec_desc_valid(dims@, data_type, tag) ==> (r matches Err(e) && (
            e == DnnlError::InvalidArguments || e == DnnlError::OutOfMemory)),
            r matches Err(e) ==> !spec_desc_valid(dims@, data_type, tag),
    {
        if dims.len() < 1 || dims.len() > crate::MAX_NDIMS {
            return Err(DnnlError::InvalidArguments);
        }
        if !tag.fits(dims.len()) {
            return Err(DnnlError::InvalidArguments);
        }
        let mut i: usize = 0;
        while i < dims.len()
            invariant
                i <= dims@.len(),
                forall|j: int| 0 <= j < i ==> #[trigger] dims@[j] >= 0,
            decreases dims.len() - i,
        {
            if dims[i] < 0 {
                return Err(DnnlError::InvalidArguments);
            }
            i = i + 1;
        }
        let count = match vec_prod_u64(&dims) {
            Some(p) => p,
            None => {
                proof {
                    size_exceeds_from_count(dims@, data_type);
                }
                return Err(DnnlError::OutOfMemory);
            },
        };
        let esize = data_type_size(data_type) as u64;
        let total = match count.checked_mul(esize) {
            Some(t) => t,
            None => {
                proof {
                    assert(spec_prod(dims@) * spec_data_type_size(data_type) > u64::MAX);
                    assert(usize::MAX <= u64::MAX);
                }
                return Err(DnnlError::OutOfMemory);
            },
        };
        if total > (usize::MAX as u64) {
            return Err(DnnlError::OutOfMemory);
        }
        Ok(MemoryDescriptor { dims, data_type, tag })
    }

    /// Creates a descriptor whose physical layout the library may choose.
    ///
    /// The same validity rules apply as for [`MemoryDescriptor::new`], with
    /// no arity constraint since the tag is left open.
    pub fn new_any(dims: &[i64], data_type: DataType) -> (r: Result<MemoryDescriptor, DnnlError>)
        ensures
            spec_desc_valid(dims@, data_type, FormatTag::Any) ==> (r matches Ok(d)
                && d.spec_dims() == dims@ && d.spec_data_type() == data_type && d.spec_tag()
                == FormatTag::Any),
            !spec_desc_valid(dims@, data_type, FormatTag::Any) ==> (r matches Err(e) && (
            e == DnnlError::InvalidArguments || e == DnnlError::OutOfMemory)),
    {
        let mut v: Vec<i64> = Vec::new();
        let mut i: usize = 0;
        while i < dims.len()
            invariant
                i <= dims@.len(),
                v@ == dims@.take(i as int),
            decreases dims.len() - i,
        {
            v.push(dims[i]);
            i = i + 1;
        }
        proof {
            assert(v@ =~= dims@);
        }
        MemoryDescriptor::new(v, data_type, FormatTag::Any)
    }

    /// Number of dimensions.
    pub fn query_ndims(&self) -> (r: i32)
        ensures
            r == self.spec_dims().len(),
    {
        proof {
            use_type_invariant(&*self);
        }
        self.dims.len() as i32
    }

    /// Copy of the dimensions, exactly as given at creation.
    pub fn query_dims(&self) -> (r: Vec<i64>)
        ensures
            r@ == self.spec_dims(),
    {
        let mut v: Vec<i64> = Vec::new();
        let mut i: usize = 0;
        while i < self.dims.len()
            invariant
                i <= self.dims@.len(),
                v@ == self.dims@.take(i as int),
            decreases self.dims.len() - i,
        {
            v.push(self.dims[i]);
            i = i + 1;
        }
        proof {
            assert(v@ =~= self.dims@);
        }
        v
    }

    /// The declared element type.
    pub fn query_data_type(&self) -> (r: DataType)
        ensures
            r == self.spec_data_type(),
    {
        self.data_type
    }

    /// The physical tag.
    pub fn query_format_tag(&self) -> (r: FormatTag)
        ensures
            r == self.spec_tag(),
    {
        self.tag
    }

    /// Number of elements the descriptor spans.
    pub fn elem_count(&self) -> (r: usize)
        ensures
            r == self.spec_elem_count(),
    {
        proof {
            use_type_invariant(&*self);
            lemma_prod_nonneg(self.dims@);
            count_bounded_by_size(self.dims@, self.data_type);
        }
        let p = match vec_prod_u64(&self.dims) {
            Some(p) => p,
            None => {
                proof {
                    assert(false);
                }
                0
            },
        };
        p as usize
    }

    /// Size in bytes of the memory the descriptor spans.
    pub fn get_size(&self) -> (r: usize)
        ensures
            r == self.spec_size(),
    {
        proof {
            use_type_invariant(&*self);
            lemma_prod_nonneg(self.dims@);
            count_bounded_by_size(self.dims@, self.data_type);
        }
        let count = self.elem_count();
        let esize = data_type_size(self.data_type);
        proof {
            assert(count * esize == self.spec_size());
        }
        count * esize
    }

    /// Deep copy with an independent lifetime.
    pub fn clone_desc(&self) -> (r: Result<MemoryDescriptor, DnnlError>)
        ensures
            r matches Ok(d) && d.spec_equal(self),
    {
        proof {
            use_type_invariant(&*self);
        }
        let dims = self.query_dims();
        Ok(MemoryDescriptor { dims, data_type: self.data_type, tag: self.tag })
    }

    /// True exactly when the two descriptors have the same dimensions.
    pub fn same_dims(&self, other: &MemoryDescriptor) -> (r: bool)
        ensures
            r == (self.spec_dims() == other.spec_dims()),
    {
        if self.dims.len() != other.dims.len() {
            return false;
        }
        let mut i: usize = 0;
        while i < self.dims.len()
            invariant
                i <= self.dims@.len(),
                self.dims@.len() == other.dims@.len(),
                forall|j: int| 0 <= j < i ==> self.dims@[j] == other.dims@[j],
            decreases self.dims.len() - i,
        {
            if self.dims[i] != other.dims[i] {
                return false;
            }
            i = i + 1;
        }
        proof {
            assert(self.dims@ =~= other.dims@);
        }
        true
    }

    /// True exactly when the two descriptors describe the same layout: same
    /// dimensions, data type and tag.
    pub fn equal(&self, other: &MemoryDescriptor) -> (r: bool)
        ensures
            r == self.spec_equal(other),
    {
        if self.dims.len() != other.dims.len() {
            return false;
        }
        if !matches!((self.data_type, other.data_type), (DataType::F16, DataType::F16) | (DataType::Bf16, DataType::Bf16) | (DataType::F32, DataType::F32) | (DataType::S32, DataType::S32) | (DataType::S8, DataType::S8) | (DataType::U8, DataType::U8) | (DataType::F64, DataType::F64)) {
            return false;
        }
        if self.tag.code() != other.tag.code() {
            proof {
                tag_code_injective(self.tag, other.tag);
            }
            return false;
        }
        proof {
            tag_code_injective(self.tag, other.tag);
        }
        let mut i: usize = 0;
        while i < self.dims.len()
            invariant
                i <= self.dims@.len(),
                self.dims@.len() == other.dims@.len(),
                forall|j: int| 0 <= j < i ==> self.dims@[j] == other.dims@[j],
            decreases self.dims.len() - i,
        {
            if self.dims[i] != other.dims[i] {
                return false;
            }
            i = i + 1;
        }
        proof {
            assert(self.dims@ =~= other.dims@);
        }
        true
    }

    /// Serializes the descriptor to an opaque blob that
    /// [`MemoryDescriptor::new_from_blob`] reads back exactly.
    pub fn get_blob(&self) -> (r: Result<Vec<u8>, DnnlError>)
        ensures
            r matches Ok(b) && b@ == spec_encode_desc(
                self.spec_dims(),
                self.spec_data_type(),
                self.spec_tag(),
            ),
    {
        proof {
            use_type_invariant(&*self);
        }
        let ghost enc = spec_encode_desc(self.spec_dims(), self.spec_data_type(), self.spec_tag());
        let mut v: Vec<u8> = Vec::new();
        v.push(self.dims.len() as u8);
        v.push(self.data_type.code());
        v.push(self.tag.code());
        proof {
            assert(v@ =~= enc.take(3));
        }
        let mut k: usize = 0;
        while k < self.dims.len()
            invariant
                k <= self.dims@.len(),
                self.wf(),
                enc == spec_encode_desc(self.spec_dims(), self.spec_data_type(), self.spec_tag()),
                v@ == enc.take(3 + 8 * k),
            decreases self.dims.len() - k,
        {
            let d = self.dims[k];
            push_u64_le(&mut v, d as u64);
            proof {
                lemma_enc_take_step(self.spec_dims(), self.spec_data_type(), self.spec_tag(), k as int);
            }
            k = k + 1;
        }
        proof {
            assert(enc.take(3 + 8 * self.dims@.len() as int) =~= enc);
        }
        Ok(v)
    }

    /// Reads a descriptor back from a blob.
    ///
    /// Succeeds exactly on blobs that spell a valid descriptor; anything
    /// else is rejected as invalid arguments.
    pub fn new_from_blob(blob: &[u8]) -> (r: Result<MemoryDescriptor, DnnlError>)
        ensures
            match spec_parse_desc(blob@) {
                Some((dims, dt, tag)) => r matches Ok(d) && d.spec_dims() == dims
                    && d.spec_data_type() == dt && d.spec_tag() == tag,
                None => r == Err::<MemoryDescriptor, DnnlError>(DnnlError::InvalidArguments),
            },
    {
        if blob.len() < 3 {
            return Err(DnnlError::InvalidArguments);
        }
        let n = blob[0] as usize;
        if blob.len() != 3 + 8 * n {
            proof {
                assert(blob@.len() != 3 + 8 * (blob@[0] as int));
            }
            return Err(DnnlError::InvalidArguments);
        }
        let dt = match DataType::from_code(blob[1]) {
            Some(dt) => dt,
            None => {
                return Err(DnnlError::InvalidArguments);
            },
        };
        let tag = match FormatTag::from_code(blob[2]) {
            Some(t) => t,
            None => {
                return Err(DnnlError::InvalidArguments);
            },
        };
        let ghost want = Seq::new(
            n as nat,
            |i: int| spec_le_u64(blob@.subrange(3 + 8 * i, 3 + 8 * i + 8)) as i64,
        );
        let mut dims: Vec<i64> = Vec::new();
        let mut k: usize = 0;
        while k < n
            invariant
                k <= n,
                n <= 255,
                blob@.len() == 3 + 8 * n,
                want == Seq::new(
                    n as nat,
                    |i: int| spec_le_u64(blob@.subrange(3 + 8 * i, 3 + 8 * i + 8)) as i64,
                ),
                dims@ == want.take(k as int),
            decreases n - k,
        {
            let x = read_u64_le(blob, 3 + 8 * k);
            proof {
                assert(blob@.subrange(3 + 8 * (k as int), 3 + 8 * (k as int) + 8) =~= blob@.subrange(
                    (3 + 8 * k) as int,
                    (3 + 8 * k) as int + 8,
                ));
            }
            dims.push(#[verifier::truncate] (x as i64));
            proof {
                assert(dims@ =~= want.take(k as int + 1));
            }
            k = k + 1;
        }
        proof {
            assert(dims@ =~= want);
        }
        match MemoryDescriptor::new(dims, dt, tag) {
            Ok(d) => Ok(d),
            Err(_) => Err(DnnlError::InvalidArguments),
        }
    }
}

/// One encoded dimension extends the taken prefix of an encoded descriptor.
proof fn lemma_enc_take_step(dims: Seq<i64>, dt: DataType, tag: FormatTag, k: int)
    requires
        0 <= k < dims.len(),
    ensures
        spec_encode_desc(dims, dt, tag).take(3 + 8 * (k + 1)) == spec_encode_desc(dims, dt, tag).take(
            3 + 8 * k,
        ) + spec_u64_le((dims[k] as u64)),
{
    let enc = spec_encode_desc(dims, dt, tag);
    let lhs = enc.take(3 + 8 * (k + 1));
    let rhs = enc.take(3 + 8 * k) + spec_u64_le((dims[k] as u64));
    assert forall|i: int| 0 <= i < 3 + 8 * (k + 1) implies lhs[i] == rhs[i] by {
        if i >= 3 + 8 * k {
            let t = i - 3 - 8 * k;
            lemma_fundamental_div_mod_converse(i - 3, 8, k, t);
            assert((i - 3) / 8 == k);
            assert((i - 3) % 8 == t);
            assert(lhs[i] == spec_u64_le((dims[k] as u64))[t]);
            assert(rhs[i] == spec_u64_le((dims[k] as u64))[t]);
        }
    }
    assert(lhs =~= rhs);
}

/// Two distinct tags never share a blob code.
proof fn tag_code_injective(a: FormatTag, b: FormatTag)
    ensures
        spec_tag_code(a) == spec_tag_code(b) ==> a == b,
{
}

/// When the element count alone exceeds the 64-bit range, the byte size
/// exceeds the machine word.
proof fn size_exceeds_from_count(dims: Seq<i64>, dt: DataType)
    requires
        spec_prod(dims) > u64::MAX,
    ensures
        spec_prod(dims) * spec_data_type_size(dt) > usize::MAX,
{
    assert(spec_prod(dims) * spec_data_type_size(dt) >= spec_prod(dims) * 1) by (nonlinear_arith)
        requires
            spec_prod(dims) > 0,
            spec_data_type_size(dt) >= 1,
    ;
    assert(usize::MAX <= u64::MAX);
}

/// A valid descriptor's element count fits the 64-bit range.
pub proof fn count_bounded_by_size(dims: Seq<i64>, dt: DataType)
    requires
        spec_prod(dims) >= 0,
        spec_prod(dims) * spec_data_type_size(dt) <= usize::MAX,
    ensures
        spec_prod(dims) <= usize::MAX,
        spec_prod(dims) <= u64::MAX,
    decreases 0int,
{
    assert(spec_prod(dims) * 1 <= spec_prod(dims) * spec_data_type_size(dt)) by (nonlinear_arith)
        requires
            spec_prod(dims) >= 0,
            spec_data_type_size(dt) >= 1,
    ;
    assert(usize::MAX <= u64::MAX);
}

/// Product of a dimension vector, or `None` when it exceeds the 64-bit
/// range.
fn vec_prod_u64(dims: &Vec<i64>) -> (r: Option<u64>)
    requires
        forall|i: int| 0 <= i < dims@.len() ==> #[trigger] dims@[i] >= 0,
    ensures
        match r {
            Some(p) => p == spec_prod(dims@),
            None => spec_prod(dims@) > u64::MAX,
        },
{
    let mut i: usize = 0;
    while i < dims.len()
        invariant
            i <= dims@.len(),
            forall|j: int| 0 <= j < dims@.len() ==> #[trigger] dims@[j] >= 0,
            forall|j: int| 0 <= j < i ==> #[trigger] dims@[j] >= 1,
        decreases dims.len() - i,
    {
        if dims[i] == 0 {
            proof {
                lemma_prod_zero(dims@, i as int);
            }
            return Some(0);
        }
        i = i + 1;
    }
    let mut acc: u64 = 1;
    let mut k: usize = 0;
    proof {
        assert(dims@.take(0) =~= Seq::<i64>::empty());
    }
    while k < dims.len()
        invariant
            k <= dims@.len(),
            forall|j: int| 0 <= j < dims@.len() ==> #[trigger] dims@[j] >= 1,
            acc == spec_prod(dims@.take(k as int)),
        decreases dims.len() - k,
    {
        let d = dims[k] as u64;
        proof {
            lemma_prod_take_step(dims@, k as int);
        }
        acc = match acc.checked_mul(d) {
            Some(a) => a,
            None => {
                proof {
                    lemma_prod_take_le(dims@, k as int + 1);
                }
                return None;
            },
        };
        k = k + 1;
    }
    proof {
        assert(dims@.take(dims@.len() as int) =~= dims@);
    }
    Some(acc)
}

/// Appends the eight little-endian bytes of `x`.
fn push_u64_le(v: &mut Vec<u8>, x: u64)
    ensures
        final(v)@ == old(v)@ + spec_u64_le(x),
{
    v.push((x & 0xff) as u8);
    v.push(((x >> 8) & 0xff) as u8);
    v.push(((x >> 16) & 0xff) as u8);
    v.push(((x >> 24) & 0xff) as u8);
    v.push(((x >> 32) & 0xff) as u8);
    v.push(((x >> 40) & 0xff) as u8);
    v.push(((x >> 48) & 0xff) as u8);
    v.push(((x >> 56) & 0xff) as u8);
    proof {
        assert(v@ =~= old(v)@ + spec_u64_le(x));
    }
}

/// Reads eight little-endian bytes starting at `at`.
fn read_u64_le(b: &[u8], at: usize) -> (r: u64)
    requires
        at + 8 <= b@.len(),
    ensures
        r == spec_le_u64(b@.subrange(at as int, at as int + 8)),
{
    let r = (b[at] as u64) | ((b[at + 1] as u64) << 8u64) | ((b[at + 2] as u64) << 16u64) | ((b[at
        + 3] as u64) << 24u64) | ((b[at + 4] as u64) << 32u64) | ((b[at + 5] as u64) << 40u64) | ((
    b[at + 6] as u64) << 48u64) | ((b[at + 7] as u64) << 56u64);
    proof {
        let sub = b@.subrange(at as int, at as int + 8);
        assert(sub[0] == b@[at as int]);
        assert(sub[1] == b@[at as int + 1]);
        assert(sub[2] == b@[at as int + 2]);
        assert(sub[3] == b@[at as int + 3]);
        assert(sub[4] == b@[at as int + 4]);
        assert(sub[5] == b@[at as int + 5]);
        assert(sub[6] == b@[at as int + 6]);
        assert(sub[7] == b@[at as int + 7]);
    }
    r
}

/// Query selector for the dimension count of a descriptor.
pub struct NDimsQuery;

impl NDimsQuery {
    /// Number of dimensions of a descriptor.
    pub fn execute(md: &MemoryDescriptor) -> (r: Result<i32, DnnlError>)
        ensures
            r == Ok::<i32, DnnlError>((md.spec_dims().len()) as i32),
    {
        Ok(md.query_ndims())
    }
}

/// Query selector for the dimensions of a descriptor.
pub struct DimsQuery;

impl DimsQuery {
    /// Copy of the dimensions of a descriptor.
    pub fn execute(md: &MemoryDescriptor) -> (r: Result<Vec<i64>, DnnlError>)
        ensures
            r matches Ok(v) && v@ == md.spec_dims(),
    {
        Ok(md.query_dims())
    }
}

/// Query selector for the data type of a descriptor.
pub struct DataTypeQuery;

impl DataTypeQuery {
    /// Element type of a descriptor.
    pub fn execute(md: &MemoryDescriptor) -> (r: Result<DataType, DnnlError>)
        ensures
            r == Ok::<DataType, DnnlError>(md.spec_data_type()),
    {
        Ok(md.query_data_type())
    }
}

} // verus!
