pub mod buffer;
pub mod descriptor;
pub mod format_tag;

use crate::engine::{engine_handle_clone, engine_ref, Engine, EngineKind};
use crate::error::DnnlError;
use crate::memory::buffer::AlignedBuffer;
use crate::memory::descriptor::MemoryDescriptor;
use std::sync::Arc;
use vstd::prelude::*;

verus! {

/// Storage policy of a bound memory object.
#[derive(Debug)]
pub enum BufferType {
    /// Storage supplied and owned by the caller, moved into the bound
    /// memory so it cannot be dropped while the binding lives.
    UserAllocated(AlignedBuffer),
    /// Storage allocated and owned by the library.
    LibraryAllocated(AlignedBuffer),
    /// No storage at all: a descriptor-only binding, used to mark an
    /// optional argument as absent.
    Absent,
}

/// A layout descriptor paired with a storage policy and the engine the
/// storage belongs to.
///
/// The engine is held by a shared, reference-counted handle, so it outlives
/// the bound memory structurally.
#[derive(Debug)]
pub struct Memory {
    engine: Arc<Engine>,
    buffer_type: BufferType,
    desc: MemoryDescriptor,
}

impl Memory {
    /// Storage present and large enough for the descriptor.
    #[verifier::type_invariant]
    pub open spec fn wf(&self) -> bool {
        self.spec_has_storage() ==> self.spec_raw().len() >= self.spec_desc().spec_elem_count()
    }

    /// Spec-level engine.
    pub closed spec fn spec_engine(&self) -> Engine {
        *self.engine
    }

    /// Spec-level descriptor dimensions.
    pub open spec fn spec_dims(&self) -> Seq<i64> {
        self.spec_desc().spec_dims()
    }

    /// Spec-level descriptor.
    pub closed spec fn spec_desc(&self) -> MemoryDescriptor {
        self.desc
    }

    /// True when the binding carries storage (user- or library-owned).
    pub closed spec fn spec_has_storage(&self) -> bool {
        !(self.buffer_type is Absent)
    }

    /// True when the storage is owned by the caller.
    pub closed spec fn spec_is_user(&self) -> bool {
        self.buffer_type is UserAllocated
    }

    /// The raw stored cells; empty for a binding without storage.
    pub closed spec fn spec_raw(&self) -> Seq<i64> {
        match self.buffer_type {
            BufferType::UserAllocated(ref b) => b@,
            BufferType::LibraryAllocated(ref b) => b@,
            BufferType::Absent => Seq::<i64>::empty(),
        }
    }

    /// The tensor's data: the first element-count cells of the storage.
    pub open spec fn spec_data(&self) -> Seq<i64> {
        self.spec_raw().take(self.spec_desc().spec_elem_count())
    }

    /// Binds a caller-owned buffer to a descriptor.
    ///
    /// The buffer moves into the binding: the caller cannot drop it while
    /// the binding lives. On a CPU engine this succeeds exactly when the
    /// buffer holds at least the descriptor's element count; a smaller
    /// buffer is rejected as invalid arguments, never truncated. GPU and
    /// unspecified engines are rejected as unsupported.
    pub fn new_with_user_buffer(
        engine: Arc<Engine>,
        desc: MemoryDescriptor,
        buffer: AlignedBuffer,
    ) -> (r: Result<Memory, DnnlError>)
        ensures
            (*engine).kind == EngineKind::Cpu && buffer@.len() >= desc.spec_elem_count() ==> (
            r matches Ok(m) && m.spec_engine() == *engine && m.spec_desc() == desc && m.spec_raw()
                == buffer@ && m.spec_is_user() && m.spec_has_storage()),
            (*engine).kind == EngineKind::Cpu && buffer@.len() < desc.spec_elem_count() ==> r
                == Err::<Memory, DnnlError>(DnnlError::InvalidArguments),
            (*engine).kind != EngineKind::Cpu ==> r == Err::<Memory, DnnlError>(
                DnnlError::Unsupported,
            ),
    {
        let kind = match engine_ref(&engine).get_kind() {
            Ok(k) => k,
            Err(e) => {
                return Err(e);
            },
        };
        match kind {
            EngineKind::Cpu => {
                proof {
                    use_type_invariant(&desc);
                    crate::memory::descriptor::lemma_prod_nonneg(desc.spec_dims());
                }
                if buffer.len() < desc.elem_count() {
                    return Err(DnnlError::InvalidArguments);
                }
                Ok(Memory { engine, buffer_type: BufferType::UserAllocated(buffer), desc })
            },
            EngineKind::Gpu => Err(DnnlError::Unsupported),
            EngineKind::Any => Err(DnnlError::Unsupported),
        }
    }

    /// Binds library-owned storage to a descriptor.
    ///
    /// The library allocates exactly the descriptor's element count, zeroed.
    pub fn new_with_library_buffer(engine: Arc<Engine>, desc: MemoryDescriptor) -> (r: Result<
        Memory,
        DnnlError,
    >)
        ensures
            r matches Ok(m) && m.spec_engine() == *engine && m.spec_desc() == desc
                && !m.spec_is_user() && m.spec_has_storage() && m.spec_raw() == Seq::<i64>::new(
                desc.spec_elem_count() as nat,
                |i: int| 0i64,
            ),
    {
        proof {
            use_type_invariant(&desc);
            crate::memory::descriptor::lemma_prod_nonneg(desc.spec_dims());
        }
        let count = desc.elem_count();
        let buffer = match AlignedBuffer::zeroed(count) {
            Ok(b) => b,
            Err(e) => {
                return Err(e);
            },
        };
        Ok(Memory { engine, buffer_type: BufferType::LibraryAllocated(buffer), desc })
    }

    /// Binds no storage at all: marks an optional argument as absent.
    pub fn new_without_buffer(engine: Arc<Engine>, desc: MemoryDescriptor) -> (r: Result<
        Memory,
        DnnlError,
    >)
        ensures
            r matches Ok(m) && m.spec_engine() == *engine && m.spec_desc() == desc
                && !m.spec_has_storage(),
    {
        Ok(Memory { engine, buffer_type: BufferType::Absent, desc })
    }

    /// Copies the bound data out.
    ///
    /// On a CPU engine: for a caller-owned buffer, the whole buffer; for
    /// library-owned storage, exactly the descriptor's element count; for a
    /// binding without storage this fails as invalid arguments rather than
    /// returning empty data. GPU and unspecified engines are rejected as
    /// unsupported.
    pub fn to_vec(&self) -> (r: Result<Vec<i64>, DnnlError>)
        ensures
            self.spec_engine().kind == EngineKind::Cpu && self.spec_is_user() ==> (r matches Ok(v)
                && v@ == self.spec_raw()),
            self.spec_engine().kind == EngineKind::Cpu && self.spec_has_storage()
                && !self.spec_is_user() ==> (r matches Ok(v) && v@ == self.spec_data()),
            self.spec_engine().kind == EngineKind::Cpu && !self.spec_has_storage() ==> r == Err::<
                Vec<i64>,
                DnnlError,
            >(DnnlError::InvalidArguments),
            self.spec_engine().kind != EngineKind::Cpu ==> r == Err::<Vec<i64>, DnnlError>(
                DnnlError::Unsupported,
            ),
    {
        proof {
            use_type_invariant(&*self);
        }
        let kind = match engine_ref(&self.engine).get_kind() {
            Ok(k) => k,
            Err(e) => {
                return Err(e);
            },
        };
        match kind {
            EngineKind::Cpu => {
                match &self.buffer_type {
                    BufferType::UserAllocated(b) => Ok(b.to_vec()),
                    BufferType::LibraryAllocated(b) => {
                        proof {
                            use_type_invariant(&self.desc);
                            crate::memory::descriptor::lemma_prod_nonneg(self.desc.spec_dims());
                        }
                        let count = self.desc.elem_count();
                        let all = b.to_vec();
                        let mut v: Vec<i64> = Vec::new();
                        let mut i: usize = 0;
                        while i < count
                            invariant
                                i <= count,
                                count <= all@.len(),
                                v@ == all@.take(i as int),
                            decreases count - i,
                        {
                            v.push(all[i]);
                            i = i + 1;
                        }
                        proof {
                            assert(v@ =~= self.spec_data());
                        }
                        Ok(v)
                    },
                    BufferType::Absent => Err(DnnlError::InvalidArguments),
                }
            },
            EngineKind::Gpu => Err(DnnlError::Unsupported),
            EngineKind::Any => Err(DnnlError::Unsupported),
        }
    }

    /// A new shared handle to the engine this memory is bound to.
    pub fn get_engine(&self) -> (r: Arc<Engine>)
        ensures
            *r == self.spec_engine(),
    {
        engine_handle_clone(&self.engine)
    }

    /// The descriptor this memory was bound with.
    pub fn desc(&self) -> (r: &MemoryDescriptor)
        ensures
            *r == self.spec_desc(),
    {
        &self.desc
    }

    /// True when the binding carries storage.
    pub fn has_storage(&self) -> (r: bool)
        ensures
            r == self.spec_has_storage(),
    {
        !matches!(self.buffer_type, BufferType::Absent)
    }

    /// Copy of the tensor's data: exactly the descriptor's element count.
    pub fn data_vec(&self) -> (r: Vec<i64>)
        requires
            self.spec_has_storage(),
        ensures
            r@ == self.spec_data(),
            r@.len() == self.spec_desc().spec_elem_count(),
    {
        proof {
            use_type_invariant(&*self);
            use_type_invariant(&self.desc);
            crate::memory::descriptor::lemma_prod_nonneg(self.desc.spec_dims());
        }
        let count = self.desc.elem_count();
        let b = match &self.buffer_type {
            BufferType::UserAllocated(b) => b,
            BufferType::LibraryAllocated(b) => b,
            BufferType::Absent => {
                proof {
                    assert(false);
                }
                return Vec::new();
            },
        };
        let mut v: Vec<i64> = Vec::new();
        let mut i: usize = 0;
        while i < count
            invariant
                i <= count,
                count <= b@.len(),
                b@ == self.spec_raw(),
                v@ == self.spec_raw().take(i as int),
            decreases count - i,
        {
            v.push(b.read(i));
            i = i + 1;
        }
        v
    }

    /// Overwrites the tensor's data, leaving any storage beyond the
    /// descriptor's element count unchanged.
    pub fn with_data(self, values: &Vec<i64>) -> (r: Memory)
        requires
            self.spec_has_storage(),
            values@.len() == self.spec_desc().spec_elem_count(),
        ensures
            r.spec_engine() == self.spec_engine(),
            r.spec_desc() == self.spec_desc(),
            r.spec_is_user() == self.spec_is_user(),
            r.spec_has_storage(),
            r.spec_data() == values@,
            r.spec_raw().len() == self.spec_raw().len(),
            r.spec_raw().skip(values@.len() as int) == self.spec_raw().skip(values@.len() as int),
    {
        proof {
            use_type_invariant(&self);
        }
        let Memory { engine, buffer_type, desc } = self;
        let new_buffer_type = match buffer_type {
            BufferType::UserAllocated(mut b) => {
                b.write_prefix(values);
                BufferType::UserAllocated(b)
            },
            BufferType::LibraryAllocated(mut b) => {
                b.write_prefix(values);
                BufferType::LibraryAllocated(b)
            },
            BufferType::Absent => {
                proof {
                    assert(false);
                }
                BufferType::Absent
            },
        };
        let r = Memory { engine, buffer_type: new_buffer_type, desc };
        proof {
            assert(r.spec_data() =~= values@);
        }
        r
    }
}

} // verus!
