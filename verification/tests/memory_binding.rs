use onednnl::engine::{Engine, EngineKind};
use onednnl::error::DnnlError;
use onednnl::memory::buffer::AlignedBuffer;
use onednnl::memory::descriptor::{DataType, MemoryDescriptor};
use onednnl::memory::format_tag::FormatTag;
use onednnl::memory::Memory;

#[test]
fn engine_counts_and_creation() {
    assert_eq!(Engine::get_count(EngineKind::Cpu), 1);
    assert_eq!(Engine::get_count(EngineKind::Gpu), 0);
    assert_eq!(Engine::get_count(EngineKind::Any), 0);

    let engine = Engine::new(EngineKind::Cpu, 0).unwrap();
    assert_eq!(engine.get_kind(), Ok(EngineKind::Cpu));
    assert_eq!(engine.get_index(), 0);

    assert_eq!(
        Engine::new(EngineKind::Cpu, 1).err(),
        Some(DnnlError::InvalidArguments)
    );
    assert_eq!(
        Engine::new(EngineKind::Gpu, 0).err(),
        Some(DnnlError::InvalidArguments)
    );
    assert_eq!(
        Engine::new(EngineKind::Any, 0).err(),
        Some(DnnlError::InvalidArguments)
    );
}

#[test]
fn user_buffer_binding_requires_enough_elements() {
    let engine = Engine::new(EngineKind::Cpu, 0).unwrap();
    let desc = MemoryDescriptor::new(vec![3], DataType::F32, FormatTag::A).unwrap();
    let small = AlignedBuffer::new(&[1, 2]).unwrap();
    let r = Memory::new_with_user_buffer(engine.clone(), desc, small);
    assert_eq!(r.err(), Some(DnnlError::InvalidArguments));

    let desc = MemoryDescriptor::new(vec![3], DataType::F32, FormatTag::A).unwrap();
    let exact = AlignedBuffer::new(&[1, 2, 3]).unwrap();
    let m = Memory::new_with_user_buffer(engine.clone(), desc, exact).unwrap();
    assert_eq!(m.to_vec(), Ok(vec![1, 2, 3]));
}

#[test]
fn user_buffer_may_be_larger_than_descriptor() {
    let engine = Engine::new(EngineKind::Cpu, 0).unwrap();
    let desc = MemoryDescriptor::new(vec![2], DataType::F32, FormatTag::A).unwrap();
    let large = AlignedBuffer::new(&[7, 8, 9]).unwrap();
    let m = Memory::new_with_user_buffer(engine.clone(), desc, large).unwrap();
    assert_eq!(m.to_vec(), Ok(vec![7, 8, 9]));
}

#[test]
fn library_buffer_starts_zeroed() {
    let engine = Engine::new(EngineKind::Cpu, 0).unwrap();
    let desc = MemoryDescriptor::new(vec![2, 2], DataType::F32, FormatTag::Ab).unwrap();
    let m = Memory::new_with_library_buffer(engine.clone(), desc).unwrap();
    assert_eq!(m.to_vec(), Ok(vec![0, 0, 0, 0]));
}

#[test]
fn binding_without_buffer_refuses_to_read() {
    let engine = Engine::new(EngineKind::Cpu, 0).unwrap();
    let desc = MemoryDescriptor::new(vec![3], DataType::F32, FormatTag::A).unwrap();
    let m = Memory::new_without_buffer(engine.clone(), desc).unwrap();
    assert!(!m.has_storage());
    assert_eq!(m.to_vec().err(), Some(DnnlError::InvalidArguments));
}

#[test]
fn buffer_views_and_zeroing() {
    let b = AlignedBuffer::new(&[4, 5, 6]).unwrap();
    assert_eq!(b.len(), 3);
    assert_eq!(b.as_slice(), &[4, 5, 6]);
    assert_eq!(b.read(1), 5);
    let z = AlignedBuffer::zeroed(4).unwrap();
    assert_eq!(z.to_vec(), vec![0, 0, 0, 0]);
    let mut w = AlignedBuffer::zeroed(2).unwrap();
    w.set(1, 9);
    assert_eq!(w.to_vec(), vec![0, 9]);
}

#[test]
fn dependents_release_engine_before_handle_drops() {
    let engine = Engine::new(EngineKind::Cpu, 0).unwrap();
    let desc = MemoryDescriptor::new(vec![2], DataType::F32, FormatTag::A).unwrap();
    let buffer = AlignedBuffer::new(&[1, 2]).unwrap();
    let m = Memory::new_with_user_buffer(engine.clone(), desc, buffer).unwrap();
    let other = m.get_engine();
    assert_eq!(other.get_kind(), Ok(EngineKind::Cpu));
    drop(m);
    drop(other);
    assert_eq!(engine.get_kind(), Ok(EngineKind::Cpu));
}
