use onednnl::engine::{Engine, EngineKind};
use onednnl::error::DnnlError;
use onednnl::memory::buffer::AlignedBuffer;
use onednnl::memory::descriptor::{DataType, MemoryDescriptor};
use onednnl::memory::format_tag::FormatTag;
use onednnl::memory::Memory;
use onednnl::primitive::attributes::PrimitiveAttributes;
use onednnl::primitive::{
    ExecArg, OperationType, Primitive, PropKind, ARG_BIAS, ARG_DIFF_DST, ARG_DIFF_SRC, ARG_DST,
    ARG_SRC_0, ARG_SRC_1, ARG_WEIGHTS,
};
use onednnl::primitives::binary::{Binary, ForwardBinaryConfig};
use onednnl::primitives::eltwise::{BackwardEltwiseConfig, ForwardEltwiseConfig, Unary};
use onednnl::primitives::matmul::ForwardMatMulConfig;
use onednnl::primitives::prelu::ForwardPreluConfig;
use onednnl::primitives::reduction::{ForwardReductionConfig, Reduction};
use onednnl::stream::Stream;

fn desc_1d(n: i64) -> MemoryDescriptor {
    MemoryDescriptor::new(vec![n], DataType::F32, FormatTag::A).unwrap()
}

fn take_slot(out: Vec<ExecArg>, index: i32) -> Memory {
    for arg in out {
        if arg.index == index {
            return arg.mem;
        }
    }
    panic!("slot not present");
}

#[test]
fn test_smoke_binary_add() {
    let engine = Engine::new(EngineKind::Cpu, 0).unwrap();

    let src0_desc = desc_1d(3);
    let src1_desc = desc_1d(3);
    let dst_desc = desc_1d(3);

    let binary_config = ForwardBinaryConfig {
        alg_kind: Binary::Add,
        src0_desc: src0_desc.clone_desc().unwrap(),
        src1_desc: src1_desc.clone_desc().unwrap(),
        dst_desc: dst_desc.clone_desc().unwrap(),
        attr: PrimitiveAttributes::new().unwrap(),
    };

    let pd = binary_config
        .create_primitive_desc(engine.clone(), PropKind::ForwardInference)
        .unwrap();
    assert_eq!(pd.op_type(), OperationType::Binary);
    let primitive = Primitive::from_descriptor(pd, engine.clone()).unwrap();

    let s0_buffer = AlignedBuffer::new(&[4, 5, 6]).unwrap();
    let src0_memory = Memory::new_with_user_buffer(engine.clone(), src0_desc, s0_buffer).unwrap();

    let s1_buffer = AlignedBuffer::new(&[1, 2, 3]).unwrap();
    let src1_memory = Memory::new_with_user_buffer(engine.clone(), src1_desc, s1_buffer).unwrap();

    let dst_memory = Memory::new_with_library_buffer(engine.clone(), dst_desc).unwrap();

    let stream = Stream::new(engine.clone()).unwrap();
    let args = vec![
        ExecArg { index: ARG_SRC_0, mem: src0_memory },
        ExecArg { index: ARG_SRC_1, mem: src1_memory },
        ExecArg { index: ARG_DST, mem: dst_memory },
    ];

    let out = primitive.execute(&stream, args).unwrap();
    assert!(stream.wait().is_ok());

    let dst = take_slot(out, ARG_DST);
    assert_eq!(dst.to_vec(), Ok(vec![5, 7, 9]));
}

#[test]
fn test_smoke_matmul() {
    let engine = Engine::new(EngineKind::Cpu, 0).unwrap();

    let src_desc = MemoryDescriptor::new(vec![1, 2, 3], DataType::F32, FormatTag::Abc).unwrap();
    let weights_desc = MemoryDescriptor::new(vec![1, 3, 2], DataType::F32, FormatTag::Abc).unwrap();
    let dst_desc = MemoryDescriptor::new(vec![1, 2, 2], DataType::F32, FormatTag::Abc).unwrap();
    let zero_bias_desc = MemoryDescriptor::new(vec![1, 2, 2], DataType::F32, FormatTag::Abc).unwrap();

    let matmul_config = ForwardMatMulConfig {
        src_desc: src_desc.clone_desc().unwrap(),
        weights_desc: weights_desc.clone_desc().unwrap(),
        bias_desc: zero_bias_desc.clone_desc().unwrap(),
        dst_desc: dst_desc.clone_desc().unwrap(),
        attr: PrimitiveAttributes::new().unwrap(),
    };

    let pd = matmul_config
        .create_primitive_desc(engine.clone(), PropKind::ForwardInference)
        .unwrap();
    let primitive = Primitive::from_descriptor(pd, engine.clone()).unwrap();

    let src_buffer = AlignedBuffer::new(&[1, 2, 3, 4, 5, 6]).unwrap();
    let weights_buffer = AlignedBuffer::new(&[7, 8, 9, 10, 11, 12]).unwrap();
    let output_buffer = AlignedBuffer::zeroed(4).unwrap();

    let src_memory = Memory::new_with_user_buffer(engine.clone(), src_desc, src_buffer).unwrap();
    let weights_memory =
        Memory::new_with_user_buffer(engine.clone(), weights_desc, weights_buffer).unwrap();
    let bias_memory = Memory::new_without_buffer(engine.clone(), zero_bias_desc).unwrap();
    let dst_memory = Memory::new_with_user_buffer(engine.clone(), dst_desc, output_buffer).unwrap();

    let stream = Stream::new(engine.clone()).unwrap();
    let args = vec![
        ExecArg { index: ARG_SRC_0, mem: src_memory },
        ExecArg { index: ARG_WEIGHTS, mem: weights_memory },
        ExecArg { index: ARG_BIAS, mem: bias_memory },
        ExecArg { index: ARG_DST, mem: dst_memory },
    ];

    let out = primitive.execute(&stream, args).unwrap();
    stream.wait().unwrap();

    let dst = take_slot(out, ARG_DST);
    assert_eq!(dst.to_vec(), Ok(vec![58, 64, 139, 154]));
}

#[test]
fn matmul_applies_present_bias() {
    let engine = Engine::new(EngineKind::Cpu, 0).unwrap();

    let src_desc = MemoryDescriptor::new(vec![1, 1, 2], DataType::F32, FormatTag::Abc).unwrap();
    let weights_desc = MemoryDescriptor::new(vec![1, 2, 1], DataType::F32, FormatTag::Abc).unwrap();
    let dst_desc = MemoryDescriptor::new(vec![1, 1, 1], DataType::F32, FormatTag::Abc).unwrap();
    let bias_desc = MemoryDescriptor::new(vec![1, 1, 1], DataType::F32, FormatTag::Abc).unwrap();

    let config = ForwardMatMulConfig {
        src_desc: src_desc.clone_desc().unwrap(),
        weights_desc: weights_desc.clone_desc().unwrap(),
        bias_desc: bias_desc.clone_desc().unwrap(),
        dst_desc: dst_desc.clone_desc().unwrap(),
        attr: PrimitiveAttributes::new().unwrap(),
    };
    let pd = config
        .create_primitive_desc(engine.clone(), PropKind::ForwardTraining)
        .unwrap();
    let primitive = Primitive::from_descriptor(pd, engine.clone()).unwrap();

    let src = Memory::new_with_user_buffer(
        engine.clone(),
        src_desc,
        AlignedBuffer::new(&[3, 4]).unwrap(),
    )
    .unwrap();
    let wts = Memory::new_with_user_buffer(
        engine.clone(),
        weights_desc,
        AlignedBuffer::new(&[5, 6]).unwrap(),
    )
    .unwrap();
    let bias = Memory::new_with_user_buffer(
        engine.clone(),
        bias_desc,
        AlignedBuffer::new(&[100]).unwrap(),
    )
    .unwrap();
    let dst = Memory::new_with_library_buffer(engine.clone(), dst_desc).unwrap();

    let stream = Stream::new(engine.clone()).unwrap();
    let out = primitive
        .execute(
            &stream,
            vec![
                ExecArg { index: ARG_SRC_0, mem: src },
                ExecArg { index: ARG_WEIGHTS, mem: wts },
                ExecArg { index: ARG_BIAS, mem: bias },
                ExecArg { index: ARG_DST, mem: dst },
            ],
        )
        .unwrap();
    stream.wait().unwrap();
    assert_eq!(take_slot(out, ARG_DST).to_vec(), Ok(vec![3 * 5 + 4 * 6 + 100]));
}

#[test]
fn test_reduction_smoke() {
    let engine = Engine::new(EngineKind::Cpu, 0).unwrap();

    let src_desc = desc_1d(3);
    let dst_desc = desc_1d(1);

    let reduction_config = ForwardReductionConfig {
        alg_kind: Reduction::Sum,
        src_desc: src_desc.clone_desc().unwrap(),
        dst_desc: dst_desc.clone_desc().unwrap(),
        p: 0,
        eps: 0,
        attr: PrimitiveAttributes::new().unwrap(),
    };

    let pd = reduction_config
        .create_primitive_desc(engine.clone(), PropKind::ForwardInference)
        .unwrap();
    let primitive = Primitive::from_descriptor(pd, engine.clone()).unwrap();

    let src_buffer = AlignedBuffer::new(&[1, 2, 3]).unwrap();
    let src_memory = Memory::new_with_user_buffer(engine.clone(), src_desc, src_buffer).unwrap();
    let output = AlignedBuffer::zeroed(1).unwrap();
    let dst_memory = Memory::new_with_user_buffer(engine.clone(), dst_desc, output).unwrap();

    let stream = Stream::new(engine.clone()).unwrap();
    let args = vec![
        ExecArg { index: ARG_SRC_0, mem: src_memory },
        ExecArg { index: ARG_DST, mem: dst_memory },
    ];

    let out = primitive.execute(&stream, args).unwrap();
    assert!(stream.wait().is_ok());
    assert_eq!(take_slot(out, ARG_DST).to_vec(), Ok(vec![6]));
}

#[test]
fn reduction_extrema_and_product() {
    let engine = Engine::new(EngineKind::Cpu, 0).unwrap();
    let cases: Vec<(Reduction, i64)> = vec![
        (Reduction::Max, 7),
        (Reduction::Min, -4),
        (Reduction::Mul, -140),
        (Reduction::Sum, 8),
    ];
    for (alg, expected) in cases {
        let src_desc = desc_1d(3);
        let dst_desc = desc_1d(1);
        let config = ForwardReductionConfig {
            alg_kind: alg,
            src_desc: src_desc.clone_desc().unwrap(),
            dst_desc: dst_desc.clone_desc().unwrap(),
            p: 0,
            eps: 0,
            attr: PrimitiveAttributes::new().unwrap(),
        };
        let pd = config
            .create_primitive_desc(engine.clone(), PropKind::ForwardInference)
            .unwrap();
        let primitive = Primitive::from_descriptor(pd, engine.clone()).unwrap();
        let src = Memory::new_with_user_buffer(
            engine.clone(),
            src_desc,
            AlignedBuffer::new(&[5, -4, 7]).unwrap(),
        )
        .unwrap();
        let dst = Memory::new_with_library_buffer(engine.clone(), dst_desc).unwrap();
        let stream = Stream::new(engine.clone()).unwrap();
        let out = primitive
            .execute(
                &stream,
                vec![
                    ExecArg { index: ARG_SRC_0, mem: src },
                    ExecArg { index: ARG_DST, mem: dst },
                ],
            )
            .unwrap();
        assert_eq!(take_slot(out, ARG_DST).to_vec(), Ok(vec![expected]));
    }
}

#[test]
fn reduction_rejects_unsupported_algorithms() {
    let engine = Engine::new(EngineKind::Cpu, 0).unwrap();
    let config = ForwardReductionConfig {
        alg_kind: Reduction::Mean,
        src_desc: desc_1d(3),
        dst_desc: desc_1d(1),
        p: 0,
        eps: 0,
        attr: PrimitiveAttributes::new().unwrap(),
    };
    let r = config.create_primitive_desc(engine.clone(), PropKind::ForwardInference);
    assert_eq!(r.err(), Some(DnnlError::Unsupported));
}

#[test]
fn test_relu_forward_backward() {
    let engine = Engine::new(EngineKind::Cpu, 0).unwrap();

    let src_desc = desc_1d(6);
    let dst_desc = desc_1d(6);

    let fwd_config = ForwardEltwiseConfig {
        alg_kind: Unary::Relu,
        src_desc: src_desc.clone_desc().unwrap(),
        dst_desc: dst_desc.clone_desc().unwrap(),
        alpha: 0,
        beta: 0,
        attr: PrimitiveAttributes::new().unwrap(),
    };
    let fwd_pd = fwd_config
        .create_primitive_desc(engine.clone(), PropKind::ForwardTraining)
        .unwrap();

    let bwd_config = BackwardEltwiseConfig {
        alg_kind: Unary::Relu,
        diff_src_desc: desc_1d(6),
        diff_dest_desc: desc_1d(6),
        data_desc: desc_1d(6),
        alpha: 0,
        beta: 0,
        attr: PrimitiveAttributes::new().unwrap(),
    };
    let bwd_pd = bwd_config
        .create_primitive_desc(engine.clone(), PropKind::Backward, &fwd_pd)
        .unwrap();

    let fwd_primitive = Primitive::from_descriptor(fwd_pd, engine.clone()).unwrap();
    let bwd_primitive = Primitive::from_descriptor(bwd_pd, engine.clone()).unwrap();

    let src = Memory::new_with_user_buffer(
        engine.clone(),
        src_desc,
        AlignedBuffer::new(&[-1, 2, -3, 4, 0, 5]).unwrap(),
    )
    .unwrap();
    let dst = Memory::new_with_library_buffer(engine.clone(), dst_desc).unwrap();

    let stream = Stream::new(engine.clone()).unwrap();
    let out = fwd_primitive
        .execute(
            &stream,
            vec![
                ExecArg { index: ARG_SRC_0, mem: src },
                ExecArg { index: ARG_DST, mem: dst },
            ],
        )
        .unwrap();
    stream.wait().unwrap();

    let mut fwd_src = None;
    let mut fwd_dst = None;
    for arg in out {
        if arg.index == ARG_SRC_0 {
            fwd_src = Some(arg.mem);
        } else if arg.index == ARG_DST {
            fwd_dst = Some(arg.mem);
        }
    }
    let fwd_src = fwd_src.unwrap();
    let fwd_dst = fwd_dst.unwrap();
    assert_eq!(
        fwd_dst.to_vec(),
        Ok(vec![0, 2, 0, 4, 0, 5]),
        "Forward ReLU output mismatch"
    );

    let upstream = Memory::new_with_user_buffer(
        engine.clone(),
        desc_1d(6),
        AlignedBuffer::new(&[1, 1, 1, 1, 1, 1]).unwrap(),
    )
    .unwrap();
    let grad_out = Memory::new_with_library_buffer(engine.clone(), desc_1d(6)).unwrap();

    let out = bwd_primitive
        .execute(
            &stream,
            vec![
                ExecArg { index: ARG_SRC_0, mem: fwd_src },
                ExecArg { index: ARG_DIFF_DST, mem: upstream },
                ExecArg { index: ARG_DIFF_SRC, mem: grad_out },
            ],
        )
        .unwrap();
    stream.wait().unwrap();
    assert_eq!(
        take_slot(out, ARG_DIFF_SRC).to_vec(),
        Ok(vec![0, 1, 0, 1, 0, 1]),
        "Backward ReLU gradient mismatch"
    );
}

#[test]
fn backward_config_with_mismatched_hint_is_invalid_shape() {
    let engine = Engine::new(EngineKind::Cpu, 0).unwrap();

    let fwd_config = ForwardEltwiseConfig {
        alg_kind: Unary::Relu,
        src_desc: desc_1d(6),
        dst_desc: desc_1d(6),
        alpha: 0,
        beta: 0,
        attr: PrimitiveAttributes::new().unwrap(),
    };
    let fwd_pd = fwd_config
        .create_primitive_desc(engine.clone(), PropKind::ForwardTraining)
        .unwrap();

    let bwd_config = BackwardEltwiseConfig {
        alg_kind: Unary::Relu,
        diff_src_desc: desc_1d(4),
        diff_dest_desc: desc_1d(4),
        data_desc: desc_1d(4),
        alpha: 0,
        beta: 0,
        attr: PrimitiveAttributes::new().unwrap(),
    };
    let r = bwd_config.create_primitive_desc(engine.clone(), PropKind::Backward, &fwd_pd);
    assert_eq!(r.err(), Some(DnnlError::InvalidShape));
}

#[test]
fn backward_config_needs_training_hint() {
    let engine = Engine::new(EngineKind::Cpu, 0).unwrap();

    let fwd_config = ForwardEltwiseConfig {
        alg_kind: Unary::Relu,
        src_desc: desc_1d(6),
        dst_desc: desc_1d(6),
        alpha: 0,
        beta: 0,
        attr: PrimitiveAttributes::new().unwrap(),
    };
    let fwd_pd = fwd_config
        .create_primitive_desc(engine.clone(), PropKind::ForwardInference)
        .unwrap();

    let bwd_config = BackwardEltwiseConfig {
        alg_kind: Unary::Relu,
        diff_src_desc: desc_1d(6),
        diff_dest_desc: desc_1d(6),
        data_desc: desc_1d(6),
        alpha: 0,
        beta: 0,
        attr: PrimitiveAttributes::new().unwrap(),
    };
    let r = bwd_config.create_primitive_desc(engine.clone(), PropKind::Backward, &fwd_pd);
    assert_eq!(r.err(), Some(DnnlError::InvalidArguments));
}

#[test]
fn eltwise_linear_abs_square_are_exact() {
    let engine = Engine::new(EngineKind::Cpu, 0).unwrap();
    let cases: Vec<(Unary, i64, i64, Vec<i64>)> = vec![
        (Unary::Linear, 3, 10, vec![7, 10, 13]),
        (Unary::Abs, 0, 0, vec![1, 0, 1]),
        (Unary::Square, 0, 0, vec![1, 0, 1]),
    ];
    for (alg, alpha, beta, expected) in cases {
        let config = ForwardEltwiseConfig {
            alg_kind: alg,
            src_desc: desc_1d(3),
            dst_desc: desc_1d(3),
            alpha,
            beta,
            attr: PrimitiveAttributes::new().unwrap(),
        };
        let pd = config
            .create_primitive_desc(engine.clone(), PropKind::ForwardInference)
            .unwrap();
        let primitive = Primitive::from_descriptor(pd, engine.clone()).unwrap();
        let src = Memory::new_with_user_buffer(
            engine.clone(),
            desc_1d(3),
            AlignedBuffer::new(&[-1, 0, 1]).unwrap(),
        )
        .unwrap();
        let dst = Memory::new_with_library_buffer(engine.clone(), desc_1d(3)).unwrap();
        let stream = Stream::new(engine.clone()).unwrap();
        let out = primitive
            .execute(
                &stream,
                vec![
                    ExecArg { index: ARG_SRC_0, mem: src },
                    ExecArg { index: ARG_DST, mem: dst },
                ],
            )
            .unwrap();
        assert_eq!(take_slot(out, ARG_DST).to_vec(), Ok(expected));
    }
}

#[test]
fn eltwise_rejects_inexact_algorithms() {
    let engine = Engine::new(EngineKind::Cpu, 0).unwrap();
    let config = ForwardEltwiseConfig {
        alg_kind: Unary::Tanh,
        src_desc: desc_1d(3),
        dst_desc: desc_1d(3),
        alpha: 0,
        beta: 0,
        attr: PrimitiveAttributes::new().unwrap(),
    };
    let r = config.create_primitive_desc(engine.clone(), PropKind::ForwardInference);
    assert_eq!(r.err(), Some(DnnlError::Unsupported));
}

#[test]
fn binary_rejects_division_and_bad_prop() {
    let engine = Engine::new(EngineKind::Cpu, 0).unwrap();
    let config = ForwardBinaryConfig {
        alg_kind: Binary::Div,
        src0_desc: desc_1d(3),
        src1_desc: desc_1d(3),
        dst_desc: desc_1d(3),
        attr: PrimitiveAttributes::new().unwrap(),
    };
    let r = config.create_primitive_desc(engine.clone(), PropKind::ForwardInference);
    assert_eq!(r.err(), Some(DnnlError::Unsupported));

    let config = ForwardBinaryConfig {
        alg_kind: Binary::Add,
        src0_desc: desc_1d(3),
        src1_desc: desc_1d(3),
        dst_desc: desc_1d(3),
        attr: PrimitiveAttributes::new().unwrap(),
    };
    let r = config.create_primitive_desc(engine.clone(), PropKind::Backward);
    assert_eq!(r.err(), Some(DnnlError::Unsupported));
}

#[test]
fn binary_rejects_shape_and_type_mismatch() {
    let engine = Engine::new(EngineKind::Cpu, 0).unwrap();
    let config = ForwardBinaryConfig {
        alg_kind: Binary::Add,
        src0_desc: desc_1d(3),
        src1_desc: desc_1d(4),
        dst_desc: desc_1d(3),
        attr: PrimitiveAttributes::new().unwrap(),
    };
    let r = config.create_primitive_desc(engine.clone(), PropKind::ForwardInference);
    assert_eq!(r.err(), Some(DnnlError::InvalidShape));

    let other = MemoryDescriptor::new(vec![3], DataType::F64, FormatTag::A).unwrap();
    let config = ForwardBinaryConfig {
        alg_kind: Binary::Add,
        src0_desc: other,
        src1_desc: desc_1d(3),
        dst_desc: desc_1d(3),
        attr: PrimitiveAttributes::new().unwrap(),
    };
    let r = config.create_primitive_desc(engine.clone(), PropKind::ForwardInference);
    assert_eq!(r.err(), Some(DnnlError::InvalidDataType));
}

#[test]
fn execute_rejects_missing_and_mismatched_slots() {
    let engine = Engine::new(EngineKind::Cpu, 0).unwrap();
    let config = ForwardBinaryConfig {
        alg_kind: Binary::Add,
        src0_desc: desc_1d(3),
        src1_desc: desc_1d(3),
        dst_desc: desc_1d(3),
        attr: PrimitiveAttributes::new().unwrap(),
    };
    let pd = config
        .create_primitive_desc(engine.clone(), PropKind::ForwardInference)
        .unwrap();
    let primitive = Primitive::from_descriptor(pd, engine.clone()).unwrap();
    let stream = Stream::new(engine.clone()).unwrap();

    let src0 = Memory::new_with_user_buffer(
        engine.clone(),
        desc_1d(3),
        AlignedBuffer::new(&[1, 2, 3]).unwrap(),
    )
    .unwrap();
    let r = primitive.execute(&stream, vec![ExecArg { index: ARG_SRC_0, mem: src0 }]);
    assert_eq!(r.err(), Some(DnnlError::InvalidArguments));

    let wrong = Memory::new_with_user_buffer(
        engine.clone(),
        desc_1d(4),
        AlignedBuffer::new(&[1, 2, 3, 4]).unwrap(),
    )
    .unwrap();
    let a = Memory::new_with_user_buffer(
        engine.clone(),
        desc_1d(3),
        AlignedBuffer::new(&[1, 2, 3]).unwrap(),
    )
    .unwrap();
    let d = Memory::new_with_library_buffer(engine.clone(), desc_1d(3)).unwrap();
    let r = primitive.execute(
        &stream,
        vec![
            ExecArg { index: ARG_SRC_0, mem: a },
            ExecArg { index: ARG_SRC_1, mem: wrong },
            ExecArg { index: ARG_DST, mem: d },
        ],
    );
    assert_eq!(r.err(), Some(DnnlError::InvalidArguments));
}

#[test]
fn execute_reports_overflow_as_runtime_error() {
    let engine = Engine::new(EngineKind::Cpu, 0).unwrap();
    let config = ForwardBinaryConfig {
        alg_kind: Binary::Add,
        src0_desc: desc_1d(1),
        src1_desc: desc_1d(1),
        dst_desc: desc_1d(1),
        attr: PrimitiveAttributes::new().unwrap(),
    };
    let pd = config
        .create_primitive_desc(engine.clone(), PropKind::ForwardInference)
        .unwrap();
    let primitive = Primitive::from_descriptor(pd, engine.clone()).unwrap();
    let stream = Stream::new(engine.clone()).unwrap();

    let a = Memory::new_with_user_buffer(
        engine.clone(),
        desc_1d(1),
        AlignedBuffer::new(&[i64::MAX]).unwrap(),
    )
    .unwrap();
    let b = Memory::new_with_user_buffer(
        engine.clone(),
        desc_1d(1),
        AlignedBuffer::new(&[1]).unwrap(),
    )
    .unwrap();
    let d = Memory::new_with_library_buffer(engine.clone(), desc_1d(1)).unwrap();
    let r = primitive.execute(
        &stream,
        vec![
            ExecArg { index: ARG_SRC_0, mem: a },
            ExecArg { index: ARG_SRC_1, mem: b },
            ExecArg { index: ARG_DST, mem: d },
        ],
    );
    assert_eq!(r.err(), Some(DnnlError::RuntimeError));
}

#[test]
fn prelu_scales_negative_inputs_by_weights() {
    let engine = Engine::new(EngineKind::Cpu, 0).unwrap();
    let config = ForwardPreluConfig {
        src_desc: desc_1d(4),
        weights_desc: desc_1d(4),
        dst_desc: desc_1d(4),
        attr: PrimitiveAttributes::new().unwrap(),
    };
    let pd = config
        .create_primitive_desc(engine.clone(), PropKind::ForwardInference)
        .unwrap();
    let primitive = Primitive::from_descriptor(pd, engine.clone()).unwrap();
    let src = Memory::new_with_user_buffer(
        engine.clone(),
        desc_1d(4),
        AlignedBuffer::new(&[-2, -1, 0, 3]).unwrap(),
    )
    .unwrap();
    let wts = Memory::new_with_user_buffer(
        engine.clone(),
        desc_1d(4),
        AlignedBuffer::new(&[10, 20, 30, 40]).unwrap(),
    )
    .unwrap();
    let dst = Memory::new_with_library_buffer(engine.clone(), desc_1d(4)).unwrap();
    let stream = Stream::new(engine.clone()).unwrap();
    let out = primitive
        .execute(
            &stream,
            vec![
                ExecArg { index: ARG_SRC_0, mem: src },
                ExecArg { index: ARG_WEIGHTS, mem: wts },
                ExecArg { index: ARG_DST, mem: dst },
            ],
        )
        .unwrap();
    assert_eq!(take_slot(out, ARG_DST).to_vec(), Ok(vec![-20, -20, 0, 3]));
}

#[test]
fn primitives_release_engine_before_handle_drops() {
    let engine = Engine::new(EngineKind::Cpu, 0).unwrap();
    let config = ForwardBinaryConfig {
        alg_kind: Binary::Add,
        src0_desc: desc_1d(1),
        src1_desc: desc_1d(1),
        dst_desc: desc_1d(1),
        attr: PrimitiveAttributes::new().unwrap(),
    };
    let pd = config
        .create_primitive_desc(engine.clone(), PropKind::ForwardInference)
        .unwrap();
    let primitive = Primitive::from_descriptor(pd, engine.clone()).unwrap();
    let stream = Stream::new(engine.clone()).unwrap();
    drop(primitive);
    drop(stream);
    assert_eq!(engine.get_kind(), Ok(EngineKind::Cpu));
}
