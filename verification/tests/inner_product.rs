use onednnl::engine::{Engine, EngineKind};
use onednnl::error::DnnlError;
use onednnl::memory::buffer::AlignedBuffer;
use onednnl::memory::descriptor::{DataType, MemoryDescriptor};
use onednnl::memory::format_tag::FormatTag;
use onednnl::memory::Memory;
use onednnl::primitive::attributes::PrimitiveAttributes;
use onednnl::primitive::{
    ExecArg, Primitive, PropKind, ARG_BIAS, ARG_DIFF_BIAS, ARG_DIFF_DST, ARG_DIFF_SRC,
    ARG_DIFF_WEIGHTS, ARG_DST, ARG_SRC_0, ARG_WEIGHTS,
};
use onednnl::primitives::inner_product::{
    BackwardDataInnerProductConfig, BackwardWeightsInnerProductConfig, ForwardInnerProductConfig,
};
use onednnl::stream::Stream;

fn desc(dims: Vec<i64>, tag: FormatTag) -> MemoryDescriptor {
    MemoryDescriptor::new(dims, DataType::F32, tag).unwrap()
}

fn take_slot(out: Vec<ExecArg>, index: i32) -> Memory {
    for arg in out {
        if arg.index == index {
            return arg.mem;
        }
    }
    panic!("slot not present");
}

fn fwd_config() -> ForwardInnerProductConfig {
    ForwardInnerProductConfig {
        src_desc: desc(vec![2, 3], FormatTag::Ab),
        weights_desc: desc(vec![2, 3], FormatTag::Ab),
        bias_desc: desc(vec![2], FormatTag::A),
        dst_desc: desc(vec![2, 2], FormatTag::Ab),
        attr: PrimitiveAttributes::new().unwrap(),
    }
}

#[test]
fn inner_product_forward_with_bias() {
    let engine = Engine::new(EngineKind::Cpu, 0).unwrap();
    let pd = fwd_config()
        .create_primitive_desc(engine.clone(), PropKind::ForwardInference)
        .unwrap();
    let primitive = Primitive::from_descriptor(pd, engine.clone()).unwrap();

    // Samples [1,2,3] and [4,5,6]; weight rows [1,0,1] and [0,1,0];
    // bias [10, 20].
    let src = Memory::new_with_user_buffer(
        engine.clone(),
        desc(vec![2, 3], FormatTag::Ab),
        AlignedBuffer::new(&[1, 2, 3, 4, 5, 6]).unwrap(),
    )
    .unwrap();
    let wts = Memory::new_with_user_buffer(
        engine.clone(),
        desc(vec![2, 3], FormatTag::Ab),
        AlignedBuffer::new(&[1, 0, 1, 0, 1, 0]).unwrap(),
    )
    .unwrap();
    let bias = Memory::new_with_user_buffer(
        engine.clone(),
        desc(vec![2], FormatTag::A),
        AlignedBuffer::new(&[10, 20]).unwrap(),
    )
    .unwrap();
    let dst = Memory::new_with_library_buffer(engine.clone(), desc(vec![2, 2], FormatTag::Ab))
        .unwrap();

    let stream = Stream::new(engine.clone()).unwrap();
    let out = primitive
        .execute(
            &stream,
            vec![
                ExecArg { index: ARG_SRC_0, mem: src },
                ExecArg { index: ARG_WEIGHTS, mem: wts },
                ExecArg { index: ARG_BIAS, mem: bias },
                ExecArg { index: ARG_DST, mem: dst },
            ],
        )
        .unwrap();
    stream.wait().unwrap();
    // Row 1: [1+3+10, 2+20]; row 2: [4+6+10, 5+20].
    assert_eq!(take_slot(out, ARG_DST).to_vec(), Ok(vec![14, 22, 20, 25]));
}

#[test]
fn inner_product_backward_data_recovers_gradient() {
    let engine = Engine::new(EngineKind::Cpu, 0).unwrap();
    let fwd_pd = fwd_config()
        .create_primitive_desc(engine.clone(), PropKind::ForwardTraining)
        .unwrap();

    let bwd_config = BackwardDataInnerProductConfig {
        diff_src_desc: desc(vec![2, 3], FormatTag::Ab),
        weights_desc: desc(vec![2, 3], FormatTag::Ab),
        diff_dst_desc: desc(vec![2, 2], FormatTag::Ab),
        attr: PrimitiveAttributes::new().unwrap(),
    };
    let bwd_pd = bwd_config
        .create_primitive_desc(engine.clone(), PropKind::BackwardData, &fwd_pd)
        .unwrap();
    let primitive = Primitive::from_descriptor(bwd_pd, engine.clone()).unwrap();

    let wts = Memory::new_with_user_buffer(
        engine.clone(),
        desc(vec![2, 3], FormatTag::Ab),
        AlignedBuffer::new(&[1, 0, 1, 0, 1, 0]).unwrap(),
    )
    .unwrap();
    let dd = Memory::new_with_user_buffer(
        engine.clone(),
        desc(vec![2, 2], FormatTag::Ab),
        AlignedBuffer::new(&[1, 2, 3, 4]).unwrap(),
    )
    .unwrap();
    let ds = Memory::new_with_library_buffer(engine.clone(), desc(vec![2, 3], FormatTag::Ab))
        .unwrap();

    let stream = Stream::new(engine.clone()).unwrap();
    let out = primitive
        .execute(
            &stream,
            vec![
                ExecArg { index: ARG_DIFF_DST, mem: dd },
                ExecArg { index: ARG_WEIGHTS, mem: wts },
                ExecArg { index: ARG_DIFF_SRC, mem: ds },
            ],
        )
        .unwrap();
    stream.wait().unwrap();
    // diff_src[n][j] = sum over oc of w[oc][j] * dd[n][oc].
    assert_eq!(
        take_slot(out, ARG_DIFF_SRC).to_vec(),
        Ok(vec![1, 2, 1, 3, 4, 3])
    );
}

#[test]
fn inner_product_backward_weights_and_bias() {
    let engine = Engine::new(EngineKind::Cpu, 0).unwrap();
    let fwd_pd = fwd_config()
        .create_primitive_desc(engine.clone(), PropKind::ForwardTraining)
        .unwrap();

    let bwd_config = BackwardWeightsInnerProductConfig {
        src_desc: desc(vec![2, 3], FormatTag::Ab),
        diff_weights_desc: desc(vec![2, 3], FormatTag::Ab),
        diff_bias_desc: desc(vec![2], FormatTag::A),
        diff_dst_desc: desc(vec![2, 2], FormatTag::Ab),
        attr: PrimitiveAttributes::new().unwrap(),
    };
    let bwd_pd = bwd_config
        .create_primitive_desc(engine.clone(), PropKind::BackwardWeights, &fwd_pd)
        .unwrap();
    let primitive = Primitive::from_descriptor(bwd_pd, engine.clone()).unwrap();

    let src = Memory::new_with_user_buffer(
        engine.clone(),
        desc(vec![2, 3], FormatTag::Ab),
        AlignedBuffer::new(&[1, 2, 3, 4, 5, 6]).unwrap(),
    )
    .unwrap();
    let dd = Memory::new_with_user_buffer(
        engine.clone(),
        desc(vec![2, 2], FormatTag::Ab),
        AlignedBuffer::new(&[1, 2, 3, 4]).unwrap(),
    )
    .unwrap();
    let dw = Memory::new_with_library_buffer(engine.clone(), desc(vec![2, 3], FormatTag::Ab))
        .unwrap();
    let db = Memory::new_with_library_buffer(engine.clone(), desc(vec![2], FormatTag::A)).unwrap();

    let stream = Stream::new(engine.clone()).unwrap();
    let out = primitive
        .execute(
            &stream,
            vec![
                ExecArg { index: ARG_SRC_0, mem: src },
                ExecArg { index: ARG_DIFF_DST, mem: dd },
                ExecArg { index: ARG_DIFF_WEIGHTS, mem: dw },
                ExecArg { index: ARG_DIFF_BIAS, mem: db },
            ],
        )
        .unwrap();
    stream.wait().unwrap();
    let mut dw_out = None;
    let mut db_out = None;
    for arg in out {
        if arg.index == ARG_DIFF_WEIGHTS {
            dw_out = Some(arg.mem);
        } else if arg.index == ARG_DIFF_BIAS {
            db_out = Some(arg.mem);
        }
    }
    // dw[oc][j] = sum over n of src[n][j] * dd[n][oc];
    // db[oc] = sum over n of dd[n][oc].
    assert_eq!(
        dw_out.unwrap().to_vec(),
        Ok(vec![1 + 12, 2 + 15, 3 + 18, 2 + 16, 4 + 20, 6 + 24])
    );
    assert_eq!(db_out.unwrap().to_vec(), Ok(vec![4, 6]));
}

#[test]
fn inner_product_flattens_trailing_axes() {
    let engine = Engine::new(EngineKind::Cpu, 0).unwrap();
    // Samples shaped [1, 2, 2] flatten to four cells each.
    let config = ForwardInnerProductConfig {
        src_desc: desc(vec![1, 1, 2, 2], FormatTag::Abcd),
        weights_desc: desc(vec![1, 1, 2, 2], FormatTag::Abcd),
        bias_desc: desc(vec![1], FormatTag::A),
        dst_desc: desc(vec![1, 1], FormatTag::Ab),
        attr: PrimitiveAttributes::new().unwrap(),
    };
    let pd = config
        .create_primitive_desc(engine.clone(), PropKind::ForwardInference)
        .unwrap();
    let primitive = Primitive::from_descriptor(pd, engine.clone()).unwrap();
    let src = Memory::new_with_user_buffer(
        engine.clone(),
        desc(vec![1, 1, 2, 2], FormatTag::Abcd),
        AlignedBuffer::new(&[1, 2, 3, 4]).unwrap(),
    )
    .unwrap();
    let wts = Memory::new_with_user_buffer(
        engine.clone(),
        desc(vec![1, 1, 2, 2], FormatTag::Abcd),
        AlignedBuffer::new(&[5, 6, 7, 8]).unwrap(),
    )
    .unwrap();
    let bias = Memory::new_without_buffer(engine.clone(), desc(vec![1], FormatTag::A)).unwrap();
    let dst = Memory::new_with_library_buffer(engine.clone(), desc(vec![1, 1], FormatTag::Ab))
        .unwrap();
    let stream = Stream::new(engine.clone()).unwrap();
    let out = primitive
        .execute(
            &stream,
            vec![
                ExecArg { index: ARG_SRC_0, mem: src },
                ExecArg { index: ARG_WEIGHTS, mem: wts },
                ExecArg { index: ARG_BIAS, mem: bias },
                ExecArg { index: ARG_DST, mem: dst },
            ],
        )
        .unwrap();
    assert_eq!(
        take_slot(out, ARG_DST).to_vec(),
        Ok(vec![5 + 12 + 21 + 32])
    );
}

#[test]
fn backward_weights_config_checks_hint_shapes() {
    let engine = Engine::new(EngineKind::Cpu, 0).unwrap();
    let fwd_pd = fwd_config()
        .create_primitive_desc(engine.clone(), PropKind::ForwardTraining)
        .unwrap();

    // Shapes are self-consistent but differ from the hint's tensors.
    let bwd_config = BackwardWeightsInnerProductConfig {
        src_desc: desc(vec![3, 4], FormatTag::Ab),
        diff_weights_desc: desc(vec![2, 4], FormatTag::Ab),
        diff_bias_desc: desc(vec![2], FormatTag::A),
        diff_dst_desc: desc(vec![3, 2], FormatTag::Ab),
        attr: PrimitiveAttributes::new().unwrap(),
    };
    let r = bwd_config.create_primitive_desc(engine.clone(), PropKind::BackwardWeights, &fwd_pd);
    assert_eq!(r.err(), Some(DnnlError::InvalidShape));
}

#[test]
fn backward_data_config_needs_inner_product_hint() {
    let engine = Engine::new(EngineKind::Cpu, 0).unwrap();
    let other_config = onednnl::primitives::binary::ForwardBinaryConfig {
        alg_kind: onednnl::primitives::binary::Binary::Add,
        src0_desc: desc(vec![3], FormatTag::A),
        src1_desc: desc(vec![3], FormatTag::A),
        dst_desc: desc(vec![3], FormatTag::A),
        attr: PrimitiveAttributes::new().unwrap(),
    };
    let other_pd = other_config
        .create_primitive_desc(engine.clone(), PropKind::ForwardInference)
        .unwrap();

    let bwd_config = BackwardDataInnerProductConfig {
        diff_src_desc: desc(vec![2, 3], FormatTag::Ab),
        weights_desc: desc(vec![2, 3], FormatTag::Ab),
        diff_dst_desc: desc(vec![2, 2], FormatTag::Ab),
        attr: PrimitiveAttributes::new().unwrap(),
    };
    let r = bwd_config.create_primitive_desc(engine.clone(), PropKind::BackwardData, &other_pd);
    assert_eq!(r.err(), Some(DnnlError::InvalidArguments));
}
