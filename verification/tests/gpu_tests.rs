use nsbmd::fixed_1_3_12::Fixed1_3_12;
use nsbmd::gpu_command_list::GpuCommand;
use nsbmd::gpu_command_list::GpuCommandList;
use nsbmd::gpu_params::BeginVtxsParams;
use nsbmd::gpu_params::MtxRestoreParams;
use nsbmd::gpu_params::Vtx16Params;
use nsbmd::gpu_params::VtxDiffParams;
use nsbmd::gpu_params::VtxXYParams;
use nsbmd::mesh_render_cmd_vertex_pos_extractor::MeshRenderCmdVertexPosExtractor;

fn encode(list: &GpuCommandList) -> Vec<u8> {
    let mut buffer = vec![0u8; list.size()];
    list.write_bytes(&mut buffer, 0);
    buffer
}

#[test]
fn gpu_command_padding_rounds_to_four() {
    // Five commands must pad with three NOPs: eight total, divisible by 4.
    let list = GpuCommandList {
        render_cmds: vec![
            GpuCommand::BeginVtxs(BeginVtxsParams { primitive_type: 0 }),
            GpuCommand::MtxRestore(MtxRestoreParams { index: 3 }),
            GpuCommand::Vtx16(Vtx16Params {
                x: Fixed1_3_12::from_i16(4096),
                y: Fixed1_3_12::from_i16(0),
                z: Fixed1_3_12::from_i16(0),
            }),
            GpuCommand::EndVtxs,
            GpuCommand::Nop,
        ],
    };
    let bytes = encode(&list);
    let decoded = GpuCommandList::from_bytes(&bytes).unwrap();
    assert_eq!(decoded.render_cmds.len() % 4, 0);
    assert_eq!(decoded.render_cmds.len(), 8);
    // The commands that went in come back first, then only NOPs.
    for k in 0..5 {
        assert_eq!(decoded.render_cmds[k].op_code(), list.render_cmds[k].op_code());
    }
    for k in 5..8 {
        assert!(matches!(decoded.render_cmds[k], GpuCommand::Nop));
    }
    // Re-encoding the decoded list reproduces the bytes exactly.
    let bytes2 = encode(&decoded);
    assert_eq!(bytes, bytes2);
}

#[test]
fn gpu_byte_round_trip_is_exact() {
    // One chunk: a matrix restore and three NOPs, then the parameter word.
    let bytes: Vec<u8> = vec![0x14, 0x00, 0x00, 0x00, 0x05, 0x00, 0x00, 0x00];
    let decoded = GpuCommandList::from_bytes(&bytes).unwrap();
    assert_eq!(decoded.render_cmds.len(), 4);
    assert!(matches!(
        decoded.render_cmds[0],
        GpuCommand::MtxRestore(MtxRestoreParams { index: 5 })
    ));
    assert_eq!(encode(&decoded), bytes);
}

#[test]
fn gpu_unknown_opcode_is_refused() {
    let bytes: Vec<u8> = vec![0x0F, 0x00, 0x00, 0x00];
    assert!(GpuCommandList::from_bytes(&bytes).is_err());
}

#[test]
fn gpu_truncated_parameters_are_refused() {
    // MtxRestore wants one parameter word that is not there.
    let bytes: Vec<u8> = vec![0x14, 0x00, 0x00, 0x00];
    assert!(GpuCommandList::from_bytes(&bytes).is_err());
    assert!(GpuCommandList::from_bytes(&[0u8, 0u8]).is_err());
}

#[test]
fn vertex_extractor_scenario() {
    // BeginVtxs, an absolute vertex at x=1, an XY update keeping z, a
    // delta of one unit in z, EndVtxs: three positions come out, in raw
    // units where 4096 is 1.0.
    let list = GpuCommandList {
        render_cmds: vec![
            GpuCommand::BeginVtxs(BeginVtxsParams { primitive_type: 0 }),
            GpuCommand::Vtx16(Vtx16Params {
                x: Fixed1_3_12::from_i16(4096),
                y: Fixed1_3_12::from_i16(0),
                z: Fixed1_3_12::from_i16(0),
            }),
            GpuCommand::VtxXY(VtxXYParams {
                x: Fixed1_3_12::from_i16(8192),
                y: Fixed1_3_12::from_i16(12288),
            }),
            GpuCommand::VtxDiff(VtxDiffParams {
                x: Fixed1_3_12::from_i16(0),
                y: Fixed1_3_12::from_i16(0),
                z: Fixed1_3_12::from_i16(4096),
            }),
            GpuCommand::EndVtxs,
        ],
    };
    let mut extractor = MeshRenderCmdVertexPosExtractor::new(&list);
    extractor.execute().unwrap();
    let verts = extractor.vertices();
    assert_eq!(verts.len(), 3);
    assert_eq!((verts[0].x, verts[0].y, verts[0].z), (4096, 0, 0));
    assert_eq!((verts[1].x, verts[1].y, verts[1].z), (8192, 12288, 0));
    assert_eq!((verts[2].x, verts[2].y, verts[2].z), (8192, 12288, 4096));
}

#[test]
fn vertex_extractor_rejects_nested_groups() {
    let list = GpuCommandList {
        render_cmds: vec![
            GpuCommand::BeginVtxs(BeginVtxsParams { primitive_type: 0 }),
            GpuCommand::BeginVtxs(BeginVtxsParams { primitive_type: 0 }),
        ],
    };
    let mut extractor = MeshRenderCmdVertexPosExtractor::new(&list);
    assert!(extractor.execute().is_err());
}

#[test]
fn vertex_extractor_rejects_unopened_end() {
    let list = GpuCommandList { render_cmds: vec![GpuCommand::EndVtxs] };
    let mut extractor = MeshRenderCmdVertexPosExtractor::new(&list);
    assert!(extractor.execute().is_err());
}

#[test]
fn vtx10_decodes_negative_lanes() {
    // Lanes x=0x3FF (-1), y=0x200 (-512), z=0x1FF (511), each 1.3.6.
    let word: u32 = 0x3FF + 0x400 * 0x200 + 0x100000 * 0x1FF;
    let bytes = word.to_le_bytes();
    let cmd = GpuCommand::from_bytes(0x24, &bytes).unwrap();
    match cmd {
        GpuCommand::Vtx10(p) => {
            assert_eq!(p.x.to_i16(), -1);
            assert_eq!(p.y.to_i16(), -512);
            assert_eq!(p.z.to_i16(), 511);
        },
        _ => panic!("expected a short vertex command"),
    }
}

#[test]
fn unknown_gpu_opcode_reports_the_byte() {
    let e = GpuCommand::from_bytes(0x50, &[]).unwrap_err();
    assert_eq!(e.message(), "Unknown GPU command 80");
}
