use nsbmd::bone_list::BoneList;
use nsbmd::bone_list::BoneMatrix;
use nsbmd::bone_list::BoneMatrixFlags;
use nsbmd::bone_list::TranslationMatrix;
use nsbmd::fixed_1_19_12::Fixed1_19_12;
use nsbmd::fixed_1_3_12::Fixed1_3_12;
use nsbmd::model_render_cmd_executor::ModelRenderCmdExecutor;
use nsbmd::name::Name;
use nsbmd::name_list::NameList;
use nsbmd::name_list::Unknown;
use nsbmd::name_list::UnknownHeader;
use nsbmd::render_command_list::MulCurrentMatrixWithBoneMatrixData;
use nsbmd::render_command_list::RenderCommand;
use nsbmd::render_command_list::RenderCommandList;

fn encode(list: &RenderCommandList) -> Vec<u8> {
    let mut buffer = vec![0u8; list.size()];
    list.write_bytes(&mut buffer, 0);
    buffer
}

fn translation_bone(dx: i32, dy: i32, dz: i32) -> BoneMatrix {
    // Flag bits: translation present (bit 0 clear), rotation absent
    // (packed clear, mode set), scale absent (bit 2 set).
    BoneMatrix {
        flags: BoneMatrixFlags { flags: 0x0006 },
        m0: Fixed1_3_12::from_i16(0),
        translation: Some(TranslationMatrix {
            x: Fixed1_19_12::from_i32(dx),
            y: Fixed1_19_12::from_i32(dy),
            z: Fixed1_19_12::from_i32(dz),
        }),
        rotation: None,
        scale: None,
    }
}

fn name_of(text: &[u8]) -> Name {
    let mut raw = [0u8; 16];
    raw[..text.len()].copy_from_slice(text);
    Name { name: raw }
}

fn three_bone_list() -> BoneList {
    let names = vec![name_of(b"root"), name_of(b"spine"), name_of(b"arm")];
    BoneList {
        bones: NameList {
            dummy: 0,
            count: 3,
            size: 88,
            unknown: Unknown {
                header: UnknownHeader { subheader_size: 8, unknown_size: 24, unknown: 0 },
                unknown: vec![0, 0, 0],
            },
            element_size: 4,
            data_section_size: 16,
            data: vec![88, 104, 120],
            names,
        },
        bone_matrices: vec![
            translation_bone(0, 0, 0),
            translation_bone(4096, 0, 0),
            translation_bone(111, 222, 333),
        ],
    }
}

#[test]
fn render_command_byte_round_trip_is_exact() {
    // A stack load, a bone multiply with load and store slots, and End.
    let bytes: Vec<u8> = vec![0x03, 0x05, 0x66, 0x02, 0x00, 0x00, 0x05, 0x07, 0x01];
    let decoded = RenderCommandList::from_bytes(&bytes).unwrap();
    assert_eq!(decoded.render_commands.len(), 3);
    assert_eq!(encode(&decoded), bytes);
}

#[test]
fn render_command_stream_must_end_with_end() {
    // A lone stack load with no End command is refused.
    let bytes: Vec<u8> = vec![0x03, 0x05];
    assert!(RenderCommandList::from_bytes(&bytes).is_err());
}

#[test]
fn render_command_invalid_subtype_is_refused() {
    // Nop only accepts subtypes 0x00, 0x40 and 0x80.
    let bytes: Vec<u8> = vec![0x20, 0x01];
    assert!(RenderCommandList::from_bytes(&bytes).is_err());
    // A bone multiply with subtype 0x80 is unknown.
    let bytes: Vec<u8> = vec![0x86, 0x00, 0x00, 0x00, 0x01];
    assert!(RenderCommandList::from_bytes(&bytes).is_err());
}

#[test]
fn matrix_stack_executor_scenario() {
    // One bone multiply with subtype 0x60: load slot 5, store slot 7,
    // bone 2 a pure translation. Slot 7 becomes identity times that
    // translation and records bone 2's name.
    let bones = three_bone_list();
    let cmds = RenderCommandList {
        render_commands: vec![
            RenderCommand::MulCurrentMatrixWithBoneMatrix(MulCurrentMatrixWithBoneMatrixData {
                subtype: 0x60,
                bone_index: 2,
                parent_index: 0,
                unknown: 0,
                param_3: Some(5),
                param_4: Some(7),
            }),
            RenderCommand::End,
        ],
    };
    let mut executor = ModelRenderCmdExecutor::new(&cmds, &bones);
    executor.execute().unwrap();
    let stack = executor.matrix_stack();
    let expected: [i64; 16] = [
        4096, 0, 0, 111,
        0, 4096, 0, 222,
        0, 0, 4096, 333,
        0, 0, 0, 4096,
    ];
    assert_eq!(stack[7].m, expected);
    // Slot 5 stays the identity.
    let identity: [i64; 16] = [
        4096, 0, 0, 0,
        0, 4096, 0, 0,
        0, 0, 4096, 0,
        0, 0, 0, 4096,
    ];
    assert_eq!(stack[5].m, identity);
    let names = executor.loaded_bones_in_matrix();
    assert_eq!(names[7].as_ref().unwrap().name, name_of(b"arm").name);
    assert!(names[5].is_none());
}

#[test]
fn executor_rejects_bad_stack_index() {
    let bones = three_bone_list();
    let cmds = RenderCommandList {
        render_commands: vec![
            RenderCommand::LoadMatrixFromStack(
                nsbmd::render_command_list::LoadMatrixFromStackData { stack_index: 31 },
            ),
            RenderCommand::End,
        ],
    };
    let mut executor = ModelRenderCmdExecutor::new(&cmds, &bones);
    assert!(executor.execute().is_err());
}

#[test]
fn executor_rejects_bad_bone_index() {
    let bones = three_bone_list();
    let cmds = RenderCommandList {
        render_commands: vec![
            RenderCommand::MulCurrentMatrixWithBoneMatrix(MulCurrentMatrixWithBoneMatrixData {
                subtype: 0x00,
                bone_index: 9,
                parent_index: 0,
                unknown: 0,
                param_3: None,
                param_4: None,
            }),
            RenderCommand::End,
        ],
    };
    let mut executor = ModelRenderCmdExecutor::new(&cmds, &bones);
    assert!(executor.execute().is_err());
}

#[test]
fn executor_requires_a_draw_before_stream_end() {
    let bones = three_bone_list();
    let cmds = RenderCommandList { render_commands: vec![RenderCommand::End] };
    let mut executor = ModelRenderCmdExecutor::new(&cmds, &bones);
    assert!(executor.execute_until_next_mesh_draw().is_err());
    let with_draw = RenderCommandList {
        render_commands: vec![
            RenderCommand::DrawMesh(nsbmd::render_command_list::DrawMeshData { mesh_index: 0 }),
            RenderCommand::End,
        ],
    };
    let mut executor = ModelRenderCmdExecutor::new(&with_draw, &bones);
    assert!(executor.execute_until_next_mesh_draw().is_ok());
}

#[test]
fn unknown_render_opcode_reports_the_byte() {
    let e = nsbmd::render_command_list::RenderCommand::from_bytes(0x0A, &[]).unwrap_err();
    assert_eq!(e.message(), "Unknown render command 10");
}

#[test]
fn invalid_render_subtype_reports_the_value() {
    // The scale opcode takes subtypes 0x00 and 0x20 only.
    let e = nsbmd::render_command_list::RenderCommand::from_bytes(0x4B, &[]).unwrap_err();
    assert_eq!(e.message(), "Invalid Scale subtype 64");
}
