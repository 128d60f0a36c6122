use nsbmd::fixed_1_11_4::Fixed1_11_4;
use nsbmd::fixed_1_3_12::Fixed1_3_12;
use nsbmd::gpu_command_list::GpuCommand;
use nsbmd::mesh_command_gen::triangles_from_indexed;
use nsbmd::mesh_command_gen::CmdVertex;
use nsbmd::mesh_command_gen::MeshCommandGenerator;
use nsbmd::mesh_list::Mesh;
use nsbmd::name::Name;

fn vert(x: i16, bone_id: u32) -> CmdVertex {
    CmdVertex {
        x: Fixed1_3_12::from_i16(x),
        y: Fixed1_3_12::from_i16(0),
        z: Fixed1_3_12::from_i16(0),
        s: Fixed1_11_4::from_i16(0),
        t: Fixed1_11_4::from_i16(0),
        bone_id,
    }
}

fn name_of(text: &[u8]) -> Name {
    let mut raw = [0u8; 16];
    raw[..text.len()].copy_from_slice(text);
    Name { name: raw }
}

#[test]
fn indexed_triangles_need_three_indices_each() {
    let verts = vec![vert(0, 0), vert(1, 0), vert(2, 0), vert(3, 0)];
    assert!(triangles_from_indexed(&verts, &vec![0, 1]).is_err());
    assert!(triangles_from_indexed(&verts, &vec![0, 1, 9]).is_err());
    let tris = triangles_from_indexed(&verts, &vec![0, 1, 2, 1, 2, 3]).unwrap();
    assert_eq!(tris.len(), 2);
    assert_eq!(tris[1].v3.x.to_i16(), 3);
}

#[test]
fn generator_rejects_missing_bones() {
    let verts = vec![vert(0, 0), vert(1, 0), vert(2, 0)];
    let tris = triangles_from_indexed(&verts, &vec![0, 1, 2]).unwrap();
    let vertex_bones = vec![name_of(b"hip")];
    let command_bones = vec![Some(name_of(b"spine"))];
    assert!(MeshCommandGenerator::new(tris, &vertex_bones, &command_bones).is_err());
}

#[test]
fn generator_batches_single_bone_triangles() {
    // One single-bone triangle: one group of BeginVtxs, MtxRestore at the
    // mapped slot, three texture/position pairs, EndVtxs.
    let verts = vec![vert(10, 0), vert(20, 0), vert(30, 0)];
    let tris = triangles_from_indexed(&verts, &vec![0, 1, 2]).unwrap();
    let vertex_bones = vec![name_of(b"hip")];
    let command_bones = vec![None, Some(name_of(b"hip"))];
    let generator = MeshCommandGenerator::new(tris, &vertex_bones, &command_bones).unwrap();
    let commands = generator.generate_commands().unwrap();
    assert_eq!(commands.len(), 9);
    assert!(matches!(commands[0], GpuCommand::BeginVtxs(_)));
    match &commands[1] {
        GpuCommand::MtxRestore(p) => assert_eq!(p.index, 1),
        other => panic!("expected MtxRestore, got {:?}", other),
    }
    assert!(matches!(commands[2], GpuCommand::TexCoord(_)));
    assert!(matches!(commands[3], GpuCommand::Vtx16(_)));
    assert!(matches!(commands[8], GpuCommand::EndVtxs));
}

#[test]
fn generator_switches_bones_in_mixed_triangles() {
    // A triangle spanning bones 0 and 1: the matrix is restored when the
    // active bone changes mid-run.
    let verts = vec![vert(10, 0), vert(20, 1), vert(30, 1)];
    let tris = triangles_from_indexed(&verts, &vec![0, 1, 2]).unwrap();
    let vertex_bones = vec![name_of(b"hip"), name_of(b"leg")];
    let command_bones = vec![Some(name_of(b"hip")), Some(name_of(b"leg"))];
    let generator = MeshCommandGenerator::new(tris, &vertex_bones, &command_bones).unwrap();
    let commands = generator.generate_commands().unwrap();
    // BeginVtxs, restore(0), v1 pair, restore(1), v2 pair, v3 pair, End.
    assert_eq!(commands.len(), 10);
    assert!(matches!(commands[0], GpuCommand::BeginVtxs(_)));
    match &commands[1] {
        GpuCommand::MtxRestore(p) => assert_eq!(p.index, 0),
        other => panic!("expected MtxRestore, got {:?}", other),
    }
    match &commands[4] {
        GpuCommand::MtxRestore(p) => assert_eq!(p.index, 1),
        other => panic!("expected MtxRestore, got {:?}", other),
    }
    assert!(matches!(commands[9], GpuCommand::EndVtxs));
}

#[test]
fn mesh_round_trips_and_rebases_its_length() {
    // A 16-byte header addressing a one-chunk command list right after it.
    let mut bytes = vec![0u8; 24];
    bytes[2] = 16;
    bytes[8] = 16;
    bytes[12] = 8;
    bytes[16] = 0x14;
    bytes[20] = 9;
    let mut mesh = Mesh::from_bytes(&bytes).unwrap();
    assert_eq!(mesh.cmds_offset, 16);
    assert_eq!(mesh.cmds_len, 8);
    assert_eq!(mesh.render_cmds_list.render_cmds.len(), 4);
    let mut out = vec![0u8; 24];
    mesh.write_bytes(&mut out, 0);
    assert_eq!(out, bytes);
    // Rebase keeps the already-exact length; rebasing twice changes
    // nothing, and the encodes agree.
    mesh.rebase();
    let mut a = vec![0u8; 24];
    mesh.write_bytes(&mut a, 0);
    mesh.rebase();
    let mut b = vec![0u8; 24];
    mesh.write_bytes(&mut b, 0);
    assert_eq!(a, b);
    assert_eq!(a, bytes);
}
