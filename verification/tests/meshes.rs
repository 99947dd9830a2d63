use render_front::buffers::{
    check_indices, flatten_instances, flatten_vertices, quad_indices, quad_vertices, InstanceRaw,
    Mesh, MeshError, Position, Vertex, VertexAttribute, VertexFormat, VertexStepMode, UV,
};
use render_front::pass::{BindSource, IndexFormat, RenderCommand, VertexSource};

fn vertex(x: f32, y: f32, z: f32, u: f32, v: f32) -> Vertex {
    Vertex {
        position: Position([x.to_bits(), y.to_bits(), z.to_bits()]),
        tex_coords: UV([u.to_bits(), v.to_bits()]),
    }
}

fn float_bytes(values: &[f32]) -> Vec<u8> {
    let mut bytes = Vec::new();
    for v in values {
        bytes.extend_from_slice(&v.to_ne_bytes());
    }
    bytes
}

#[test]
fn index_beyond_the_vertices_is_refused() {
    let a = vertex(0.0, 0.0, 0.0, 0.0, 0.0);
    let b = vertex(1.0, 0.0, 0.0, 1.0, 0.0);
    let result = Mesh::new(&[a, b], &[0, 1, 2]);
    assert_eq!(result.err(), Some(MeshError::InvalidIndex));
}

#[test]
fn index_equal_to_the_vertex_count_is_refused() {
    let a = vertex(0.0, 0.0, 0.0, 0.0, 0.0);
    assert_eq!(Mesh::new(&[a], &[1]).err(), Some(MeshError::InvalidIndex));
    assert!(Mesh::new(&[a], &[0]).is_ok());
}

#[test]
fn largest_index_is_not_wrapped() {
    let a = vertex(0.0, 0.0, 0.0, 0.0, 0.0);
    assert_eq!(Mesh::new(&[a, a], &[0, u16::MAX]).err(), Some(MeshError::InvalidIndex));
}

#[test]
fn empty_vertex_list_is_refused() {
    assert_eq!(Mesh::new(&[], &[]).err(), Some(MeshError::NoVertices));
    assert_eq!(Mesh::new(&[], &[0]).err(), Some(MeshError::NoVertices));
}

#[test]
fn mesh_without_indices_is_accepted() {
    let a = vertex(0.0, 0.0, 0.0, 0.0, 0.0);
    let mesh = Mesh::new(&[a], &[]).unwrap();
    assert_eq!(mesh.len(), 0);
    assert!(mesh.index_bytes().is_empty());
    assert_eq!(mesh.vertex_bytes().len(), 20);
}

#[test]
fn mesh_bytes_are_the_memory_of_the_data() {
    let a = vertex(-0.5, 0.5, 0.0, 0.0, 0.0);
    let b = vertex(0.5, 0.5, 0.25, 1.0, 0.0);
    let c = vertex(-0.5, -0.5, 3.0, 0.0, 1.0);
    let mesh = Mesh::new(&[a, b, c], &[0, 1, 2, 2, 1, 0, 258]).err();
    assert_eq!(mesh, Some(MeshError::InvalidIndex));
    let mesh = Mesh::new(&[a, b, c], &[0, 1, 2, 2, 1, 0]).unwrap();
    assert_eq!(mesh.len(), 6);
    assert_eq!(
        mesh.vertex_bytes(),
        float_bytes(&[
            -0.5, 0.5, 0.0, 0.0, 0.0, 0.5, 0.5, 0.25, 1.0, 0.0, -0.5, -0.5, 3.0, 0.0, 1.0
        ])
        .as_slice()
    );
    let mut index_bytes = Vec::new();
    for i in [0u16, 1, 2, 2, 1, 0] {
        index_bytes.extend_from_slice(&i.to_ne_bytes());
    }
    assert_eq!(mesh.index_bytes(), index_bytes.as_slice());
}

#[test]
fn index_bytes_keep_both_bytes_of_an_index() {
    let a = vertex(0.0, 0.0, 0.0, 0.0, 0.0);
    let vertices = vec![a; 600];
    let mesh = Mesh::new(&vertices, &[513, 2]).unwrap();
    let mut expected = Vec::new();
    expected.extend_from_slice(&513u16.to_ne_bytes());
    expected.extend_from_slice(&2u16.to_ne_bytes());
    assert_eq!(mesh.index_bytes(), expected.as_slice());
    assert_eq!(mesh.vertex_bytes().len(), 600 * 20);
}

#[test]
fn quad_is_a_well_formed_mesh() {
    let vertices = quad_vertices();
    let indices = quad_indices();
    assert_eq!(indices, vec![0, 1, 2, 1, 2, 3]);
    assert_eq!(
        vertices,
        vec![
            vertex(-0.5, 0.5, 0.0, 0.0, 0.0),
            vertex(0.5, 0.5, 0.0, 1.0, 0.0),
            vertex(-0.5, -0.5, 0.0, 0.0, 1.0),
            vertex(0.5, -0.5, 0.0, 1.0, 1.0),
        ]
    );
    let mesh = Mesh::new(&vertices, &indices).unwrap();
    assert_eq!(mesh.len(), 6);
    assert_eq!(mesh.vertex_bytes().len(), 80);
    assert_eq!(mesh.index_bytes().len(), 12);
}

#[test]
fn check_indices_tells_range() {
    assert!(check_indices(&[], 0));
    assert!(check_indices(&[0, 1, 2], 3));
    assert!(!check_indices(&[0, 3, 1], 3));
    assert!(!check_indices(&[0], 0));
}

#[test]
fn vertices_flatten_position_first() {
    let words = flatten_vertices(&[
        vertex(1.0, 2.0, 3.0, 4.0, 5.0),
        vertex(6.0, 7.0, 8.0, 9.0, 10.0),
    ]);
    let expected: Vec<u32> = (1..=10).map(|n| (n as f32).to_bits()).collect();
    assert_eq!(words, expected);
    assert!(flatten_vertices(&[]).is_empty());
}

#[test]
fn instances_flatten_column_after_column() {
    let mut model = [[0u32; 4]; 4];
    for c in 0..4 {
        for r in 0..4 {
            model[c][r] = (c * 4 + r) as u32;
        }
    }
    let mut second = model;
    second[0][0] = 99;
    let words = flatten_instances(&[InstanceRaw { model }, InstanceRaw { model: second }]);
    let mut expected: Vec<u32> = (0..16).collect();
    expected.push(99);
    expected.extend(1..16);
    assert_eq!(words, expected);
}

#[test]
fn vertex_layout_has_position_and_texture_coordinate() {
    let layout = Vertex::desc();
    assert_eq!(layout.array_stride, 20);
    assert_eq!(layout.step_mode, VertexStepMode::Vertex);
    assert_eq!(
        layout.attributes,
        vec![
            VertexAttribute { offset: 0, shader_location: 0, format: VertexFormat::Float32x3 },
            VertexAttribute { offset: 12, shader_location: 1, format: VertexFormat::Float32x2 },
        ]
    );
}

#[test]
fn instance_layout_has_four_columns() {
    let layout = InstanceRaw::desc();
    assert_eq!(layout.array_stride, 64);
    assert_eq!(layout.step_mode, VertexStepMode::Instance);
    assert_eq!(
        layout.attributes,
        vec![
            VertexAttribute { offset: 0, shader_location: 5, format: VertexFormat::Float32x4 },
            VertexAttribute { offset: 16, shader_location: 6, format: VertexFormat::Float32x4 },
            VertexAttribute { offset: 32, shader_location: 7, format: VertexFormat::Float32x4 },
            VertexAttribute { offset: 48, shader_location: 8, format: VertexFormat::Float32x4 },
        ]
    );
}

#[test]
fn format_sizes_are_four_bytes_a_component() {
    assert_eq!(VertexFormat::Float32x2.size(), 8);
    assert_eq!(VertexFormat::Float32x3.size(), 12);
    assert_eq!(VertexFormat::Float32x4.size(), 16);
}

#[test]
fn mesh_draw_binds_then_draws() {
    let mesh = Mesh::new(&quad_vertices(), &quad_indices()).unwrap();
    let mut commands = vec![RenderCommand::SetPipeline];
    mesh.draw(4, 9, 3, &mut commands);
    assert_eq!(
        commands,
        vec![
            RenderCommand::SetPipeline,
            RenderCommand::SetBindGroup { index: 0, group: BindSource::Texture(9) },
            RenderCommand::SetVertexBuffer { slot: 0, buffer: VertexSource::Mesh(4) },
            RenderCommand::SetIndexBuffer { mesh: 4, format: IndexFormat::Uint16 },
            RenderCommand::DrawIndexed {
                index_start: 0,
                index_end: 6,
                base_vertex: 0,
                instance_start: 0,
                instance_end: 3,
            },
        ]
    );
}
