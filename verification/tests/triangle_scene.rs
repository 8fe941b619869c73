use render_gl::buffer::ArrayBuffer;
use render_gl::buffer::VertexArray;
use render_gl::data::ComponentType;
use render_gl::gl::DrawMode;
use render_gl::gl::Gl;
use render_gl::resources::Resources;
use render_gl::shader::Error;
use render_gl::triangle::Triangle;

const TRIANGLE_VERT: &[u8] = b"#version 330 core\nout vec3 vert_color;\nvoid main() {}\n";
const TRIANGLE_FRAG: &[u8] = b"#version 330 core\nin vec3 vert_color;\nvoid main() {}\n";

fn triangle_resources() -> Resources {
    let mut res = Resources::new();
    res.insert("shaders/triangle.vert".to_string(), TRIANGLE_VERT.to_vec());
    res.insert("shaders/triangle.frag".to_string(), TRIANGLE_FRAG.to_vec());
    res
}

fn expected_vertex_bytes() -> Vec<u8> {
    let vertices: [[f32; 6]; 3] = [
        [0.5, -0.5, 0.0, 1.0, 0.0, 0.0],
        [-0.5, -0.5, 0.0, 0.0, 1.0, 0.0],
        [0.0, 0.5, 0.0, 0.0, 0.0, 1.0],
    ];
    let mut bytes = Vec::new();
    for vertex in &vertices {
        for component in vertex {
            bytes.extend_from_slice(&component.to_le_bytes());
        }
    }
    bytes
}

#[test]
fn triangle_end_to_end() {
    let res = triangle_resources();
    let mut gl = Gl::new();
    let triangle = Triangle::new(&res, &mut gl).unwrap();

    // The uploaded buffer holds the packed byte image of the three records.
    let vbo = gl.buffers[triangle._vbo.id - 1].as_ref().unwrap();
    assert_eq!(vbo.data.len(), 72);
    assert_eq!(vbo.data, expected_vertex_bytes());

    // The captured layout: location 0 at offset 0, location 1 at offset 12,
    // both three floats wide, with a 24-byte stride.
    let vao = gl.vaos[triangle.vao.id - 1].as_ref().unwrap();
    assert_eq!(vao.attribs.len(), 2);
    assert_eq!(vao.attribs[0].location, 0);
    assert_eq!(vao.attribs[0].offset, 0);
    assert_eq!(vao.attribs[0].components, 3);
    assert_eq!(vao.attribs[0].ty, ComponentType::Float);
    assert!(!vao.attribs[0].normalized);
    assert_eq!(vao.attribs[1].location, 1);
    assert_eq!(vao.attribs[1].offset, 12);
    assert_eq!(vao.attribs[1].components, 3);
    assert_eq!(vao.attribs[0].stride, 24);
    assert_eq!(vao.attribs[1].stride, 24);
    assert_eq!(vao.enabled, vec![0, 1]);

    // Construction leaves nothing bound and the stage shaders released.
    assert_eq!(gl.bound_array_buffer, 0);
    assert_eq!(gl.bound_vertex_array, 0);
    assert_eq!(gl.dead_shader_count(), 2);

    // One frame: the program goes active, the vertex array is bound, and
    // one three-vertex triangle draw is issued.
    triangle.render(&mut gl);
    assert_eq!(gl.active_program, triangle.program.id());
    assert_eq!(gl.bound_vertex_array, triangle.vao.id);
    assert_eq!(gl.draws.len(), 1);
    let draw = &gl.draws[0];
    assert_eq!(draw.mode, DrawMode::Triangles);
    assert_eq!(draw.first, 0);
    assert_eq!(draw.count, 3);
    assert_eq!(draw.program, triangle.program.id());
    assert_eq!(draw.vertex_array, triangle.vao.id);

    // A second frame issues a second identical draw without re-uploading.
    triangle.render(&mut gl);
    assert_eq!(gl.draws.len(), 2);

    // Tear-down releases the program, the buffer and the vertex array.
    triangle.release(&mut gl);
    assert!(gl.programs.iter().all(|p| p.is_none()));
    assert!(gl.buffers.iter().all(|b| b.is_none()));
    assert!(gl.vaos.iter().all(|v| v.is_none()));
}

#[test]
fn triangle_missing_resources() {
    let res = Resources::new();
    let mut gl = Gl::new();
    let err = Triangle::new(&res, &mut gl).unwrap_err();
    assert!(matches!(
        err,
        Error::ResourceLoad { name, .. } if name == "shaders/triangle.vert"
    ));
    assert!(gl.shaders.is_empty());
    assert!(gl.programs.is_empty());
    assert!(gl.buffers.is_empty());
}

#[test]
fn buffer_bind_discipline() {
    let mut gl = Gl::new();
    let vbo = ArrayBuffer::new(&mut gl);
    vbo.bind(&mut gl);
    assert_eq!(gl.bound_array_buffer, vbo.id);
    vbo.static_draw_data(&mut gl, &b"abc".to_vec());
    vbo.unbind(&mut gl);
    assert_eq!(gl.bound_array_buffer, 0);
    assert_eq!(gl.buffers[vbo.id - 1].as_ref().unwrap().data, b"abc".to_vec());

    let vao = VertexArray::new(&mut gl);
    vao.bind(&mut gl);
    assert_eq!(gl.bound_vertex_array, vao.id);
    vao.unbind(&mut gl);
    assert_eq!(gl.bound_vertex_array, 0);

    vbo.release(&mut gl);
    vao.release(&mut gl);
    assert!(gl.buffers.iter().all(|b| b.is_none()));
    assert!(gl.vaos.iter().all(|v| v.is_none()));
}
