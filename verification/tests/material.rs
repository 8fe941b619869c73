use render_gl::gl::Gl;
use render_gl::gl::Stage;
use render_gl::resources;
use render_gl::resources::Resources;
use render_gl::shader::Error;
use render_gl::shader::Program;

fn live_shaders(gl: &Gl) -> usize {
    gl.shaders.iter().filter(|s| s.is_some()).count()
}

fn live_programs(gl: &Gl) -> usize {
    gl.programs.iter().filter(|s| s.is_some()).count()
}

const GOOD_VERT: &[u8] = b"#version 330 core\nout vec3 color;\nvoid main() {}\n";
const GOOD_FRAG: &[u8] = b"#version 330 core\nin vec3 color;\nvoid main() {}\n";

#[test]
fn from_named_resource_builds_program() {
    let mut gl = Gl::new();
    let mut res = Resources::new();
    res.insert("x.vert".to_string(), GOOD_VERT.to_vec());
    res.insert("x.frag".to_string(), GOOD_FRAG.to_vec());
    let program = Program::from_res(&mut gl, &res, "x").unwrap();
    // Both stage shaders were created, used for the link, and released.
    assert_eq!(live_shaders(&gl), 0);
    assert_eq!(gl.dead_shader_count(), 2);
    assert_eq!(live_programs(&gl), 1);
    program.set_used(&mut gl);
    assert_eq!(gl.active_program, program.id());
}

#[test]
fn from_named_resource_missing_frag() {
    // Only the vertex stage is present: the failure names the fragment
    // resource, and the already compiled vertex shader is not left behind.
    let mut gl = Gl::new();
    let mut res = Resources::new();
    res.insert("x.vert".to_string(), GOOD_VERT.to_vec());
    let err = Program::from_res(&mut gl, &res, "x").unwrap_err();
    match err {
        Error::ResourceLoad { name, inner } => {
            assert_eq!(name, "x.frag");
            assert_eq!(inner, resources::Error::NotFound);
        },
        other => panic!("expected a resource-load error, got {:?}", other),
    }
    assert_eq!(live_shaders(&gl), 0);
    assert_eq!(gl.dead_shader_count(), 1);
    assert_eq!(live_programs(&gl), 0);
}

#[test]
fn from_named_resource_missing_vert_fails_first() {
    // The vertex stage is handled first: with both missing, the error
    // names the vertex resource and the fragment stage is never touched.
    let mut gl = Gl::new();
    let mut res = Resources::new();
    res.insert("x.frag".to_string(), GOOD_FRAG.to_vec());
    let err = Program::from_res(&mut gl, &res, "x").unwrap_err();
    assert!(matches!(
        err,
        Error::ResourceLoad { name, inner: resources::Error::NotFound } if name == "x.vert"
    ));
    assert!(gl.shaders.is_empty());
    assert!(gl.programs.is_empty());
}

#[test]
fn from_named_resource_bad_vertex_compile() {
    let mut gl = Gl::new();
    let mut res = Resources::new();
    res.insert("x.vert".to_string(), b"no directive\n".to_vec());
    res.insert("x.frag".to_string(), GOOD_FRAG.to_vec());
    let err = Program::from_res(&mut gl, &res, "x").unwrap_err();
    match err {
        Error::CompileError { name, stage, message } => {
            assert_eq!(name, "x.vert");
            assert_eq!(stage, Stage::Vertex);
            assert!(!message.is_empty());
        },
        other => panic!("expected a compile error, got {:?}", other),
    }
    assert_eq!(live_shaders(&gl), 0);
    assert_eq!(gl.dead_shader_count(), 1);
}

#[test]
fn from_named_resource_link_error() {
    // Both stages compile, but the fragment input has no matching vertex
    // output: the link fails and the diagnostic names the material.
    let mut gl = Gl::new();
    let mut res = Resources::new();
    res.insert("x.vert".to_string(), b"#version 330 core\nvoid main() {}\n".to_vec());
    res.insert("x.frag".to_string(), GOOD_FRAG.to_vec());
    let err = Program::from_res(&mut gl, &res, "x").unwrap_err();
    match err {
        Error::LinkError { name, message } => {
            assert_eq!(name, "x");
            assert!(!message.is_empty());
        },
        other => panic!("expected a link error, got {:?}", other),
    }
    // Nothing is leaked: both shaders and the failed program are released.
    assert_eq!(live_shaders(&gl), 0);
    assert_eq!(gl.dead_shader_count(), 2);
    assert_eq!(live_programs(&gl), 0);
    assert_eq!(gl.dead_program_count(), 1);
}

#[test]
fn resources_store_lookup() {
    let mut res = Resources::new();
    assert_eq!(res.load_cstring("a"), Err(resources::Error::NotFound));
    res.insert("a".to_string(), b"hello".to_vec());
    assert_eq!(res.load_cstring("a"), Ok(b"hello".to_vec()));
    res.insert("b".to_string(), b"w\0rld".to_vec());
    assert_eq!(res.load_cstring("b"), Err(resources::Error::FileContainsNil));
    // The first entry of a name keeps priority.
    res.insert("a".to_string(), b"other".to_vec());
    assert_eq!(res.load_cstring("a"), Ok(b"hello".to_vec()));
}
