use render_gl::gl::Gl;
use render_gl::gl::Stage;
use render_gl::resources;
use render_gl::resources::Resources;
use render_gl::shader::stage_for_name;
use render_gl::shader::Error;
use render_gl::shader::Shader;

fn live_shaders(gl: &Gl) -> usize {
    gl.shaders.iter().filter(|s| s.is_some()).count()
}

#[test]
fn compile_valid_source() {
    let mut gl = Gl::new();
    let source = b"#version 330 core\nvoid main() {}\n".to_vec();
    let shader = Shader::from_source(&mut gl, &source, Stage::Vertex).unwrap();
    assert_eq!(shader.id(), 1);
    assert_eq!(live_shaders(&gl), 1);
    assert_eq!(gl.dead_shader_count(), 0);
}

#[test]
fn compile_invalid_source_releases_object() {
    let mut gl = Gl::new();
    let source = b"void main() {}\n".to_vec();
    let message = Shader::from_source(&mut gl, &source, Stage::Fragment).unwrap_err();
    assert!(!message.is_empty());
    // The failed driver object was created and then released exactly once.
    assert_eq!(live_shaders(&gl), 0);
    assert_eq!(gl.dead_shader_count(), 1);
}

#[test]
fn compile_error_stage_matches_vertex() {
    let mut gl = Gl::new();
    let mut res = Resources::new();
    res.insert("bad.vert".to_string(), b"void main() {}\n".to_vec());
    let err = Shader::from_res(&mut gl, &res, "bad.vert").unwrap_err();
    match err {
        Error::CompileError { name, stage, message } => {
            assert_eq!(name, "bad.vert");
            assert_eq!(stage, Stage::Vertex);
            assert!(!message.is_empty());
        },
        other => panic!("expected a compile error, got {:?}", other),
    }
    assert_eq!(live_shaders(&gl), 0);
    assert_eq!(gl.dead_shader_count(), 1);
}

#[test]
fn compile_error_stage_matches_fragment() {
    let mut gl = Gl::new();
    let mut res = Resources::new();
    res.insert("bad.frag".to_string(), b"nope\n".to_vec());
    let err = Shader::from_res(&mut gl, &res, "bad.frag").unwrap_err();
    match err {
        Error::CompileError { stage, message, .. } => {
            assert_eq!(stage, Stage::Fragment);
            assert!(!message.is_empty());
        },
        other => panic!("expected a compile error, got {:?}", other),
    }
}

#[test]
fn unknown_stage_suffix_is_rejected() {
    let mut gl = Gl::new();
    let res = Resources::new();
    let err = Shader::from_res(&mut gl, &res, "shader.txt").unwrap_err();
    assert!(matches!(
        err,
        Error::CanNotDetermineShaderTypeForResource { name } if name == "shader.txt"
    ));
    assert!(gl.shaders.is_empty());
}

#[test]
fn missing_resource_is_reported() {
    let mut gl = Gl::new();
    let res = Resources::new();
    let err = Shader::from_res(&mut gl, &res, "absent.vert").unwrap_err();
    assert!(matches!(
        err,
        Error::ResourceLoad { name, inner: resources::Error::NotFound } if name == "absent.vert"
    ));
    assert!(gl.shaders.is_empty());
}

#[test]
fn nul_byte_in_resource_is_reported() {
    let mut gl = Gl::new();
    let mut res = Resources::new();
    res.insert("nul.vert".to_string(), b"#version 330\n\0".to_vec());
    let err = Shader::from_res(&mut gl, &res, "nul.vert").unwrap_err();
    assert!(matches!(
        err,
        Error::ResourceLoad { inner: resources::Error::FileContainsNil, .. }
    ));
}

#[test]
fn stage_suffixes() {
    assert_eq!(stage_for_name("a.vert"), Some(Stage::Vertex));
    assert_eq!(stage_for_name("a.frag"), Some(Stage::Fragment));
    assert_eq!(stage_for_name("a.geom"), None);
    assert_eq!(stage_for_name(""), None);
    assert_eq!(stage_for_name(".vert"), Some(Stage::Vertex));
}

#[test]
fn from_res_compiles_valid_stage() {
    let mut gl = Gl::new();
    let mut res = Resources::new();
    res.insert("ok.frag".to_string(), b"#version 330\nvoid main() {}\n".to_vec());
    let shader = Shader::from_res(&mut gl, &res, "ok.frag").unwrap();
    assert_eq!(shader.kind, Stage::Fragment);
    assert_eq!(live_shaders(&gl), 1);
    shader.release(&mut gl);
    assert_eq!(live_shaders(&gl), 0);
    assert_eq!(gl.dead_shader_count(), 1);
}
