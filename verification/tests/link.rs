use render_gl::gl::Gl;
use render_gl::shader::Program;
use render_gl::shader::Shader;

fn live_shaders(gl: &Gl) -> usize {
    gl.shaders.iter().filter(|s| s.is_some()).count()
}

fn live_programs(gl: &Gl) -> usize {
    gl.programs.iter().filter(|s| s.is_some()).count()
}

const VERT_WITH_VARYING: &[u8] = b"#version 330 core\nout vec3 color;\nvoid main() {}\n";
const FRAG_WITH_VARYING: &[u8] = b"#version 330 core\nin vec3 color;\nvoid main() {}\n";
const VERT_NO_VARYING: &[u8] = b"#version 330 core\nvoid main() {}\n";

#[test]
fn link_and_use_round_trip() {
    // Two valid stage sources build a program without any error, and making
    // it active leaves exactly one program active.
    let mut gl = Gl::new();
    let vert = Shader::from_vert_source(&mut gl, &VERT_WITH_VARYING.to_vec()).unwrap();
    let frag = Shader::from_frag_source(&mut gl, &FRAG_WITH_VARYING.to_vec()).unwrap();
    let shaders = vec![vert, frag];
    let program = Program::from_shaders(&mut gl, &shaders).unwrap();
    program.set_used(&mut gl);
    assert_eq!(gl.active_program, program.id());
    assert_eq!(live_programs(&gl), 1);
    // Activating a second program moves the single active mark.
    let vert2 = Shader::from_vert_source(&mut gl, &VERT_WITH_VARYING.to_vec()).unwrap();
    let frag2 = Shader::from_frag_source(&mut gl, &FRAG_WITH_VARYING.to_vec()).unwrap();
    let shaders2 = vec![vert2, frag2];
    let program2 = Program::from_shaders(&mut gl, &shaders2).unwrap();
    program2.set_used(&mut gl);
    assert_eq!(gl.active_program, program2.id());
    assert_ne!(program.id(), program2.id());
}

#[test]
fn link_mismatched_interfaces_fails_with_diagnostic() {
    // The fragment stage expects a varying the vertex stage never declares.
    let mut gl = Gl::new();
    let vert = Shader::from_vert_source(&mut gl, &VERT_NO_VARYING.to_vec()).unwrap();
    let frag = Shader::from_frag_source(&mut gl, &FRAG_WITH_VARYING.to_vec()).unwrap();
    let shaders = vec![vert, frag];
    let message = Program::from_shaders(&mut gl, &shaders).unwrap_err();
    assert!(!message.is_empty());
    // The failed program object was released; the input shaders were not:
    // the caller still owns both and may release them itself.
    assert_eq!(live_programs(&gl), 0);
    assert_eq!(gl.dead_program_count(), 1);
    assert_eq!(live_shaders(&gl), 2);
    assert_eq!(gl.dead_shader_count(), 0);
    for sh in shaders {
        sh.release(&mut gl);
    }
    assert_eq!(live_shaders(&gl), 0);
    assert_eq!(gl.dead_shader_count(), 2);
}

#[test]
fn link_detaches_shaders_on_success() {
    let mut gl = Gl::new();
    let vert = Shader::from_vert_source(&mut gl, &VERT_WITH_VARYING.to_vec()).unwrap();
    let frag = Shader::from_frag_source(&mut gl, &FRAG_WITH_VARYING.to_vec()).unwrap();
    let shaders = vec![vert, frag];
    let program = Program::from_shaders(&mut gl, &shaders).unwrap();
    // Nothing stays attached, so the shaders can be released while the
    // program lives on.
    assert!(gl.programs[program.id() - 1].as_ref().unwrap().attached.is_empty());
    for sh in shaders {
        sh.release(&mut gl);
    }
    assert_eq!(live_shaders(&gl), 0);
    assert_eq!(live_programs(&gl), 1);
    program.set_used(&mut gl);
}

#[test]
fn link_vertex_only_varying_is_allowed() {
    // An extra vertex output no fragment input asks for does not fail the
    // link.
    let mut gl = Gl::new();
    let vert = Shader::from_vert_source(&mut gl, &VERT_WITH_VARYING.to_vec()).unwrap();
    let frag = Shader::from_frag_source(
        &mut gl,
        &b"#version 330 core\nvoid main() {}\n".to_vec(),
    )
    .unwrap();
    let shaders = vec![vert, frag];
    assert!(Program::from_shaders(&mut gl, &shaders).is_ok());
}

#[test]
fn from_sources_round_trip() {
    let mut gl = Gl::new();
    let program = Program::from_sources_used(
        &mut gl,
        &VERT_WITH_VARYING.to_vec(),
        &FRAG_WITH_VARYING.to_vec(),
    );
    assert_eq!(gl.active_program, program.id());
    assert_eq!(live_programs(&gl), 1);
    assert_eq!(live_shaders(&gl), 0);
    assert_eq!(gl.dead_shader_count(), 2);
}

#[test]
fn program_release_counts_once() {
    let mut gl = Gl::new();
    let vert = Shader::from_vert_source(&mut gl, &VERT_NO_VARYING.to_vec()).unwrap();
    let shaders = vec![vert];
    let program = Program::from_shaders(&mut gl, &shaders).unwrap();
    program.release(&mut gl);
    assert_eq!(live_programs(&gl), 0);
    assert_eq!(gl.dead_program_count(), 1);
}
