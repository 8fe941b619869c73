//! Shaders and programs: compilation and linking with structured
//! diagnostics, and without resource leaks.
//!
//! A `Shader` or `Program` owns exactly one driver-side object.  Both types
//! are move-only and are released by a consuming `release` call, so a handle
//! is released at most once; the constructors guarantee that a failed
//! compile or link releases the partly constructed object before the error
//! is returned, so it is released exactly once on every path.

use vstd::prelude::*;
use vstd::string::StrSliceExecFns;
use vstd::string::StringExecFns;

use crate::gl::Gl;
use crate::gl::Stage;
use crate::glsl;
use crate::resources;
use crate::resources::Resources;

verus! {

/// Why a shader or program could not be built.
#[derive(Debug, PartialEq, Eq)]
pub enum Error {
    /// The resource loader failed for the named resource.
    ResourceLoad { name: String, inner: resources::Error },
    /// The resource name carries no recognized stage suffix.
    CanNotDetermineShaderTypeForResource { name: String },
    /// The driver rejected the source of the named resource; the diagnostic
    /// log is carried verbatim.
    CompileError { name: String, stage: Stage, message: Vec<u8> },
    /// The driver rejected the link of the named material's stages.
    LinkError { name: String, message: Vec<u8> },
}

/// `s` ends with `suffix`.
pub open spec fn spec_ends_with(s: Seq<char>, suffix: Seq<char>) -> bool {
    &&& s.len() >= suffix.len()
    &&& forall|k: int|
        0 <= k < suffix.len() ==> s[s.len() - suffix.len() + k] == #[trigger] suffix[k]
}

/// The stage a resource name maps to, by its suffix.
pub open spec fn spec_stage_for_name(name: Seq<char>) -> Option<Stage> {
    if spec_ends_with(name, ".vert"@) {
        Some(Stage::Vertex)
    } else if spec_ends_with(name, ".frag"@) {
        Some(Stage::Fragment)
    } else {
        None
    }
}

fn str_ends_with(s: &str, suffix: &str) -> (r: bool)
    ensures
        r == spec_ends_with(s@, suffix@),
{
    let n = s.unicode_len();
    let m = suffix.unicode_len();
    if m > n {
        return false;
    }
    let mut k: usize = 0;
    while k < m
        invariant
            k <= m <= n,
            n == s@.len(),
            m == suffix@.len(),
            forall|j: int| 0 <= j < k ==> s@[n - m + j] == #[trigger] suffix@[j],
        decreases m - k,
    {
        if s.get_char(n - m + k) != suffix.get_char(k) {
            return false;
        }
        k = k + 1;
    }
    true
}

/// Determines the stage of a resource by its name suffix.
pub fn stage_for_name(name: &str) -> (r: Option<Stage>)
    ensures
        r == spec_stage_for_name(name@),
{
    if str_ends_with(name, ".vert") {
        Some(Stage::Vertex)
    } else if str_ends_with(name, ".frag") {
        Some(Stage::Fragment)
    } else {
        None
    }
}

/// The source bytes stored for `name`.
pub open spec fn spec_res_source(res: Resources, name: Seq<char>) -> Seq<u8> {
    res.lookup(name)->Some_0
}

/// The named resource is present, NUL-free and acceptable to the model
/// compiler.
pub open spec fn spec_stage_ready(res: Resources, name: Seq<char>) -> bool {
    &&& res.lookup(name) is Some
    &&& !spec_res_source(res, name).contains(0u8)
    &&& glsl::spec_source_accepted(spec_res_source(res, name))
}

/// The named resource cannot be served, for exactly the stated reason.
pub open spec fn spec_load_failure(res: Resources, name: Seq<char>, e: resources::Error) -> bool {
    match e {
        resources::Error::NotFound => res.lookup(name) is None,
        resources::Error::FileContainsNil => res.lookup(name) is Some && spec_res_source(
            res,
            name,
        ).contains(0u8),
    }
}

/// The named resource is present and NUL-free, but the model compiler
/// rejects it.
pub open spec fn spec_compile_failure(res: Resources, name: Seq<char>) -> bool {
    &&& res.lookup(name) is Some
    &&& !spec_res_source(res, name).contains(0u8)
    &&& !glsl::spec_source_accepted(spec_res_source(res, name))
}

/// Wraps one driver-side shader object.  Move-only: releasing consumes the
/// wrapper, so the object is released at most once.
#[derive(Debug)]
pub struct Shader {
    pub id: usize,
    pub kind: Stage,
}

impl Shader {
    /// The wrapped handle names a live shader object of this stage that
    /// compiled successfully.
    pub open spec fn valid(self, gl: Gl) -> bool {
        &&& gl.shader_live(self.id)
        &&& gl.shader(self.id).kind == self.kind
        &&& gl.shader(self.id).compiled
        &&& gl.shader(self.id).compile_ok
    }

    /// The wrapped driver handle.
    pub fn id(&self) -> (id: usize)
        ensures
            id == self.id,
    {
        self.id
    }

    /// Creates a shader object, submits the source and compiles it.  On
    /// rejection the new object is released again before the diagnostic is
    /// returned: a failed compile leaks nothing.
    pub fn from_source(gl: &mut Gl, source: &Vec<u8>, kind: Stage) -> (r: Result<Shader, Vec<u8>>)
        requires
            old(gl).shaders@.len() < usize::MAX,
        ensures
            match r {
                Ok(sh) => {
                    &&& glsl::spec_source_accepted(source@)
                    &&& sh.kind == kind
                    &&& sh.id == old(gl).shaders@.len() + 1
                    &&& sh.valid(*final(gl))
                    &&& final(gl).shader(sh.id).source@ == source@
                    &&& final(gl).shaders@ == old(gl).shaders@.push(
                        Some(final(gl).shader(sh.id)),
                    )
                    &&& final(gl).same_but_shaders(*old(gl))
                },
                Err(message) => {
                    &&& !glsl::spec_source_accepted(source@)
                    &&& message@.len() > 0
                    &&& final(gl).shaders@ == old(gl).shaders@.push(None)
                    &&& final(gl).same_but_shaders(*old(gl))
                },
            },
    {
        let id = gl.create_shader(kind);
        gl.shader_source(id, source);
        gl.compile_shader(id);
        let ok = gl.shader_compile_status(id);
        if !ok {
            let message = gl.shader_info_log(id);
            gl.delete_shader(id);
            proof {
                assert(gl.shaders@ =~= old(gl).shaders@.push(None));
            }
            return Err(message);
        }
        proof {
            assert(gl.shaders@ =~= old(gl).shaders@.push(Some(gl.shader(id))));
        }
        Ok(Shader { id, kind })
    }

    /// Compiles a vertex-stage shader from source.
    pub fn from_vert_source(gl: &mut Gl, source: &Vec<u8>) -> (r: Result<Shader, Vec<u8>>)
        requires
            old(gl).shaders@.len() < usize::MAX,
        ensures
            match r {
                Ok(sh) => {
                    &&& glsl::spec_source_accepted(source@)
                    &&& sh.kind == Stage::Vertex
                    &&& sh.id == old(gl).shaders@.len() + 1
                    &&& sh.valid(*final(gl))
                    &&& final(gl).shader(sh.id).source@ == source@
                    &&& final(gl).shaders@ == old(gl).shaders@.push(
                        Some(final(gl).shader(sh.id)),
                    )
                    &&& final(gl).same_but_shaders(*old(gl))
                },
                Err(message) => {
                    &&& !glsl::spec_source_accepted(source@)
                    &&& message@.len() > 0
                    &&& final(gl).shaders@ == old(gl).shaders@.push(None)
                    &&& final(gl).same_but_shaders(*old(gl))
                },
            },
    {
        Shader::from_source(gl, source, Stage::Vertex)
    }

    /// Compiles a fragment-stage shader from source.
    pub fn from_frag_source(gl: &mut Gl, source: &Vec<u8>) -> (r: Result<Shader, Vec<u8>>)
        requires
            old(gl).shaders@.len() < usize::MAX,
        ensures
            match r {
                Ok(sh) => {
                    &&& glsl::spec_source_accepted(source@)
                    &&& sh.kind == Stage::Fragment
                    &&& sh.id == old(gl).shaders@.len() + 1
                    &&& sh.valid(*final(gl))
                    &&& final(gl).shader(sh.id).source@ == source@
                    &&& final(gl).shaders@ == old(gl).shaders@.push(
                        Some(final(gl).shader(sh.id)),
                    )
                    &&& final(gl).same_but_shaders(*old(gl))
                },
                Err(message) => {
                    &&& !glsl::spec_source_accepted(source@)
                    &&& message@.len() > 0
                    &&& final(gl).shaders@ == old(gl).shaders@.push(None)
                    &&& final(gl).same_but_shaders(*old(gl))
                },
            },
    {
        Shader::from_source(gl, source, Stage::Fragment)
    }

    /// Loads a resource by name, determines its stage from the name's
    /// suffix, and compiles it.  Fails fast: the first failure is returned
    /// and nothing is left allocated.
    pub fn from_res(gl: &mut Gl, res: &Resources, name: &str) -> (r: Result<Shader, Error>)
        requires
            old(gl).shaders@.len() < usize::MAX,
        ensures
            match r {
                Ok(sh) => {
                    &&& spec_stage_for_name(name@) == Some(sh.kind)
                    &&& spec_stage_ready(*res, name@)
                    &&& sh.id == old(gl).shaders@.len() + 1
                    &&& sh.valid(*final(gl))
                    &&& final(gl).shader(sh.id).source@ == spec_res_source(*res, name@)
                    &&& final(gl).shaders@ == old(gl).shaders@.push(
                        Some(final(gl).shader(sh.id)),
                    )
                    &&& final(gl).same_but_shaders(*old(gl))
                },
                Err(e) => match e {
                    Error::CanNotDetermineShaderTypeForResource { name: n } => {
                        &&& n@ == name@
                        &&& spec_stage_for_name(name@) is None
                        &&& *final(gl) == *old(gl)
                    },
                    Error::ResourceLoad { name: n, inner } => {
                        &&& n@ == name@
                        &&& spec_stage_for_name(name@) is Some
                        &&& spec_load_failure(*res, name@, inner)
                        &&& *final(gl) == *old(gl)
                    },
                    Error::CompileError { name: n, stage, message } => {
                        &&& n@ == name@
                        &&& spec_stage_for_name(name@) == Some(stage)
                        &&& spec_compile_failure(*res, name@)
                        &&& message@.len() > 0
                        &&& final(gl).shaders@ == old(gl).shaders@.push(None)
                        &&& final(gl).same_but_shaders(*old(gl))
                    },
                    Error::LinkError { .. } => false,
                },
            },
    {
        let stage = match stage_for_name(name) {
            Some(stage) => stage,
            None => {
                return Err(
                    Error::CanNotDetermineShaderTypeForResource { name: String::from_str(name) },
                );
            },
        };
        let source = match res.load_cstring(name) {
            Ok(data) => data,
            Err(inner) => {
                return Err(Error::ResourceLoad { name: String::from_str(name), inner });
            },
        };
        match Shader::from_source(gl, &source, stage) {
            Ok(sh) => Ok(sh),
            Err(message) => Err(
                Error::CompileError { name: String::from_str(name), stage, message },
            ),
        }
    }

    /// Releases the wrapped shader object.
    pub fn release(self, gl: &mut Gl)
        requires
            old(gl).shader_live(self.id),
        ensures
            final(gl).shaders@ == old(gl).shaders@.update(
                self.id - 1,
                None::<crate::gl::ShaderObj>,
            ),
            final(gl).same_but_shaders(*old(gl)),
    {
        gl.delete_shader(self.id);
    }
}

/// Every interface input of a fragment-stage shader among `shaders` is
/// declared as an interface output by some vertex-stage shader among them.
pub open spec fn spec_interfaces_matched(gl: Gl, shaders: Seq<Shader>) -> bool {
    forall|i: int, d: Seq<u8>|
        #![trigger glsl::spec_in_decls(gl.shader(shaders[i].id).source@).contains(d)]
        0 <= i < shaders.len() && shaders[i].kind is Fragment && glsl::spec_in_decls(
            gl.shader(shaders[i].id).source@,
        ).contains(d) ==> exists|j: int|
            0 <= j < shaders.len() && (#[trigger] shaders[j]).kind is Vertex
                && glsl::spec_out_decls(gl.shader(shaders[j].id).source@).contains(d)
}

/// The resource name of the vertex stage of a material.
pub open spec fn spec_vert_name(name: Seq<char>) -> Seq<char> {
    name + ".vert"@
}

/// The resource name of the fragment stage of a material.
pub open spec fn spec_frag_name(name: Seq<char>) -> Seq<char> {
    name + ".frag"@
}

/// The two stage sources of the named material match under the model
/// linker: every fragment input is a vertex output.
pub open spec fn spec_sources_matched(res: Resources, name: Seq<char>) -> bool {
    forall|d: Seq<u8>|
        #[trigger] glsl::spec_in_decls(spec_res_source(res, spec_frag_name(name))).contains(d)
            ==> glsl::spec_out_decls(spec_res_source(res, spec_vert_name(name))).contains(d)
}

/// Bindings, the buffer and vertex-array tables and the draw log of `post`
/// are those of `pre`.
pub open spec fn spec_rest_same(post: Gl, pre: Gl) -> bool {
    &&& post.buffers == pre.buffers
    &&& post.vaos == pre.vaos
    &&& post.bound_array_buffer == pre.bound_array_buffer
    &&& post.bound_vertex_array == pre.bound_vertex_array
    &&& post.active_program == pre.active_program
    &&& post.draws == pre.draws
}

/// How `Program::from_res` fails: which error comes on which inputs, and
/// what each failure leaves behind in the driver.  Failure is fail-fast:
/// the vertex stage is loaded and compiled in full before the fragment
/// stage is touched, and an already compiled stage is released again before
/// the error propagates, so no failure leaks a live shader object.
pub open spec fn spec_from_res_failure(
    pre: Gl,
    post: Gl,
    res: Resources,
    name: Seq<char>,
    e: Error,
) -> bool {
    match e {
        Error::ResourceLoad { name: n, inner } => {
            ||| (n@ == spec_vert_name(name) && spec_load_failure(res, spec_vert_name(name), inner)
                && post == pre)
            ||| (n@ == spec_frag_name(name) && spec_stage_ready(res, spec_vert_name(name))
                && spec_load_failure(res, spec_frag_name(name), inner) && post.shaders@
                == pre.shaders@.push(None) && post.same_but_shaders(pre))
        },
        Error::CompileError { name: n, stage, message } => {
            ||| (n@ == spec_vert_name(name) && stage == Stage::Vertex && spec_compile_failure(
                res,
                spec_vert_name(name),
            ) && message@.len() > 0 && post.shaders@ == pre.shaders@.push(None)
                && post.same_but_shaders(pre))
            ||| (n@ == spec_frag_name(name) && stage == Stage::Fragment && spec_stage_ready(
                res,
                spec_vert_name(name),
            ) && spec_compile_failure(res, spec_frag_name(name)) && message@.len() > 0
                && post.shaders@ == pre.shaders@.push(None).push(None) && post.same_but_shaders(
                pre,
            ))
        },
        Error::LinkError { name: n, message } => {
            &&& n@ == name
            &&& spec_stage_ready(res, spec_vert_name(name))
            &&& spec_stage_ready(res, spec_frag_name(name))
            &&& !spec_sources_matched(res, name)
            &&& message@.len() > 0
            &&& post.shaders@ == pre.shaders@.push(None).push(None)
            &&& post.programs@ == pre.programs@.push(None)
            &&& spec_rest_same(post, pre)
        },
        Error::CanNotDetermineShaderTypeForResource { .. } => false,
    }
}

/// Wraps one driver-side program object.  Move-only, like `Shader`.
#[derive(Debug)]
pub struct Program {
    pub id: usize,
}

impl Program {
    /// The wrapped handle names a live program object that linked
    /// successfully.
    pub open spec fn valid(self, gl: Gl) -> bool {
        &&& gl.program_live(self.id)
        &&& gl.program(self.id).linked
        &&& gl.program(self.id).link_ok
    }

    /// The wrapped driver handle.
    pub fn id(&self) -> (id: usize)
        ensures
            id == self.id,
    {
        self.id
    }

    /// Creates a program object, attaches every shader, links, and on
    /// success detaches the shaders again, so that the caller may release
    /// them independently of the program.  On a failed link the program
    /// object is released before the diagnostic is returned; the input
    /// shaders are never released and stay owned by the caller either way.
    pub fn from_shaders(gl: &mut Gl, shaders: &[Shader]) -> (r: Result<Program, Vec<u8>>)
        requires
            old(gl).programs@.len() < usize::MAX,
            forall|i: int| 0 <= i < shaders@.len() ==> (#[trigger] shaders@[i]).valid(*old(gl)),
            forall|i: int, j: int|
                0 <= i < j < shaders@.len() ==> shaders@[i].id != shaders@[j].id,
        ensures
            match r {
                Ok(p) => {
                    &&& spec_interfaces_matched(*old(gl), shaders@)
                    &&& p.id == old(gl).programs@.len() + 1
                    &&& p.valid(*final(gl))
                    &&& final(gl).program(p.id).attached@ == Seq::<usize>::empty()
                    &&& final(gl).programs@ == old(gl).programs@.push(
                        Some(final(gl).program(p.id)),
                    )
                    &&& final(gl).same_but_programs(*old(gl))
                },
                Err(message) => {
                    &&& !spec_interfaces_matched(*old(gl), shaders@)
                    &&& message@.len() > 0
                    &&& final(gl).programs@ == old(gl).programs@.push(None)
                    &&& final(gl).same_but_programs(*old(gl))
                },
            },
    {
        let pid = gl.create_program();
        let n = shaders.len();
        let mut k: usize = 0;
        while k < n
            invariant
                k <= n,
                n == shaders@.len(),
                forall|i: int| 0 <= i < shaders@.len() ==> (#[trigger] shaders@[i]).valid(*old(gl)),
                forall|i: int, j: int|
                    0 <= i < j < shaders@.len() ==> shaders@[i].id != shaders@[j].id,
                pid == old(gl).programs@.len() + 1,
                gl.programs@.len() == old(gl).programs@.len() + 1,
                forall|m: int|
                    0 <= m < old(gl).programs@.len() ==> gl.programs@[m] == old(gl).programs@[m],
                gl.program_live(pid),
                gl.program(pid).attached@.len() == k,
                forall|m: int| 0 <= m < k ==> gl.program(pid).attached@[m] == shaders@[m].id,
                !gl.program(pid).linked,
                gl.same_but_programs(*old(gl)),
            decreases n - k,
        {
            proof {
                if gl.program(pid).attached@.contains(shaders@[k as int].id) {
                    let m = choose|m: int|
                        0 <= m < k && gl.program(pid).attached@[m] == shaders@[k as int].id;
                    assert(shaders@[m].id != shaders@[k as int].id);
                }
            }
            gl.attach_shader(pid, shaders[k].id);
            k = k + 1;
        }
        let ghost pre_link = *gl;
        gl.link_program(pid);
        proof {
            let att = pre_link.program(pid).attached@;
            assert forall|i: int, d: Seq<u8>|
                0 <= i < att.len() && pre_link.shader(att[i]).kind is Fragment
                    && #[trigger] glsl::spec_in_decls(pre_link.shader(att[i]).source@).contains(
                    d,
                ) implies glsl::spec_in_decls(
                old(gl).shader(shaders@[i].id).source@,
            ).contains(d) by {
                assert(att[i] == shaders@[i].id);
            }
            if pre_link.spec_link_accepted(att) {
                assert forall|i: int, d: Seq<u8>|
                    0 <= i < shaders@.len() && shaders@[i].kind is Fragment
                        && #[trigger] glsl::spec_in_decls(
                        old(gl).shader(shaders@[i].id).source@,
                    ).contains(d) implies exists|j: int|
                    0 <= j < shaders@.len() && (#[trigger] shaders@[j]).kind is Vertex
                        && glsl::spec_out_decls(old(gl).shader(shaders@[j].id).source@).contains(
                        d,
                    ) by {
                    assert(att[i] == shaders@[i].id);
                    assert(pre_link.shader(att[i]).kind is Fragment);
                    assert(glsl::spec_in_decls(pre_link.shader(att[i]).source@).contains(d));
                    let j = choose|j: int|
                        0 <= j < att.len() && pre_link.shader(#[trigger] att[j]).kind is Vertex
                            && glsl::spec_out_decls(pre_link.shader(att[j]).source@).contains(d);
                    assert(att[j] == shaders@[j].id);
                    assert(shaders@[j].kind is Vertex);
                    assert(glsl::spec_out_decls(old(gl).shader(shaders@[j].id).source@).contains(
                        d,
                    ));
                }
                assert(spec_interfaces_matched(*old(gl), shaders@));
            }
            if spec_interfaces_matched(*old(gl), shaders@) {
                assert forall|i: int, d: Seq<u8>|
                    0 <= i < att.len() && pre_link.shader(att[i]).kind is Fragment
                        && #[trigger] glsl::spec_in_decls(pre_link.shader(att[i]).source@).contains(
                        d,
                    ) implies exists|j: int|
                    0 <= j < att.len() && pre_link.shader(#[trigger] att[j]).kind is Vertex
                        && glsl::spec_out_decls(pre_link.shader(att[j]).source@).contains(d) by {
                    assert(att[i] == shaders@[i].id);
                    assert(shaders@[i].kind is Fragment);
                    let j = choose|j: int|
                        0 <= j < shaders@.len() && (#[trigger] shaders@[j]).kind is Vertex
                            && glsl::spec_out_decls(
                            old(gl).shader(shaders@[j].id).source@,
                        ).contains(d);
                    assert(att[j] == shaders@[j].id);
                    assert(pre_link.shader(att[j]).kind is Vertex);
                }
                assert(pre_link.spec_link_accepted(att));
            }
        }
        let ok = gl.program_link_status(pid);
        if !ok {
            let message = gl.program_info_log(pid);
            gl.delete_program(pid);
            proof {
                assert(gl.programs@ =~= old(gl).programs@.push(None));
            }
            return Err(message);
        }
        let mut k: usize = 0;
        while k < n
            invariant
                k <= n,
                n == shaders@.len(),
                pid == old(gl).programs@.len() + 1,
                gl.programs@.len() == old(gl).programs@.len() + 1,
                forall|m: int|
                    0 <= m < old(gl).programs@.len() ==> gl.programs@[m] == old(gl).programs@[m],
                gl.program_live(pid),
                gl.program(pid).attached@.len() == n - k,
                forall|m: int|
                    0 <= m < n - k ==> gl.program(pid).attached@[m] == shaders@[k + m].id,
                gl.program(pid).linked,
                gl.program(pid).link_ok,
                gl.program(pid).log@.len() == 0,
                gl.same_but_programs(*old(gl)),
            decreases n - k,
        {
            let ghost att = gl.program(pid).attached@;
            proof {
                assert(att[0] == shaders@[k as int].id);
                assert(att.contains(att[0]));
            }
            gl.detach_shader(pid, shaders[k].id);
            proof {
                assert(crate::gl::spec_first_index(att, shaders@[k as int].id) == 0);
                assert forall|m: int|
                    0 <= m < n - k - 1 implies gl.program(pid).attached@[m] == shaders@[k + 1
                    + m].id by {
                    assert(gl.program(pid).attached@[m] == att.remove(0)[m]);
                    assert(att.remove(0)[m] == att[m + 1]);
                }
            }
            k = k + 1;
        }
        proof {
            assert(gl.program(pid).attached@ =~= Seq::<usize>::empty());
            assert(gl.programs@ =~= old(gl).programs@.push(Some(gl.program(pid))));
        }
        Ok(Program { id: pid })
    }

    /// Builds a program from the two stage resources of a material: loads
    /// and compiles `<name>.vert`, then `<name>.frag`, links them, and
    /// releases both stage shaders again, successful or not.  Fails fast on
    /// the first error, releasing whatever was already created.
    pub fn from_res(gl: &mut Gl, res: &Resources, name: &str) -> (r: Result<Program, Error>)
        requires
            old(gl).shaders@.len() + 2 <= usize::MAX,
            old(gl).programs@.len() < usize::MAX,
        ensures
            match r {
                Ok(p) => {
                    &&& spec_stage_ready(*res, spec_vert_name(name@))
                    &&& spec_stage_ready(*res, spec_frag_name(name@))
                    &&& spec_sources_matched(*res, name@)
                    &&& p.id == old(gl).programs@.len() + 1
                    &&& p.valid(*final(gl))
                    &&& final(gl).program(p.id).attached@ == Seq::<usize>::empty()
                    &&& final(gl).programs@ == old(gl).programs@.push(
                        Some(final(gl).program(p.id)),
                    )
                    &&& final(gl).shaders@ == old(gl).shaders@.push(None).push(None)
                    &&& spec_rest_same(*final(gl), *old(gl))
                },
                Err(e) => spec_from_res_failure(*old(gl), *final(gl), *res, name@, e),
            },
    {
        let vert_name = String::from_str(name).concat(".vert");
        let frag_name = String::from_str(name).concat(".frag");
        proof {
            reveal_strlit(".vert");
            reveal_strlit(".frag");
            assert(spec_stage_for_name(vert_name@) == Some(Stage::Vertex));
            assert(".vert"@[4] == 't');
            assert(".frag"@[4] == 'g');
            assert(frag_name@[frag_name@.len() - 1] == 'g');
            assert(!spec_ends_with(frag_name@, ".vert"@));
            assert(spec_stage_for_name(frag_name@) == Some(Stage::Fragment));
        }
        let vert = match Shader::from_res(gl, res, vert_name.as_str()) {
            Ok(sh) => sh,
            Err(e) => {
                return Err(e);
            },
        };
        let ghost g1 = *gl;
        let frag = match Shader::from_res(gl, res, frag_name.as_str()) {
            Ok(sh) => sh,
            Err(e) => {
                vert.release(gl);
                proof {
                    match e {
                        Error::CompileError { .. } => {
                            assert(gl.shaders@ =~= old(gl).shaders@.push(None).push(None));
                        },
                        _ => {
                            assert(gl.shaders@ =~= old(gl).shaders@.push(None));
                        },
                    }
                }
                return Err(e);
            },
        };
        let mut stage_shaders: Vec<Shader> = Vec::new();
        stage_shaders.push(vert);
        stage_shaders.push(frag);
        let ghost g2 = *gl;
        let ghost ss = stage_shaders@;
        proof {
            assert(ss.len() == 2);
            assert(ss[1].valid(g2));
            assert(ss[0].id == old(gl).shaders@.len() + 1);
            assert(g2.shaders@[ss[0].id - 1] == g1.shaders@[ss[0].id - 1]);
            assert(ss[0].valid(g2));
            assert(g2.shader(ss[0].id).source@ == spec_res_source(*res, spec_vert_name(name@)));
            assert(g2.shader(ss[1].id).source@ == spec_res_source(*res, spec_frag_name(name@)));
        }
        let linked = Program::from_shaders(gl, stage_shaders.as_slice());
        proof {
            // The pairwise interface condition is exactly the two-source
            // condition of this material.
            if spec_interfaces_matched(g2, ss) {
                assert forall|d: Seq<u8>| #[trigger]
                    glsl::spec_in_decls(
                        spec_res_source(*res, spec_frag_name(name@)),
                    ).contains(d) implies glsl::spec_out_decls(
                    spec_res_source(*res, spec_vert_name(name@)),
                ).contains(d) by {
                    assert(ss[1].kind is Fragment);
                    assert(glsl::spec_in_decls(g2.shader(ss[1].id).source@).contains(d));
                    let j = choose|j: int|
                        0 <= j < ss.len() && (#[trigger] ss[j]).kind is Vertex
                            && glsl::spec_out_decls(g2.shader(ss[j].id).source@).contains(d);
                    assert(j == 0);
                }
                assert(spec_sources_matched(*res, name@));
            }
            if spec_sources_matched(*res, name@) {
                assert forall|i: int, d: Seq<u8>|
                    0 <= i < ss.len() && ss[i].kind is Fragment && #[trigger] glsl::spec_in_decls(
                        g2.shader(ss[i].id).source@,
                    ).contains(d) implies exists|j: int|
                    0 <= j < ss.len() && (#[trigger] ss[j]).kind is Vertex && glsl::spec_out_decls(
                        g2.shader(ss[j].id).source@,
                    ).contains(d) by {
                    assert(i == 1);
                    assert(glsl::spec_in_decls(
                        spec_res_source(*res, spec_frag_name(name@)),
                    ).contains(d));
                    assert(ss[0].kind is Vertex);
                    assert(glsl::spec_out_decls(g2.shader(ss[0].id).source@).contains(d));
                }
                assert(spec_interfaces_matched(g2, ss));
            }
        }
        let frag_back = stage_shaders.pop();
        match frag_back {
            Some(sh) => sh.release(gl),
            None => {},
        }
        let vert_back = stage_shaders.pop();
        match vert_back {
            Some(sh) => sh.release(gl),
            None => {},
        }
        proof {
            assert(gl.shaders@ =~= old(gl).shaders@.push(None).push(None));
        }
        match linked {
            Ok(p) => {
                proof {
                    assert(gl.programs@ =~= old(gl).programs@.push(Some(gl.program(p.id))));
                }
                Ok(p)
            },
            Err(message) => Err(Error::LinkError { name: String::from_str(name), message }),
        }
    }

    /// Marks this program as the one used for subsequent draw calls.
    /// Exactly one program is active afterwards: this one.
    pub fn set_used(&self, gl: &mut Gl)
        requires
            self.valid(*old(gl)),
        ensures
            final(gl).program_is_active(self.id),
            forall|q: usize| final(gl).program_is_active(q) <==> q == self.id,
            final(gl).same_tables(*old(gl)),
            final(gl).bound_array_buffer == old(gl).bound_array_buffer,
            final(gl).bound_vertex_array == old(gl).bound_vertex_array,
            final(gl).draws == old(gl).draws,
    {
        gl.use_program(self.id);
    }

    /// The round trip of the lifecycle: building a program from a vertex
    /// and a fragment source that the compiler accepts and whose interfaces
    /// match, then making it active, raises no error on any step - the
    /// result is a valid program by type - and leaves exactly one program
    /// marked active.  The two stage shaders are released again on the way,
    /// so no shader object outlives the construction.
    pub fn from_sources_used(gl: &mut Gl, vert_source: &Vec<u8>, frag_source: &Vec<u8>) -> (p:
        Program)
        requires
            old(gl).shaders@.len() + 2 <= usize::MAX,
            old(gl).programs@.len() < usize::MAX,
            glsl::spec_source_accepted(vert_source@),
            glsl::spec_source_accepted(frag_source@),
            forall|d: Seq<u8>|
                #[trigger] glsl::spec_in_decls(frag_source@).contains(d)
                    ==> glsl::spec_out_decls(vert_source@).contains(d),
        ensures
            p.valid(*final(gl)),
            p.id == old(gl).programs@.len() + 1,
            final(gl).program_is_active(p.id),
            forall|q: usize| final(gl).program_is_active(q) <==> q == p.id,
            final(gl).shaders@ == old(gl).shaders@.push(None).push(None),
            final(gl).programs@ == old(gl).programs@.push(Some(final(gl).program(p.id))),
    {
        let vert = match Shader::from_vert_source(gl, vert_source) {
            Ok(sh) => sh,
            Err(_) => vstd::pervasive::unreached(),
        };
        let frag = match Shader::from_frag_source(gl, frag_source) {
            Ok(sh) => sh,
            Err(_) => vstd::pervasive::unreached(),
        };
        let mut stage_shaders: Vec<Shader> = Vec::new();
        stage_shaders.push(vert);
        stage_shaders.push(frag);
        let ghost g2 = *gl;
        let ghost ss = stage_shaders@;
        proof {
            assert(ss[0].valid(g2));
            assert(ss[1].valid(g2));
            assert(g2.shader(ss[0].id).source@ == vert_source@);
            assert(g2.shader(ss[1].id).source@ == frag_source@);
            assert forall|i: int, d: Seq<u8>|
                0 <= i < ss.len() && ss[i].kind is Fragment && #[trigger] glsl::spec_in_decls(
                    g2.shader(ss[i].id).source@,
                ).contains(d) implies exists|j: int|
                0 <= j < ss.len() && (#[trigger] ss[j]).kind is Vertex && glsl::spec_out_decls(
                    g2.shader(ss[j].id).source@,
                ).contains(d) by {
                assert(i == 1);
                assert(glsl::spec_out_decls(vert_source@).contains(d));
                assert(ss[0].kind is Vertex);
                assert(glsl::spec_out_decls(g2.shader(ss[0].id).source@).contains(d));
            }
            assert(spec_interfaces_matched(g2, ss));
        }
        let program = match Program::from_shaders(gl, stage_shaders.as_slice()) {
            Ok(p) => p,
            Err(_) => vstd::pervasive::unreached(),
        };
        let frag_back = stage_shaders.pop();
        match frag_back {
            Some(sh) => sh.release(gl),
            None => {},
        }
        let vert_back = stage_shaders.pop();
        match vert_back {
            Some(sh) => sh.release(gl),
            None => {},
        }
        proof {
            assert(gl.shaders@ =~= old(gl).shaders@.push(None).push(None));
        }
        program.set_used(gl);
        proof {
            assert(gl.programs@ =~= old(gl).programs@.push(Some(gl.program(program.id))));
        }
        program
    }

    /// Releases the wrapped program object.
    pub fn release(self, gl: &mut Gl)
        requires
            old(gl).program_live(self.id),
        ensures
            final(gl).programs@ == old(gl).programs@.update(
                self.id - 1,
                None::<crate::gl::ProgramObj>,
            ),
            final(gl).same_but_programs(*old(gl)),
    {
        gl.delete_program(self.id);
    }
}

} // verus!
