//! The graphics driver as an explicit state machine.
//!
//! Every object the driver owns - shader, program, buffer, vertex array - is
//! a slot in a table; a handle is the slot's index plus one, so handle `0`
//! names no object, as in the underlying API.  A deleted object leaves a
//! permanently empty slot behind: handles are never reused, and the number of
//! deleted objects of each kind is observable, which is what the lifecycle
//! contracts (`exactly one release`, `no leak on failure`) are stated
//! against.
//!
//! The driver also carries the three pieces of global mutable state the
//! binding discipline is about: the bound array buffer, the bound vertex
//! array, and the active program.

use vstd::prelude::*;

use crate::data::AttributeDescriptor;
use crate::glsl;

verus! {

/// A shader pipeline role.
#[derive(Clone, Copy, PartialEq, Eq, Structural, Debug)]
pub enum Stage {
    Vertex,
    Fragment,
}

/// A driver-side shader object: its stage, the submitted source, and the
/// outcome of compilation.
pub struct ShaderObj {
    pub kind: Stage,
    pub source: Vec<u8>,
    pub compiled: bool,
    pub compile_ok: bool,
    pub log: Vec<u8>,
}

/// A driver-side program object: the attached shaders and the outcome of
/// linking.
pub struct ProgramObj {
    pub attached: Vec<usize>,
    pub linked: bool,
    pub link_ok: bool,
    pub log: Vec<u8>,
}

/// A driver-side buffer object holding uploaded bytes.
pub struct BufferObj {
    pub data: Vec<u8>,
}

/// A driver-side vertex array object: the attribute slots enabled on it and
/// the attribute pointers it has captured, in registration order.
pub struct VaoObj {
    pub enabled: Vec<usize>,
    pub attribs: Vec<AttributeDescriptor>,
}

/// A primitive topology for a draw call.
#[derive(Clone, Copy, PartialEq, Eq, Structural, Debug)]
pub enum DrawMode {
    Triangles,
}

/// One issued draw call, as the driver saw it.
#[derive(Clone, Copy, PartialEq, Eq, Structural, Debug)]
pub struct DrawCall {
    pub mode: DrawMode,
    pub first: usize,
    pub count: usize,
    pub program: usize,
    pub vertex_array: usize,
}

/// The driver state.
pub struct Gl {
    pub shaders: Vec<Option<ShaderObj>>,
    pub programs: Vec<Option<ProgramObj>>,
    pub buffers: Vec<Option<BufferObj>>,
    pub vaos: Vec<Option<VaoObj>>,
    pub bound_array_buffer: usize,
    pub bound_vertex_array: usize,
    pub active_program: usize,
    pub draws: Vec<DrawCall>,
}

/// Number of deleted (empty) slots in an object table.
pub open spec fn spec_dead<T>(table: Seq<Option<T>>) -> nat
    decreases table.len(),
{
    if table.len() == 0 {
        0
    } else {
        spec_dead(table.skip(1)) + if table[0] is None {
            1nat
        } else {
            0nat
        }
    }
}

pub proof fn lemma_dead_push<T>(table: Seq<Option<T>>, x: Option<T>)
    ensures
        spec_dead(table.push(x)) == spec_dead(table) + if x is None {
            1nat
        } else {
            0nat
        },
    decreases table.len(),
{
    if table.len() == 0 {
        assert(table.push(x).skip(1) =~= Seq::<Option<T>>::empty());
        assert(table =~= Seq::<Option<T>>::empty());
    } else {
        assert(table.push(x).skip(1) =~= table.skip(1).push(x));
        lemma_dead_push(table.skip(1), x);
    }
}

/// Deleting a live slot raises the dead count by exactly one.
pub proof fn lemma_dead_delete<T>(table: Seq<Option<T>>, i: int)
    requires
        0 <= i < table.len(),
        table[i] is Some,
    ensures
        spec_dead(table.update(i, None)) == spec_dead(table) + 1,
    decreases table.len(),
{
    if i == 0 {
        assert(table.update(0, None::<T>).skip(1) =~= table.skip(1));
    } else {
        assert(table.update(i, None::<T>).skip(1) =~= table.skip(1).update(i - 1, None));
        lemma_dead_delete(table.skip(1), i - 1);
    }
}

impl Gl {
    /// Handle `id` names a live shader object.
    pub open spec fn shader_live(self, id: usize) -> bool {
        1 <= id <= self.shaders@.len() && self.shaders@[id - 1] is Some
    }

    /// The live shader object named by `id`.
    pub open spec fn shader(self, id: usize) -> ShaderObj {
        self.shaders@[id - 1]->Some_0
    }

    pub open spec fn program_live(self, id: usize) -> bool {
        1 <= id <= self.programs@.len() && self.programs@[id - 1] is Some
    }

    pub open spec fn program(self, id: usize) -> ProgramObj {
        self.programs@[id - 1]->Some_0
    }

    pub open spec fn buffer_live(self, id: usize) -> bool {
        1 <= id <= self.buffers@.len() && self.buffers@[id - 1] is Some
    }

    pub open spec fn buffer(self, id: usize) -> BufferObj {
        self.buffers@[id - 1]->Some_0
    }

    pub open spec fn vao_live(self, id: usize) -> bool {
        1 <= id <= self.vaos@.len() && self.vaos@[id - 1] is Some
    }

    pub open spec fn vao(self, id: usize) -> VaoObj {
        self.vaos@[id - 1]->Some_0
    }

    /// Program `id` is the one marked active for draw calls.
    pub open spec fn program_is_active(self, id: usize) -> bool {
        self.active_program == id
    }

    /// Everything but the shader table is as in `pre`.
    pub open spec fn same_but_shaders(self, pre: Gl) -> bool {
        &&& self.programs == pre.programs
        &&& self.buffers == pre.buffers
        &&& self.vaos == pre.vaos
        &&& self.bound_array_buffer == pre.bound_array_buffer
        &&& self.bound_vertex_array == pre.bound_vertex_array
        &&& self.active_program == pre.active_program
        &&& self.draws == pre.draws
    }

    /// Everything but the program table is as in `pre`.
    pub open spec fn same_but_programs(self, pre: Gl) -> bool {
        &&& self.shaders == pre.shaders
        &&& self.buffers == pre.buffers
        &&& self.vaos == pre.vaos
        &&& self.bound_array_buffer == pre.bound_array_buffer
        &&& self.bound_vertex_array == pre.bound_vertex_array
        &&& self.active_program == pre.active_program
        &&& self.draws == pre.draws
    }

    /// Everything but the buffer table is as in `pre`.
    pub open spec fn same_but_buffers(self, pre: Gl) -> bool {
        &&& self.shaders == pre.shaders
        &&& self.programs == pre.programs
        &&& self.vaos == pre.vaos
        &&& self.bound_array_buffer == pre.bound_array_buffer
        &&& self.bound_vertex_array == pre.bound_vertex_array
        &&& self.active_program == pre.active_program
        &&& self.draws == pre.draws
    }

    /// Everything but the vertex-array table is as in `pre`.
    pub open spec fn same_but_vaos(self, pre: Gl) -> bool {
        &&& self.shaders == pre.shaders
        &&& self.programs == pre.programs
        &&& self.buffers == pre.buffers
        &&& self.bound_array_buffer == pre.bound_array_buffer
        &&& self.bound_vertex_array == pre.bound_vertex_array
        &&& self.active_program == pre.active_program
        &&& self.draws == pre.draws
    }

    /// All four object tables are as in `pre`.
    pub open spec fn same_tables(self, pre: Gl) -> bool {
        &&& self.shaders == pre.shaders
        &&& self.programs == pre.programs
        &&& self.buffers == pre.buffers
        &&& self.vaos == pre.vaos
    }

    /// A fresh driver with no objects, nothing bound and no program active.
    pub fn new() -> (gl: Gl)
        ensures
            gl.shaders@ == Seq::<Option<ShaderObj>>::empty(),
            gl.programs@ == Seq::<Option<ProgramObj>>::empty(),
            gl.buffers@ == Seq::<Option<BufferObj>>::empty(),
            gl.vaos@ == Seq::<Option<VaoObj>>::empty(),
            gl.bound_array_buffer == 0,
            gl.bound_vertex_array == 0,
            gl.active_program == 0,
            gl.draws@ == Seq::<DrawCall>::empty(),
    {
        Gl {
            shaders: Vec::new(),
            programs: Vec::new(),
            buffers: Vec::new(),
            vaos: Vec::new(),
            bound_array_buffer: 0,
            bound_vertex_array: 0,
            active_program: 0,
            draws: Vec::new(),
        }
    }

    /// Allocates a fresh shader object of the given stage.
    pub fn create_shader(&mut self, kind: Stage) -> (id: usize)
        requires
            old(self).shaders@.len() < usize::MAX,
        ensures
            id == old(self).shaders@.len() + 1,
            !old(self).shader_live(id),
            final(self).shader_live(id),
            final(self).shaders@.len() == old(self).shaders@.len() + 1,
            forall|k: int|
                0 <= k < old(self).shaders@.len() ==> final(self).shaders@[k] == old(self).shaders@[k],
            final(self).shader(id).kind == kind,
            final(self).shader(id).source@ == Seq::<u8>::empty(),
            !final(self).shader(id).compiled,
            !final(self).shader(id).compile_ok,
            final(self).same_but_shaders(*old(self)),
    {
        let id = self.shaders.len() + 1;
        self.shaders.push(
            Some(
                ShaderObj {
                    kind,
                    source: Vec::new(),
                    compiled: false,
                    compile_ok: false,
                    log: Vec::new(),
                },
            ),
        );
        id
    }

    /// Replaces the source text stored in a shader object.
    pub fn shader_source(&mut self, id: usize, src: &Vec<u8>)
        requires
            old(self).shader_live(id),
        ensures
            final(self).shaders@.len() == old(self).shaders@.len(),
            forall|k: int|
                0 <= k < old(self).shaders@.len() && k != id - 1 ==> final(self).shaders@[k] == old(self).shaders@[k],
            final(self).shader_live(id),
            final(self).shader(id).kind == old(self).shader(id).kind,
            final(self).shader(id).source@ == src@,
            final(self).shader(id).compiled == old(self).shader(id).compiled,
            final(self).shader(id).compile_ok == old(self).shader(id).compile_ok,
            final(self).shader(id).log@ == old(self).shader(id).log@,
            final(self).same_but_shaders(*old(self)),
    {
        let i = id - 1;
        let mut obj = self.shaders[i].take().unwrap();
        let mut source: Vec<u8> = Vec::new();
        let mut k: usize = 0;
        while k < src.len()
            invariant
                k <= src@.len(),
                source@ == src@.subrange(0, k as int),
            decreases src@.len() - k,
        {
            source.push(src[k]);
            k = k + 1;
        }
        proof {
            assert(source@ =~= src@);
        }
        obj.source = source;
        self.shaders[i] = Some(obj);
    }

    /// Compiles a shader object: records the verdict of the model compiler
    /// on the stored source, and a non-empty diagnostic log on rejection.
    pub fn compile_shader(&mut self, id: usize)
        requires
            old(self).shader_live(id),
        ensures
            final(self).shaders@.len() == old(self).shaders@.len(),
            forall|k: int|
                0 <= k < old(self).shaders@.len() && k != id - 1 ==> final(self).shaders@[k] == old(self).shaders@[k],
            final(self).shader_live(id),
            final(self).shader(id).kind == old(self).shader(id).kind,
            final(self).shader(id).source@ == old(self).shader(id).source@,
            final(self).shader(id).compiled,
            final(self).shader(id).compile_ok == glsl::spec_source_accepted(
                old(self).shader(id).source@,
            ),
            final(self).shader(id).compile_ok ==> final(self).shader(id).log@.len() == 0,
            !final(self).shader(id).compile_ok ==> final(self).shader(id).log@.len() > 0,
            final(self).same_but_shaders(*old(self)),
    {
        let i = id - 1;
        let mut obj = self.shaders[i].take().unwrap();
        let ok = glsl::source_accepted(&obj.source);
        obj.compiled = true;
        obj.compile_ok = ok;
        obj.log = if ok {
            Vec::new()
        } else {
            compile_error_log()
        };
        self.shaders[i] = Some(obj);
    }

    /// Queries the compile-status flag of a shader object.
    pub fn shader_compile_status(&self, id: usize) -> (ok: bool)
        requires
            self.shader_live(id),
        ensures
            ok == self.shader(id).compile_ok,
    {
        match &self.shaders[id - 1] {
            Some(obj) => obj.compile_ok,
            None => false,
        }
    }

    /// Fetches a copy of the diagnostic log of a shader object.
    pub fn shader_info_log(&self, id: usize) -> (log: Vec<u8>)
        requires
            self.shader_live(id),
        ensures
            log@ == self.shader(id).log@,
    {
        match &self.shaders[id - 1] {
            Some(obj) => copy_bytes(&obj.log),
            None => Vec::new(),
        }
    }

    /// Deletes a shader object; its slot stays permanently empty.
    pub fn delete_shader(&mut self, id: usize)
        requires
            old(self).shader_live(id),
        ensures
            final(self).shaders@ == old(self).shaders@.update(id - 1, None::<ShaderObj>),
            spec_dead(final(self).shaders@) == spec_dead(old(self).shaders@) + 1,
            final(self).same_but_shaders(*old(self)),
    {
        proof {
            lemma_dead_delete(self.shaders@, id - 1);
        }
        self.shaders[id - 1] = None;
    }

    /// The model linker accepts a sequence of attached shader objects iff
    /// every one of them compiled successfully and every interface input of
    /// a fragment stage is declared as an interface output by some vertex
    /// stage.
    pub open spec fn spec_link_accepted(self, ids: Seq<usize>) -> bool {
        &&& forall|i: int|
            0 <= i < ids.len() ==> self.shader(#[trigger] ids[i]).compiled && self.shader(
                ids[i],
            ).compile_ok
        &&& forall|i: int, d: Seq<u8>|
            #![trigger glsl::spec_in_decls(self.shader(ids[i]).source@).contains(d)]
            0 <= i < ids.len() && self.shader(ids[i]).kind is Fragment && glsl::spec_in_decls(
                self.shader(ids[i]).source@,
            ).contains(d) ==> exists|j: int|
                0 <= j < ids.len() && self.shader(#[trigger] ids[j]).kind is Vertex
                    && glsl::spec_out_decls(self.shader(ids[j]).source@).contains(d)
    }

    /// Allocates a fresh program object with nothing attached.
    pub fn create_program(&mut self) -> (id: usize)
        requires
            old(self).programs@.len() < usize::MAX,
        ensures
            id == old(self).programs@.len() + 1,
            !old(self).program_live(id),
            final(self).program_live(id),
            final(self).programs@.len() == old(self).programs@.len() + 1,
            forall|k: int|
                0 <= k < old(self).programs@.len() ==> final(self).programs@[k] == old(self).programs@[k],
            final(self).program(id).attached@ == Seq::<usize>::empty(),
            !final(self).program(id).linked,
            !final(self).program(id).link_ok,
            final(self).same_but_programs(*old(self)),
    {
        let id = self.programs.len() + 1;
        self.programs.push(
            Some(ProgramObj { attached: Vec::new(), linked: false, link_ok: false, log: Vec::new() }),
        );
        id
    }

    /// Attaches a shader object to a program object.
    pub fn attach_shader(&mut self, pid: usize, sid: usize)
        requires
            old(self).program_live(pid),
            old(self).shader_live(sid),
            !old(self).program(pid).attached@.contains(sid),
        ensures
            final(self).programs@.len() == old(self).programs@.len(),
            forall|k: int|
                0 <= k < old(self).programs@.len() && k != pid - 1 ==> final(self).programs@[k]
                    == old(self).programs@[k],
            final(self).program_live(pid),
            final(self).program(pid).attached@ == old(self).program(pid).attached@.push(sid),
            final(self).program(pid).linked == old(self).program(pid).linked,
            final(self).program(pid).link_ok == old(self).program(pid).link_ok,
            final(self).program(pid).log@ == old(self).program(pid).log@,
            final(self).same_but_programs(*old(self)),
    {
        let i = pid - 1;
        let mut obj = self.programs[i].take().unwrap();
        obj.attached.push(sid);
        self.programs[i] = Some(obj);
    }

    /// Links a program object: records the model linker's verdict on the
    /// attached shader objects, and a non-empty diagnostic log on rejection.
    pub fn link_program(&mut self, id: usize)
        requires
            old(self).program_live(id),
            forall|k: int|
                0 <= k < old(self).program(id).attached@.len() ==> old(self).shader_live(
                    #[trigger] old(self).program(id).attached@[k],
                ),
        ensures
            final(self).programs@.len() == old(self).programs@.len(),
            forall|k: int|
                0 <= k < old(self).programs@.len() && k != id - 1 ==> final(self).programs@[k]
                    == old(self).programs@[k],
            final(self).program_live(id),
            final(self).program(id).attached@ == old(self).program(id).attached@,
            final(self).program(id).linked,
            final(self).program(id).link_ok == old(self).spec_link_accepted(
                old(self).program(id).attached@,
            ),
            final(self).program(id).link_ok ==> final(self).program(id).log@.len() == 0,
            !final(self).program(id).link_ok ==> final(self).program(id).log@.len() > 0,
            final(self).same_but_programs(*old(self)),
    {
        let i = id - 1;
        let mut obj = self.programs[i].take().unwrap();
        let ghost att = obj.attached@;
        proof {
            assert(att == old(self).program(id).attached@);
            assert forall|m: int| 0 <= m < att.len() implies old(self).shader_live(
                #[trigger] att[m],
            ) by {
                assert(old(self).program(id).attached@[m] == att[m]);
            }
        }

        // Every attached shader must have compiled.
        let mut all_ok = true;
        let mut k: usize = 0;
        while k < obj.attached.len()
            invariant
                k <= att.len(),
                obj.attached@ == att,
                *self == (Gl { programs: self.programs, ..*old(self) }),
                forall|m: int| 0 <= m < att.len() ==> old(self).shader_live(#[trigger] att[m]),
                all_ok <==> (forall|m: int|
                    0 <= m < k ==> self.shader(#[trigger] att[m]).compiled && self.shader(
                        att[m],
                    ).compile_ok),
            decreases att.len() - k,
        {
            let sid = obj.attached[k];
            let ok = match &self.shaders[sid - 1] {
                Some(s) => s.compiled && s.compile_ok,
                None => false,
            };
            if !ok {
                all_ok = false;
            }
            k = k + 1;
        }

        // Gather the interface outputs of every attached vertex stage.
        let mut vout: Vec<Vec<u8>> = Vec::new();
        let mut k: usize = 0;
        proof {
            assert(vout.deep_view() =~= Seq::<Seq<u8>>::empty());
        }
        while k < obj.attached.len()
            invariant
                k <= att.len(),
                obj.attached@ == att,
                *self == (Gl { programs: self.programs, ..*old(self) }),
                forall|m: int| 0 <= m < att.len() ==> old(self).shader_live(#[trigger] att[m]),
                forall|d: Seq<u8>|
                    #[trigger] vout.deep_view().contains(d) <==> (exists|j: int|
                        0 <= j < k && self.shader(#[trigger] att[j]).kind is Vertex
                            && glsl::spec_out_decls(self.shader(att[j]).source@).contains(d)),
            decreases att.len() - k,
        {
            let sid = obj.attached[k];
            let ds = match &self.shaders[sid - 1] {
                Some(s) => {
                    if s.kind == Stage::Vertex {
                        Some(glsl::out_decls(&s.source))
                    } else {
                        None
                    }
                },
                None => None,
            };
            let ghost pre = vout.deep_view();
            match ds {
                Some(mut ds) => {
                    let ghost dsv = ds.deep_view();
                    vout.append(&mut ds);
                    proof {
                        assert(vout.deep_view() =~= pre + dsv);
                        assert forall|d: Seq<u8>| #[trigger]
                            vout.deep_view().contains(d) <==> (exists|j: int|
                                0 <= j < k + 1 && self.shader(#[trigger] att[j]).kind is Vertex
                                    && glsl::spec_out_decls(self.shader(att[j]).source@).contains(
                                    d,
                                )) by {
                            lemma_contains_concat(pre, dsv, d);
                            if vout.deep_view().contains(d) {
                                if pre.contains(d) {
                                    let j = choose|j: int|
                                        0 <= j < k && self.shader(#[trigger] att[j]).kind is Vertex
                                            && glsl::spec_out_decls(
                                            self.shader(att[j]).source@,
                                        ).contains(d);
                                    assert(0 <= j < k + 1 && self.shader(att[j]).kind is Vertex
                                        && glsl::spec_out_decls(
                                        self.shader(att[j]).source@,
                                    ).contains(d));
                                } else {
                                    assert(self.shader(att[k as int]).kind is Vertex
                                        && glsl::spec_out_decls(
                                        self.shader(att[k as int]).source@,
                                    ).contains(d));
                                }
                            }
                            if exists|j: int|
                                0 <= j < k + 1 && self.shader(#[trigger] att[j]).kind is Vertex
                                    && glsl::spec_out_decls(self.shader(att[j]).source@).contains(
                                    d,
                                ) {
                                let j = choose|j: int|
                                    0 <= j < k + 1 && self.shader(#[trigger] att[j]).kind is Vertex
                                        && glsl::spec_out_decls(self.shader(att[j]).source@).contains(
                                        d,
                                    );
                                if j < k {
                                    assert(pre.contains(d));
                                } else {
                                    assert(dsv.contains(d));
                                }
                            }
                        }
                    }
                },
                None => {
                    proof {
                        assert forall|d: Seq<u8>| #[trigger]
                            vout.deep_view().contains(d) <==> (exists|j: int|
                                0 <= j < k + 1 && self.shader(#[trigger] att[j]).kind is Vertex
                                    && glsl::spec_out_decls(self.shader(att[j]).source@).contains(
                                    d,
                                )) by {
                            if exists|j: int|
                                0 <= j < k + 1 && self.shader(#[trigger] att[j]).kind is Vertex
                                    && glsl::spec_out_decls(self.shader(att[j]).source@).contains(
                                    d,
                                ) {
                                let j = choose|j: int|
                                    0 <= j < k + 1 && self.shader(#[trigger] att[j]).kind is Vertex
                                        && glsl::spec_out_decls(self.shader(att[j]).source@).contains(
                                        d,
                                    );
                                assert(j < k);
                            }
                        }
                    }
                },
            }
            k = k + 1;
        }

        // Every interface input of every attached fragment stage must be
        // among the gathered outputs.
        let mut matched = true;
        let mut k: usize = 0;
        while k < obj.attached.len()
            invariant
                k <= att.len(),
                obj.attached@ == att,
                *self == (Gl { programs: self.programs, ..*old(self) }),
                forall|m: int| 0 <= m < att.len() ==> old(self).shader_live(#[trigger] att[m]),
                forall|d: Seq<u8>|
                    #[trigger] vout.deep_view().contains(d) <==> (exists|j: int|
                        0 <= j < att.len() && self.shader(#[trigger] att[j]).kind is Vertex
                            && glsl::spec_out_decls(self.shader(att[j]).source@).contains(d)),
                matched <==> (forall|m: int, d: Seq<u8>|
                    #![trigger glsl::spec_in_decls(self.shader(att[m]).source@).contains(d)]
                    0 <= m < k && self.shader(att[m]).kind is Fragment && glsl::spec_in_decls(
                        self.shader(att[m]).source@,
                    ).contains(d) ==> vout.deep_view().contains(d)),
            decreases att.len() - k,
        {
            let sid = obj.attached[k];
            let ins = match &self.shaders[sid - 1] {
                Some(s) => {
                    if s.kind == Stage::Fragment {
                        Some(glsl::in_decls(&s.source))
                    } else {
                        None
                    }
                },
                None => None,
            };
            match ins {
                Some(ins) => {
                    if !glsl::decls_covered(&ins, &vout) {
                        matched = false;
                    }
                },
                None => {},
            }
            k = k + 1;
        }

        let link_ok = all_ok && matched;
        proof {
            if link_ok {
                assert forall|i2: int, d: Seq<u8>|
                    0 <= i2 < att.len() && self.shader(att[i2]).kind is Fragment
                        && #[trigger] glsl::spec_in_decls(self.shader(att[i2]).source@).contains(
                        d,
                    ) implies exists|j: int|
                    0 <= j < att.len() && self.shader(#[trigger] att[j]).kind is Vertex
                        && glsl::spec_out_decls(self.shader(att[j]).source@).contains(d) by {
                    assert(vout.deep_view().contains(d));
                }
            }
            assert(link_ok == old(self).spec_link_accepted(att));
        }
        obj.linked = true;
        obj.link_ok = link_ok;
        obj.log = if link_ok {
            Vec::new()
        } else {
            link_error_log()
        };
        self.programs[i] = Some(obj);
    }

    /// Queries the link-status flag of a program object.
    pub fn program_link_status(&self, id: usize) -> (ok: bool)
        requires
            self.program_live(id),
        ensures
            ok == self.program(id).link_ok,
    {
        match &self.programs[id - 1] {
            Some(obj) => obj.link_ok,
            None => false,
        }
    }

    /// Fetches a copy of the diagnostic log of a program object.
    pub fn program_info_log(&self, id: usize) -> (log: Vec<u8>)
        requires
            self.program_live(id),
        ensures
            log@ == self.program(id).log@,
    {
        match &self.programs[id - 1] {
            Some(obj) => copy_bytes(&obj.log),
            None => Vec::new(),
        }
    }

    /// Detaches the first attachment of `sid` from a program object.
    pub fn detach_shader(&mut self, pid: usize, sid: usize)
        requires
            old(self).program_live(pid),
            old(self).program(pid).attached@.contains(sid),
        ensures
            final(self).programs@.len() == old(self).programs@.len(),
            forall|k: int|
                0 <= k < old(self).programs@.len() && k != pid - 1 ==> final(self).programs@[k]
                    == old(self).programs@[k],
            final(self).program_live(pid),
            final(self).program(pid).attached@ == old(self).program(pid).attached@.remove(
                spec_first_index(old(self).program(pid).attached@, sid),
            ),
            final(self).program(pid).linked == old(self).program(pid).linked,
            final(self).program(pid).link_ok == old(self).program(pid).link_ok,
            final(self).program(pid).log@ == old(self).program(pid).log@,
            final(self).same_but_programs(*old(self)),
    {
        let i = pid - 1;
        let mut obj = self.programs[i].take().unwrap();
        let ghost att = obj.attached@;
        let mut idx: usize = 0;
        while idx < obj.attached.len() && obj.attached[idx] != sid
            invariant
                idx <= att.len(),
                obj.attached@ == att,
                forall|k: int| 0 <= k < idx ==> att[k] != sid,
            decreases att.len() - idx,
        {
            idx = idx + 1;
        }
        proof {
            let w = choose|w: int| 0 <= w < att.len() && att[w] == sid;
            assert(idx < att.len());
            lemma_first_index_unique(att, sid, idx as int);
        }
        obj.attached.remove(idx);
        self.programs[i] = Some(obj);
    }

    /// Deletes a program object; its slot stays permanently empty.
    pub fn delete_program(&mut self, id: usize)
        requires
            old(self).program_live(id),
        ensures
            final(self).programs@ == old(self).programs@.update(id - 1, None::<ProgramObj>),
            spec_dead(final(self).programs@) == spec_dead(old(self).programs@) + 1,
            final(self).same_but_programs(*old(self)),
    {
        proof {
            lemma_dead_delete(self.programs@, id - 1);
        }
        self.programs[id - 1] = None;
    }

    /// Marks a linked program as the one active for subsequent draw calls.
    /// Exactly one program is active afterwards.
    pub fn use_program(&mut self, id: usize)
        requires
            old(self).program_live(id),
            old(self).program(id).linked,
            old(self).program(id).link_ok,
        ensures
            final(self).program_is_active(id),
            forall|q: usize| final(self).program_is_active(q) <==> q == id,
            final(self).same_tables(*old(self)),
            final(self).bound_array_buffer == old(self).bound_array_buffer,
            final(self).bound_vertex_array == old(self).bound_vertex_array,
            final(self).draws == old(self).draws,
    {
        self.active_program = id;
    }

    /// Allocates a fresh, empty buffer object.
    pub fn gen_buffer(&mut self) -> (id: usize)
        requires
            old(self).buffers@.len() < usize::MAX,
        ensures
            id == old(self).buffers@.len() + 1,
            !old(self).buffer_live(id),
            final(self).buffer_live(id),
            final(self).buffers@.len() == old(self).buffers@.len() + 1,
            forall|k: int|
                0 <= k < old(self).buffers@.len() ==> final(self).buffers@[k] == old(self).buffers@[k],
            final(self).buffer(id).data@ == Seq::<u8>::empty(),
            final(self).same_but_buffers(*old(self)),
    {
        let id = self.buffers.len() + 1;
        self.buffers.push(Some(BufferObj { data: Vec::new() }));
        id
    }

    /// Makes a buffer object the bound array buffer.
    pub fn bind_array_buffer(&mut self, id: usize)
        requires
            old(self).buffer_live(id),
        ensures
            final(self).bound_array_buffer == id,
            final(self).same_tables(*old(self)),
            final(self).bound_vertex_array == old(self).bound_vertex_array,
            final(self).active_program == old(self).active_program,
            final(self).draws == old(self).draws,
    {
        self.bound_array_buffer = id;
    }

    /// Clears the array-buffer binding.
    pub fn unbind_array_buffer(&mut self)
        ensures
            final(self).bound_array_buffer == 0,
            final(self).same_tables(*old(self)),
            final(self).bound_vertex_array == old(self).bound_vertex_array,
            final(self).active_program == old(self).active_program,
            final(self).draws == old(self).draws,
    {
        self.bound_array_buffer = 0;
    }

    /// Replaces the contents of the bound array buffer.  A buffer must be
    /// bound.
    pub fn buffer_data_static(&mut self, data: &Vec<u8>)
        requires
            old(self).buffer_live(old(self).bound_array_buffer),
        ensures
            final(self).buffers@.len() == old(self).buffers@.len(),
            forall|k: int|
                0 <= k < old(self).buffers@.len() && k != old(self).bound_array_buffer - 1 ==>
                    final(self).buffers@[k] == old(self).buffers@[k],
            final(self).buffer_live(old(self).bound_array_buffer),
            final(self).buffer(old(self).bound_array_buffer).data@ == data@,
            final(self).same_but_buffers(*old(self)),
    {
        let i = self.bound_array_buffer - 1;
        let _ = self.buffers[i].take();
        self.buffers[i] = Some(BufferObj { data: copy_bytes(data) });
    }

    /// Deletes a buffer object; its slot stays permanently empty.
    pub fn delete_buffer(&mut self, id: usize)
        requires
            old(self).buffer_live(id),
        ensures
            final(self).buffers@ == old(self).buffers@.update(id - 1, None::<BufferObj>),
            spec_dead(final(self).buffers@) == spec_dead(old(self).buffers@) + 1,
            final(self).same_but_buffers(*old(self)),
    {
        proof {
            lemma_dead_delete(self.buffers@, id - 1);
        }
        self.buffers[id - 1] = None;
    }

    /// Allocates a fresh vertex-array object with no captured attributes.
    pub fn gen_vertex_array(&mut self) -> (id: usize)
        requires
            old(self).vaos@.len() < usize::MAX,
        ensures
            id == old(self).vaos@.len() + 1,
            !old(self).vao_live(id),
            final(self).vao_live(id),
            final(self).vaos@.len() == old(self).vaos@.len() + 1,
            forall|k: int|
                0 <= k < old(self).vaos@.len() ==> final(self).vaos@[k] == old(self).vaos@[k],
            final(self).vao(id).enabled@ == Seq::<usize>::empty(),
            final(self).vao(id).attribs@ == Seq::<AttributeDescriptor>::empty(),
            final(self).same_but_vaos(*old(self)),
    {
        let id = self.vaos.len() + 1;
        self.vaos.push(Some(VaoObj { enabled: Vec::new(), attribs: Vec::new() }));
        id
    }

    /// Makes a vertex-array object the bound one.
    pub fn bind_vertex_array(&mut self, id: usize)
        requires
            old(self).vao_live(id),
        ensures
            final(self).bound_vertex_array == id,
            final(self).same_tables(*old(self)),
            final(self).bound_array_buffer == old(self).bound_array_buffer,
            final(self).active_program == old(self).active_program,
            final(self).draws == old(self).draws,
    {
        self.bound_vertex_array = id;
    }

    /// Clears the vertex-array binding.
    pub fn unbind_vertex_array(&mut self)
        ensures
            final(self).bound_vertex_array == 0,
            final(self).same_tables(*old(self)),
            final(self).bound_array_buffer == old(self).bound_array_buffer,
            final(self).active_program == old(self).active_program,
            final(self).draws == old(self).draws,
    {
        self.bound_vertex_array = 0;
    }

    /// Enables an attribute slot on the bound vertex array.
    pub fn enable_vertex_attrib_array(&mut self, location: usize)
        requires
            old(self).vao_live(old(self).bound_vertex_array),
        ensures
            final(self).vaos@.len() == old(self).vaos@.len(),
            forall|k: int|
                0 <= k < old(self).vaos@.len() && k != old(self).bound_vertex_array - 1 ==> final(self).vaos@[k] == old(self).vaos@[k],
            final(self).vao_live(old(self).bound_vertex_array),
            final(self).vao(old(self).bound_vertex_array).enabled@ == old(self).vao(
                old(self).bound_vertex_array,
            ).enabled@.push(location),
            final(self).vao(old(self).bound_vertex_array).attribs@ == old(self).vao(
                old(self).bound_vertex_array,
            ).attribs@,
            final(self).same_but_vaos(*old(self)),
    {
        let i = self.bound_vertex_array - 1;
        let mut obj = self.vaos[i].take().unwrap();
        obj.enabled.push(location);
        self.vaos[i] = Some(obj);
    }

    /// Registers an attribute pointer on the bound vertex array, reading
    /// from the bound array buffer.  Both must be bound.
    pub fn vertex_attrib_pointer(
        &mut self,
        location: usize,
        components: usize,
        ty: crate::data::ComponentType,
        normalized: bool,
        stride: usize,
        offset: usize,
    )
        requires
            old(self).vao_live(old(self).bound_vertex_array),
            old(self).buffer_live(old(self).bound_array_buffer),
        ensures
            final(self).vaos@.len() == old(self).vaos@.len(),
            forall|k: int|
                0 <= k < old(self).vaos@.len() && k != old(self).bound_vertex_array - 1 ==> final(self).vaos@[k] == old(self).vaos@[k],
            final(self).vao_live(old(self).bound_vertex_array),
            final(self).vao(old(self).bound_vertex_array).enabled@ == old(self).vao(
                old(self).bound_vertex_array,
            ).enabled@,
            final(self).vao(old(self).bound_vertex_array).attribs@ == old(self).vao(
                old(self).bound_vertex_array,
            ).attribs@.push(
                AttributeDescriptor { location, components, ty, normalized, stride, offset },
            ),
            final(self).same_but_vaos(*old(self)),
    {
        let i = self.bound_vertex_array - 1;
        let mut obj = self.vaos[i].take().unwrap();
        obj.attribs.push(
            AttributeDescriptor { location, components, ty, normalized, stride, offset },
        );
        self.vaos[i] = Some(obj);
    }

    /// Deletes a vertex-array object; its slot stays permanently empty.
    pub fn delete_vertex_array(&mut self, id: usize)
        requires
            old(self).vao_live(id),
        ensures
            final(self).vaos@ == old(self).vaos@.update(id - 1, None::<VaoObj>),
            spec_dead(final(self).vaos@) == spec_dead(old(self).vaos@) + 1,
            final(self).same_but_vaos(*old(self)),
    {
        proof {
            lemma_dead_delete(self.vaos@, id - 1);
        }
        self.vaos[id - 1] = None;
    }

    /// Issues a draw call with the active program and the bound vertex
    /// array.
    pub fn draw_arrays(&mut self, mode: DrawMode, first: usize, count: usize)
        requires
            old(self).program_live(old(self).active_program),
            old(self).program(old(self).active_program).link_ok,
            old(self).vao_live(old(self).bound_vertex_array),
        ensures
            final(self).draws@ == old(self).draws@.push(
                DrawCall {
                    mode,
                    first,
                    count,
                    program: old(self).active_program,
                    vertex_array: old(self).bound_vertex_array,
                },
            ),
            final(self).same_tables(*old(self)),
            final(self).bound_array_buffer == old(self).bound_array_buffer,
            final(self).bound_vertex_array == old(self).bound_vertex_array,
            final(self).active_program == old(self).active_program,
    {
        let call = DrawCall {
            mode,
            first,
            count,
            program: self.active_program,
            vertex_array: self.bound_vertex_array,
        };
        self.draws.push(call);
    }

    /// Number of shader objects deleted so far.
    pub fn dead_shader_count(&self) -> (n: usize)
        ensures
            n == spec_dead(self.shaders@),
    {
        count_dead_shaders(&self.shaders)
    }

    /// Number of program objects deleted so far.
    pub fn dead_program_count(&self) -> (n: usize)
        ensures
            n == spec_dead(self.programs@),
    {
        count_dead_programs(&self.programs)
    }
}

/// The model compiler's fixed diagnostic for a rejected source.
fn compile_error_log() -> (log: Vec<u8>)
    ensures
        log@.len() > 0,
{
    let mut log: Vec<u8> = Vec::new();
    // "missing version directive"
    log.push(109);
    log.push(105);
    log.push(115);
    log.push(115);
    log.push(105);
    log.push(110);
    log.push(103);
    log.push(32);
    log.push(118);
    log.push(101);
    log.push(114);
    log.push(115);
    log.push(105);
    log.push(111);
    log.push(110);
    log.push(32);
    log.push(100);
    log.push(105);
    log.push(114);
    log.push(101);
    log.push(99);
    log.push(116);
    log.push(105);
    log.push(118);
    log.push(101);
    log
}

/// The model linker's fixed diagnostic for a rejected link.
fn link_error_log() -> (log: Vec<u8>)
    ensures
        log@.len() > 0,
{
    let mut log: Vec<u8> = Vec::new();
    // "unresolved interface input"
    log.push(117);
    log.push(110);
    log.push(114);
    log.push(101);
    log.push(115);
    log.push(111);
    log.push(108);
    log.push(118);
    log.push(101);
    log.push(100);
    log.push(32);
    log.push(105);
    log.push(110);
    log.push(116);
    log.push(101);
    log.push(114);
    log.push(102);
    log.push(97);
    log.push(99);
    log.push(101);
    log.push(32);
    log.push(105);
    log.push(110);
    log.push(112);
    log.push(117);
    log.push(116);
    log
}

/// Index of the first occurrence of `x` in `s`, or `s.len()` if there is
/// none.
pub open spec fn spec_first_index(s: Seq<usize>, x: usize) -> int
    decreases s.len(),
{
    if s.len() == 0 {
        0
    } else if s[0] == x {
        0
    } else {
        1 + spec_first_index(s.skip(1), x)
    }
}

pub proof fn lemma_first_index_unique(s: Seq<usize>, x: usize, j: int)
    requires
        0 <= j <= s.len(),
        forall|k: int| 0 <= k < j ==> s[k] != x,
        j < s.len() ==> s[j] == x,
    ensures
        spec_first_index(s, x) == j,
    decreases s.len(),
{
    if s.len() == 0 {
    } else if s[0] == x {
        assert(j == 0);
    } else {
        assert(j >= 1);
        assert forall|k: int| 0 <= k < j - 1 implies s.skip(1)[k] != x by {
            assert(s.skip(1)[k] == s[k + 1]);
        }
        if j - 1 < s.skip(1).len() {
            assert(s.skip(1)[j - 1] == s[j]);
        }
        lemma_first_index_unique(s.skip(1), x, j - 1);
    }
}

/// Membership in a concatenation is membership in either part.
pub proof fn lemma_contains_concat<T>(a: Seq<T>, b: Seq<T>, x: T)
    ensures
        (a + b).contains(x) <==> a.contains(x) || b.contains(x),
{
    if (a + b).contains(x) {
        let i = choose|i: int| 0 <= i < (a + b).len() && (a + b)[i] == x;
        if i < a.len() {
            assert(a[i] == x);
        } else {
            assert(b[i - a.len()] == x);
        }
    }
    if a.contains(x) {
        let i = choose|i: int| 0 <= i < a.len() && a[i] == x;
        assert((a + b)[i] == x);
    }
    if b.contains(x) {
        let i = choose|i: int| 0 <= i < b.len() && b[i] == x;
        assert((a + b)[a.len() + i] == x);
    }
}

/// Byte-for-byte copy of a buffer.
fn copy_bytes(src: &Vec<u8>) -> (out: Vec<u8>)
    ensures
        out@ == src@,
{
    let mut out: Vec<u8> = Vec::new();
    let mut k: usize = 0;
    while k < src.len()
        invariant
            k <= src@.len(),
            out@ == src@.subrange(0, k as int),
        decreases src@.len() - k,
    {
        out.push(src[k]);
        k = k + 1;
    }
    proof {
        assert(out@ =~= src@);
    }
    out
}

fn count_dead_shaders(table: &Vec<Option<ShaderObj>>) -> (n: usize)
    ensures
        n == spec_dead(table@),
{
    let mut n: usize = 0;
    let mut i: usize = 0;
    while i < table.len()
        invariant
            i <= table@.len(),
            n == spec_dead(table@.take(i as int)),
            n <= i,
        decreases table@.len() - i,
    {
        proof {
            lemma_dead_take_step(table@, i as int);
        }
        if table[i].is_none() {
            n = n + 1;
        }
        i = i + 1;
    }
    proof {
        assert(table@.take(table@.len() as int) =~= table@);
    }
    n
}

fn count_dead_programs(table: &Vec<Option<ProgramObj>>) -> (n: usize)
    ensures
        n == spec_dead(table@),
{
    let mut n: usize = 0;
    let mut i: usize = 0;
    while i < table.len()
        invariant
            i <= table@.len(),
            n == spec_dead(table@.take(i as int)),
            n <= i,
        decreases table@.len() - i,
    {
        proof {
            lemma_dead_take_step(table@, i as int);
        }
        if table[i].is_none() {
            n = n + 1;
        }
        i = i + 1;
    }
    proof {
        assert(table@.take(table@.len() as int) =~= table@);
    }
    n
}

/// Counting empty slots one prefix at a time.
pub proof fn lemma_dead_take_step<T>(table: Seq<Option<T>>, i: int)
    requires
        0 <= i < table.len(),
    ensures
        spec_dead(table.take(i + 1)) == spec_dead(table.take(i)) + if table[i] is None {
            1nat
        } else {
            0nat
        },
{
    assert(table.take(i + 1) =~= table.take(i).push(table[i]));
    lemma_dead_push(table.take(i), table[i]);
}

} // verus!
