//! The coordinator: runs bytecode in the interpreter, compiles what has
//! become hot, and falls back to the interpreter on deoptimization.

use std::collections::HashMap;
use vstd::prelude::*;
use vstd::std_specs::hash::group_hash_axioms;
use vstd::string::StringExecFns;
use crate::bytecode::{BytecodeChunk, ChunkView};
use crate::codegen_backend::{encode_all, CodeGenerator, CompiledFunction, CompiledView};
use crate::deopt::{
    missing_bytecode_message, DeoptInfo, DeoptInfoView, DeoptManager,
};
use crate::codegen::{compile, BytecodeGenerator, GenView};
use crate::error::{Error, ErrorView, RuntimeErrorView};
use crate::interpreter::{FrameView, Ignition};
use crate::lexer::tokens_from;
use crate::parser::{parse_program, Parser};
use crate::profiler::{HotspotProfiler, ProfilerView};
use crate::scope::{Scope, ScopeType, ScopeView};
use crate::turbofan::{first_unsupported, folded, lower_all, TurboFan};
use crate::types::{FunctionId, Value};

verus! {

/// The model of an engine.
pub struct EngineView {
    /// The profiler's state.
    pub profiler: ProfilerView,
    /// The values printed so far.
    pub printed: Seq<Value>,
    /// The bytecode registered for deoptimization, by function.
    pub registered: Map<FunctionId, ChunkView>,
    /// The compiled functions, by function.
    pub compiled: Map<FunctionId, CompiledView>,
    /// The scope in which source text is compiled.
    pub scope: ScopeView,
}

/// The code that the compiler generates for `bytecode` as function
/// `func_id`: the code of the folded IR of the lowered bytecode.
pub open spec fn compiled_code(func_id: FunctionId, bytecode: ChunkView) -> CompiledView {
    let nodes = folded(lower_all(bytecode.instructions, bytecode.constants).nodes);
    CompiledView { func_id, entry_point: 0, code: encode_all(nodes, nodes.len() as int) }
}

/// Whether the compiler accepts `bytecode`: it neither jumps nor prints.
pub open spec fn compilable(bytecode: ChunkView) -> bool {
    first_unsupported(bytecode.instructions) is None
}

impl EngineView {
    /// The engine after `optimize`: bytecode that the compiler accepts is
    /// compiled, its code stored and the bytecode registered; other bytecode
    /// changes nothing.
    pub open spec fn optimize(self, func_id: FunctionId, bytecode: ChunkView) -> EngineView {
        if compilable(bytecode) {
            EngineView {
                compiled: self.compiled.insert(func_id, compiled_code(func_id, bytecode)),
                registered: self.registered.insert(func_id, bytecode),
                ..self
            }
        } else {
            self
        }
    }

    /// The engine after `deoptimize`: if bytecode is registered for the
    /// function, its compiled code is dropped and the profiler makes it
    /// cold, so that it is no longer hot and its count starts again; if
    /// none is, nothing changes.
    pub open spec fn deoptimize(self, info: DeoptInfoView) -> EngineView {
        if self.registered.contains_key(info.func_id) {
            EngineView {
                compiled: self.compiled.remove(info.func_id),
                profiler: self.profiler.cool_down(info.func_id),
                ..self
            }
        } else {
            self
        }
    }

    /// The engine after a run of `bytecode` as function `func_id`: the
    /// execution is recorded and what the run printed is kept; after a run
    /// that returned a value, a function that is hot is optimized.
    pub open spec fn execute(self, func_id: FunctionId, bytecode: ChunkView, budget: nat)
        -> EngineView {
        let run = FrameView::initial(bytecode, func_id).run(budget);
        let ran = EngineView {
            profiler: self.profiler.record(func_id),
            printed: self.printed + run.printed,
            ..self
        };
        if run.outcome is Ok && ran.profiler.hot.contains(func_id) {
            ran.optimize(func_id, bytecode)
        } else {
            ran
        }
    }
}

/// The model of an execution result: the error by its view.
pub open spec fn execution_view(result: Result<Value, Error>) -> Result<Value, ErrorView> {
    match result {
        Ok(value) => Ok(value),
        Err(error) => Err(error@),
    }
}

/// The result of a run as the engine reports it: an error of the
/// interpreter as a runtime error.
pub open spec fn reported(outcome: Result<Value, RuntimeErrorView>) -> Result<Value, ErrorView> {
    match outcome {
        Ok(value) => Ok(value),
        Err(error) => Err(ErrorView::RuntimeError(error)),
    }
}

/// The bytecode of the program that `source` spells, compiled in `scope`;
/// the parse error if it spells none.
pub open spec fn bytecode_of(source: Seq<char>, scope: ScopeView) -> Result<
    ChunkView,
    ErrorView,
> {
    match parse_program(tokens_from(source, 0), 0) {
        Ok(program) => Ok(
            compile(
                program,
                GenView {
                    chunk: ChunkView {
                        instructions: Seq::empty(),
                        constants: Seq::empty(),
                        local_count: 0,
                    },
                    scope,
                },
            ).finish().chunk,
        ),
        Err(error) => Err(ErrorView::ParseError(error)),
    }
}

/// The coordinator of the tiers. It owns the interpreter with its profiler,
/// the compiler, the code generator, the deoptimization manager and the
/// table of compiled functions.
pub struct Engine {
    interpreter: Ignition,
    global_scope: Scope,
    jit: TurboFan,
    codegen: CodeGenerator,
    deopt_manager: DeoptManager,
    compiled_functions: HashMap<FunctionId, CompiledFunction>,
}

impl View for Engine {
    type V = EngineView;

    closed spec fn view(&self) -> EngineView {
        EngineView {
            profiler: self.interpreter@.profiler,
            printed: self.interpreter@.printed,
            registered: self.deopt_manager@,
            compiled: self.compiled_functions@.map_values(|c: CompiledFunction| c@),
            scope: self.global_scope@,
        }
    }
}

impl Engine {
    /// An engine with a profiler of the default threshold, the mock code
    /// generator, and nothing compiled or registered.
    pub fn new() -> (engine: Engine)
        ensures
            engine@ == (EngineView {
                profiler: ProfilerView::fresh(100),
                printed: Seq::empty(),
                registered: Map::empty(),
                compiled: Map::empty(),
                scope: ScopeView::empty(ScopeType::Global, None),
            }),
    {
        Engine::with_threshold(100)
    }

    /// An engine whose profiler has the given threshold.
    pub fn with_threshold(threshold: usize) -> (engine: Engine)
        ensures
            engine@ == (EngineView {
                profiler: ProfilerView::fresh(threshold),
                printed: Seq::empty(),
                registered: Map::empty(),
                compiled: Map::empty(),
                scope: ScopeView::empty(ScopeType::Global, None),
            }),
    {
        let engine = Engine {
            interpreter: Ignition::with_profiler(HotspotProfiler::new(threshold)),
            global_scope: Scope::global(),
            jit: TurboFan::new(),
            codegen: CodeGenerator::mock(),
            deopt_manager: DeoptManager::new(),
            compiled_functions: HashMap::new(),
        };
        assert(engine@.compiled =~= Map::<FunctionId, CompiledView>::empty());
        engine
    }

    /// The engine's profiler.
    pub fn profiler(&self) -> (profiler: &HotspotProfiler)
        ensures
            profiler@ == self@.profiler,
    {
        self.interpreter.profiler()
    }

    /// The engine's profiler, to change it: to record executions, to mark
    /// and unmark functions, and to reset it.
    pub fn profiler_mut(&mut self) -> (profiler: &mut HotspotProfiler)
        ensures
            profiler@ == old(self)@.profiler,
            final(self)@ == (EngineView { profiler: final(profiler)@, ..old(self)@ }),
    {
        self.interpreter.profiler_mut()
    }

    /// Whether `func_id` is hot, and so due for compilation.
    pub fn should_optimize(&self, func_id: FunctionId) -> (hot: bool)
        ensures
            hot == self@.profiler.hot.contains(func_id),
    {
        self.interpreter.profiler().is_hot(func_id)
    }

    /// Whether compiled code is stored for `func_id`.
    pub fn is_compiled(&self, func_id: FunctionId) -> (compiled: bool)
        ensures
            compiled == self@.compiled.contains_key(func_id),
    {
        broadcast use group_hash_axioms;

        self.compiled_functions.contains_key(&func_id)
    }

    /// The compiled code stored for `func_id`, if any is.
    pub fn compiled_function(&self, func_id: FunctionId) -> (compiled: Option<&CompiledFunction>)
        ensures
            match compiled {
                Some(c) => self@.compiled.contains_key(func_id) && c@ == self@.compiled[func_id],
                None => !self@.compiled.contains_key(func_id),
            },
    {
        broadcast use group_hash_axioms;

        self.compiled_functions.get(&func_id)
    }

    /// Whether bytecode is registered for `func_id`, to fall back to.
    pub fn has_bytecode(&self, func_id: FunctionId) -> (registered: bool)
        ensures
            registered == self@.registered.contains_key(func_id),
    {
        self.deopt_manager.get_bytecode(func_id).is_some()
    }

    /// The values printed so far, oldest first.
    pub fn printed(&self) -> (printed: &Vec<Value>)
        ensures
            printed@ == self@.printed,
    {
        self.interpreter.printed()
    }

    /// Hands out the values printed so far and forgets them.
    pub fn take_printed(&mut self) -> (printed: Vec<Value>)
        ensures
            printed@ == old(self)@.printed,
            final(self)@ == (EngineView { printed: Seq::empty(), ..old(self)@ }),
    {
        self.interpreter.take_printed()
    }

    /// Compiles `bytecode` as function `func_id`, stores the code and
    /// registers the bytecode for deoptimization.
    ///
    /// Bytecode that jumps or prints is not compiled: the result is `None`
    /// and the function stays with the interpreter.
    pub fn optimize(&mut self, func_id: FunctionId, bytecode: &BytecodeChunk) -> (compiled: Option<
        CompiledFunction,
    >)
        ensures
            final(self)@ == old(self)@.optimize(func_id, bytecode@),
            compilable(bytecode@) ==> (compiled matches Some(c) && c@ == compiled_code(
                func_id,
                bytecode@,
            )),
            !compilable(bytecode@) ==> compiled.is_none(),
    {
        broadcast use group_hash_axioms;

        match self.jit.compile(bytecode, func_id) {
            Ok(ir) => {
                let compiled = self.codegen.generate(&ir, func_id);
                let stored = CompiledFunction {
                    func_id: compiled.func_id,
                    entry_point: compiled.entry_point,
                    code: copy_code(&compiled.code),
                };
                self.compiled_functions.insert(func_id, stored);
                self.deopt_manager.register_bytecode(func_id, bytecode.duplicate());
                assert(self@.compiled =~= old(self)@.compiled.insert(func_id, compiled@));
                Some(compiled)
            },
            Err(_) => None,
        }
    }

    /// Abandons the compiled code of a function: drops its compiled code
    /// and makes it cold in the profiler, so that it runs in the
    /// interpreter and is compiled again only when it has warmed up again.
    ///
    /// Fails, and changes nothing, if no bytecode is registered for the
    /// function.
    pub fn deoptimize(&mut self, deopt_info: DeoptInfo) -> (result: Result<(), String>)
        ensures
            final(self)@ == old(self)@.deoptimize(deopt_info@),
            old(self)@.registered.contains_key(deopt_info@.func_id) ==> result is Ok,
            !old(self)@.registered.contains_key(deopt_info@.func_id) ==> (result matches Err(
                message,
            ) && message@ == missing_bytecode_message(deopt_info@.func_id)),
    {
        broadcast use group_hash_axioms;

        match self.deopt_manager.trigger_deopt(&deopt_info) {
            Ok(state) => {
                self.compiled_functions.remove(&state.func_id);
                self.interpreter.profiler_mut().cool_down(state.func_id);
                assert(self@.compiled =~= old(self)@.compiled.remove(deopt_info@.func_id));
                Ok(())
            },
            Err(message) => Err(message),
        }
    }

    /// Runs the program that `source` spells: parses it, compiles it to
    /// bytecode in a copy of the global scope, and runs the bytecode as
    /// function 0. A parse error changes nothing.
    pub fn execute(&mut self, source: &str) -> (result: Result<Value, Error>)
        ensures
            match bytecode_of(source@, old(self)@.scope) {
                Ok(bytecode) => {
                    &&& final(self)@ == old(self)@.execute(
                        0,
                        bytecode,
                        Ignition::STEP_BUDGET as nat,
                    )
                    &&& execution_view(result) == reported(
                        FrameView::initial(bytecode, 0).run(Ignition::STEP_BUDGET as nat).outcome,
                    )
                },
                Err(error) => {
                    &&& final(self)@ == old(self)@
                    &&& execution_view(result) == Err::<Value, ErrorView>(error)
                },
            },
    {
        let mut parser = Parser::new(String::from_str(source));
        match parser.parse() {
            Ok(ast) => {
                let mut generator = BytecodeGenerator::new(self.global_scope.clone());
                let bytecode = generator.generate(&ast.root);
                self.execute_bytecode(bytecode)
            },
            Err(error) => Err(Error::ParseError(error)),
        }
    }

    /// Runs `bytecode` as function 0; see `execute_bytecode_with_id`.
    pub fn execute_bytecode(&mut self, bytecode: BytecodeChunk) -> (result: Result<Value, Error>)
        ensures
            final(self)@ == old(self)@.execute(0, bytecode@, Ignition::STEP_BUDGET as nat),
            execution_view(result) == reported(
                FrameView::initial(bytecode@, 0).run(Ignition::STEP_BUDGET as nat).outcome,
            ),
    {
        self.execute_bytecode_with_id(bytecode, 0)
    }

    /// Runs `bytecode` as function `func_id` in the interpreter, which
    /// records the execution. After a run that returned a value, a function
    /// that is hot is optimized.
    ///
    /// Later runs still use the interpreter.
    pub fn execute_bytecode_with_id(&mut self, bytecode: BytecodeChunk, func_id: FunctionId) -> (result:
        Result<Value, Error>)
        ensures
            final(self)@ == old(self)@.execute(func_id, bytecode@, Ignition::STEP_BUDGET as nat),
            execution_view(result) == reported(
                FrameView::initial(bytecode@, func_id).run(Ignition::STEP_BUDGET as nat).outcome,
            ),
    {
        let copy = bytecode.duplicate();
        match self.interpreter.execute_with_id(bytecode, func_id) {
            Ok(value) => {
                if self.should_optimize(func_id) {
                    self.optimize(func_id, &copy);
                }
                Ok(value)
            },
            Err(error) => Err(Error::RuntimeError(error)),
        }
    }
}

/// A copy of `code`.
fn copy_code(code: &Vec<u8>) -> (copy: Vec<u8>)
    ensures
        copy@ == code@,
{
    let mut copy: Vec<u8> = Vec::new();
    let mut i: usize = 0;
    while i < code.len()
        invariant
            i <= code.len(),
            copy@ == code@.subrange(0, i as int),
        decreases code.len() - i,
    {
        copy.push(code[i]);
        assert(copy@ =~= code@.subrange(0, i + 1));
        i += 1;
    }
    assert(copy@ =~= code@);
    copy
}

impl Default for Engine {
    fn default() -> (engine: Engine)
        ensures
            engine@ == (EngineView {
                profiler: ProfilerView::fresh(100),
                printed: Seq::empty(),
                registered: Map::empty(),
                compiled: Map::empty(),
                scope: ScopeView::empty(ScopeType::Global, None),
            }),
    {
        Engine::new()
    }
}

/// After a function is optimized from bytecode that the compiler accepts,
/// a deoptimization of that function succeeds; after it the function is not
/// hot, and no compiled code is stored for it.
pub proof fn law_deoptimize_after_optimize(
    engine: EngineView,
    func_id: FunctionId,
    bytecode: ChunkView,
    info: DeoptInfoView,
)
    requires
        compilable(bytecode),
        info.func_id == func_id,
    ensures
        engine.optimize(func_id, bytecode).registered.contains_key(func_id),
        !engine.optimize(func_id, bytecode).deoptimize(info).profiler.hot.contains(func_id),
        !engine.optimize(func_id, bytecode).deoptimize(info).compiled.contains_key(func_id),
{
}

} // verus!
