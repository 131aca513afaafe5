//! The baseline interpreter: a stack machine that runs one call frame.

use vstd::prelude::*;
use vstd::string::StringExecFns;
use crate::binary64;
use crate::bytecode::{BytecodeChunk, ChunkView, Instruction};
use crate::error::{RuntimeError, RuntimeErrorView};
use crate::profiler::HotspotProfiler;
use crate::profiler::ProfilerView;
use crate::text::{decimal, numbered};
use crate::types::{FunctionId, Value};

verus! {

/// The model of a call frame.
pub struct FrameView {
    pub chunk: ChunkView,
    pub ip: int,
    pub stack: Seq<Value>,
    pub locals: Seq<Value>,
    pub func_id: FunctionId,
}

/// One of the four arithmetic operations.
#[derive(Debug, Clone, Copy, PartialEq, Eq, Structural)]
pub enum Arithmetic {
    Add,
    Sub,
    Mul,
    Div,
}

impl Arithmetic {
    /// The result of the operation on two binary64 patterns.
    pub open spec fn apply_spec(self, left: u64, right: u64) -> u64 {
        match self {
            Arithmetic::Add => binary64::sum(left, right),
            Arithmetic::Sub => binary64::difference(left, right),
            Arithmetic::Mul => binary64::product(left, right),
            Arithmetic::Div => binary64::quotient(left, right),
        }
    }

    /// The result of the operation on two binary64 patterns.
    pub fn apply(self, left: u64, right: u64) -> (r: u64)
        ensures
            r == self.apply_spec(left, right),
    {
        match self {
            Arithmetic::Add => binary64::bits_sum(left, right),
            Arithmetic::Sub => binary64::bits_difference(left, right),
            Arithmetic::Mul => binary64::bits_product(left, right),
            Arithmetic::Div => binary64::bits_quotient(left, right),
        }
    }
}

/// What one instruction does to a frame.
pub enum Step {
    /// Execution goes on in `frame`, after printing `printed`.
    Continue { frame: FrameView, printed: Seq<Value> },
    /// The frame returns `value`.
    Return { value: Value },
    /// Execution fails with `error`.
    Fault { error: RuntimeErrorView },
}

/// How a run ends, and what it printed on the way.
pub struct RunResult {
    pub outcome: Result<Value, RuntimeErrorView>,
    pub printed: Seq<Value>,
}

/// The name under which a missing local slot is reported.
pub open spec fn local_name(index: usize) -> Seq<char> {
    "local_"@ + decimal(index as nat)
}

/// Where a jump by `offset` from `ip` lands in a chunk of `len`
/// instructions: a target outside the chunk is its end.
pub open spec fn jump_target(ip: int, offset: int, len: int) -> int {
    if 0 <= ip + offset <= len {
        ip + offset
    } else {
        len
    }
}

impl FrameView {
    /// The frame in which `chunk` starts to run: every local slot is
    /// `Undefined`, the stack is empty.
    pub open spec fn initial(chunk: ChunkView, func_id: FunctionId) -> FrameView {
        FrameView {
            chunk,
            ip: 0,
            stack: Seq::empty(),
            locals: Seq::new(chunk.local_count as nat, |i: int| Value::Undefined),
            func_id,
        }
    }

    /// Whether the instruction pointer is past the last instruction.
    pub open spec fn halted(self) -> bool {
        self.ip >= self.chunk.instructions.len()
    }

    /// The value on top of the stack, `Undefined` if the stack is empty.
    pub open spec fn top(self) -> Value {
        if self.stack.len() > 0 {
            self.stack.last()
        } else {
            Value::Undefined
        }
    }

    /// The frame with another stack.
    pub open spec fn with_stack(self, stack: Seq<Value>) -> FrameView {
        FrameView { stack, ..self }
    }

    /// The frame with another instruction pointer.
    pub open spec fn at(self, ip: int) -> FrameView {
        FrameView { ip, ..self }
    }

    /// The effect of an arithmetic instruction on a frame whose instruction
    /// pointer has advanced: both operands are popped, the right one first,
    /// and the result is pushed.
    pub open spec fn arithmetic_step(self, op: Arithmetic) -> Step {
        let n = self.stack.len() as int;
        if n < 2 {
            Step::Fault { error: RuntimeErrorView::StackUnderflow }
        } else {
            match (self.stack[n - 2], self.stack[n - 1]) {
                (Value::Number(left), Value::Number(right)) => {
                    if op == Arithmetic::Div && binary64::is_zero(right) {
                        Step::Fault { error: RuntimeErrorView::DivisionByZero }
                    } else {
                        Step::Continue {
                            frame: self.with_stack(
                                self.stack.subrange(0, n - 2).push(
                                    Value::Number(op.apply_spec(left, right)),
                                ),
                            ),
                            printed: Seq::empty(),
                        }
                    }
                },
                _ => Step::Fault {
                    error: RuntimeErrorView::TypeError { expected: "number"@, found: "other"@ },
                },
            }
        }
    }

    /// The effect of the instruction at the instruction pointer, for a frame
    /// that has not halted. The pointer advances before the instruction
    /// acts, so a jump counts from the instruction after it.
    #[verifier::opaque]
    pub open spec fn step(self) -> Step {
        let next = self.at(self.ip + 1);
        let len = self.chunk.instructions.len() as int;
        match self.chunk.instructions[self.ip] {
            Instruction::LoadConst(index) => {
                if index < self.chunk.constants.len() {
                    Step::Continue {
                        frame: next.with_stack(self.stack.push(self.chunk.constants[index as int])),
                        printed: Seq::empty(),
                    }
                } else {
                    Step::Fault { error: RuntimeErrorView::StackOverflow }
                }
            },
            Instruction::LoadLocal(index) => {
                if index < self.locals.len() {
                    Step::Continue {
                        frame: next.with_stack(self.stack.push(self.locals[index as int])),
                        printed: Seq::empty(),
                    }
                } else {
                    Step::Fault {
                        error: RuntimeErrorView::UndefinedVariable { name: local_name(index) },
                    }
                }
            },
            Instruction::StoreLocal(index) => {
                if self.stack.len() == 0 {
                    Step::Fault { error: RuntimeErrorView::StackUnderflow }
                } else {
                    Step::Continue {
                        frame: FrameView {
                            stack: self.stack.drop_last(),
                            locals: if index < self.locals.len() {
                                self.locals.update(index as int, self.stack.last())
                            } else {
                                self.locals
                            },
                            ..next
                        },
                        printed: Seq::empty(),
                    }
                }
            },
            Instruction::Add => next.arithmetic_step(Arithmetic::Add),
            Instruction::Sub => next.arithmetic_step(Arithmetic::Sub),
            Instruction::Mul => next.arithmetic_step(Arithmetic::Mul),
            Instruction::Div => next.arithmetic_step(Arithmetic::Div),
            Instruction::Print => {
                if self.stack.len() == 0 {
                    Step::Fault { error: RuntimeErrorView::StackUnderflow }
                } else {
                    Step::Continue { frame: next, printed: seq![self.stack.last()] }
                }
            },
            Instruction::Call(_) => Step::Fault { error: RuntimeErrorView::UnsupportedCall },
            Instruction::Return => Step::Return { value: self.top() },
            Instruction::Jump(offset) => Step::Continue {
                frame: next.at(jump_target(next.ip, offset as int, len)),
                printed: Seq::empty(),
            },
            Instruction::JumpIfFalse(offset) => Step::Continue {
                frame: if self.top().is_falsy_spec() {
                    next.at(jump_target(next.ip, offset as int, len))
                } else {
                    next
                },
                printed: Seq::empty(),
            },
        }
    }

    /// The run of a frame on a budget of `budget` instructions.
    ///
    /// A halted frame returns the top of its stack. A frame that has not
    /// halted when the budget is spent fails with `StepLimitExceeded`.
    #[verifier::opaque]
    pub open spec fn run(self, budget: nat) -> RunResult
        decreases budget,
    {
        if self.halted() {
            RunResult { outcome: Ok(self.top()), printed: Seq::empty() }
        } else if budget == 0 {
            RunResult { outcome: Err(RuntimeErrorView::StepLimitExceeded), printed: Seq::empty() }
        } else {
            match self.step() {
                Step::Continue { frame, printed } => {
                    let rest = frame.run((budget - 1) as nat);
                    RunResult { outcome: rest.outcome, printed: printed + rest.printed }
                },
                Step::Return { value } => RunResult { outcome: Ok(value), printed: Seq::empty() },
                Step::Fault { error } => RunResult { outcome: Err(error), printed: Seq::empty() },
            }
        }
    }
}

/// How a run unfolds: a halted frame returns its top, a spent budget is an
/// error, and otherwise the first instruction decides.
pub proof fn lemma_run_unfold(frame: FrameView, budget: nat)
    ensures
        frame.halted() ==> frame.run(budget) == (RunResult {
            outcome: Ok(frame.top()),
            printed: Seq::empty(),
        }),
        !frame.halted() && budget == 0 ==> frame.run(budget) == (RunResult {
            outcome: Err(RuntimeErrorView::StepLimitExceeded),
            printed: Seq::empty(),
        }),
        !frame.halted() && budget > 0 ==> frame.run(budget) == match frame.step() {
            Step::Continue { frame: next, printed } => RunResult {
                outcome: next.run((budget - 1) as nat).outcome,
                printed: printed + next.run((budget - 1) as nat).printed,
            },
            Step::Return { value } => RunResult { outcome: Ok(value), printed: Seq::empty() },
            Step::Fault { error } => RunResult { outcome: Err(error), printed: Seq::empty() },
        },
{
    reveal_with_fuel(FrameView::run, 2);
}

/// The model of an execution result: an error by its view.
pub open spec fn outcome_view(result: Result<Value, RuntimeError>) -> Result<
    Value,
    RuntimeErrorView,
> {
    match result {
        Ok(value) => Ok(value),
        Err(error) => Err(error@),
    }
}

/// The record of one invocation: the chunk it runs, the instruction
/// pointer, the operand stack and the local slots.
#[derive(Debug, Clone)]
pub struct CallFrame {
    pub chunk: BytecodeChunk,
    pub ip: usize,
    pub stack: Vec<Value>,
    pub locals: Vec<Value>,
    pub func_id: FunctionId,
}

impl View for CallFrame {
    type V = FrameView;

    open spec fn view(&self) -> FrameView {
        FrameView {
            chunk: self.chunk@,
            ip: self.ip as int,
            stack: self.stack@,
            locals: self.locals@,
            func_id: self.func_id,
        }
    }
}

impl CallFrame {
    /// The frame in which `chunk` starts to run.
    pub fn new(chunk: BytecodeChunk, func_id: FunctionId) -> (frame: CallFrame)
        ensures
            frame@ == FrameView::initial(chunk@, func_id),
    {
        let mut locals: Vec<Value> = Vec::new();
        let mut i: usize = 0;
        while i < chunk.local_count
            invariant
                i <= chunk.local_count,
                locals@ == Seq::new(i as nat, |k: int| Value::Undefined),
            decreases chunk.local_count - i,
        {
            locals.push(Value::Undefined);
            assert(locals@ =~= Seq::new((i + 1) as nat, |k: int| Value::Undefined));
            i += 1;
        }
        CallFrame { chunk, ip: 0, stack: Vec::new(), locals, func_id }
    }

    /// Pushes a value onto the operand stack.
    pub fn push(&mut self, value: Value)
        ensures
            final(self)@ == old(self)@.with_stack(old(self)@.stack.push(value)),
    {
        self.stack.push(value);
    }

    /// Pops the top of the operand stack; fails with `StackUnderflow` on an
    /// empty stack, which it leaves as it is.
    pub fn pop(&mut self) -> (result: Result<Value, RuntimeError>)
        ensures
            old(self)@.stack.len() > 0 ==> result == Ok::<Value, RuntimeError>(
                old(self)@.stack.last(),
            ) && final(self)@ == old(self)@.with_stack(old(self)@.stack.drop_last()),
            old(self)@.stack.len() == 0 ==> result == Err::<Value, RuntimeError>(
                RuntimeError::StackUnderflow,
            ) && final(self)@ == old(self)@,
    {
        match self.stack.pop() {
            Some(value) => Ok(value),
            None => Err(RuntimeError::StackUnderflow),
        }
    }

    /// The top of the operand stack, if there is one.
    pub fn peek(&self) -> (top: Option<&Value>)
        ensures
            self@.stack.len() > 0 ==> top == Some(&self@.stack.last()),
            self@.stack.len() == 0 ==> top.is_none(),
    {
        let n = self.stack.len();
        if n > 0 {
            Some(&self.stack[n - 1])
        } else {
            None
        }
    }

    /// The value on top of the stack, `Undefined` if the stack is empty.
    pub fn top(&self) -> (value: Value)
        ensures
            value == self@.top(),
    {
        let n = self.stack.len();
        if n > 0 {
            self.stack[n - 1]
        } else {
            Value::Undefined
        }
    }

    /// Whether the instruction pointer is past the last instruction.
    pub fn halted(&self) -> (halted: bool)
        ensures
            halted == self@.halted(),
    {
        self.ip >= self.chunk.instructions.len()
    }
}

/// Where a jump by `offset` from `ip` lands in a chunk of `len` instructions.
fn jump_to(ip: usize, offset: isize, len: usize) -> (target: usize)
    requires
        ip <= len,
    ensures
        target == jump_target(ip as int, offset as int, len as int),
{
    if offset >= 0 {
        let forward = offset as usize;
        if forward <= len - ip {
            ip + forward
        } else {
            len
        }
    } else {
        let back = (-(offset + 1)) as usize;
        if back < ip {
            ip - back - 1
        } else {
            len
        }
    }
}

/// The model of an interpreter: its profiler and what it has printed.
pub struct IgnitionView {
    pub profiler: ProfilerView,
    pub printed: Seq<Value>,
}

/// The baseline interpreter.
///
/// It runs one frame per execution: the call instruction is rejected, so no
/// frame ever has a caller, and a return ends the execution.
pub struct Ignition {
    profiler: HotspotProfiler,
    printed: Vec<Value>,
}

impl View for Ignition {
    type V = IgnitionView;

    closed spec fn view(&self) -> IgnitionView {
        IgnitionView { profiler: self.profiler@, printed: self.printed@ }
    }
}

impl Ignition {
    /// The budget of `execute`: the largest number of instructions it runs.
    pub const STEP_BUDGET: u64 = 0xFFFF_FFFF_FFFF_FFFF;

    /// An interpreter with a profiler of the default threshold.
    pub fn new() -> (interpreter: Ignition)
        ensures
            interpreter@.profiler == ProfilerView::fresh(100),
            interpreter@.printed == Seq::<Value>::empty(),
    {
        Ignition { profiler: HotspotProfiler::default(), printed: Vec::new() }
    }

    /// An interpreter that records executions in `profiler`.
    pub fn with_profiler(profiler: HotspotProfiler) -> (interpreter: Ignition)
        ensures
            interpreter@.profiler == profiler@,
            interpreter@.printed == Seq::<Value>::empty(),
    {
        Ignition { profiler, printed: Vec::new() }
    }

    /// The interpreter's profiler.
    pub fn profiler(&self) -> (profiler: &HotspotProfiler)
        ensures
            profiler@ == self@.profiler,
    {
        &self.profiler
    }

    /// The interpreter's profiler, to change it.
    pub fn profiler_mut(&mut self) -> (profiler: &mut HotspotProfiler)
        ensures
            profiler@ == old(self)@.profiler,
            final(self)@ == (IgnitionView {
                profiler: final(profiler)@,
                printed: old(self)@.printed,
            }),
    {
        &mut self.profiler
    }

    /// The values printed so far, oldest first.
    pub fn printed(&self) -> (printed: &Vec<Value>)
        ensures
            printed@ == self@.printed,
    {
        &self.printed
    }

    /// Hands out the values printed so far and forgets them.
    pub fn take_printed(&mut self) -> (printed: Vec<Value>)
        ensures
            printed@ == old(self)@.printed,
            final(self)@.printed == Seq::<Value>::empty(),
            final(self)@.profiler == old(self)@.profiler,
    {
        let mut taken: Vec<Value> = Vec::new();
        std::mem::swap(&mut taken, &mut self.printed);
        taken
    }

    /// Runs `chunk` as function 0 on the budget `STEP_BUDGET`.
    pub fn execute(&mut self, chunk: BytecodeChunk) -> (result: Result<Value, RuntimeError>)
        ensures
            final(self)@.profiler == old(self)@.profiler.record(0),
            outcome_view(result) == FrameView::initial(chunk@, 0).run(
                Self::STEP_BUDGET as nat,
            ).outcome,
            final(self)@.printed == old(self)@.printed + FrameView::initial(chunk@, 0).run(
                Self::STEP_BUDGET as nat,
            ).printed,
    {
        self.execute_with_budget(chunk, 0, Self::STEP_BUDGET)
    }

    /// Runs `chunk` as function `func_id` on the budget `STEP_BUDGET`.
    pub fn execute_with_id(&mut self, chunk: BytecodeChunk, func_id: FunctionId) -> (result: Result<
        Value,
        RuntimeError,
    >)
        ensures
            final(self)@.profiler == old(self)@.profiler.record(func_id),
            outcome_view(result) == FrameView::initial(chunk@, func_id).run(
                Self::STEP_BUDGET as nat,
            ).outcome,
            final(self)@.printed == old(self)@.printed + FrameView::initial(chunk@, func_id).run(
                Self::STEP_BUDGET as nat,
            ).printed,
    {
        self.execute_with_budget(chunk, func_id, Self::STEP_BUDGET)
    }

    /// Records one execution of `func_id` in the profiler, then runs `chunk`
    /// in a fresh frame for at most `budget` instructions.
    ///
    /// The result is the value the frame returns, or the error that stopped
    /// it; what the run printed is appended to the printed values.
    pub fn execute_with_budget(
        &mut self,
        chunk: BytecodeChunk,
        func_id: FunctionId,
        budget: u64,
    ) -> (result: Result<Value, RuntimeError>)
        ensures
            final(self)@.profiler == old(self)@.profiler.record(func_id),
            outcome_view(result) == FrameView::initial(chunk@, func_id).run(budget as nat).outcome,
            final(self)@.printed == old(self)@.printed + FrameView::initial(chunk@, func_id).run(
                budget as nat,
            ).printed,
    {
        self.profiler.record_execution(func_id);
        let frame = CallFrame::new(chunk, func_id);
        self.run(frame, budget)
    }

    /// Runs `initial` for at most `budget` instructions.
    fn run(&mut self, initial: CallFrame, budget: u64) -> (result: Result<Value, RuntimeError>)
        ensures
            final(self)@.profiler == old(self)@.profiler,
            outcome_view(result) == initial@.run(budget as nat).outcome,
            final(self)@.printed == old(self)@.printed + initial@.run(budget as nat).printed,
    {
        let ghost start = initial@;
        let mut frame = initial;
        let mut fuel = budget;
        loop
            invariant
                self@.profiler == old(self)@.profiler,
                start == initial@,
                start.run(budget as nat).outcome == frame@.run(fuel as nat).outcome,
                old(self)@.printed + start.run(budget as nat).printed == self@.printed
                    + frame@.run(fuel as nat).printed,
            decreases fuel,
        {
            proof {
                lemma_run_unfold(frame@, fuel as nat);
            }
            if frame.halted() {
                assert(self@.printed + Seq::<Value>::empty() =~= self@.printed);
                return Ok(frame.top());
            }
            if fuel == 0 {
                assert(self@.printed + Seq::<Value>::empty() =~= self@.printed);
                return Err(RuntimeError::StepLimitExceeded);
            }
            let ghost before = frame@;
            let ghost printed_before = self@.printed;
            match self.dispatch(&mut frame) {
                Ok(None) => {
                    fuel = fuel - 1;
                    proof {
                        let printed = before.step()->Continue_printed;
                        let rest = frame@.run(fuel as nat).printed;
                        assert(printed_before + (printed + rest) =~= (printed_before + printed)
                            + rest);
                    }
                },
                Ok(Some(value)) => {
                    assert(self@.printed + Seq::<Value>::empty() =~= self@.printed);
                    return Ok(value);
                },
                Err(error) => {
                    assert(self@.printed + Seq::<Value>::empty() =~= self@.printed);
                    return Err(error);
                },
            }
        }
    }

    /// Runs the instruction at the instruction pointer of `frame`.
    ///
    /// `Ok(None)` means that execution goes on, `Ok(Some(value))` that the
    /// frame returned `value`.
    fn dispatch(&mut self, frame: &mut CallFrame) -> (result: Result<Option<Value>, RuntimeError>)
        requires
            !old(frame)@.halted(),
        ensures
            final(self)@.profiler == old(self)@.profiler,
            match old(frame)@.step() {
                Step::Continue { frame: next, printed } => {
                    &&& result == Ok::<Option<Value>, RuntimeError>(None)
                    &&& final(frame)@ == next
                    &&& final(self)@.printed == old(self)@.printed + printed
                },
                Step::Return { value } => {
                    &&& result == Ok::<Option<Value>, RuntimeError>(Some(value))
                    &&& final(self)@.printed == old(self)@.printed
                },
                Step::Fault { error } => {
                    &&& result matches Err(e)
                    &&& e@ == error
                    &&& final(self)@.printed == old(self)@.printed
                },
            },
    {
        reveal(FrameView::step);
        let instruction = frame.chunk.instructions[frame.ip];
        let len = frame.chunk.instructions.len();
        frame.ip = frame.ip + 1;
        proof {
            assert(self@.printed + Seq::<Value>::empty() =~= self@.printed);
        }
        match instruction {
            Instruction::LoadConst(index) => {
                if index < frame.chunk.constants.len() {
                    let value = frame.chunk.constants[index];
                    frame.stack.push(value);
                    Ok(None)
                } else {
                    Err(RuntimeError::StackOverflow)
                }
            },
            Instruction::LoadLocal(index) => {
                if index < frame.locals.len() {
                    let value = frame.locals[index];
                    frame.stack.push(value);
                    Ok(None)
                } else {
                    Err(RuntimeError::UndefinedVariable { name: numbered("local_", index) })
                }
            },
            Instruction::StoreLocal(index) => {
                match frame.stack.pop() {
                    Some(value) => {
                        if index < frame.locals.len() {
                            frame.locals.set(index, value);
                        }
                        Ok(None)
                    },
                    None => Err(RuntimeError::StackUnderflow),
                }
            },
            Instruction::Add => Self::arithmetic(frame, Arithmetic::Add),
            Instruction::Sub => Self::arithmetic(frame, Arithmetic::Sub),
            Instruction::Mul => Self::arithmetic(frame, Arithmetic::Mul),
            Instruction::Div => Self::arithmetic(frame, Arithmetic::Div),
            Instruction::Print => {
                let n = frame.stack.len();
                if n > 0 {
                    self.printed.push(frame.stack[n - 1]);
                    Ok(None)
                } else {
                    Err(RuntimeError::StackUnderflow)
                }
            },
            Instruction::Call(_) => Err(RuntimeError::UnsupportedCall),
            Instruction::Return => Ok(Some(frame.top())),
            Instruction::Jump(offset) => {
                frame.ip = jump_to(frame.ip, offset, len);
                Ok(None)
            },
            Instruction::JumpIfFalse(offset) => {
                if frame.top().is_falsy() {
                    frame.ip = jump_to(frame.ip, offset, len);
                }
                Ok(None)
            },
        }
    }

    /// Runs an arithmetic instruction on a frame whose instruction pointer
    /// has advanced.
    fn arithmetic(frame: &mut CallFrame, op: Arithmetic) -> (result: Result<
        Option<Value>,
        RuntimeError,
    >)
        ensures
            match old(frame)@.arithmetic_step(op) {
                Step::Continue { frame: next, printed } => {
                    &&& result == Ok::<Option<Value>, RuntimeError>(None)
                    &&& final(frame)@ == next
                },
                Step::Return { value } => false,
                Step::Fault { error } => {
                    &&& result matches Err(e)
                    &&& e@ == error
                },
            },
    {
        let n = frame.stack.len();
        if n < 2 {
            return Err(RuntimeError::StackUnderflow);
        }
        let right = frame.stack[n - 1];
        let left = frame.stack[n - 2];
        match (left, right) {
            (Value::Number(l), Value::Number(r)) => {
                if op == Arithmetic::Div && binary64::bits_are_zero(r) {
                    return Err(RuntimeError::DivisionByZero);
                }
                frame.stack.pop();
                frame.stack.pop();
                frame.stack.push(Value::Number(op.apply(l, r)));
                assert(frame.stack@ =~= old(frame)@.stack.subrange(0, n - 2).push(
                    Value::Number(op.apply_spec(l, r)),
                ));
                Ok(None)
            },
            _ => Err(
                RuntimeError::TypeError {
                    expected: String::from_str("number"),
                    found: String::from_str("other"),
                },
            ),
        }
    }
}

impl Default for Ignition {
    fn default() -> (interpreter: Ignition)
        ensures
            interpreter@.profiler == ProfilerView::fresh(100),
            interpreter@.printed == Seq::<Value>::empty(),
    {
        Ignition::new()
    }
}

} // verus!
