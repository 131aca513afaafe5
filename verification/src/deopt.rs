//! Deoptimization: what is needed to fall back from compiled code to the
//! interpreter.

use std::collections::HashMap;
use vstd::prelude::*;
use vstd::std_specs::hash::group_hash_axioms;
use vstd::string::StringExecFns;
use crate::bytecode::{BytecodeChunk, ChunkView};
use crate::text::{decimal, numbered};
use crate::types::{FunctionId, Value};

verus! {

/// Why compiled code was abandoned.
#[derive(Debug, Clone, PartialEq)]
pub enum DeoptReason {
    /// A value did not have the type that a guard expected.
    TypeGuardFailed { expected: String, found: String },
    /// An assumption of the compiled code no longer holds.
    AssumptionInvalidated { assumption: String },
    /// Any other reason.
    Other { message: String },
}

/// The model of a reason: its texts as sequences of characters.
pub enum DeoptReasonView {
    TypeGuardFailed { expected: Seq<char>, found: Seq<char> },
    AssumptionInvalidated { assumption: Seq<char> },
    Other { message: Seq<char> },
}

impl View for DeoptReason {
    type V = DeoptReasonView;

    open spec fn view(&self) -> DeoptReasonView {
        match self {
            DeoptReason::TypeGuardFailed { expected, found } => DeoptReasonView::TypeGuardFailed {
                expected: expected@,
                found: found@,
            },
            DeoptReason::AssumptionInvalidated {
                assumption,
            } => DeoptReasonView::AssumptionInvalidated { assumption: assumption@ },
            DeoptReason::Other { message } => DeoptReasonView::Other { message: message@ },
        }
    }
}

impl DeoptReason {
    /// A copy of the reason with the same texts.
    pub fn duplicate(&self) -> (copy: DeoptReason)
        ensures
            copy@ == self@,
    {
        match self {
            DeoptReason::TypeGuardFailed { expected, found } => DeoptReason::TypeGuardFailed {
                expected: expected.clone(),
                found: found.clone(),
            },
            DeoptReason::AssumptionInvalidated { assumption } => DeoptReason::AssumptionInvalidated {
                assumption: assumption.clone(),
            },
            DeoptReason::Other { message } => DeoptReason::Other { message: message.clone() },
        }
    }
}

/// A copy of `values`.
fn copy_values(values: &Vec<Value>) -> (copy: Vec<Value>)
    ensures
        copy@ == values@,
{
    let mut copy: Vec<Value> = Vec::new();
    let mut i: usize = 0;
    while i < values.len()
        invariant
            i <= values.len(),
            copy@ == values@.subrange(0, i as int),
        decreases values.len() - i,
    {
        copy.push(values[i]);
        assert(copy@ =~= values@.subrange(0, i + 1));
        i += 1;
    }
    assert(copy@ =~= values@);
    copy
}

/// The model of a deoptimization request.
pub struct DeoptInfoView {
    pub func_id: FunctionId,
    pub live_values: Seq<Value>,
    pub bytecode_offset: usize,
    pub reason: DeoptReasonView,
}

/// A request to abandon the compiled code of a function: which function,
/// the values live at that point, where to resume in the bytecode, and why.
#[derive(Debug, Clone)]
pub struct DeoptInfo {
    pub func_id: FunctionId,
    pub live_values: Vec<Value>,
    pub bytecode_offset: usize,
    pub reason: DeoptReason,
}

impl View for DeoptInfo {
    type V = DeoptInfoView;

    open spec fn view(&self) -> DeoptInfoView {
        DeoptInfoView {
            func_id: self.func_id,
            live_values: self.live_values@,
            bytecode_offset: self.bytecode_offset,
            reason: self.reason@,
        }
    }
}

impl DeoptInfo {
    /// A request for `func_id` with no live values, resuming at offset 0.
    pub fn new(func_id: FunctionId, reason: DeoptReason) -> (info: DeoptInfo)
        ensures
            info@ == (DeoptInfoView {
                func_id,
                live_values: Seq::empty(),
                bytecode_offset: 0,
                reason: reason@,
            }),
    {
        DeoptInfo { func_id, live_values: Vec::new(), bytecode_offset: 0, reason }
    }

    /// A request for `func_id` after a failed type guard.
    pub fn type_guard_failed(func_id: FunctionId, expected: String, found: String) -> (info:
        DeoptInfo)
        ensures
            info@ == (DeoptInfoView {
                func_id,
                live_values: Seq::empty(),
                bytecode_offset: 0,
                reason: DeoptReasonView::TypeGuardFailed { expected: expected@, found: found@ },
            }),
    {
        DeoptInfo::new(func_id, DeoptReason::TypeGuardFailed { expected, found })
    }

    /// Appends a live value.
    pub fn add_live_value(&mut self, value: Value)
        ensures
            final(self)@ == (DeoptInfoView {
                live_values: old(self)@.live_values.push(value),
                ..old(self)@
            }),
    {
        self.live_values.push(value);
    }

    /// Sets the offset at which the bytecode resumes.
    pub fn set_bytecode_offset(&mut self, offset: usize)
        ensures
            final(self)@ == (DeoptInfoView { bytecode_offset: offset, ..old(self)@ }),
    {
        self.bytecode_offset = offset;
    }
}

/// The model of a deoptimization state.
pub struct DeoptStateView {
    pub func_id: FunctionId,
    pub bytecode: ChunkView,
    pub live_values: Seq<Value>,
    pub bytecode_offset: usize,
    pub reason: DeoptReasonView,
}

/// What the interpreter needs to take a function over from compiled code:
/// the request, and the bytecode registered for the function.
#[derive(Debug, Clone)]
pub struct DeoptState {
    pub func_id: FunctionId,
    pub bytecode: BytecodeChunk,
    pub live_values: Vec<Value>,
    pub bytecode_offset: usize,
    pub reason: DeoptReason,
}

impl View for DeoptState {
    type V = DeoptStateView;

    open spec fn view(&self) -> DeoptStateView {
        DeoptStateView {
            func_id: self.func_id,
            bytecode: self.bytecode@,
            live_values: self.live_values@,
            bytecode_offset: self.bytecode_offset,
            reason: self.reason@,
        }
    }
}

/// The reason for which a guard that expects `expected_type` abandons
/// compiled code on `value`: none if the value has that type.
pub open spec fn guard_failure(value: Value, expected_type: Seq<char>) -> Option<DeoptReasonView> {
    if value.kind_name_spec() == expected_type {
        None
    } else {
        Some(
            DeoptReasonView::TypeGuardFailed {
                expected: expected_type,
                found: value.kind_name_spec(),
            },
        )
    }
}

impl DeoptState {
    /// Checks a type guard: compares the name of the value's type with
    /// `expected_type`, and gives the reason to deoptimize if they differ.
    pub fn check_type_guard(value: &Value, expected_type: &str) -> (reason: Option<DeoptReason>)
        ensures
            match guard_failure(*value, expected_type@) {
                Some(failure) => reason matches Some(r) && r@ == failure,
                None => reason.is_none(),
            },
    {
        let found = String::from_str(value.kind_name());
        let expected = String::from_str(expected_type);
        if found != expected {
            Some(DeoptReason::TypeGuardFailed { expected, found })
        } else {
            None
        }
    }
}

/// The text of the error for a function without registered bytecode.
pub open spec fn missing_bytecode_message(func_id: FunctionId) -> Seq<char> {
    "No bytecode found for function "@ + decimal(func_id as nat)
}

/// The state that a request yields when `bytecode` is registered for its
/// function.
pub open spec fn deopt_state(info: DeoptInfoView, bytecode: ChunkView) -> DeoptStateView {
    DeoptStateView {
        func_id: info.func_id,
        bytecode,
        live_values: info.live_values,
        bytecode_offset: info.bytecode_offset,
        reason: info.reason,
    }
}

/// What a request yields from the registered bytecode: the state to resume
/// from, or the error text if none is registered for the function.
pub open spec fn triggered(cache: Map<FunctionId, ChunkView>, info: DeoptInfoView) -> Result<
    DeoptStateView,
    Seq<char>,
> {
    if cache.contains_key(info.func_id) {
        Ok(deopt_state(info, cache[info.func_id]))
    } else {
        Err(missing_bytecode_message(info.func_id))
    }
}

/// The model of the result of a request.
pub open spec fn triggered_view(result: Result<DeoptState, String>) -> Result<
    DeoptStateView,
    Seq<char>,
> {
    match result {
        Ok(state) => Ok(state@),
        Err(message) => Err(message@),
    }
}

/// A request for a function without registered bytecode fails with the
/// missing-bytecode error; once bytecode is registered for the function, the
/// request succeeds, and its state holds exactly that bytecode.
pub proof fn law_deopt_needs_registration(
    cache: Map<FunctionId, ChunkView>,
    bytecode: ChunkView,
    info: DeoptInfoView,
)
    ensures
        !cache.contains_key(info.func_id) ==> triggered(cache, info) == Err::<
            DeoptStateView,
            Seq<char>,
        >(missing_bytecode_message(info.func_id)),
        triggered(cache.insert(info.func_id, bytecode), info) matches Ok(state) && state.bytecode
            == bytecode && state == deopt_state(info, bytecode),
{
}

/// Keeps, for each function, the bytecode last registered for it: what a
/// deoptimized function falls back to.
#[derive(Debug)]
pub struct DeoptManager {
    bytecode_cache: HashMap<FunctionId, BytecodeChunk>,
}

impl View for DeoptManager {
    type V = Map<FunctionId, ChunkView>;

    closed spec fn view(&self) -> Map<FunctionId, ChunkView> {
        self.bytecode_cache@.map_values(|chunk: BytecodeChunk| chunk@)
    }
}

impl DeoptManager {
    /// A manager with no registered bytecode.
    pub fn new() -> (manager: DeoptManager)
        ensures
            manager@ == Map::<FunctionId, ChunkView>::empty(),
    {
        let manager = DeoptManager { bytecode_cache: HashMap::new() };
        assert(manager@ =~= Map::<FunctionId, ChunkView>::empty());
        manager
    }

    /// Registers `bytecode` for `func_id`, in place of what was registered.
    pub fn register_bytecode(&mut self, func_id: FunctionId, bytecode: BytecodeChunk)
        ensures
            final(self)@ == old(self)@.insert(func_id, bytecode@),
    {
        broadcast use group_hash_axioms;

        self.bytecode_cache.insert(func_id, bytecode);
        assert(self@ =~= old(self)@.insert(func_id, bytecode@));
    }

    /// The bytecode registered for `func_id`, if any is.
    pub fn get_bytecode(&self, func_id: FunctionId) -> (bytecode: Option<&BytecodeChunk>)
        ensures
            match bytecode {
                Some(chunk) => self@.contains_key(func_id) && chunk@ == self@[func_id],
                None => !self@.contains_key(func_id),
            },
    {
        broadcast use group_hash_axioms;

        self.bytecode_cache.get(&func_id)
    }

    /// Assembles the state to resume from: the request, and the bytecode
    /// registered for its function. Fails if none is registered.
    pub fn trigger_deopt(&self, deopt_info: &DeoptInfo) -> (result: Result<DeoptState, String>)
        ensures
            triggered_view(result) == triggered(self@, deopt_info@),
    {
        match self.get_bytecode(deopt_info.func_id) {
            Some(bytecode) => Ok(
                DeoptState {
                    func_id: deopt_info.func_id,
                    bytecode: bytecode.duplicate(),
                    live_values: copy_values(&deopt_info.live_values),
                    bytecode_offset: deopt_info.bytecode_offset,
                    reason: deopt_info.reason.duplicate(),
                },
            ),
            None => Err(numbered("No bytecode found for function ", deopt_info.func_id)),
        }
    }
}

impl Default for DeoptManager {
    fn default() -> (manager: DeoptManager)
        ensures
            manager@ == Map::<FunctionId, ChunkView>::empty(),
    {
        DeoptManager::new()
    }
}

} // verus!
