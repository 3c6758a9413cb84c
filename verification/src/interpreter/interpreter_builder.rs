use vstd::prelude::*;
use crate::compiler::compiler::CompilationResult;

verus! {

/// The stack size that an interpreter gets unless one is set.
pub const DEFAULT_STACK_SIZE: usize = 10_000;
/// The heap size that an interpreter gets unless one is set.
pub const DEFAULT_HEAP_SIZE: usize = 100_000;
/// The instruction budget that an interpreter gets unless one is set.
pub const DEFAULT_MAX_INSTRUCTION_COST: usize = 1_000_000;

/// The settings an interpreter for a compiled program is made with.
pub struct InterpreterBuilder {
    compilation_result: CompilationResult,
    stack_size: usize,
    heap_size: usize,
    max_instruction_cost: usize,
    profiling_enabled: bool,
}

impl InterpreterBuilder {
    /// The stack size set so far.
    pub closed spec fn spec_stack_size(&self) -> usize {
        self.stack_size
    }

    /// The heap size set so far.
    pub closed spec fn spec_heap_size(&self) -> usize {
        self.heap_size
    }

    /// The instruction budget set so far.
    pub closed spec fn spec_max_instruction_cost(&self) -> usize {
        self.max_instruction_cost
    }

    /// Whether profiling is on.
    pub closed spec fn spec_profiling_enabled(&self) -> bool {
        self.profiling_enabled
    }

    /// The program the interpreter runs.
    pub closed spec fn program(&self) -> &CompilationResult {
        &self.compilation_result
    }

    /// The default settings, for `compilation_result`.
    pub fn new(compilation_result: CompilationResult) -> (b: InterpreterBuilder)
        ensures
            b.spec_stack_size() == DEFAULT_STACK_SIZE,
            b.spec_heap_size() == DEFAULT_HEAP_SIZE,
            b.spec_max_instruction_cost() == DEFAULT_MAX_INSTRUCTION_COST,
            !b.spec_profiling_enabled(),
            *b.program() == compilation_result,
    {
        InterpreterBuilder {
            compilation_result,
            stack_size: DEFAULT_STACK_SIZE,
            heap_size: DEFAULT_HEAP_SIZE,
            max_instruction_cost: DEFAULT_MAX_INSTRUCTION_COST,
            profiling_enabled: false,
        }
    }

    /// These settings with the given stack size.
    pub fn stack_size(self, stack_size: usize) -> (b: InterpreterBuilder)
        ensures
            b.spec_stack_size() == stack_size,
            b.spec_heap_size() == self.spec_heap_size(),
            b.spec_max_instruction_cost() == self.spec_max_instruction_cost(),
            b.spec_profiling_enabled() == self.spec_profiling_enabled(),
            *b.program() == *self.program(),
    {
        let mut b = self;
        b.stack_size = stack_size;
        b
    }

    /// These settings with the given heap size.
    pub fn heap_size(self, heap_size: usize) -> (b: InterpreterBuilder)
        ensures
            b.spec_stack_size() == self.spec_stack_size(),
            b.spec_heap_size() == heap_size,
            b.spec_max_instruction_cost() == self.spec_max_instruction_cost(),
            b.spec_profiling_enabled() == self.spec_profiling_enabled(),
            *b.program() == *self.program(),
    {
        let mut b = self;
        b.heap_size = heap_size;
        b
    }

    /// These settings with the given instruction budget.
    pub fn max_instruction_cost(self, max_instruction_cost: usize) -> (b: InterpreterBuilder)
        ensures
            b.spec_stack_size() == self.spec_stack_size(),
            b.spec_heap_size() == self.spec_heap_size(),
            b.spec_max_instruction_cost() == max_instruction_cost,
            b.spec_profiling_enabled() == self.spec_profiling_enabled(),
            *b.program() == *self.program(),
    {
        let mut b = self;
        b.max_instruction_cost = max_instruction_cost;
        b
    }

    /// These settings with profiling on.
    pub fn with_profiling(self) -> (b: InterpreterBuilder)
        ensures
            b.spec_stack_size() == self.spec_stack_size(),
            b.spec_heap_size() == self.spec_heap_size(),
            b.spec_max_instruction_cost() == self.spec_max_instruction_cost(),
            b.spec_profiling_enabled(),
            *b.program() == *self.program(),
    {
        let mut b = self;
        b.profiling_enabled = true;
        b
    }

    /// The settings, for reading: stack size, heap size, instruction budget, and
    /// whether profiling is on.
    pub fn settings(&self) -> (s: (usize, usize, usize, bool))
        ensures
            s == (self.spec_stack_size(), self.spec_heap_size(), self.spec_max_instruction_cost(), self.spec_profiling_enabled()),
    {
        (self.stack_size, self.heap_size, self.max_instruction_cost, self.profiling_enabled)
    }
}

} // verus!
