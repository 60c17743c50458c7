use vstd::prelude::*;

verus! {

// ---------------------------------------------------------------------------
// Per-execution-context stack of active spans
// ---------------------------------------------------------------------------

/// Pushing an identifier on entry.
pub open spec fn spec_stack_push(s: Seq<u64>, id: u64) -> Seq<u64> {
    s.push(id)
}

/// Popping on exit: the top is removed whatever it is; the operation is clean
/// only when the stack was non-empty and the top matched the expected
/// identifier. A mismatch or an empty stack is a bookkeeping fault, never
/// fatal.
pub open spec fn spec_stack_pop(s: Seq<u64>, expected: u64) -> (Seq<u64>, bool) {
    if s.len() == 0 {
        (s, false)
    } else {
        (s.drop_last(), s.last() == expected)
    }
}

/// The identifier of the innermost active span, if any.
pub open spec fn spec_stack_current(s: Seq<u64>) -> Option<u64> {
    if s.len() == 0 {
        None
    } else {
        Some(s.last())
    }
}

pub open spec fn stack_wf(s: Seq<u64>) -> bool {
    forall|i: int| 0 <= i < s.len() ==> s[i] != 0
}

/// One execution context's ordered stack of currently active span
/// identifiers. Each context owns its stack alone; a span is visible
/// process-wide through the span table, but "current" is always local.
#[derive(Debug)]
pub struct ContextStack {
    stack: Vec<u64>,
}

impl View for ContextStack {
    type V = Seq<u64>;

    closed spec fn view(&self) -> Seq<u64> {
        self.stack@
    }
}

impl ContextStack {
    pub open spec fn wf(&self) -> bool {
        stack_wf(self@)
    }

    pub fn new() -> (r: Self)
        ensures
            r@ == Seq::<u64>::empty(),
            r.wf(),
    {
        ContextStack { stack: Vec::new() }
    }

    /// Marks the span as entered: it becomes the context's current span.
    pub fn push(&mut self, id: u64)
        requires
            id != 0,
        ensures
            final(self)@ == spec_stack_push(old(self)@, id),
            old(self).wf() ==> final(self).wf(),
    {
        self.stack.push(id);
    }

    /// Marks the top span as exited; reports whether the pop was clean
    /// (non-empty stack, matching identifier).
    pub fn pop(&mut self, expected: u64) -> (clean: bool)
        ensures
            (final(self)@, clean) == spec_stack_pop(old(self)@, expected),
            old(self).wf() ==> final(self).wf(),
    {
        match self.stack.pop() {
            None => false,
            Some(top) => top == expected,
        }
    }

    /// The identifier of the innermost active span, if any.
    pub fn current_span_id(&self) -> (r: Option<u64>)
        ensures
            r == spec_stack_current(self@),
    {
        if self.stack.len() == 0 {
            None
        } else {
            Some(self.stack[self.stack.len() - 1])
        }
    }

    pub fn is_empty(&self) -> (r: bool)
        ensures
            r == (self@.len() == 0),
    {
        self.stack.len() == 0
    }
}

// ---------------------------------------------------------------------------
// Laws of the stack
// ---------------------------------------------------------------------------

/// Entering a span and then exiting it on the same context leaves that
/// context's stack exactly as it was before the entry, and the exit is clean.
pub proof fn lemma_enter_exit_round_trip(s: Seq<u64>, id: u64)
    ensures
        spec_stack_pop(spec_stack_push(s, id), id) == (s, true),
{
    assert(spec_stack_push(s, id).drop_last() =~= s);
}

/// An out-of-order exit is reported as a fault but still removes only the
/// top entry, so the stack below it is intact and subsequent valid
/// operations behave as if the mismatched span had exited cleanly.
pub proof fn lemma_mismatched_exit_keeps_stack(s: Seq<u64>, top: u64, expected: u64)
    requires
        expected != top,
    ensures
        spec_stack_pop(spec_stack_push(s, top), expected) == (s, false),
{
    assert(spec_stack_push(s, top).drop_last() =~= s);
}

} // verus!
