use vstd::prelude::*;

verus! {

/// Number of return addresses the call stack holds.
pub const STACK_DEPTH: u8 = 16;

/// A failure of the call stack.
#[derive(Clone, Copy, Debug, PartialEq, Eq, Structural)]
pub enum StackError {
    /// A push onto a full stack.
    Overflow,
    /// A pop from an empty stack.
    Underflow,
}

/// Fixed-capacity stack of return addresses.
pub struct Stack {
    pub mem: [u16; 16],
    pub size: u8,
}

impl Stack {
    pub open spec fn wf(&self) -> bool {
        self.size <= STACK_DEPTH
    }

    /// The addresses held, bottom first.
    pub open spec fn view(&self) -> Seq<u16> {
        self.mem@.subrange(0, self.size as int)
    }

    pub fn new() -> (r: Stack)
        ensures
            r.wf(),
            r.view() == Seq::<u16>::empty(),
    {
        let r = Stack { mem: [0u16; 16], size: 0 };
        assert(r.view() =~= Seq::<u16>::empty());
        r
    }

    /// Pushes `address`; fails, leaving the stack unchanged, when it is full.
    pub fn add(&mut self, address: u16) -> (r: Result<(), StackError>)
        requires
            old(self).wf(),
        ensures
            final(self).wf(),
            old(self).view().len() < STACK_DEPTH ==> r == Ok::<(), StackError>(())
                && final(self).view() == old(self).view().push(address),
            old(self).view().len() >= STACK_DEPTH ==> r == Err::<(), StackError>(StackError::Overflow)
                && final(self).view() == old(self).view(),
    {
        if self.size >= STACK_DEPTH {
            return Err(StackError::Overflow);
        }
        self.mem[self.size as usize] = address;
        self.size = self.size + 1;
        assert(self.view() =~= old(self).view().push(address));
        Ok(())
    }

    /// Pops the most recent address; fails, leaving the stack unchanged, when it is empty.
    pub fn pop(&mut self) -> (r: Result<u16, StackError>)
        requires
            old(self).wf(),
        ensures
            final(self).wf(),
            old(self).view().len() > 0 ==> r == Ok::<u16, StackError>(old(self).view().last())
                && final(self).view() == old(self).view().drop_last(),
            old(self).view().len() == 0 ==> r == Err::<u16, StackError>(StackError::Underflow)
                && final(self).view() == old(self).view(),
    {
        if self.size == 0 {
            return Err(StackError::Underflow);
        }
        self.size = self.size - 1;
        assert(self.view() =~= old(self).view().drop_last());
        Ok(self.mem[self.size as usize])
    }
}

} // verus!
