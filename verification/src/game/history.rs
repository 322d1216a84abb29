use crate::game::game_move::Move;
use vstd::prelude::*;

verus! {

pub const STACK_SIZE: usize = 1024;

/// A bounded stack of played moves.
pub struct History {
    stack: [Move; 1024],
    loc: usize,
}

impl History {
    /// The moves currently on the stack, oldest first.
    pub closed spec fn entries(&self) -> Seq<Move> {
        self.stack@.take(self.loc as int)
    }

    #[verifier::type_invariant]
    spec fn inv(&self) -> bool {
        self.loc <= 1024
    }

    /// An empty move stack.
    pub fn new() -> (r: History)
        ensures
            r.entries() == Seq::<Move>::empty(),
            r.entries().len() == 0,
    {
        let r = History { stack: [Move(0);1024], loc: 0 };
        proof {
            assert(r.entries() =~= Seq::<Move>::empty());
        }
        r
    }

    /// Push a [`Move`] onto the stack.
    pub fn push(&mut self, mv: Move)
        requires
            old(self).entries().len() < STACK_SIZE,
        ensures
            final(self).entries() == old(self).entries().push(mv),
    {
        proof {
            use_type_invariant(&*self);
        }
        self.stack[self.loc] = mv;
        self.loc = self.loc + 1;
        proof {
            assert(self.entries() =~= old(self).entries().push(mv));
        }
    }

    /// Pop the most recent [`Move`] off the stack and return it.
    pub fn pop(&mut self) -> (r: Move)
        requires
            old(self).entries().len() > 0,
        ensures
            r == old(self).entries().last(),
            final(self).entries() == old(self).entries().drop_last(),
    {
        proof {
            use_type_invariant(&*self);
        }
        self.loc = self.loc - 1;
        let r = self.stack[self.loc];
        proof {
            assert(self.entries() =~= old(self).entries().drop_last());
        }
        r
    }

    /// The most recent [`Move`] on the stack, without removing it.
    pub fn peek(&self) -> (r: Move)
        requires
            self.entries().len() > 0,
        ensures
            r == self.entries().last(),
    {
        proof {
            use_type_invariant(self);
        }
        self.stack[self.loc - 1]
    }
}

} // verus!
