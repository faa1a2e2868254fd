//! The arguments of a command, read from the front.

use vstd::prelude::*;
use crate::text::texts;

verus! {

/// A list of arguments with a position in it: what stands before the
/// position has been consumed.
pub struct ArgumentsBuffer {
    all_args: Vec<String>,
    current_arg: usize,
}

impl View for ArgumentsBuffer {
    type V = Seq<Seq<char>>;

    /// The arguments that have not been consumed, in order.
    closed spec fn view(&self) -> Seq<Seq<char>> {
        texts(self.all_args@).skip(self.current_arg as int)
    }
}

impl ArgumentsBuffer {
    #[verifier::type_invariant]
    spec fn in_range(&self) -> bool {
        self.current_arg <= self.all_args.len()
    }

    /// A buffer over the given arguments, none consumed.
    pub fn new(args: Vec<String>) -> (r: ArgumentsBuffer)
        ensures
            r@ == texts(args@),
    {
        let r = ArgumentsBuffer { all_args: args, current_arg: 0 };
        assert(r@ =~= texts(args@));
        r
    }

    /// The next argument, which stays in the buffer.
    pub fn peek(&self) -> (r: Option<&str>)
        ensures
            match r {
                Some(arg) => self@.len() > 0 && arg@ == self@[0],
                None => self@.len() == 0,
            },
    {
        proof {
            use_type_invariant(self);
        }
        if self.current_arg < self.all_args.len() {
            Some(self.all_args[self.current_arg].as_str())
        } else {
            None
        }
    }

    /// The argument `index` places after the next one, which stays in the
    /// buffer: `peek_at(0)` is `peek()`.
    pub fn peek_at(&self, index: usize) -> (r: Option<&str>)
        ensures
            match r {
                Some(arg) => index < self@.len() && arg@ == self@[index as int],
                None => index >= self@.len(),
            },
    {
        proof {
            use_type_invariant(self);
        }
        if index < self.all_args.len() - self.current_arg {
            Some(self.all_args[self.current_arg + index].as_str())
        } else {
            None
        }
    }

    /// Consumes the next `count` arguments, which must be there.
    pub fn skip(&mut self, count: usize)
        requires
            count <= old(self)@.len(),
        ensures
            final(self)@ == old(self)@.skip(count as int),
    {
        proof {
            use_type_invariant(&*self);
        }
        self.current_arg = self.current_arg + count;
        assert(self@ =~= old(self)@.skip(count as int));
    }

    /// The number of arguments that have not been consumed.
    pub fn remaining(&self) -> (r: usize)
        ensures
            r == self@.len(),
    {
        proof {
            use_type_invariant(self);
        }
        self.all_args.len() - self.current_arg
    }

    /// Whether every argument has been consumed.
    pub fn is_empty(&self) -> (r: bool)
        ensures
            r == (self@.len() == 0),
    {
        proof {
            use_type_invariant(self);
        }
        self.current_arg >= self.all_args.len()
    }
}

} // verus!
