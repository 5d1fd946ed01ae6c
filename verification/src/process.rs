//! The argument vector of one subprocess invocation: an immutable
//! template duplicated per package, so that appending for package N
//! never affects the template used for package N+1.

use crate::bytes::{copy_bytes, views_of};
use vstd::prelude::*;

verus! {

#[verifier::ext_equal]
pub struct ProcessBuilderView {
    pub program: Seq<u8>,
    pub args: Seq<Seq<u8>>,
}

pub struct ProcessBuilder {
    pub program: Vec<u8>,
    pub args: Vec<Vec<u8>>,
}

impl View for ProcessBuilder {
    type V = ProcessBuilderView;

    open spec fn view(&self) -> ProcessBuilderView {
        ProcessBuilderView { program: self.program@, args: views_of(self.args@) }
    }
}

impl ProcessBuilder {
    pub fn new(program: Vec<u8>) -> (r: ProcessBuilder)
        ensures
            r@.program == program@,
            r@.args == Seq::<Seq<u8>>::empty(),
    {
        let r = ProcessBuilder { program, args: Vec::new() };
        proof {
            assert(r@.args =~= Seq::<Seq<u8>>::empty());
        }
        r
    }

    /// Append one argument.
    pub fn arg(&mut self, a: Vec<u8>)
        ensures
            final(self)@.program == old(self)@.program,
            final(self)@.args == old(self)@.args.push(a@),
    {
        self.args.push(a);
        proof {
            assert(self@.args =~= old(self)@.args.push(a@));
        }
    }

    /// Append each of the given arguments, in order.
    pub fn append_args(&mut self, extra: &Vec<Vec<u8>>)
        ensures
            final(self)@.program == old(self)@.program,
            final(self)@.args == old(self)@.args + views_of(extra@),
    {
        let mut i: usize = 0;
        proof {
            assert(self@.args =~= old(self)@.args + views_of(extra@).take(0));
        }
        while i < extra.len()
            invariant
                i <= extra@.len(),
                self.args@.len() == old(self).args@.len() + i,
                self@.program == old(self)@.program,
                self@.args == old(self)@.args + views_of(extra@).take(i as int),
            decreases extra@.len() - i,
        {
            let ghost args_old = self.args@;
            let a = copy_bytes(&extra[i]);
            self.args.push(a);
            i = i + 1;
            proof {
                assert forall|k: int| 0 <= k < self.args@.len() implies views_of(self.args@)[k]
                    == (old(self)@.args + views_of(extra@).take(i as int))[k] by {
                    if k < i - 1 + old(self).args@.len() {
                        assert(views_of(args_old)[k] == (old(self)@.args + views_of(
                            extra@,
                        ).take(i - 1))[k]);
                    }
                }
                assert(self@.args =~= old(self)@.args + views_of(extra@).take(i as int));
            }
        }
        proof {
            assert(views_of(extra@).take(views_of(extra@).len() as int) =~= views_of(extra@));
        }
    }

    /// An independent copy seeded from this template.
    pub fn duplicate(&self) -> (r: ProcessBuilder)
        ensures
            r@ == self@,
    {
        let program = copy_bytes(&self.program);
        let mut args: Vec<Vec<u8>> = Vec::new();
        let mut i: usize = 0;
        proof {
            assert(views_of(args@) =~= views_of(self.args@).take(0));
        }
        while i < self.args.len()
            invariant
                i <= self.args@.len(),
                args@.len() == i,
                program@ == self@.program,
                views_of(args@) == views_of(self.args@).take(i as int),
            decreases self.args@.len() - i,
        {
            let ghost args_old = args@;
            let a = copy_bytes(&self.args[i]);
            args.push(a);
            i = i + 1;
            proof {
                assert forall|k: int| 0 <= k < i implies views_of(args@)[k] == views_of(
                    self.args@,
                ).take(i as int)[k] by {
                    if k < i - 1 {
                        assert(views_of(args_old)[k] == views_of(self.args@).take(i - 1)[k]);
                    }
                }
                assert(views_of(args@) =~= views_of(self.args@).take(i as int));
            }
        }
        let r = ProcessBuilder { program, args };
        proof {
            assert(views_of(self.args@).take(views_of(self.args@).len() as int)
                =~= views_of(self.args@));
            assert(r@ =~= self@);
        }
        r
    }
}

} // verus!
