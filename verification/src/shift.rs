//! The `shift` builtin's effect on the positional-parameter store: drop the
//! first `n` parameters and renumber the remainder starting at 0. Argument
//! parsing and the usage message belong to the embedding shell, which hands
//! the parse outcome in.

use vstd::prelude::*;
use crate::status::ExitStatus;

verus! {

/// The positional parameters after dropping the first `n` and renumbering:
/// dropping more parameters than there are leaves none.
pub open spec fn spec_shifted<T>(params: Seq<T>, n: int) -> Seq<T> {
    if n <= params.len() {
        params.skip(n)
    } else {
        Seq::empty()
    }
}

/// The `shift` builtin. `args` is the parsed argument list: `Ok(n)` drops
/// the first `n` parameters (default 1 when no count was given) with exit
/// status 0; a malformed argument list (`Err`) leaves the store unchanged
/// and reports a usage error with exit status 1.
pub fn command(params: &mut Vec<String>, args: Result<Option<usize>, ()>) -> (r: ExitStatus)
    ensures
        match args {
            Ok(n_opt) => {
                let n = match n_opt {
                    Some(n) => n as int,
                    None => 1int,
                };
                r == ExitStatus::ExitedWith(0i32) && final(params)@ == spec_shifted(
                    old(params)@,
                    n,
                )
            },
            Err(_) => r == ExitStatus::ExitedWith(1i32) && final(params)@ == old(params)@,
        },
{
    match args {
        Ok(n_opt) => {
            let n: usize = match n_opt {
                Some(n) => n,
                None => 1,
            };
            let mut rest: Vec<String> = Vec::new();
            let mut i: usize = n;
            while i < params.len()
                invariant
                    n <= i,
                    i <= params@.len() || i == n,
                    rest@ == params@.subrange(
                        if n as int <= params@.len() {
                            n as int
                        } else {
                            params@.len() as int
                        },
                        if i as int <= params@.len() {
                            i as int
                        } else {
                            params@.len() as int
                        },
                    ),
                decreases params@.len() - i,
            {
                rest.push(params[i].clone());
                proof {
                    assert(rest@ =~= params@.subrange(n as int, i as int + 1));
                }
                i = i + 1;
            }
            proof {
                assert(rest@ =~= spec_shifted(params@, n as int));
            }
            *params = rest;
            ExitStatus::ExitedWith(0)
        },
        Err(_) => ExitStatus::ExitedWith(1),
    }
}

} // verus!
