//! The program a request asks to run: its path and argument vector, each
//! guaranteed representable as a NUL-terminated byte string.

use vstd::prelude::*;

use crate::parse::{has_nul, no_nul};

verus! {

use vstd::utf8::encode_utf8;

/// An executable program: the path of the file to run and the argument vector
/// to hand it. Well-formed values hold no embedded NUL byte (see
/// [`Executable::wf`]).
#[derive(Debug, PartialEq, Eq)]
pub struct Executable {
    /// The path to the executable.
    pub path: Vec<u8>,
    /// The command line arguments to pass to the executable, including
    /// argument zero.
    pub args: Vec<Vec<u8>>,
}

/// The mathematical value of an [`Executable`].
pub struct ExecutableV {
    pub path: Seq<u8>,
    pub args: Seq<Seq<u8>>,
}

impl View for Executable {
    type V = ExecutableV;

    open spec fn view(&self) -> ExecutableV {
        ExecutableV { path: self.path@, args: self.args.deep_view() }
    }
}

impl Executable {
    /// The path and every argument can be rendered as a NUL-terminated byte
    /// string: none holds an embedded NUL byte.
    pub open spec fn wf(&self) -> bool {
        no_nul(self@.path) && forall|i: int|
            0 <= i < self@.args.len() ==> no_nul(#[trigger] self@.args[i])
    }
}

impl Clone for Executable {
    fn clone(&self) -> (r: Self)
        ensures
            r@ == self@,
    {
        let mut args: Vec<Vec<u8>> = Vec::new();
        let mut i: usize = 0;
        while i < self.args.len()
            invariant
                0 <= i <= self.args.len(),
                args.deep_view() == self.args.deep_view().take(i as int),
            decreases self.args.len() - i,
        {
            let e = vstd::slice::slice_to_vec(self.args[i].as_slice());
            let ghost prev = args.deep_view();
            args.push(e);
            i = i + 1;
            proof {
                assert(args.deep_view() =~~= prev.push(self.args@[i as int - 1]@));
                assert(args.deep_view() =~~= self.args.deep_view().take(i as int));
            }
        }
        proof {
            assert(self.args.deep_view().take(i as int) =~~= self.args.deep_view());
        }
        let r = Executable { path: vstd::slice::slice_to_vec(self.path.as_slice()), args };
        proof {
            assert(r@.args =~~= self@.args);
        }
        r
    }
}

/// Why an [`Executable`] could not be built from its source fields.
#[derive(Debug, PartialEq, Eq)]
#[allow(inconsistent_fields)]
pub enum ExecutableFactoryError {
    /// The path field could not be located.
    PathNotFound,
    /// The path holds a NUL byte in the middle, so it is not a valid C
    /// string; `content` is the field that failed.
    PathMalformed { content: String },
    /// No command line arguments were found. Running a program with an empty
    /// argument vector is an error.
    ArgNotFound,
    /// An argument could not be rendered as a C string. `position` is the
    /// zero-indexed number of the argument within the argument range, and
    /// `content` the field that failed.
    ArgMalformed { position: usize, content: String },
}

/// Builds an [`Executable`] from a vector of textual fields: the field at
/// `path_idx` is the program path, and the fields from `args_start_idx` on
/// are its argument vector. The fields are checked in that order; the result
/// is well-formed by construction.
pub fn from_iterator(args: &Vec<String>, path_idx: usize, args_start_idx: usize) -> (r: Result<
    Executable,
    ExecutableFactoryError,
>)
    ensures
        ({
            let a = args@;
            match r {
                Ok(e) => path_idx < a.len() && e@.path == encode_utf8(a[path_idx as int]@)
                    && args_start_idx < a.len() && e@.args.len() == a.len() - args_start_idx && (
                forall|i: int|
                    0 <= i < e@.args.len() ==> e@.args[i] == encode_utf8(
                        a[args_start_idx + i]@,
                    )) && e.wf(),
                Err(ExecutableFactoryError::PathNotFound) => path_idx >= a.len(),
                Err(ExecutableFactoryError::PathMalformed { content }) => path_idx < a.len()
                    && content@ == a[path_idx as int]@ && !no_nul(
                    encode_utf8(a[path_idx as int]@),
                ),
                Err(ExecutableFactoryError::ArgNotFound) => path_idx < a.len() && no_nul(
                    encode_utf8(a[path_idx as int]@),
                ) && args_start_idx >= a.len(),
                Err(ExecutableFactoryError::ArgMalformed { position, content }) => path_idx
                    < a.len() && no_nul(encode_utf8(a[path_idx as int]@)) && args_start_idx
                    + position < a.len() && content@ == a[args_start_idx + position]@ && !no_nul(
                    encode_utf8(a[args_start_idx + position]@),
                ) && forall|j: int|
                    0 <= j < position ==> no_nul(#[trigger] encode_utf8(a[args_start_idx + j]@)),
            }
        }),
{
    if path_idx >= args.len() {
        return Err(ExecutableFactoryError::PathNotFound);
    }
    let path = args[path_idx].as_str().as_bytes_vec();
    if has_nul(path.as_slice()) {
        return Err(ExecutableFactoryError::PathMalformed { content: args[path_idx].clone() });
    }
    if args_start_idx >= args.len() {
        return Err(ExecutableFactoryError::ArgNotFound);
    }
    let mut argv: Vec<Vec<u8>> = Vec::new();
    let mut i: usize = args_start_idx;
    while i < args.len()
        invariant
            args_start_idx <= i <= args@.len(),
            path_idx < args@.len(),
            no_nul(encode_utf8(args@[path_idx as int]@)),
            path@ == encode_utf8(args@[path_idx as int]@),
            argv.deep_view().len() == i - args_start_idx,
            forall|k: int|
                0 <= k < argv.deep_view().len() ==> argv.deep_view()[k] == encode_utf8(
                    args@[args_start_idx + k]@,
                ) && no_nul(#[trigger] argv.deep_view()[k]),
        decreases args@.len() - i,
    {
        let arg = args[i].as_str().as_bytes_vec();
        if has_nul(arg.as_slice()) {
            proof {
                assert forall|j: int| 0 <= j < i - args_start_idx implies no_nul(
                    #[trigger] encode_utf8(args@[args_start_idx + j]@),
                ) by {
                    assert(argv.deep_view()[j] == encode_utf8(args@[args_start_idx + j]@));
                    assert(no_nul(argv.deep_view()[j]));
                }
            }
            return Err(
                ExecutableFactoryError::ArgMalformed {
                    position: i - args_start_idx,
                    content: args[i].clone(),
                },
            );
        }
        let ghost prev = argv.deep_view();
        argv.push(arg);
        i = i + 1;
        proof {
            assert(argv.deep_view() =~~= prev.push(arg@));
        }
    }
    let e = Executable { path, args: argv };
    proof {
        assert(e.wf());
    }
    Ok(e)
}

} // verus!
