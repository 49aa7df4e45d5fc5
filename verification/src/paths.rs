//! Source-path resolution: trailing-slash stripping, trailing-slash
//! appending for target-directory mode, and the no-NUL validity check a
//! platform path string must satisfy.

use vstd::prelude::*;
use crate::options::Options;
use crate::errors::MvError;

verus! {

/// The byte value of `/`.
pub const SLASH: u8 = 47;

/// The NUL byte, which no platform path string may contain.
pub const NUL: u8 = 0;

/// `s` with every trailing `/` removed.
pub open spec fn strip_spec(s: Seq<u8>) -> Seq<u8>
    decreases s.len(),
{
    if s.len() > 0 && s.last() == SLASH {
        strip_spec(s.drop_last())
    } else {
        s
    }
}

/// `s` if it already ends with `/`, otherwise `s` with one `/` appended.
pub open spec fn slashed_spec(s: Seq<u8>) -> Seq<u8> {
    if s.len() > 0 && s.last() == SLASH {
        s
    } else {
        s.push(SLASH)
    }
}

/// A byte string is a valid platform path string iff it contains no NUL.
pub open spec fn valid_path_bytes(s: Seq<u8>) -> bool {
    forall|i: int| 0 <= i < s.len() ==> s[i] != NUL
}

/// The exact source string handed to the rename/copy step: stripping wins
/// over appending, and both win over passing the string through.
pub open spec fn resolved_source_spec(opts: Options, s: Seq<u8>) -> Seq<u8> {
    if opts.strip_trailing_slashes || opts.no_target_directory {
        strip_spec(s)
    } else if opts.target_directory {
        slashed_spec(s)
    } else {
        s
    }
}

/// A byte-for-byte copy of a path.
pub fn clone_bytes(v: &Vec<u8>) -> (r: Vec<u8>)
    ensures
        r@ == v@,
{
    let r = v.clone();
    proof {
        assert(r@ =~= v@);
    }
    r
}

/// Byte-for-byte equality of two paths.
pub fn bytes_eq(a: &Vec<u8>, b: &Vec<u8>) -> (r: bool)
    ensures
        r == (a@ == b@),
{
    let r = a == b;
    proof {
        if r {
            assert(a@ =~= b@);
        }
        if a@ == b@ {
            assert(forall|i: int| 0 <= i < a@.len() ==> a@[i] == b@[i]);
        }
    }
    r
}

/// Remove every trailing `/` from a path.
pub fn strip_trailing_slashes(p: &Vec<u8>) -> (r: Vec<u8>)
    ensures
        r@ == strip_spec(p@),
{
    let mut r = clone_bytes(p);
    while r.len() > 0 && r[r.len() - 1] == SLASH
        invariant
            strip_spec(r@) == strip_spec(p@),
        decreases r.len(),
    {
        proof {
            assert(r@.drop_last() =~= r@.subrange(0, r@.len() - 1));
        }
        r.pop();
    }
    proof {
        assert(strip_spec(r@) == r@);
    }
    r
}

/// Append a `/` to a path unless it already ends with one.
pub fn ensure_trailing_slash(p: &Vec<u8>) -> (r: Vec<u8>)
    ensures
        r@ == slashed_spec(p@),
{
    let mut r = clone_bytes(p);
    if r.len() == 0 || r[r.len() - 1] != SLASH {
        r.push(SLASH);
    }
    r
}

/// Whether a path contains a NUL byte (making it unusable as a platform
/// path string).
pub fn contains_nul(p: &Vec<u8>) -> (r: bool)
    ensures
        r == !valid_path_bytes(p@),
{
    let mut i: usize = 0;
    while i < p.len()
        invariant
            0 <= i <= p@.len(),
            forall|j: int| 0 <= j < i ==> p@[j] != NUL,
        decreases p@.len() - i,
    {
        if p[i] == NUL {
            return true;
        }
        i += 1;
    }
    false
}

/// Resolve the source string per the trailing-slash flags, rejecting a
/// result that cannot be a platform path string.
pub fn resolve_source(opts: &Options, source: &Vec<u8>) -> (r: Result<Vec<u8>, MvError>)
    ensures
        match r {
            Ok(p) => p@ == resolved_source_spec(*opts, source@)
                && valid_path_bytes(p@),
            Err(e) => e == MvError::InvalidPath
                && !valid_path_bytes(resolved_source_spec(*opts, source@)),
        },
{
    let resolved = if opts.strip_trailing_slashes || opts.no_target_directory {
        strip_trailing_slashes(source)
    } else if opts.target_directory {
        ensure_trailing_slash(source)
    } else {
        clone_bytes(source)
    };
    if contains_nul(&resolved) {
        Err(MvError::InvalidPath)
    } else {
        Ok(resolved)
    }
}

/// A stripped path is empty or does not end with `/`.
pub proof fn lemma_strip_no_trailing_slash(s: Seq<u8>)
    ensures
        strip_spec(s).len() == 0 || strip_spec(s).last() != SLASH,
    decreases s.len(),
{
    if s.len() > 0 && s.last() == SLASH {
        lemma_strip_no_trailing_slash(s.drop_last());
    }
}

/// Trailing-slash stripping is idempotent: stripping twice equals
/// stripping once.
pub proof fn lemma_strip_idempotent(s: Seq<u8>)
    ensures
        strip_spec(strip_spec(s)) == strip_spec(s),
{
    lemma_strip_no_trailing_slash(s);
}

/// The target-directory transformation is idempotent: appending a trailing
/// slash to an already-slash-terminated string is a no-op.
pub proof fn lemma_slashed_idempotent(s: Seq<u8>)
    ensures
        slashed_spec(s).len() > 0 && slashed_spec(s).last() == SLASH,
        slashed_spec(slashed_spec(s)) == slashed_spec(s),
{
}

} // verus!
