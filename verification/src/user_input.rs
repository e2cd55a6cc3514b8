use vstd::prelude::*;

use crate::digits::{parse_usize, spec_parse_usize};
use crate::error::ProgramError;

verus! {

/// Whether `b` is an ASCII whitespace byte: space, tab, line feed or
/// carriage return.
pub open spec fn is_ascii_ws(b: u8) -> bool {
    b == 32 || b == 9 || b == 10 || b == 13
}

/// `s` without its leading whitespace.
pub open spec fn trim_front(s: Seq<u8>) -> Seq<u8>
    decreases s.len(),
{
    if s.len() > 0 && is_ascii_ws(s.first()) {
        trim_front(s.drop_first())
    } else {
        s
    }
}

/// `s` without its trailing whitespace.
pub open spec fn trim_back(s: Seq<u8>) -> Seq<u8>
    decreases s.len(),
{
    if s.len() > 0 && is_ascii_ws(s.last()) {
        trim_back(s.drop_last())
    } else {
        s
    }
}

/// `s` without leading and trailing whitespace.
pub open spec fn trimmed(s: Seq<u8>) -> Seq<u8> {
    trim_back(trim_front(s))
}

/// Where the bytes before `lo` are whitespace and the one at `lo` is not,
/// trimming the front keeps the suffix from `lo` on.
proof fn lemma_trim_front_at(s: Seq<u8>, lo: int)
    requires
        0 <= lo <= s.len(),
        forall|k: int| 0 <= k < lo ==> is_ascii_ws(#[trigger] s[k]),
        lo == s.len() || !is_ascii_ws(s[lo]),
    ensures
        trim_front(s) == s.subrange(lo, s.len() as int),
    decreases lo,
{
    if lo == 0 {
        if s.len() > 0 && is_ascii_ws(s.first()) {
            assert(false);
        }
        assert(s.subrange(0, s.len() as int) =~= s);
    } else {
        assert(is_ascii_ws(s.first()));
        lemma_trim_front_at(s.drop_first(), lo - 1);
        assert(s.drop_first().subrange(lo - 1, s.drop_first().len() as int) =~= s.subrange(
            lo,
            s.len() as int,
        ));
    }
}

/// Where the bytes from `hi` on are whitespace and the one before `hi` is
/// not, trimming the back keeps the prefix up to `hi`.
proof fn lemma_trim_back_at(s: Seq<u8>, hi: int)
    requires
        0 <= hi <= s.len(),
        forall|k: int| hi <= k < s.len() ==> is_ascii_ws(#[trigger] s[k]),
        hi == 0 || !is_ascii_ws(s[hi - 1]),
    ensures
        trim_back(s) == s.subrange(0, hi),
    decreases s.len(),
{
    if hi == s.len() {
        if s.len() > 0 && is_ascii_ws(s.last()) {
            assert(false);
        }
        assert(s.subrange(0, hi) =~= s);
    } else {
        assert(is_ascii_ws(s.last()));
        lemma_trim_back_at(s.drop_last(), hi);
        assert(s.drop_last().subrange(0, hi) =~= s.subrange(0, hi));
    }
}

/// A fresh vector holding `v` without leading and trailing ASCII
/// whitespace.
#[verifier::loop_isolation(false)]
pub fn trim_ascii(v: &Vec<u8>) -> (r: Vec<u8>)
    ensures
        r@ == trimmed(v@),
{
    let mut lo: usize = 0;
    while lo < v.len() && (v[lo] == 32 || v[lo] == 9 || v[lo] == 10 || v[lo] == 13)
        invariant
            0 <= lo <= v.len(),
            forall|k: int| 0 <= k < lo ==> is_ascii_ws(#[trigger] v@[k]),
        decreases v.len() - lo,
    {
        lo = lo + 1;
    }
    proof {
        lemma_trim_front_at(v@, lo as int);
    }
    let ghost t = trim_front(v@);
    let mut hi: usize = v.len();
    while hi > lo && (v[hi - 1] == 32 || v[hi - 1] == 9 || v[hi - 1] == 10 || v[hi - 1] == 13)
        invariant
            lo <= hi <= v.len(),
            forall|k: int| hi <= k < v@.len() ==> is_ascii_ws(#[trigger] v@[k]),
        decreases hi,
    {
        hi = hi - 1;
    }
    proof {
        assert(forall|k: int| hi - lo <= k < t.len() ==> is_ascii_ws(#[trigger] t[k]));
        lemma_trim_back_at(t, hi - lo);
        assert(t.subrange(0, hi - lo) =~= v@.subrange(lo as int, hi as int));
    }
    let mut r: Vec<u8> = Vec::new();
    let mut i: usize = lo;
    while i < hi
        invariant
            lo <= i <= hi,
            r@ == v@.subrange(lo as int, i as int),
        decreases hi - i,
    {
        r.push(v[i]);
        assert(r@ =~= v@.subrange(lo as int, i as int + 1));
        i = i + 1;
    }
    assert(r@ =~= trimmed(v@));
    r
}

/// Parse an interactive answer for the number of files to concatenate: the
/// line, once trimmed, must be a positive decimal number that fits the
/// machine; anything else is `InvalidInput`, for the caller to prompt
/// again.
pub fn parse_total(line: &Vec<u8>) -> (r: Result<usize, ProgramError>)
    ensures
        ({
            match spec_parse_usize(trimmed(line@)) {
                Some(n) => if n > 0 {
                    r == Result::<usize, ProgramError>::Ok(n)
                } else {
                    r == Result::<usize, ProgramError>::Err(ProgramError::InvalidInput)
                },
                None => r == Result::<usize, ProgramError>::Err(ProgramError::InvalidInput),
            }
        }),
{
    let t = trim_ascii(line);
    match parse_usize(&t) {
        Some(n) => {
            if n > 0 {
                Ok(n)
            } else {
                Err(ProgramError::InvalidInput)
            }
        },
        None => Err(ProgramError::InvalidInput),
    }
}

/// The configuration the interactive prompts collect: the root directory
/// path and the expected number of files.
pub struct UserInput {
    pub path: Vec<u8>,
    pub total_files: usize,
}

impl UserInput {
    /// A configuration from an already validated path and total.
    pub fn new(path: Vec<u8>, total_files: usize) -> (r: Self)
        ensures
            r.path == path,
            r.total_files == total_files,
    {
        UserInput { path, total_files }
    }
}

} // verus!
