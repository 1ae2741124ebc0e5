//! The pure half of terminal-ancestry resolution: parsing the process
//! records the adapter reads while walking from a window's process to the
//! terminal that launched it.  Any malformed input yields `None`, so a
//! failed walk degrades to "no tag inheritance" and never an error.

use vstd::prelude::*;

use crate::helpers;

verus! {

/// The byte is the ASCII space separator of a process record.
pub open spec fn is_space() -> spec_fn(u8) -> bool {
    |b: u8| b == 32u8
}

/// The record's first space-separated token.
pub open spec fn first_token_s(s: Seq<u8>) -> Seq<u8> {
    match helpers::find_idx(s, is_space()) {
        Some(i) => s.take(i),
        None => s,
    }
}

/// The record's `n`-th space-separated token, if the record has one.
pub open spec fn nth_token_s(s: Seq<u8>, n: nat) -> Option<Seq<u8>>
    decreases n,
{
    if n == 0 {
        Some(first_token_s(s))
    } else {
        match helpers::find_idx(s, is_space()) {
            Some(i) => nth_token_s(s.skip(i + 1), (n - 1) as nat),
            None => None,
        }
    }
}

/// All bytes are ASCII decimal digits, and there is at least one.
pub open spec fn is_digits_s(s: Seq<u8>) -> bool {
    s.len() > 0 && forall|i: int| 0 <= i < s.len() ==> 48 <= #[trigger] s[i] <= 57
}

/// The value of an ASCII decimal numeral.
pub open spec fn dec_val_s(s: Seq<u8>) -> int
    decreases s.len(),
{
    if s.len() == 0 {
        0
    } else {
        dec_val_s(s.drop_last()) * 10 + (s.last() - 48)
    }
}

/// The parent process id of a process `stat` record: its fourth
/// space-separated field, read as a decimal number.
pub open spec fn stat_ppid_s(stat: Seq<u8>) -> Option<u32> {
    match nth_token_s(stat, 3) {
        None => None,
        Some(t) => if is_digits_s(t) && dec_val_s(t) <= u32::MAX {
            Some(dec_val_s(t) as u32)
        } else {
            None
        },
    }
}

/// Whether a process `comm` record names the given shell: its first
/// space-separated token, with the trailing newline removed, equals the
/// shell's name byte for byte.
pub open spec fn comm_is_shell_s(comm: Seq<u8>, shell: Seq<u8>) -> bool {
    let t = first_token_s(comm);
    t.len() > 0 && t.last() == 10 && t.drop_last() == shell
}

/// The basename of a shell path: everything after the last `/`.
pub open spec fn basename_s(s: Seq<u8>) -> Seq<u8>
    decreases s.len(),
{
    if s.len() == 0 {
        s
    } else if s.last() == 47u8 {
        Seq::empty()
    } else {
        basename_s(s.drop_last()).push(s.last())
    }
}

/// Position of the first space at or after `from`.
fn find_space(v: &Vec<u8>, from: usize) -> (r: Option<usize>)
    requires
        from <= v@.len(),
    ensures
        match r {
            Some(i) => {
                &&& from <= i < v@.len()
                &&& helpers::find_idx(v@.skip(from as int), is_space()) == Some(
                    i - from as int,
                )
            },
            None => helpers::find_idx(v@.skip(from as int), is_space()) is None,
        },
{
    let ghost tail = v@.skip(from as int);
    proof {
        helpers::lemma_find_idx_spec(tail, is_space());
        assert(forall|j: int| 0 <= j < tail.len() ==> #[trigger] tail[j] == v@[from + j]);
    }
    let mut i: usize = from;
    while i < v.len()
        invariant
            from <= i <= v@.len(),
            tail == v@.skip(from as int),
            forall|j: int| from <= j < i ==> #[trigger] v@[j] != 32u8,
        decreases v@.len() - i,
    {
        if v[i] == 32u8 {
            proof {
                assert(is_space()(tail[i - from as int]));
                match helpers::find_idx(tail, is_space()) {
                    Some(k) => {
                        if k < i - from as int {
                            assert(is_space()(tail[k]));
                            assert(tail[k] == v@[from + k]);
                        } else if k > i - from as int {
                            assert(!is_space()(tail[i - from as int]));
                        }
                    },
                    None => {
                        assert(!is_space()(tail[i - from as int]));
                    },
                }
            }
            return Some(i);
        }
        i = i + 1;
    }
    proof {
        match helpers::find_idx(tail, is_space()) {
            Some(k) => {
                assert(is_space()(tail[k]));
                assert(tail[k] == v@[from + k]);
            },
            None => {},
        }
    }
    None
}

/// Parse the parent process id out of a process `stat` record.
pub fn parse_stat_ppid(stat: &Vec<u8>) -> (r: Option<u32>)
    ensures
        r == stat_ppid_s(stat@),
{
    let total = stat.len();
    let mut pos: usize = 0;
    let mut skipped: usize = 0;
    proof {
        assert(stat@.skip(0) =~= stat@);
    }
    while skipped < 3
        invariant
            total == stat@.len(),
            0 <= pos <= stat@.len(),
            0 <= skipped <= 3,
            nth_token_s(stat@, 3) == nth_token_s(stat@.skip(pos as int), (3 - skipped) as nat),
        decreases 3 - skipped,
    {
        match find_space(stat, pos) {
            Some(i) => {
                proof {
                    let tail = stat@.skip(pos as int);
                    assert(tail.skip(i - pos as int + 1) =~= stat@.skip(i + 1));
                }
                pos = i + 1;
                skipped = skipped + 1;
            },
            None => {
                return None;
            },
        }
    }
    let end = match find_space(stat, pos) {
        Some(i) => i,
        None => total,
    };
    let ghost tok = first_token_s(stat@.skip(pos as int));
    proof {
        let tail = stat@.skip(pos as int);
        match helpers::find_idx(tail, is_space()) {
            Some(k) => {
                assert(tok =~= stat@.subrange(pos as int, pos + k));
            },
            None => {
                assert(tok =~= stat@.subrange(pos as int, stat@.len() as int));
            },
        }
        assert(tok =~= stat@.subrange(pos as int, end as int));
    }
    parse_u32_digits(stat, pos, end)
}

/// Parse the decimal numeral in `v[from..end]` as a `u32`.
fn parse_u32_digits(v: &Vec<u8>, from: usize, end: usize) -> (r: Option<u32>)
    requires
        from <= end <= v@.len(),
    ensures
        ({
            let t = v@.subrange(from as int, end as int);
            r == (if is_digits_s(t) && dec_val_s(t) <= u32::MAX {
                Some(dec_val_s(t) as u32)
            } else {
                None::<u32>
            })
        }),
{
    if from == end {
        return None;
    }
    let mut val: u64 = 0;
    let mut i: usize = from;
    while i < end
        invariant
            from <= i <= end <= v@.len(),
            from < end,
            is_digits_s(v@.subrange(from as int, i as int)) || i == from,
            val == dec_val_s(v@.subrange(from as int, i as int)),
            val <= u32::MAX,
        decreases end - i,
    {
        let b = v[i];
        if b < 48 || b > 57 {
            proof {
                let t = v@.subrange(from as int, end as int);
                assert(t[i - from as int] == v@[i as int]);
            }
            return None;
        }
        let d = (b - 48) as u64;
        let next = val * 10 + d;
        proof {
            assert(v@.subrange(from as int, i + 1) =~= v@.subrange(from as int, i as int).push(
                v@[i as int],
            ));
            assert(v@.subrange(from as int, i + 1).drop_last() =~= v@.subrange(
                from as int,
                i as int,
            ));
        }
        if next > u32::MAX as u64 {
            // The numeral overflows; check the remaining bytes are digits
            // all the same, since a long numeral of digits still parses as
            // "too large", not as "not a number".
            let all = remaining_digits(v, i, end);
            proof {
                let t = v@.subrange(from as int, end as int);
                if all {
                    lemma_dec_val_monotonic(v@, from as int, i + 1, end as int);
                    assert(dec_val_s(t) >= dec_val_s(v@.subrange(from as int, i + 1)));
                    assert forall|j: int| 0 <= j < t.len() implies 48 <= #[trigger] t[j]
                        <= 57 by {
                        assert(t[j] == v@[from + j]);
                        if from + j < i {
                            assert(v@.subrange(from as int, i as int)[j] == v@[from + j]);
                        } else if from + j == i {
                        } else {
                        }
                    }
                } else {
                    let j = choose|j: int| i < j < end && !(48 <= #[trigger] v@[j] <= 57);
                    assert(t[j - from as int] == v@[j]);
                }
            }
            return None;
        }
        val = next;
        i = i + 1;
    }
    proof {
        assert(v@.subrange(from as int, end as int) =~= v@.subrange(from as int, i as int));
    }
    Some(val as u32)
}

/// Whether every byte in `v[(after+1)..end]` is a decimal digit.
fn remaining_digits(v: &Vec<u8>, after: usize, end: usize) -> (r: bool)
    requires
        after < end <= v@.len(),
    ensures
        r == forall|j: int| after < j < end ==> 48 <= #[trigger] v@[j] <= 57,
{
    let mut i: usize = after + 1;
    while i < end
        invariant
            after < i <= end <= v@.len(),
            forall|j: int| after < j < i ==> 48 <= #[trigger] v@[j] <= 57,
        decreases end - i,
    {
        if v[i] < 48 || v[i] > 57 {
            return false;
        }
        i = i + 1;
    }
    true
}

/// A decimal numeral only grows as digits are appended.
proof fn lemma_dec_val_monotonic(v: Seq<u8>, from: int, mid: int, end: int)
    requires
        0 <= from <= mid <= end <= v.len(),
        forall|j: int| mid <= j < end ==> 48 <= #[trigger] v[j] <= 57,
        dec_val_s(v.subrange(from, mid)) >= 0,
    ensures
        dec_val_s(v.subrange(from, end)) >= dec_val_s(v.subrange(from, mid)),
    decreases end - mid,
{
    if mid < end {
        assert(v.subrange(from, mid + 1).drop_last() =~= v.subrange(from, mid));
        assert(v.subrange(from, mid + 1).last() == v[mid]);
        assert(dec_val_s(v.subrange(from, mid + 1)) >= dec_val_s(v.subrange(from, mid)));
        lemma_dec_val_monotonic(v, from, mid + 1, end);
    } else {
        assert(v.subrange(from, end) =~= v.subrange(from, mid));
    }
}

/// Whether a process `comm` record names the given shell.
pub fn comm_matches_shell(comm: &Vec<u8>, shell: &Vec<u8>) -> (r: bool)
    ensures
        r == comm_is_shell_s(comm@, shell@),
{
    let end = match find_space(comm, 0) {
        Some(i) => i,
        None => comm.len(),
    };
    let ghost tok = first_token_s(comm@);
    proof {
        assert(comm@.skip(0) =~= comm@);
        match helpers::find_idx(comm@, is_space()) {
            Some(k) => {
                assert(tok =~= comm@.subrange(0, end as int));
            },
            None => {
                assert(tok =~= comm@.subrange(0, end as int));
            },
        }
    }
    if end == 0 {
        return false;
    }
    if comm[end - 1] != 10 {
        proof {
            assert(tok.last() == comm@[end - 1]);
        }
        return false;
    }
    if end - 1 != shell.len() {
        proof {
            assert(tok.drop_last().len() == end - 1);
        }
        return false;
    }
    let mut i: usize = 0;
    while i < end - 1
        invariant
            0 <= i <= end - 1,
            end <= comm@.len(),
            end - 1 == shell@.len(),
            tok == first_token_s(comm@),
            tok =~= comm@.subrange(0, end as int),
            forall|j: int| 0 <= j < i ==> #[trigger] comm@[j] == shell@[j],
        decreases end - 1 - i,
    {
        if comm[i] != shell[i] {
            proof {
                assert(tok.drop_last()[i as int] == comm@[i as int]);
            }
            return false;
        }
        i = i + 1;
    }
    proof {
        assert(tok.drop_last() =~= shell@);
    }
    true
}

/// A suffix holding no `/`, cut just after a `/` (or at the front), is
/// the basename.
proof fn lemma_basename_suffix(s: Seq<u8>, start: int)
    requires
        0 <= start <= s.len(),
        forall|j: int| start <= j < s.len() ==> #[trigger] s[j] != 47u8,
        start > 0 ==> s[start - 1] == 47u8,
    ensures
        basename_s(s) == s.subrange(start, s.len() as int),
    decreases s.len() - start,
{
    if start == s.len() {
        if s.len() == 0 {
            assert(s.subrange(0, 0) =~= s);
        } else {
            assert(s.last() == 47u8);
            assert(s.subrange(start, s.len() as int) =~= Seq::<u8>::empty());
        }
    } else {
        assert(s.last() != 47u8);
        let s0 = s.drop_last();
        lemma_basename_suffix(s0, start);
        assert(s0.subrange(start, s0.len() as int) =~= s.subrange(start, s.len() - 1));
        assert(basename_s(s) =~= s.subrange(start, s.len() as int));
    }
}

/// The basename of a shell path: everything after the last `/`.
pub fn shell_basename(path: &Vec<u8>) -> (r: Vec<u8>)
    ensures
        r@ == basename_s(path@),
{
    let mut start: usize = path.len();
    while start > 0
        invariant
            0 <= start <= path@.len(),
            forall|j: int| start <= j < path@.len() ==> #[trigger] path@[j] != 47u8,
        decreases start,
    {
        if path[start - 1] == 47u8 {
            break ;
        }
        start = start - 1;
    }
    proof {
        lemma_basename_suffix(path@, start as int);
    }
    let mut out: Vec<u8> = Vec::new();
    let mut i: usize = start;
    proof {
        assert(out@ =~= path@.subrange(start as int, start as int));
    }
    while i < path.len()
        invariant
            start <= i <= path@.len(),
            out@ =~= path@.subrange(start as int, i as int),
        decreases path@.len() - i,
    {
        out.push(path[i]);
        proof {
            assert(path@.subrange(start as int, i + 1) =~= path@.subrange(
                start as int,
                i as int,
            ).push(path@[i as int]));
        }
        i = i + 1;
    }
    out
}

} // verus!
