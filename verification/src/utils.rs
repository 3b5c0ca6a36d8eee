use vstd::prelude::*;
use vstd::utf8::{
    char_is_scalar,
    encode_scalar,
    encode_utf8,
    encode_utf8_decode_utf8,
    encode_utf8_valid_utf8,
    has_width_1_encoding,
    has_width_2_encoding,
    has_width_3_encoding,
    is_scalar,
    last_continuation_byte,
    leading_byte_width_1,
    leading_byte_width_2,
    leading_byte_width_3,
    leading_byte_width_4,
    second_last_continuation_byte,
    third_last_continuation_byte,
    valid_utf8,
};

use crate::base::FreeRtosError;

verus! {

/// Whether the size that the C shim reports for check `k` agrees with the Rust
/// size, which is compared by its lowest byte.
pub open spec fn size_agrees(checks: Seq<(u8, usize)>, c_sizes: Seq<u8>, k: int) -> bool {
    c_sizes[k] == checks[k].1 as u8
}

/// The index of the first check from `i` on whose size the C shim reports
/// otherwise, if any: `c_sizes[k]` is what the shim reports for the id of `checks[k]`.
pub open spec fn first_mismatch_from(checks: Seq<(u8, usize)>, c_sizes: Seq<u8>, i: int) -> Option<
    int,
>
    decreases checks.len() - i,
{
    if i < 0 || i >= checks.len() {
        None
    } else if !size_agrees(checks, c_sizes, i) {
        Some(i)
    } else {
        first_mismatch_from(checks, c_sizes, i + 1)
    }
}

/// The index of the first check whose size the C shim reports otherwise, if any.
pub open spec fn first_mismatch(checks: Seq<(u8, usize)>, c_sizes: Seq<u8>) -> Option<int> {
    first_mismatch_from(checks, c_sizes, 0)
}

/// The outcome of the checks: the id of the first check that fails, if one does.
pub open spec fn sanity_result(checks: Seq<(u8, usize)>, c_sizes: Seq<u8>) -> Result<(), usize> {
    match first_mismatch(checks, c_sizes) {
        Some(k) => Err(checks[k].0 as usize),
        None => Ok(()),
    }
}

/// What `first_mismatch_from` finds: the first failing check at or after `i`.
pub proof fn lemma_first_mismatch_from(checks: Seq<(u8, usize)>, c_sizes: Seq<u8>, i: int)
    requires
        0 <= i <= checks.len(),
    ensures
        first_mismatch_from(checks, c_sizes, i) matches Some(k) ==> i <= k < checks.len()
            && !size_agrees(checks, c_sizes, k) && forall|j: int|
            i <= j < k ==> size_agrees(checks, c_sizes, j),
        first_mismatch_from(checks, c_sizes, i) is None ==> forall|j: int|
            i <= j < checks.len() ==> size_agrees(checks, c_sizes, j),
    decreases checks.len() - i,
{
    if i < checks.len() && size_agrees(checks, c_sizes, i) {
        lemma_first_mismatch_from(checks, c_sizes, i + 1);
        assert forall|j: int| i <= j < checks.len() && first_mismatch_from(checks, c_sizes, i) is None
            implies size_agrees(checks, c_sizes, j) by {
            if j > i {
            }
        }
    }
}

/// Where every check before `i` agrees, the first failing check overall is the
/// first failing one from `i` on.
proof fn lemma_first_mismatch_skip(checks: Seq<(u8, usize)>, c_sizes: Seq<u8>, i: int)
    requires
        0 <= i <= checks.len(),
        forall|j: int| 0 <= j < i ==> size_agrees(checks, c_sizes, j),
    ensures
        first_mismatch(checks, c_sizes) == first_mismatch_from(checks, c_sizes, i),
    decreases i,
{
    if i > 0 {
        lemma_first_mismatch_skip(checks, c_sizes, i - 1);
        assert(size_agrees(checks, c_sizes, i - 1));
    }
}

/// Perform checks whether the C FreeRTOS shim and Rust agree on the sizes of used
/// types: each check is a type's id in the shim and its size in Rust, and
/// `c_sizes` holds, check by check, the size that the shim reports for that id.
/// The error is the id of the first check that fails.
pub fn shim_sanity_check(checks: &[(u8, usize)], c_sizes: &[u8]) -> (r: Result<(), usize>)
    requires
        checks@.len() == c_sizes@.len(),
    ensures
        r == sanity_result(checks@, c_sizes@),
        r is Ok <==> forall|k: int| 0 <= k < checks@.len() ==> c_sizes@[k] == checks@[k].1 as u8,
        r matches Err(id) ==> exists|k: int|
            0 <= k < checks@.len() && c_sizes@[k] != checks@[k].1 as u8 && id == checks@[k].0
                && forall|j: int| 0 <= j < k ==> c_sizes@[j] == checks@[j].1 as u8,
{
    let mut i: usize = 0;
    while i < checks.len()
        invariant
            checks@.len() == c_sizes@.len(),
            i <= checks@.len(),
            forall|j: int| 0 <= j < i ==> c_sizes@[j] == checks@[j].1 as u8,
        decreases checks@.len() - i,
    {
        let check = checks[i];
        let c_size = c_sizes[i];
        if c_size != check.1 as u8 {
            proof {
                lemma_first_mismatch_skip(checks@, c_sizes@, i as int);
            }
            return Err(check.0 as usize);
        }
        i = i + 1;
    }
    proof {
        lemma_first_mismatch_skip(checks@, c_sizes@, i as int);
    }
    Ok(())
}

/// A step of the checks, done one size at a time: ask the shim for the size of
/// the type with id `id`, which is that of check `index`, or stop with a result.
#[derive(Debug, PartialEq, Eq)]
pub enum SanityStep {
    Query { index: usize, id: u8 },
    Finished(Result<(), usize>),
}

/// The step after which the checks from `index` on follow: stop with success past
/// the last check, else ask for the size of check `index`.
pub open spec fn query_from(checks: Seq<(u8, usize)>, index: int) -> SanityStep {
    if index >= checks.len() {
        SanityStep::Finished(Ok(()))
    } else {
        SanityStep::Query { index: index as usize, id: checks[index].0 }
    }
}

/// The step that follows the shim's answer `c_size` for check `index`: stop with the
/// check's id where the sizes differ, else go on with the next check.
pub open spec fn step_after(checks: Seq<(u8, usize)>, index: int, c_size: u8) -> SanityStep {
    if c_size != checks[index].1 as u8 {
        SanityStep::Finished(Err(checks[index].0 as usize))
    } else {
        query_from(checks, index + 1)
    }
}

/// The first step of the checks.
pub fn shim_check_first(checks: &[(u8, usize)]) -> (s: SanityStep)
    ensures
        s == query_from(checks@, 0),
        checks@.len() == 0 ==> s == SanityStep::Finished(Ok(())),
        checks@.len() > 0 ==> s == (SanityStep::Query { index: 0, id: checks@[0].0 }),
{
    if checks.len() == 0 {
        SanityStep::Finished(Ok(()))
    } else {
        SanityStep::Query { index: 0, id: checks[0].0 }
    }
}

/// The step after the shim reported `c_size` for the check at `index`.
pub fn shim_check_next(checks: &[(u8, usize)], index: usize, c_size: u8) -> (s: SanityStep)
    requires
        index < checks@.len(),
    ensures
        s == step_after(checks@, index as int, c_size),
        c_size != checks@[index as int].1 as u8 ==> s == SanityStep::Finished(
            Err(checks@[index as int].0 as usize),
        ),
        c_size == checks@[index as int].1 as u8 && index + 1 == checks@.len() ==> s
            == SanityStep::Finished(Ok(())),
        c_size == checks@[index as int].1 as u8 && index + 1 < checks@.len() ==> s == (
        SanityStep::Query { index: (index + 1) as usize, id: checks@[index + 1].0 }),
{
    if c_size != checks[index].1 as u8 {
        return SanityStep::Finished(Err(checks[index].0 as usize));
    }
    if index + 1 == checks.len() {
        SanityStep::Finished(Ok(()))
    } else {
        SanityStep::Query { index: index + 1, id: checks[index + 1].0 }
    }
}

/// The result and the number of sizes asked for, when the steps go on from a query
/// of check `i`, with the shim answering `c_sizes[k]` for check `k`.
pub open spec fn run_steps(checks: Seq<(u8, usize)>, c_sizes: Seq<u8>, i: int) -> (
    Result<(), usize>,
    nat,
)
    decreases checks.len() - i,
    when checks.len() <= usize::MAX
{
    if i < 0 || i >= checks.len() {
        (Ok(()), 0)
    } else {
        match step_after(checks, i, c_sizes[i]) {
            SanityStep::Finished(r) => (r, 1),
            SanityStep::Query { index, .. } => {
                let (r, n) = run_steps(checks, c_sizes, index as int);
                (r, n + 1)
            },
        }
    }
}

/// Every query names the id of the check it asks about: a step asks the shim for
/// the size of check `k` by that check's own id, and after a size that agrees it
/// asks about the very next check; a size that differs ends the checks with the
/// id of the check it belongs to.
pub proof fn lemma_queries_name_their_check(checks: Seq<(u8, usize)>, k: int, c_size: u8)
    requires
        0 <= k < checks.len(),
        checks.len() <= usize::MAX,
    ensures
        query_from(checks, k) == (SanityStep::Query { index: k as usize, id: checks[k].0 }),
        step_after(checks, k, c_size) matches SanityStep::Query { index, id } ==> index == k + 1
            && id == checks[k + 1].0,
        c_size != checks[k].1 as u8 ==> step_after(checks, k, c_size) == SanityStep::Finished(
            Err(checks[k].0 as usize),
        ),
        c_size == checks[k].1 as u8 ==> (step_after(checks, k, c_size) is Query <==> k + 1
            < checks.len()),
        c_size == checks[k].1 as u8 && k + 1 == checks.len() ==> step_after(checks, k, c_size)
            == SanityStep::Finished(Ok(())),
{
}

/// The number of sizes that the checks ask for: up to and including the first
/// check that fails, or all of them.
pub open spec fn sizes_asked(checks: Seq<(u8, usize)>, c_sizes: Seq<u8>) -> nat {
    match first_mismatch(checks, c_sizes) {
        Some(k) => (k + 1) as nat,
        None => checks.len(),
    }
}

proof fn lemma_run_from(checks: Seq<(u8, usize)>, c_sizes: Seq<u8>, i: int)
    requires
        0 <= i <= checks.len(),
        checks.len() < usize::MAX,
    ensures
        run_steps(checks, c_sizes, i) == (match first_mismatch_from(
            checks,
            c_sizes,
            i,
        ) {
            Some(k) => (Err::<(), usize>(checks[k].0 as usize), (k + 1 - i) as nat),
            None => (Ok::<(), usize>(()), (checks.len() - i) as nat),
        }),
    decreases checks.len() - i,
{
    if i < checks.len() {
        lemma_run_from(checks, c_sizes, i + 1);
        lemma_first_mismatch_from(checks, c_sizes, i + 1);
    }
}

/// Checking one size at a time gives the result of `shim_sanity_check` on all the
/// sizes, and asks the shim for no size after the first one that differs.
pub proof fn lemma_steps_match_check(checks: Seq<(u8, usize)>, c_sizes: Seq<u8>)
    requires
        checks.len() == c_sizes.len(),
        checks.len() < usize::MAX,
    ensures
        query_from(checks, 0) == (if checks.len() == 0 {
            SanityStep::Finished(Ok(()))
        } else {
            SanityStep::Query { index: 0, id: checks[0].0 }
        }),
        run_steps(checks, c_sizes, 0) == (
            sanity_result(checks, c_sizes),
            sizes_asked(checks, c_sizes),
        ),
{
    lemma_run_from(checks, c_sizes, 0);
    lemma_first_mismatch_from(checks, c_sizes, 0);
}

/// The bytes of a C string: those before the first NUL, or all of them where
/// there is none.
pub open spec fn c_string_bytes(bytes: Seq<u8>) -> Seq<u8> {
    if exists|k: int| 0 <= k < bytes.len() && bytes[k] == 0 {
        bytes.take(
            choose|k: int|
                0 <= k < bytes.len() && bytes[k] == 0 && forall|j: int| 0 <= j < k ==> bytes[j] != 0,
        )
    } else {
        bytes
    }
}

/// `String::from_utf8`: the string whose UTF-8 encoding is `bytes`, where they are
/// valid UTF-8.
#[verifier::external_body]
fn string_from_utf8(bytes: Vec<u8>) -> (r: Option<String>)
    ensures
        r is Some <==> valid_utf8(bytes@),
        r matches Some(s) ==> encode_utf8(s@) == bytes@,
{
    match String::from_utf8(bytes) {
        Ok(s) => Some(s),
        Err(_) => None,
    }
}

/// The string held by the bytes of a C string, up to its terminating NUL.
pub fn str_from_c_string(bytes: &[u8]) -> (r: Result<String, FreeRtosError>)
    ensures
        r is Ok <==> valid_utf8(c_string_bytes(bytes@)),
        r matches Ok(s) ==> encode_utf8(s@) == c_string_bytes(bytes@),
        r matches Err(e) ==> e == FreeRtosError::StringConversionError,
{
    let mut buf: Vec<u8> = Vec::new();
    let mut i: usize = 0;
    while i < bytes.len()
        invariant
            i <= bytes@.len(),
            buf@ == bytes@.take(i as int),
            forall|j: int| 0 <= j < i ==> bytes@[j] != 0,
        ensures
            i == bytes@.len() || bytes@[i as int] == 0,
        decreases bytes@.len() - i,
    {
        if bytes[i] == 0 {
            break;
        }
        buf.push(bytes[i]);
        i = i + 1;
        proof {
            assert(buf@ =~= bytes@.take(i as int));
        }
    }
    proof {
        if i < bytes@.len() {
            assert(bytes@[i as int] == 0);
            let k = choose|k: int|
                0 <= k < bytes@.len() && bytes@[k] == 0 && forall|j: int|
                    0 <= j < k ==> bytes@[j] != 0;
            assert(k == i as int) by {
                if k < i {
                    assert(bytes@[k] != 0);
                }
                if k > i {
                    assert(bytes@[i as int] != 0);
                }
            }
        } else {
            assert(bytes@.take(i as int) =~= bytes@);
        }
    }
    match string_from_utf8(buf) {
        Some(s) => Ok(s),
        None => Err(FreeRtosError::StringConversionError),
    }
}

/// The UTF-8 encoding of a scalar other than zero holds no zero byte.
proof fn lemma_encode_scalar_no_nul(v: u32)
    requires
        is_scalar(v),
        v != 0,
    ensures
        forall|k: int| 0 <= k < encode_scalar(v).len() ==> encode_scalar(v)[k] != 0,
{
    if has_width_1_encoding(v) {
        assert(leading_byte_width_1(v) != 0) by (bit_vector)
            requires
                v <= 0x7f,
                v != 0,
        ;
    } else if has_width_2_encoding(v) {
        assert(leading_byte_width_2(v) != 0 && last_continuation_byte(v) != 0) by (bit_vector);
    } else if has_width_3_encoding(v) {
        assert(leading_byte_width_3(v) != 0 && second_last_continuation_byte(v) != 0
            && last_continuation_byte(v) != 0) by (bit_vector);
    } else {
        assert(leading_byte_width_4(v) != 0 && third_last_continuation_byte(v) != 0
            && second_last_continuation_byte(v) != 0 && last_continuation_byte(v) != 0)
            by (bit_vector);
    }
}

/// The UTF-8 encoding of characters other than NUL holds no zero byte.
proof fn lemma_encode_no_nul(chars: Seq<char>)
    requires
        forall|i: int| 0 <= i < chars.len() ==> chars[i] as u32 != 0,
    ensures
        forall|k: int| 0 <= k < encode_utf8(chars).len() ==> encode_utf8(chars)[k] != 0,
    decreases chars.len(),
{
    if chars.len() > 0 {
        char_is_scalar(chars[0]);
        lemma_encode_scalar_no_nul(chars[0] as u32);
        lemma_encode_no_nul(chars.drop_first());
        let e = encode_scalar(chars[0] as u32);
        let r = encode_utf8(chars.drop_first());
        assert forall|k: int| 0 <= k < encode_utf8(chars).len() implies encode_utf8(chars)[k]
            != 0 by {
            if k < e.len() {
                assert(encode_utf8(chars)[k] == e[k]);
            } else {
                assert(encode_utf8(chars)[k] == r[k - e.len()]);
            }
        }
    }
}

/// A string without NUL characters, written as a C string (its UTF-8 encoding and a
/// terminating NUL), is read back as the same string: the bytes before the NUL are
/// its encoding, they are valid UTF-8, and no other string has that encoding.
pub proof fn lemma_c_string_round_trip(chars: Seq<char>)
    requires
        forall|i: int| 0 <= i < chars.len() ==> chars[i] as u32 != 0,
    ensures
        c_string_bytes(encode_utf8(chars).push(0)) == encode_utf8(chars),
        valid_utf8(encode_utf8(chars)),
        forall|s: Seq<char>| #[trigger] encode_utf8(s) == encode_utf8(chars) ==> s == chars,
{
    let e = encode_utf8(chars);
    let b = e.push(0);
    lemma_encode_no_nul(chars);
    encode_utf8_valid_utf8(chars);
    let n = e.len() as int;
    assert(b[n] == 0);
    let k = choose|k: int|
        0 <= k < b.len() && b[k] == 0 && forall|j: int| 0 <= j < k ==> b[j] != 0;
    assert(k == n) by {
        if k < n {
            assert(b[k] == e[k]);
        }
        if k > n {
            assert(b[n] != 0);
        }
    }
    assert(b.take(n) =~= e);
    assert forall|s: Seq<char>| #[trigger] encode_utf8(s) == encode_utf8(chars) implies s
        == chars by {
        encode_utf8_decode_utf8(s);
        encode_utf8_decode_utf8(chars);
    }
}

} // verus!
