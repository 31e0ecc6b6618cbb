//! Byte sequences: what it means to overwrite a part of one, and the copies
//! that do it.

use vstd::prelude::*;

verus! {

/// The lesser of two numbers.
pub open spec fn least(a: int, b: int) -> int {
    if a <= b {
        a
    } else {
        b
    }
}

/// `target` with the bytes from index `at` on replaced by `bytes`.
pub open spec fn overwrite(target: Seq<u8>, at: int, bytes: Seq<u8>) -> Seq<u8> {
    target.take(at) + bytes + target.skip(at + bytes.len())
}

/// The contents of each of a row of vectors.
pub open spec fn rows(bufs: Seq<Vec<u8>>) -> Seq<Seq<u8>> {
    Seq::new(bufs.len(), |i: int| bufs[i]@)
}

/// The contents of each of a row of slices.
pub open spec fn slices(bufs: Seq<&[u8]>) -> Seq<Seq<u8>> {
    Seq::new(bufs.len(), |i: int| bufs[i]@)
}

/// The lesser of two counts.
pub(crate) fn least_of(a: usize, b: usize) -> (c: usize)
    ensures
        c == least(a as int, b as int),
{
    if a <= b {
        a
    } else {
        b
    }
}

/// Copies `src` over the bytes of `dst` that start at index `at`.
pub(crate) fn copy_at(dst: &mut [u8], at: usize, src: &[u8])
    requires
        at + src@.len() <= old(dst)@.len(),
    ensures
        final(dst)@ == overwrite(old(dst)@, at as int, src@),
{
    let ghost before = dst@;
    let len: usize = dst.len();
    let mut i: usize = 0;
    while i < src.len()
        invariant
            i <= src@.len(),
            dst@.len() == before.len() == len,
            at + src@.len() <= len,
            dst@ == overwrite(before, at as int, src@.take(i as int)),
        decreases src@.len() - i,
    {
        dst[at + i] = src[i];
        i = i + 1;
    }
    assert(src@.take(i as int) == src@);
}

/// What the allocator may answer when a vector that holds `held` asks for room
/// for `n` more bytes: whether `Vec::try_reserve`, called with them, can
/// succeed (`ok`) or fail (not `ok`).
pub open spec fn reserve_answers(held: Seq<u8>, n: usize, ok: bool) -> bool {
    exists|out: &mut Vec<u8>, answer: Result<(), std::collections::TryReserveError>|
        {
            &&& out@ == held
            &&& #[trigger] call_ensures(Vec::<u8>::try_reserve, (out, n), answer)
            &&& (answer is Ok) == ok
        }
}

/// Asks for room for `n` more bytes in `out`.
pub(crate) fn reserve(out: &mut Vec<u8>, n: usize) -> (ok: bool)
    ensures
        final(out)@ == old(out)@,
        reserve_answers(old(out)@, n, ok),
{
    // Called as a value: that is what puts the answer on record.
    let try_reserve = Vec::<u8>::try_reserve;
    let answer = try_reserve(out, n);
    answer.is_ok()
}

/// The number of bytes that a row of vectors holds.
pub(crate) fn total_len(bufs: &Vec<Vec<u8>>) -> (total: usize)
    requires
        rows(bufs@).flatten().len() <= usize::MAX,
    ensures
        total == rows(bufs@).flatten().len(),
{
    let mut total: usize = 0;
    let mut i: usize = 0;
    proof {
        assert(rows(bufs@).skip(0) == rows(bufs@));
    }
    while i < bufs.len()
        invariant
            i <= bufs@.len(),
            rows(bufs@).flatten().len() <= usize::MAX,
            total + rows(bufs@).skip(i as int).flatten().len() == rows(bufs@).flatten().len(),
        decreases bufs@.len() - i,
    {
        proof {
            let rest = rows(bufs@).skip(i as int);
            assert(rest.first() == bufs@[i as int]@);
            assert(rest.drop_first() == rows(bufs@).skip(i + 1));
        }
        total = total + bufs[i].len();
        i = i + 1;
    }
    assert(rows(bufs@).skip(i as int) == Seq::<Seq<u8>>::empty());
    total
}

/// Copies `src` over the first bytes of a row of vectors, going on from one
/// vector to the next.
pub(crate) fn scatter(bufs: &mut Vec<Vec<u8>>, src: &[u8])
    requires
        src@.len() <= rows(old(bufs)@).flatten().len(),
    ensures
        final(bufs)@.len() == old(bufs)@.len(),
        forall|i: int|
            0 <= i < final(bufs)@.len() ==> (#[trigger] final(bufs)@[i])@.len() == old(bufs)@[i]@.len(),
        rows(final(bufs)@).flatten() == overwrite(rows(old(bufs)@).flatten(), 0, src@),
{
    let ghost before = rows(bufs@);
    let mut i: usize = 0;
    let mut done: usize = 0;
    proof {
        assert(before.skip(0) == before);
        assert(before.take(0).flatten() == Seq::<u8>::empty());
        assert(src@.take(0) == Seq::<u8>::empty());
    }
    while i < bufs.len() && done < src.len()
        invariant
            i <= bufs@.len() == before.len(),
            done <= src@.len(),
            src@.len() - done <= before.skip(i as int).flatten().len(),
            done < src@.len() ==> done == before.take(i as int).flatten().len(),
            done <= before.take(i as int).flatten().len(),
            rows(bufs@).take(i as int).flatten() == src@.take(done as int) + before.take(
                i as int,
            ).flatten().skip(done as int),
            rows(bufs@).take(i as int).flatten().len() == before.take(i as int).flatten().len(),
            forall|j: int| 0 <= j < bufs@.len() ==> (#[trigger] bufs@[j])@.len() == before[j].len(),
            forall|j: int| i <= j < bufs@.len() ==> (#[trigger] bufs@[j])@ == before[j],
        decreases bufs@.len() - i,
    {
        let ghost was = rows(bufs@);
        let n: usize = least_of(bufs[i].len(), src.len() - done);
        let part: &[u8] = vstd::slice::slice_subrange(src, done, done + n);
        copy_at(&mut bufs[i], 0, part);
        proof {
            let now = rows(bufs@);
            let rest = before.skip(i as int);
            assert(rest.first() == before[i as int]);
            assert(rest.drop_first() == before.skip(i + 1));
            assert(now.take(i as int) == was.take(i as int));
            lemma_flatten_take_next(now, i as int);
            lemma_flatten_take_next(before, i as int);
            let head = before.take(i as int).flatten();
            assert(now[i as int] == overwrite(before[i as int], 0, part@));
            assert(src@.take(done as int) + part@ == src@.take(done + n));
            assert(head.skip(done as int) == Seq::<u8>::empty());
            assert((head + before[i as int]).skip(done + n) == before[i as int].skip(n as int));
            assert(now.take(i + 1).flatten() == src@.take(done + n) + before.take(
                i + 1,
            ).flatten().skip(done + n));
        }
        done = done + n;
        i = i + 1;
    }
    proof {
        let now = rows(bufs@);
        assert(before.skip(before.len() as int).flatten() == Seq::<u8>::empty());
        assert(now.skip(i as int) == before.skip(i as int));
        assert(now == now.take(i as int) + now.skip(i as int));
        assert(before == before.take(i as int) + before.skip(i as int));
        vstd::seq_lib::lemma_flatten_concat(now.take(i as int), now.skip(i as int));
        vstd::seq_lib::lemma_flatten_concat(before.take(i as int), before.skip(i as int));
        assert(src@.take(done as int) == src@);
        assert(before.flatten().skip(done as int) == before.take(i as int).flatten().skip(
            done as int,
        ) + before.skip(i as int).flatten());
    }
}

/// One more row adds its bytes at the end.
proof fn lemma_flatten_take_next(all: Seq<Seq<u8>>, i: int)
    requires
        0 <= i < all.len(),
    ensures
        all.take(i + 1).flatten() == all.take(i).flatten() + all[i],
{
    assert(all.take(i + 1) == all.take(i).push(all[i]));
    all.take(i).lemma_flatten_push(all[i]);
}

} // verus!
