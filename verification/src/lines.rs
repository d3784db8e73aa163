//! Complete lines in the bytes read from a followed file.

use vstd::prelude::*;

verus! {

/// A line without the carriage return that ends it, if any.
pub open spec fn strip_cr(line: Seq<u8>) -> Seq<u8> {
    if line.len() > 0 && line.last() == 13u8 {
        line.drop_last()
    } else {
        line
    }
}

/// The bytes read so far, cut into the complete lines (each without its `\n` and without a
/// `\r` just before it) and the start of a line that is not complete yet.
pub open spec fn split_lines(b: Seq<u8>) -> (Seq<Seq<u8>>, Seq<u8>)
    decreases b.len(),
{
    if b.len() == 0 {
        (Seq::empty(), Seq::empty())
    } else {
        let (lines, current) = split_lines(b.drop_last());
        if b.last() == 10u8 {
            (lines.push(strip_cr(current)), Seq::empty())
        } else {
            (lines, current.push(b.last()))
        }
    }
}

/// `b` with the carriage return dropped from each `\r\n`.
pub open spec fn without_cr_before_lf(b: Seq<u8>) -> Seq<u8>
    decreases b.len(),
{
    if b.len() == 0 {
        Seq::empty()
    } else if b.last() == 10u8 && b.len() >= 2 && b[b.len() - 2] == 13u8 {
        without_cr_before_lf(b.drop_last().drop_last()).push(10u8)
    } else {
        without_cr_before_lf(b.drop_last()).push(b.last())
    }
}

/// Lines put back together, each followed by `\n`.
pub open spec fn rejoin(lines: Seq<Seq<u8>>) -> Seq<u8>
    decreases lines.len(),
{
    if lines.len() == 0 {
        Seq::empty()
    } else {
        rejoin(lines.drop_last()) + lines.last() + seq![10u8]
    }
}

/// The number of `\n` bytes in `b`.
pub open spec fn count_lf(b: Seq<u8>) -> nat
    decreases b.len(),
{
    if b.len() == 0 {
        0
    } else {
        count_lf(b.drop_last()) + if b.last() == 10u8 { 1nat } else { 0nat }
    }
}

/// Cutting bytes into lines loses nothing but the carriage return of each `\r\n`: there is
/// one complete line for each `\n`, what is left holds no `\n`, and the lines, each put
/// back with its `\n`, followed by what is left, give back the bytes.
pub proof fn law_lines_keep_every_byte(b: Seq<u8>)
    ensures
        ({
            let (lines, rest) = split_lines(b);
            &&& lines.len() == count_lf(b)
            &&& !rest.contains(10u8)
            &&& rejoin(lines) + rest == without_cr_before_lf(b)
        }),
    decreases b.len(),
{
    let (lines, rest) = split_lines(b);
    if b.len() == 0 {
        assert(rest =~= Seq::<u8>::empty());
        assert(rejoin(lines) + rest =~= without_cr_before_lf(b));
    } else {
        let p = b.drop_last();
        law_lines_keep_every_byte(p);
        lemma_rest_ends_as_bytes(p);
        let (l0, c0) = split_lines(p);
        if b.last() == 10u8 {
            if p.len() > 0 && p.last() == 13u8 {
                assert(p.drop_last() == b.drop_last().drop_last());
                assert(b[b.len() - 2] == p.last());
                lemma_rest_ends_as_bytes(p.drop_last());
                assert(without_cr_before_lf(p) == without_cr_before_lf(p.drop_last()).push(13u8));
                assert(strip_cr(c0) == c0.drop_last());
                assert(rejoin(l0) + c0 == (rejoin(l0) + c0.drop_last()).push(13u8));
                assert(without_cr_before_lf(p).drop_last() =~= without_cr_before_lf(p.drop_last()));
                assert((rejoin(l0) + c0).drop_last() =~= rejoin(l0) + c0.drop_last());
                assert(without_cr_before_lf(p.drop_last()) =~= rejoin(l0) + c0.drop_last());
                assert(lines.drop_last() =~= l0);
                assert(rejoin(lines) == rejoin(l0) + strip_cr(c0) + seq![10u8]);
                assert(without_cr_before_lf(b) == without_cr_before_lf(p.drop_last()).push(10u8));
                assert(rejoin(lines) + rest =~= without_cr_before_lf(b));
            } else {
                assert(strip_cr(c0) == c0);
                if p.len() > 0 {
                    assert(b[b.len() - 2] == p.last());
                }
                assert(without_cr_before_lf(b) == without_cr_before_lf(p).push(10u8));
                assert(lines.drop_last() =~= l0);
                assert(rejoin(lines) == rejoin(l0) + c0 + seq![10u8]);
                assert(rejoin(lines) + rest =~= without_cr_before_lf(b));
            }
            assert(!rest.contains(10u8));
        } else {
            assert(rejoin(lines) + rest =~= without_cr_before_lf(b));
            assert forall|k: int| 0 <= k < rest.len() implies rest[k] != 10u8 by {
                if k < c0.len() {
                    assert(rest[k] == c0[k]);
                }
            }
        }
    }
}

/// What is left after the last `\n` ends with the last byte, unless that byte is `\n`.
proof fn lemma_rest_ends_as_bytes(b: Seq<u8>)
    ensures
        b.len() > 0 && b.last() == 10u8 ==> split_lines(b).1.len() == 0,
        b.len() > 0 && b.last() != 10u8 ==> split_lines(b).1.len() > 0 && split_lines(b).1.last() == b.last(),
{
}

/// The abstract value of a list of lines.
pub open spec fn lines_view(v: Seq<Vec<u8>>) -> Seq<Seq<u8>> {
    v.map_values(|l: Vec<u8>| l@)
}

/// Takes the complete lines out of `buffer`, leaving the start of the next line in it.
pub fn take_complete_lines(buffer: &mut Vec<u8>) -> (lines: Vec<Vec<u8>>)
    ensures
        (lines_view(lines@), final(buffer)@) == split_lines(old(buffer)@),
{
    let ghost all = buffer@;
    let mut lines: Vec<Vec<u8>> = Vec::new();
    let mut current: Vec<u8> = Vec::new();
    let mut i: usize = 0;
    while i < buffer.len()
        invariant
            buffer@ == all,
            i <= all.len(),
            (lines_view(lines@), current@) == split_lines(all.take(i as int)),
        decreases all.len() - i,
    {
        let byte = buffer[i];
        assert(all.take(i + 1).drop_last() =~= all.take(i as int));
        if byte == 10u8 {
            let n = current.len();
            if n > 0 && current[n - 1] == 13u8 {
                current.pop();
            }
            let mut done: Vec<u8> = Vec::new();
            std::mem::swap(&mut done, &mut current);
            lines.push(done);
            assert(lines_view(lines@) =~= split_lines(all.take(i + 1)).0);
        } else {
            current.push(byte);
        }
        i = i + 1;
    }
    assert(all.take(all.len() as int) =~= all);
    *buffer = current;
    lines
}

} // verus!
