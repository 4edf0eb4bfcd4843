//! Cutting a stream into fixed-size blocks: the complete blocks at its
//! front and the shorter tail that waits for more input.

use vstd::prelude::*;

verus! {

/// The complete blocks of `c` items at the front of `s`, in order.
pub open spec fn blocks_of<T>(s: Seq<T>, c: nat) -> Seq<Seq<T>>
    decreases s.len(),
{
    if c == 0 || s.len() < c {
        Seq::empty()
    } else {
        seq![s.take(c as int)] + blocks_of(s.skip(c as int), c)
    }
}

/// What is left of `s` once its complete blocks of `c` items are cut off.
pub open spec fn leftover_of<T>(s: Seq<T>, c: nat) -> Seq<T>
    decreases s.len(),
{
    if c == 0 || s.len() < c {
        s
    } else {
        leftover_of(s.skip(c as int), c)
    }
}

/// Cutting a stream into blocks loses and reorders nothing: the blocks, one
/// after the other, followed by the leftover, are the stream itself; every
/// block has exactly `c` items and the leftover fewer than `c`.
pub proof fn lemma_blocks_partition<T>(s: Seq<T>, c: nat)
    requires
        c > 0,
    ensures
        blocks_of(s, c).flatten() + leftover_of(s, c) == s,
        forall|i: int| 0 <= i < blocks_of(s, c).len() ==> #[trigger] blocks_of(s, c)[i].len() == c,
        leftover_of(s, c).len() < c,
        blocks_of(s, c).len() * c + leftover_of(s, c).len() == s.len(),
    decreases s.len(),
{
    if s.len() < c {
        assert(blocks_of(s, c) =~= Seq::<Seq<T>>::empty());
        assert(Seq::<Seq<T>>::empty().flatten() =~= Seq::<T>::empty());
        assert(Seq::<T>::empty() + s =~= s);
    } else {
        let rest = s.skip(c as int);
        lemma_blocks_partition(rest, c);
        let b = blocks_of(s, c);
        assert(b == seq![s.take(c as int)] + blocks_of(rest, c));
        assert(b.first() == s.take(c as int));
        assert(b.drop_first() =~= blocks_of(rest, c));
        assert(b.flatten() == s.take(c as int) + blocks_of(rest, c).flatten());
        let fb = blocks_of(rest, c).flatten();
        let lo = leftover_of(rest, c);
        assert(s.take(c as int) + rest =~= s);
        assert(s.take(c as int) + fb + lo =~= s.take(c as int) + (fb + lo));
        assert forall|i: int| 0 <= i < b.len() implies #[trigger] b[i].len() == c by {
            if i > 0 {
                assert(b[i] == blocks_of(rest, c)[i - 1]);
            }
        }
        assert(b.len() * c == c + blocks_of(rest, c).len() * c) by (nonlinear_arith)
            requires
                b.len() == 1 + blocks_of(rest, c).len(),
        ;
    }
}

/// Taking one block off the front of a stream of at least `c` items.
pub proof fn lemma_blocks_step<T>(s: Seq<T>, pos: int, c: nat)
    requires
        c > 0,
        0 <= pos,
        pos + c <= s.len(),
    ensures
        blocks_of(s.skip(pos), c) == seq![s.subrange(pos, pos + c)] + blocks_of(
            s.skip(pos + c),
            c,
        ),
        leftover_of(s.skip(pos), c) == leftover_of(s.skip(pos + c), c),
{
    assert(s.skip(pos).take(c as int) =~= s.subrange(pos, pos + c));
    assert(s.skip(pos).skip(c as int) =~= s.skip(pos + c));
}

/// A stream shorter than a block has no complete block and is its own leftover.
pub proof fn lemma_blocks_short<T>(s: Seq<T>, c: nat)
    requires
        s.len() < c,
    ensures
        blocks_of(s, c) == Seq::<Seq<T>>::empty(),
        leftover_of(s, c) == s,
{
}


/// Cuts `all` into its complete blocks of `c` items and the leftover.
pub(crate) fn cut_blocks<T: Copy>(all: &[T], c: usize) -> (r: (Vec<Vec<T>>, Vec<T>))
    requires
        c > 0,
    ensures
        r.0@.map_values(|v: Vec<T>| v@) == blocks_of(all@, c as nat),
        r.1@ == leftover_of(all@, c as nat),
{
    let mut out: Vec<Vec<T>> = Vec::new();
    let mut pos: usize = 0;
    assert(all@.skip(0) =~= all@);
    while all.len() - pos >= c
        invariant
            c > 0,
            pos <= all@.len(),
            all.len() == all@.len(),
            out@.map_values(|v: Vec<T>| v@) + blocks_of(all@.skip(pos as int), c as nat) == blocks_of(
                all@,
                c as nat,
            ),
            leftover_of(all@.skip(pos as int), c as nat) == leftover_of(all@, c as nat),
        decreases all@.len() - pos,
    {
        let block = vstd::slice::slice_to_vec(&all[pos..pos + c]);
        proof {
            lemma_blocks_step(all@, pos as int, c as nat);
        }
        let ghost before = out@.map_values(|v: Vec<T>| v@);
        out.push(block);
        assert(out@.map_values(|v: Vec<T>| v@) =~= before.push(all@.subrange(pos as int, pos + c)));
        assert(before.push(all@.subrange(pos as int, pos + c)) + blocks_of(
            all@.skip(pos + c),
            c as nat,
        ) =~= before + (seq![all@.subrange(pos as int, pos + c)] + blocks_of(
            all@.skip(pos + c),
            c as nat,
        )));
        pos = pos + c;
    }
    let rest = vstd::slice::slice_to_vec(&all[pos..all.len()]);
    proof {
        lemma_blocks_short(all@.skip(pos as int), c as nat);
    }
    assert(rest@ =~= all@.skip(pos as int));
    assert(out@.map_values(|v: Vec<T>| v@) + Seq::<Seq<T>>::empty() =~= out@.map_values(
        |v: Vec<T>| v@,
    ));
    (out, rest)
}


/// A stream of `n` items gives `n / c` complete blocks and leaves `n % c`.
pub proof fn lemma_blocks_count<T>(s: Seq<T>, c: nat)
    requires
        c > 0,
    ensures
        blocks_of(s, c).len() == s.len() / c,
        leftover_of(s, c).len() == s.len() % c,
{
    lemma_blocks_partition(s, c);
    let k = blocks_of(s, c).len() as int;
    let r = leftover_of(s, c).len() as int;
    assert(k == s.len() / c && r == s.len() % c) by (nonlinear_arith)
        requires
            k * c + r == s.len(),
            0 <= r < c,
            0 <= k,
    ;
}

} // verus!
