//! What encoded levels say: how they are read back, and that reading gives back what was written.
use vstd::prelude::*;

use crate::compact::varint;
use crate::levels::{
    bit_width, encode_behind, encoded_levels, le_bytes, lemma_bit_width, lemma_packed_number_bound,
    lemma_pow2_add, lemma_pow2_monotone, lemma_pow2_positive, lemma_run_length, levels_valid,
    packed_groups, packed_number, packed_run, padded, pow2, repeated_run, run_length, same, GROUP,
    MAX_PACKED_GROUPS,
};

verus! {

/// The number at the front of `bytes`, in groups of seven bits, and the bytes behind it.
pub open spec fn read_varint(bytes: Seq<u8>) -> (nat, Seq<u8>)
    decreases bytes.len(),
{
    if bytes.len() == 0 {
        (0, bytes)
    } else if bytes[0] < 128 {
        (bytes[0] as nat, bytes.skip(1))
    } else {
        let (n, rest) = read_varint(bytes.skip(1));
        ((bytes[0] - 128 + 128 * n) as nat, rest)
    }
}

/// The number with these bytes, least significant first.
pub open spec fn le_value(bytes: Seq<u8>) -> nat
    decreases bytes.len(),
{
    if bytes.len() == 0 {
        0
    } else {
        bytes[0] as nat + 256 * le_value(bytes.skip(1))
    }
}

/// The lowest `count` digits of `n` in base `pow2(width)`, least significant first.
pub open spec fn digits(n: nat, width: nat, count: nat) -> Seq<i16>
    decreases count,
{
    if count == 0 {
        Seq::empty()
    } else {
        seq![(n % pow2(width)) as i16] + digits(n / pow2(width), width, (count - 1) as nat)
    }
}

/// The levels of `groups` packed groups at the front of `bytes`, and the bytes behind them.
pub open spec fn read_groups(bytes: Seq<u8>, groups: nat, width: nat) -> (Seq<i16>, Seq<u8>)
    decreases groups,
{
    if groups == 0 || bytes.len() < width {
        (Seq::empty(), bytes)
    } else {
        let n = le_value(bytes.take(width as int));
        let (more, rest) = read_groups(bytes.skip(width as int), (groups - 1) as nat, width);
        (digits(n, width, GROUP as nat) + more, rest)
    }
}

/// The levels of the run at the front of `bytes`, and the bytes behind it. The lowest bit of a run's
/// head says whether it is packed; the other bits are the number of its groups, or of its levels.
pub open spec fn read_run(bytes: Seq<u8>, width: nat) -> (Seq<i16>, Seq<u8>) {
    let (head, rest) = read_varint(bytes);
    if head % 2 == 1 {
        read_groups(rest, head / 2, width)
    } else {
        let size = (width + 7) / 8;
        let level = le_value(rest.take(size as int)) as i16;
        (Seq::new(head / 2, |i: int| level), rest.skip(size as int))
    }
}

/// The first `count` levels of the runs in `bytes`, as far as there are as many.
pub open spec fn decoded(bytes: Seq<u8>, width: nat, count: nat) -> Seq<i16>
    decreases count,
{
    if count == 0 || bytes.len() == 0 {
        Seq::empty()
    } else {
        let (levels, rest) = read_run(bytes, width);
        if levels.len() == 0 {
            Seq::empty()
        } else if levels.len() >= count {
            levels.take(count as int)
        } else {
            levels + decoded(rest, width, (count - levels.len()) as nat)
        }
    }
}

/// Whether every level takes at most `width` bits.
pub open spec fn below(levels: Seq<i16>, width: nat) -> bool {
    forall|i: int| 0 <= i < levels.len() ==> 0 <= #[trigger] levels[i] < pow2(width)
}

proof fn lemma_varint(n: nat, rest: Seq<u8>)
    ensures
        varint(n).len() > 0,
        read_varint(varint(n) + rest) == (n, rest),
    decreases n,
{
    let bytes = varint(n) + rest;
    if n < 128 {
        assert(bytes.skip(1) =~= rest);
    } else {
        lemma_varint(n / 128, rest);
        assert(bytes.skip(1) =~= varint(n / 128) + rest);
    }
}

proof fn lemma_le_bytes(n: nat, count: nat)
    ensures
        le_bytes(n, count).len() == count,
        n < pow2(8 * count) ==> le_value(le_bytes(n, count)) == n,
    decreases count,
{
    if count > 0 {
        let c = (count - 1) as nat;
        lemma_le_bytes(n / 256, c);
        assert(le_bytes(n, count).skip(1) =~= le_bytes(n / 256, c));
        lemma_pow2_add(8, 8 * c);
        assert(pow2(8) == 256) by {
            reveal_with_fuel(pow2, 9);
        }
    } else {
        assert(pow2(0) == 1);
    }
}

proof fn lemma_digits(levels: Seq<i16>, width: nat)
    requires
        below(levels, width),
    ensures
        digits(packed_number(levels, width), width, levels.len()) == levels,
    decreases levels.len(),
{
    if levels.len() > 0 {
        let t = levels.skip(1);
        assert forall|i: int| 0 <= i < t.len() implies 0 <= #[trigger] t[i] < pow2(width) by {
            assert(t[i] == levels[i + 1]);
        }
        lemma_digits(t, width);
        lemma_pow2_positive(width);
        let p = pow2(width);
        let x = packed_number(t, width);
        let d = levels[0] as nat;
        let n = packed_number(levels, width);
        assert(n == d + p * x);
        vstd::arithmetic::div_mod::lemma_fundamental_div_mod_converse(
            n as int,
            p as int,
            x as int,
            d as int,
        );
        assert(levels =~= seq![levels[0]] + t);
    } else {
        assert(levels =~= Seq::<i16>::empty());
    }
}

proof fn lemma_groups(levels: Seq<i16>, width: nat, rest: Seq<u8>)
    requires
        levels.len() % GROUP as nat == 0,
        below(levels, width),
    ensures
        read_groups(packed_groups(levels, width) + rest, levels.len() / GROUP as nat, width) == (
            levels,
            rest,
        ),
    decreases levels.len(),
{
    let bytes = packed_groups(levels, width) + rest;
    if levels.len() == 0 {
        assert(bytes =~= rest);
        assert(levels =~= Seq::<i16>::empty());
    } else {
        let group = levels.take(GROUP as int);
        let t = levels.skip(GROUP as int);
        assert forall|i: int| 0 <= i < t.len() implies 0 <= #[trigger] t[i] < pow2(width) by {
            assert(t[i] == levels[i + GROUP]);
        }
        assert forall|i: int| 0 <= i < group.len() implies 0 <= #[trigger] group[i] < pow2(
            width,
        ) by {
            assert(group[i] == levels[i]);
        }
        let n = packed_number(group, width);
        lemma_packed_number_bound(group, width);
        assert(width * 8 == 8 * width);
        lemma_le_bytes(n, width);
        lemma_digits(group, width);
        lemma_groups(t, width, rest);
        let front = le_bytes(n, width);
        assert(packed_groups(levels, width) == front + packed_groups(t, width));
        assert(bytes.take(width as int) =~= front);
        assert(bytes.skip(width as int) =~= packed_groups(t, width) + rest);
        assert(levels =~= group + t);
    }
}

proof fn lemma_packed_run(levels: Seq<i16>, width: nat, rest: Seq<u8>)
    requires
        levels.len() > 0,
        levels.len() % GROUP as nat == 0,
        below(levels, width),
    ensures
        packed_run(levels, width).len() > 0,
        read_run(packed_run(levels, width) + rest, width) == (levels, rest),
{
    let groups = levels.len() / GROUP as nat;
    let body = packed_groups(levels, width);
    lemma_varint(2 * groups + 1, body + rest);
    assert(packed_run(levels, width) + rest =~= varint(2 * groups + 1) + (body + rest));
    lemma_groups(levels, width, rest);
}

proof fn lemma_repeated_run(level: i16, count: nat, width: nat, rest: Seq<u8>)
    requires
        0 <= level < pow2(width),
    ensures
        repeated_run(level, count, width).len() > 0,
        read_run(repeated_run(level, count, width) + rest, width) == (
            Seq::new(count, |i: int| level),
            rest,
        ),
{
    let size = (width + 7) / 8;
    let body = le_bytes(level as nat, size);
    lemma_varint(2 * count, body + rest);
    lemma_le_bytes(level as nat, size);
    lemma_pow2_monotone(width, 8 * size);
    assert(repeated_run(level, count, width) + rest =~= varint(2 * count) + (body + rest));
    assert((body + rest).take(size as int) =~= body);
    assert((body + rest).skip(size as int) =~= rest);
}

/// What comes of reading a run that is not the last one, and of reading one that is.
proof fn lemma_decoded(bytes: Seq<u8>, run: Seq<i16>, rest: Seq<u8>, width: nat, count: nat)
    requires
        bytes.len() > 0,
        run.len() > 0,
        read_run(bytes, width) == (run, rest),
    ensures
        run.len() >= count ==> decoded(bytes, width, count) == run.take(count as int),
        run.len() < count ==> decoded(bytes, width, count) == run + decoded(
            rest,
            width,
            (count - run.len()) as nat,
        ),
{
    if count == 0 {
        assert(run.take(0) =~= Seq::<i16>::empty());
    }
}

proof fn lemma_encode_behind(levels: Seq<i16>, width: nat, open: Seq<i16>)
    requires
        below(levels, width),
        below(open, width),
        open.len() % GROUP as nat == 0,
    ensures
        decoded(encode_behind(levels, width, open), width, open.len() + levels.len()) == open
            + levels,
    decreases levels.len(),
{
    let bytes = encode_behind(levels, width, open);
    let count = open.len() + levels.len();
    let none = Seq::<u8>::empty();
    lemma_pow2_positive(width);
    if levels.len() == 0 {
        assert(open + levels =~= open);
        if open.len() > 0 {
            lemma_packed_run(open, width, none);
            assert(bytes + none =~= bytes);
            lemma_decoded(bytes, open, none, width, count);
            assert(open.take(count as int) =~= open);
        }
    } else if levels.len() < GROUP {
        if open.len() == 0 && same(levels, levels.len() as int) {
            let run = Seq::new(levels.len(), |i: int| levels[0]);
            assert(0 <= levels[0] < pow2(width));
            lemma_repeated_run(levels[0], levels.len(), width, none);
            assert(bytes + none =~= bytes);
            lemma_decoded(bytes, run, none, width, count);
            assert(run.take(count as int) =~= open + levels);
        } else {
            let run = open + padded(levels);
            assert forall|i: int| 0 <= i < run.len() implies 0 <= #[trigger] run[i] < pow2(
                width,
            ) by {
                if i < open.len() {
                    assert(run[i] == open[i]);
                } else if i < count {
                    assert(run[i] == levels[i - open.len()]);
                }
            }
            lemma_packed_run(run, width, none);
            assert(bytes + none =~= bytes);
            lemma_decoded(bytes, run, none, width, count);
            assert(run.take(count as int) =~= open + levels);
        }
    } else if same(levels, GROUP as int) {
        lemma_run_length(levels);
        let n = run_length(levels);
        let run = Seq::new(n, |i: int| levels[0]);
        let rest = levels.skip(n as int);
        assert(levels.take(n as int) =~= run);
        assert(levels =~= run + rest);
        lemma_below_skip(levels, width, n as int);
        lemma_encode_behind(rest, width, Seq::empty());
        let tail = encode_behind(rest, width, Seq::empty());
        let mid = repeated_run(levels[0], n, width) + tail;
        assert(0 <= levels[0] < pow2(width));
        lemma_repeated_run(levels[0], n, width, tail);
        lemma_decoded(mid, run, tail, width, levels.len());
        assert(Seq::<i16>::empty() + rest =~= rest);
        assert(decoded(mid, width, levels.len()) =~= levels);
        if open.len() == 0 {
            assert(bytes =~= mid);
            assert(open + levels =~= levels);
        } else {
            lemma_packed_run(open, width, mid);
            assert(bytes =~= packed_run(open, width) + mid);
            lemma_decoded(bytes, open, mid, width, count);
        }
    } else {
        let more = open + levels.take(GROUP as int);
        let rest = levels.skip(GROUP as int);
        assert forall|i: int| 0 <= i < more.len() implies 0 <= #[trigger] more[i] < pow2(width) by {
            if i < open.len() {
                assert(more[i] == open[i]);
            } else {
                assert(more[i] == levels[i - open.len()]);
            }
        }
        lemma_below_skip(levels, width, GROUP as int);
        assert(more + rest =~= open + levels);
        if more.len() / GROUP as nat >= MAX_PACKED_GROUPS {
            lemma_encode_behind(rest, width, Seq::empty());
            let tail = encode_behind(rest, width, Seq::empty());
            lemma_packed_run(more, width, tail);
            lemma_decoded(bytes, more, tail, width, count);
            assert(Seq::<i16>::empty() + rest =~= rest);
            if rest.len() == 0 {
                assert(more.take(count as int) =~= open + levels);
            }
        } else {
            lemma_encode_behind(rest, width, more);
        }
    }
}

proof fn lemma_below_skip(levels: Seq<i16>, width: nat, n: int)
    requires
        below(levels, width),
        0 <= n <= levels.len(),
    ensures
        below(levels.skip(n), width),
{
    let t = levels.skip(n);
    assert forall|i: int| 0 <= i < t.len() implies 0 <= #[trigger] t[i] < pow2(width) by {
        assert(t[i] == levels[i + n]);
    }
}

/// Levels are read back as they were written.
pub proof fn levels_round_trip(levels: Seq<i16>, max_level: i16)
    requires
        max_level >= 0,
        levels_valid(levels, max_level),
    ensures
        decoded(
            encoded_levels(levels, max_level),
            bit_width(max_level as nat),
            levels.len(),
        ) == levels,
{
    let width = bit_width(max_level as nat);
    lemma_bit_width(max_level as nat);
    assert(below(levels, width));
    lemma_encode_behind(levels, width, Seq::empty());
    assert(Seq::<i16>::empty() + levels =~= levels);
}

} // verus!
