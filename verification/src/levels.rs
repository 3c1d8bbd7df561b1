//! Encoding definition and repetition levels as runs.
//!
//! Levels are taken in groups of eight. A group of one level starts a repeated run, which takes in
//! every further copy of that level; other groups are packed, each level in as few bits as the
//! greatest level needs. Successive packed groups form one run, up to the number of groups that
//! its one-byte head can count.
use vstd::prelude::*;

use crate::compact::varint;

verus! {

/// The number of levels in a group.
pub const GROUP: usize = 8;

/// A packed run is closed when it holds this many groups.
pub const MAX_PACKED_GROUPS: usize = 63;

/// The number of bits that `n` takes.
pub open spec fn bit_width(n: nat) -> nat
    decreases n,
{
    if n == 0 {
        0
    } else {
        1 + bit_width(n / 2)
    }
}

/// Two to the power `n`.
pub open spec fn pow2(n: nat) -> nat
    decreases n,
{
    if n == 0 {
        1
    } else {
        2 * pow2((n - 1) as nat)
    }
}

/// The lowest `count` bytes of `n`, least significant first.
pub open spec fn le_bytes(n: nat, count: nat) -> Seq<u8>
    decreases count,
{
    if count == 0 {
        Seq::empty()
    } else {
        seq![(n % 256) as u8] + le_bytes(n / 256, (count - 1) as nat)
    }
}

/// The number whose digits in base `pow2(width)` are `levels`, least significant first.
pub open spec fn packed_number(levels: Seq<i16>, width: nat) -> nat
    decreases levels.len(),
{
    if levels.len() == 0 {
        0
    } else {
        levels[0] as nat + pow2(width) * packed_number(levels.skip(1), width)
    }
}

/// The bytes of groups of levels: those of a group of eight take as many bytes as one level takes
/// bits.
pub open spec fn packed_groups(levels: Seq<i16>, width: nat) -> Seq<u8>
    decreases levels.len(),
{
    if levels.len() < GROUP {
        Seq::empty()
    } else {
        le_bytes(packed_number(levels.take(GROUP as int), width), width) + packed_groups(
            levels.skip(GROUP as int),
            width,
        )
    }
}

/// The bytes of a packed run; nothing where it holds no group.
pub open spec fn packed_run(levels: Seq<i16>, width: nat) -> Seq<u8> {
    if levels.len() == 0 {
        Seq::empty()
    } else {
        varint(2 * (levels.len() / GROUP as nat) + 1) + packed_groups(levels, width)
    }
}

/// The bytes of a repeated run.
pub open spec fn repeated_run(level: i16, count: nat, width: nat) -> Seq<u8> {
    varint(2 * count) + le_bytes(level as nat, (width + 7) / 8)
}

/// Whether the first `n` levels are all the same.
pub open spec fn same(levels: Seq<i16>, n: int) -> bool {
    forall|i: int| 0 <= i < n ==> #[trigger] levels[i] == levels[0]
}

/// How many levels at the start are the same.
pub open spec fn run_length(levels: Seq<i16>) -> nat
    decreases levels.len(),
{
    if levels.len() == 0 {
        0
    } else if levels.len() > 1 && levels[1] == levels[0] {
        1 + run_length(levels.skip(1))
    } else {
        1
    }
}

/// `levels` with zeros behind them, up to a whole group.
pub open spec fn padded(levels: Seq<i16>) -> Seq<i16> {
    levels + Seq::new((GROUP - levels.len()) as nat, |i: int| 0i16)
}

/// The bytes of `levels` behind the levels `open` of a packed run that is not yet closed.
pub open spec fn encode_behind(levels: Seq<i16>, width: nat, open: Seq<i16>) -> Seq<u8>
    decreases levels.len(),
{
    if levels.len() == 0 {
        packed_run(open, width)
    } else if levels.len() < GROUP {
        if open.len() == 0 && same(levels, levels.len() as int) {
            repeated_run(levels[0], levels.len(), width)
        } else {
            packed_run(open + padded(levels), width)
        }
    } else if same(levels, GROUP as int) {
        let n = run_length(levels);
        if n == 0 || n > levels.len() {
            Seq::empty()
        } else {
            packed_run(open, width) + repeated_run(levels[0], n, width) + encode_behind(
                levels.skip(n as int),
                width,
                Seq::empty(),
            )
        }
    } else {
        let more = open + levels.take(GROUP as int);
        let rest = levels.skip(GROUP as int);
        if more.len() / GROUP as nat >= MAX_PACKED_GROUPS {
            packed_run(more, width) + encode_behind(rest, width, Seq::empty())
        } else {
            encode_behind(rest, width, more)
        }
    }
}

/// The bytes of `levels`, none of which is above `max_level`.
pub open spec fn encoded_levels(levels: Seq<i16>, max_level: i16) -> Seq<u8> {
    encode_behind(levels, bit_width(max_level as nat), Seq::empty())
}

/// Whether every level is one that a column with this greatest level can have.
pub open spec fn levels_valid(levels: Seq<i16>, max_level: i16) -> bool {
    forall|i: int| 0 <= i < levels.len() ==> 0 <= #[trigger] levels[i] <= max_level
}

pub proof fn lemma_pow2_add(a: nat, b: nat)
    ensures
        pow2(a + b) == pow2(a) * pow2(b),
        pow2(a) > 0,
    decreases b,
{
    if b == 0 {
        assert(pow2(a) * 1 == pow2(a));
        lemma_pow2_positive(a);
    } else {
        lemma_pow2_add(a, (b - 1) as nat);
        assert(a + b - 1 == a + (b - 1));
        let p = pow2(a);
        let q = pow2((b - 1) as nat);
        assert(p * (2 * q) == 2 * (p * q)) by (nonlinear_arith);
    }
}

pub proof fn lemma_pow2_positive(a: nat)
    ensures
        pow2(a) > 0,
    decreases a,
{
    if a > 0 {
        lemma_pow2_positive((a - 1) as nat);
    }
}

pub proof fn lemma_pow2_monotone(a: nat, b: nat)
    requires
        a <= b,
    ensures
        pow2(a) <= pow2(b),
    decreases b,
{
    lemma_pow2_positive(a);
    if a < b {
        lemma_pow2_monotone(a, (b - 1) as nat);
    }
}

proof fn lemma_pow2_120()
    ensures
        pow2(120) <= u128::MAX,
{
    assert(pow2(15) == 0x8000) by {
        reveal_with_fuel(pow2, 16);
    }
    let (a, b, c) = (pow2(15), pow2(30), pow2(60));
    lemma_pow2_add(15, 15);
    assert(a * a == 0x4000_0000) by (nonlinear_arith)
        requires
            a == 0x8000,
    ;
    lemma_pow2_add(30, 30);
    assert(b * b == 0x1000_0000_0000_0000) by (nonlinear_arith)
        requires
            b == 0x4000_0000,
    ;
    lemma_pow2_add(60, 60);
    assert(c * c <= u128::MAX) by (nonlinear_arith)
        requires
            c == 0x1000_0000_0000_0000,
    ;
}

/// A number is below two to the power of the bits that it takes.
pub proof fn lemma_bit_width(n: nat)
    ensures
        n < pow2(bit_width(n)),
    decreases n,
{
    if n > 0 {
        lemma_bit_width(n / 2);
    }
}

proof fn lemma_bit_width_bound(n: nat, bits: nat)
    requires
        n < pow2(bits),
    ensures
        bit_width(n) <= bits,
    decreases bits,
{
    if n > 0 {
        assert(bits > 0);
        lemma_bit_width_bound(n / 2, (bits - 1) as nat);
    }
}

pub proof fn lemma_run_length(levels: Seq<i16>)
    ensures
        run_length(levels) <= levels.len(),
        levels.len() > 0 ==> run_length(levels) > 0,
        same(levels, run_length(levels) as int),
        run_length(levels) < levels.len() ==> levels[run_length(levels) as int] != levels[0],
    decreases levels.len(),
{
    if levels.len() > 1 && levels[1] == levels[0] {
        let t = levels.skip(1);
        lemma_run_length(t);
        assert forall|i: int| 0 <= i < run_length(levels) implies #[trigger] levels[i]
            == levels[0] by {
            if i > 0 {
                assert(t[i - 1] == t[0]);
            }
        }
    }
}

/// `run_length` is the only count of equal levels behind which a different level or nothing
/// stands.
proof fn lemma_run_length_unique(levels: Seq<i16>, n: nat)
    requires
        0 < n <= levels.len(),
        same(levels, n as int),
        n < levels.len() ==> levels[n as int] != levels[0],
    ensures
        run_length(levels) == n,
{
    lemma_run_length(levels);
    let m = run_length(levels);
    if n < m {
        assert(levels[n as int] == levels[0]);
    } else if m < n {
        assert(levels[m as int] == levels[0]);
    }
}

/// The number of bits that the greatest level takes.
fn width_of(max_level: i16) -> (width: usize)
    requires
        max_level >= 0,
    ensures
        width == bit_width(max_level as nat),
        width <= 15,
{
    let mut n: u16 = max_level as u16;
    let mut width: usize = 0;
    proof {
        assert(pow2(15) == 32768) by {
            reveal_with_fuel(pow2, 16);
        }
        lemma_bit_width_bound(max_level as nat, 15);
    }
    while n > 0
        invariant
            width + bit_width(n as nat) == bit_width(max_level as nat),
            bit_width(max_level as nat) <= 15,
        decreases n,
    {
        n = n / 2;
        width = width + 1;
    }
    width
}

/// Appends `n` in groups of seven bits.
fn push_varint(out: &mut Vec<u8>, n: u128)
    ensures
        final(out)@ == old(out)@ + varint(n as nat),
{
    let ghost start = out@;
    let mut n = n;
    let ghost whole = n as nat;
    while n >= 128
        invariant
            out@ + varint(n as nat) == start + varint(whole),
        decreases n,
    {
        let ghost before = out@;
        out.push((n % 128 + 128) as u8);
        assert(out@ + varint((n / 128) as nat) =~= before + varint(n as nat));
        n = n / 128;
    }
    let ghost before = out@;
    out.push(n as u8);
    assert(out@ =~= before + varint(n as nat));
}

/// Appends the lowest `count` bytes of `n`.
fn push_le_bytes(out: &mut Vec<u8>, n: u128, count: usize)
    ensures
        final(out)@ == old(out)@ + le_bytes(n as nat, count as nat),
{
    let ghost start = out@;
    let mut n = n;
    let mut left = count;
    let ghost whole = n as nat;
    while left > 0
        invariant
            out@ + le_bytes(n as nat, left as nat) == start + le_bytes(whole, count as nat),
        decreases left,
    {
        let ghost before = out@;
        out.push((n % 256) as u8);
        assert(out@ + le_bytes((n / 256) as nat, (left - 1) as nat) =~= before + le_bytes(
            n as nat,
            left as nat,
        ));
        n = n / 256;
        left = left - 1;
    }
    assert(out@ + le_bytes(n as nat, 0) =~= out@);
}

pub proof fn lemma_packed_number_bound(levels: Seq<i16>, width: nat)
    requires
        forall|i: int| 0 <= i < levels.len() ==> 0 <= #[trigger] levels[i] < pow2(width),
    ensures
        packed_number(levels, width) < pow2(width * levels.len()),
    decreases levels.len(),
{
    if levels.len() == 0 {
        assert(width * 0 == 0);
    } else {
        let t = levels.skip(1);
        assert forall|i: int| 0 <= i < t.len() implies 0 <= #[trigger] t[i] < pow2(width) by {
            assert(t[i] == levels[i + 1]);
        }
        lemma_packed_number_bound(t, width);
        let n = levels.len();
        assert(width * n == width + width * (n - 1)) by (nonlinear_arith);
        lemma_pow2_add(width, (width * (n - 1)) as nat);
        let p = pow2(width);
        let q = pow2((width * (n - 1)) as nat);
        let x = packed_number(t, width);
        assert(p * x <= p * q - p) by (nonlinear_arith)
            requires
                x + 1 <= q,
        ;
    }
}

/// Two to the power `width`.
fn radix_of(width: usize) -> (radix: u128)
    requires
        width <= 15,
    ensures
        radix == pow2(width as nat),
        radix <= 32768,
{
    let mut radix: u128 = 1;
    let mut i: usize = 0;
    proof {
        assert(pow2(15) == 32768) by {
            reveal_with_fuel(pow2, 16);
        }
    }
    while i < width
        invariant
            i <= width <= 15,
            radix == pow2(i as nat),
            pow2(15) == 32768,
        decreases width - i,
    {
        proof {
            lemma_pow2_monotone((i + 1) as nat, 15);
        }
        radix = radix * 2;
        i = i + 1;
    }
    proof {
        lemma_pow2_monotone(width as nat, 15);
    }
    radix
}

/// The number that packs the eight levels from `from` on.
fn pack_group(levels: &[i16], from: usize, width: usize) -> (n: u128)
    requires
        from + GROUP <= levels.len(),
        width <= 15,
        forall|i: int| from <= i < from + GROUP ==> 0 <= #[trigger] levels[i] < pow2(width as nat),
    ensures
        n == packed_number(levels@.subrange(from as int, from + GROUP), width as nat),
{
    let radix = radix_of(width);
    let mut n: u128 = 0;
    let mut i: usize = GROUP;
    let ghost group = levels@.subrange(from as int, from + GROUP);
    assert(group.skip(GROUP as int) =~= Seq::<i16>::empty());
    while i > 0
        invariant
            i <= GROUP,
            from + GROUP <= levels.len(),
            width <= 15,
            radix == pow2(width as nat),
            group == levels@.subrange(from as int, from + GROUP),
            forall|k: int|
                from <= k < from + GROUP ==> 0 <= #[trigger] levels[k] < pow2(width as nat),
            n == packed_number(group.skip(i as int), width as nat),
        decreases i,
    {
        i = i - 1;
        proof {
            let t = group.skip(i as int);
            assert forall|k: int| 0 <= k < t.len() implies 0 <= #[trigger] t[k] < pow2(
                width as nat,
            ) by {
                assert(t[k] == levels[from + i + k]);
            }
            assert(t.skip(1) =~= group.skip(i + 1));
            lemma_packed_number_bound(t, width as nat);
            assert(width * t.len() <= 120) by (nonlinear_arith)
                requires
                    width <= 15,
                    t.len() <= 8,
            ;
            lemma_pow2_monotone((width * t.len()) as nat, 120);
            lemma_pow2_120();
        }
        n = levels[from + i] as u128 + radix * n;
    }
    assert(group.skip(0) =~= group);
    n
}

/// Appends a packed run of the levels from `from` to `to`, whole groups.
fn push_packed_run(out: &mut Vec<u8>, levels: &[i16], from: usize, to: usize, width: usize)
    requires
        from <= to <= levels.len(),
        (to - from) % GROUP as int == 0,
        width <= 15,
        forall|i: int| from <= i < to ==> 0 <= #[trigger] levels[i] < pow2(width as nat),
    ensures
        final(out)@ == old(out)@ + packed_run(levels@.subrange(from as int, to as int), width as nat),
{
    let ghost start = out@;
    let ghost run = levels@.subrange(from as int, to as int);
    if from == to {
        assert(out@ =~= start + packed_run(run, width as nat));
        return ;
    }
    push_varint(out, 2 * ((to - from) / GROUP) as u128 + 1);
    let ghost head = out@;
    let mut at: usize = from;
    assert(run.skip(0) =~= run);
    while at < to
        invariant
            from <= at <= to <= levels.len(),
            (to - at) % GROUP as int == 0,
            width <= 15,
            run == levels@.subrange(from as int, to as int),
            forall|i: int| from <= i < to ==> 0 <= #[trigger] levels[i] < pow2(width as nat),
            out@ + packed_groups(run.skip(at - from), width as nat) == head + packed_groups(
                run,
                width as nat,
            ),
        decreases to - at,
    {
        let ghost before = out@;
        let ghost t = run.skip(at - from);
        let n = pack_group(levels, at, width);
        proof {
            assert(t.take(GROUP as int) =~= levels@.subrange(at as int, at + GROUP));
            assert(t.skip(GROUP as int) =~= run.skip(at + GROUP - from));
        }
        push_le_bytes(out, n, width);
        assert(out@ + packed_groups(t.skip(GROUP as int), width as nat) =~= before + packed_groups(
            t,
            width as nat,
        ));
        at = at + GROUP;
    }
    assert(run.skip(to - from) =~= Seq::<i16>::empty());
    assert(out@ + packed_groups(run.skip(at - from), width as nat) =~= out@);
    assert(out@ =~= start + packed_run(run, width as nat));
}

/// Appends a repeated run.
fn push_repeated_run(out: &mut Vec<u8>, level: i16, count: usize, width: usize)
    requires
        level >= 0,
        width <= 15,
    ensures
        final(out)@ == old(out)@ + repeated_run(level, count as nat, width as nat),
{
    let ghost start = out@;
    push_varint(out, 2 * (count as u128));
    push_le_bytes(out, level as u128, (width + 7) / 8);
    assert(out@ =~= start + repeated_run(level, count as nat, width as nat));
}

/// Whether the levels from `from` to `to` are all the same.
fn all_same(levels: &[i16], from: usize, to: usize) -> (b: bool)
    requires
        from < to <= levels.len(),
    ensures
        b == same(levels@.skip(from as int), to - from),
{
    let mut i: usize = from;
    let ghost t = levels@.skip(from as int);
    while i < to
        invariant
            from <= i <= to <= levels.len(),
            from < to,
            t == levels@.skip(from as int),
            forall|k: int| 0 <= k < i - from ==> #[trigger] t[k] == t[0],
        decreases to - i,
    {
        if levels[i] != levels[from] {
            assert(t[i - from] != t[0]);
            return false;
        }
        i = i + 1;
    }
    true
}

/// Where the run of equal levels that starts at `from` ends.
fn run_end(levels: &[i16], from: usize) -> (end: usize)
    requires
        from < levels.len(),
    ensures
        from < end <= levels.len(),
        end - from == run_length(levels@.skip(from as int)),
{
    let mut end: usize = from + 1;
    let ghost t = levels@.skip(from as int);
    while end < levels.len() && levels[end] == levels[from]
        invariant
            from < end <= levels.len(),
            t == levels@.skip(from as int),
            forall|k: int| 0 <= k < end - from ==> #[trigger] t[k] == t[0],
        decreases levels.len() - end,
    {
        end = end + 1;
    }
    proof {
        lemma_run_length_unique(t, (end - from) as nat);
    }
    end
}

/// Appends what is left behind the last whole group: the levels from `at` on, behind those from
/// `open` to `at` of a packed run that is not yet closed.
fn push_tail(out: &mut Vec<u8>, levels: &[i16], open: usize, at: usize, width: usize)
    requires
        open <= at <= levels.len(),
        levels.len() - at < GROUP,
        (at - open) % GROUP as int == 0,
        (at - open) / GROUP as int <= MAX_PACKED_GROUPS,
        width <= 15,
        forall|i: int| 0 <= i < levels.len() ==> 0 <= #[trigger] levels[i] < pow2(width as nat),
    ensures
        final(out)@ == old(out)@ + encode_behind(
            levels@.skip(at as int),
            width as nat,
            levels@.subrange(open as int, at as int),
        ),
{
    let ghost t = levels@.skip(at as int);
    let ghost o = levels@.subrange(open as int, at as int);
    if at == levels.len() {
        push_packed_run(out, levels, open, at, width);
        return ;
    }
    if open == at && all_same(levels, at, levels.len()) {
        push_repeated_run(out, levels[at], levels.len() - at, width);
        return ;
    }
    let mut last: Vec<i16> = Vec::new();
    let mut i: usize = open;
    while i < levels.len()
        invariant
            open <= i <= levels.len(),
            last@ =~= levels@.subrange(open as int, i as int),
        decreases levels.len() - i,
    {
        last.push(levels[i]);
        i = i + 1;
    }
    let ghost unpadded = last@;
    let full: usize = at - open + GROUP;
    while last.len() < full
        invariant
            unpadded.len() <= last.len() <= full,
            last@ =~= unpadded + Seq::new((last.len() - unpadded.len()) as nat, |k: int| 0i16),
        decreases full - last.len(),
    {
        last.push(0);
    }
    proof {
        assert(last@ =~= o + padded(t));
        assert(last@.subrange(0, full as int) =~= last@);
        lemma_pow2_positive(width as nat);
        assert forall|k: int| 0 <= k < full implies 0 <= #[trigger] last@[k] < pow2(
            width as nat,
        ) by {
            if k < unpadded.len() {
                assert(last@[k] == levels@[open + k]);
            }
        }
    }
    push_packed_run(out, last.as_slice(), 0, full, width);
}

/// The bytes of `levels`, in `width` bits each.
fn encode(levels: &[i16], width: usize) -> (out: Vec<u8>)
    requires
        width <= 15,
        forall|i: int| 0 <= i < levels.len() ==> 0 <= #[trigger] levels[i] < pow2(width as nat),
    ensures
        out@ == encode_behind(levels@, width as nat, Seq::empty()),
{
    let ghost w = width as nat;
    let ghost whole = encode_behind(levels@, w, Seq::empty());
    let mut out: Vec<u8> = Vec::new();
    // The levels from `open` to `at` are those of a packed run that is not yet closed.
    let mut open: usize = 0;
    let mut at: usize = 0;
    proof {
        assert(levels@.skip(0) =~= levels@);
        assert(levels@.subrange(0, 0) =~= Seq::<i16>::empty());
        assert(out@ + whole =~= whole);
    }
    while levels.len() - at >= GROUP
        invariant
            open <= at <= levels.len(),
            (at - open) % GROUP as int == 0,
            (at - open) / GROUP as int <= MAX_PACKED_GROUPS - 1,
            w == width,
            width <= 15,
            forall|i: int| 0 <= i < levels.len() ==> 0 <= #[trigger] levels[i] < pow2(w),
            out@ + encode_behind(
                levels@.skip(at as int),
                w,
                levels@.subrange(open as int, at as int),
            ) == whole,
        decreases levels.len() - at,
    {
        let ghost t = levels@.skip(at as int);
        let ghost o = levels@.subrange(open as int, at as int);
        let ghost before = out@;
        if all_same(levels, at, at + GROUP) {
            let end = run_end(levels, at);
            push_packed_run(&mut out, levels, open, at, width);
            push_repeated_run(&mut out, levels[at], end - at, width);
            proof {
                lemma_run_length(t);
                assert(t.skip(end - at) =~= levels@.skip(end as int));
                assert(levels@.subrange(end as int, end as int) =~= Seq::<i16>::empty());
                let rest = encode_behind(levels@.skip(end as int), w, Seq::empty());
                assert(out@ + rest =~= before + (packed_run(o, w) + repeated_run(
                    t[0],
                    (end - at) as nat,
                    w,
                ) + rest));
            }
            at = end;
            open = end;
        } else {
            proof {
                assert(o + t.take(GROUP as int) =~= levels@.subrange(open as int, at + GROUP));
                assert(t.skip(GROUP as int) =~= levels@.skip(at + GROUP));
            }
            at = at + GROUP;
            if (at - open) / GROUP >= MAX_PACKED_GROUPS {
                push_packed_run(&mut out, levels, open, at, width);
                open = at;
                proof {
                    assert(levels@.subrange(at as int, at as int) =~= Seq::<i16>::empty());
                    let rest = encode_behind(levels@.skip(at as int), w, Seq::empty());
                    let more = o + t.take(GROUP as int);
                    assert(out@ + rest =~= before + (packed_run(more, w) + rest));
                }
            }
        }
    }
    push_tail(&mut out, levels, open, at, width);
    out
}

/// Encodes the definition or repetition levels of a page.
pub struct LevelEncoder {
    max_level: i16,
    width: usize,
    out: Vec<u8>,
}

impl LevelEncoder {
    /// The greatest level.
    pub closed spec fn max(&self) -> i16 {
        self.max_level
    }

    /// The bytes of the levels that were put.
    pub closed spec fn bytes(&self) -> Seq<u8> {
        self.out@
    }

    #[verifier::type_invariant]
    spec fn inv(self) -> bool {
        0 <= self.max_level && self.width == bit_width(self.max_level as nat) && self.width <= 15
    }

    /// An encoder for levels up to `max_level`, with room for some bytes.
    pub fn v2(max_level: i16, capacity: usize) -> (encoder: Self)
        requires
            max_level >= 0,
        ensures
            encoder.max() == max_level,
            encoder.bytes() == Seq::<u8>::empty(),
    {
        let width = width_of(max_level);
        LevelEncoder { max_level, width, out: Vec::with_capacity(capacity) }
    }

    /// Encodes `levels`.
    pub fn put(&mut self, levels: &[i16])
        requires
            levels_valid(levels@, old(self).max()),
        ensures
            final(self).max() == old(self).max(),
            final(self).bytes() == old(self).bytes() + encoded_levels(levels@, old(self).max()),
    {
        proof {
            use_type_invariant(&*self);
            lemma_bit_width(self.max_level as nat);
        }
        let mut out = encode(levels, self.width);
        let mut all: Vec<u8> = Vec::new();
        std::mem::swap(&mut all, &mut self.out);
        all.append(&mut out);
        self.out = all;
    }

    /// The bytes of the levels that were put.
    pub fn consume(self) -> (bytes: Vec<u8>)
        ensures
            bytes@ == self.bytes(),
    {
        self.out
    }
}

/// The bytes of the levels of a page.
pub fn encode_levels_v2(levels: &[i16], max_level: i16) -> (bytes: Vec<u8>)
    requires
        max_level >= 0,
        levels_valid(levels@, max_level),
    ensures
        bytes@ == encoded_levels(levels@, max_level),
{
    let mut encoder = LevelEncoder::v2(max_level, levels.len());
    encoder.put(levels);
    let bytes = encoder.consume();
    assert(bytes@ =~= encoded_levels(levels@, max_level));
    bytes
}

/// A level takes as many bits as the greatest level needs: it fits them, and one bit less would not
/// do.
pub proof fn widths_are_least(n: nat)
    ensures
        n < pow2(bit_width(n)),
        n > 0 ==> bit_width(n) > 0 && pow2((bit_width(n) - 1) as nat) <= n,
        n == 0 ==> bit_width(n) == 0,
        pow2(0) == 1,
        pow2(n + 1) == 2 * pow2(n),
    decreases n,
{
    lemma_bit_width(n);
    if n > 0 {
        widths_are_least(n / 2);
    }
}

/// Levels that start with eight or more of one level start with a run of that level, for all of its
/// copies, and the other levels follow. Fewer than eight levels that are all one level are such a run
/// too.
pub proof fn repeated_levels_are_runs(levels: Seq<i16>, max_level: i16, n: nat)
    requires
        0 < n <= levels.len(),
        forall|i: int| 0 <= i < n ==> #[trigger] levels[i] == levels[0],
        n < levels.len() ==> levels[n as int] != levels[0],
        n >= 8 || n == levels.len(),
    ensures
        encoded_levels(levels, max_level) == varint(2 * n) + le_bytes(
            levels[0] as nat,
            (bit_width(max_level as nat) + 7) / 8,
        ) + encoded_levels(levels.skip(n as int), max_level),
{
    let width = bit_width(max_level as nat);
    lemma_run_length_unique(levels, n);
    let none = Seq::<i16>::empty();
    let run = repeated_run(levels[0], n, width);
    let rest = levels.skip(n as int);
    if levels.len() < 8 {
        assert(rest =~= none);
        assert(encoded_levels(rest, max_level) =~= Seq::<u8>::empty());
        assert(encoded_levels(levels, max_level) =~= run + Seq::<u8>::empty());
    } else {
        assert(packed_run(none, width) =~= Seq::<u8>::empty());
        assert(encoded_levels(levels, max_level) =~= run + encoded_levels(rest, max_level));
    }
}

proof fn lemma_packed_head(levels: Seq<i16>, width: nat, open: Seq<i16>)
    requires
        open.len() > 0,
        open.len() % 8 == 0,
        open.len() / 8 < 63,
    ensures
        ({
            let bytes = encode_behind(levels, width, open);
            bytes.len() > 0 && bytes[0] % 2 == 1 && 2 * (open.len() / 8) + 1 <= bytes[0] < 128
        }),
    decreases levels.len(),
{
    let none = Seq::<i16>::empty();
    if levels.len() == 0 {
    } else if levels.len() < 8 {
        assert((open + padded(levels)).len() == open.len() + 8);
    } else if same(levels, 8) {
        lemma_run_length(levels);
    } else {
        let more = open + levels.take(8);
        assert(more.len() == open.len() + 8);
        if more.len() / 8 >= 63 {
        } else {
            lemma_packed_head(levels.skip(8), width, more);
        }
    }
}

/// Other levels start with packed groups of eight, of which the head of the run, one byte, says how
/// many there are: an odd number below 128, twice their number and one.
pub proof fn other_levels_are_packed(levels: Seq<i16>, max_level: i16)
    requires
        levels.len() > 0,
        exists|i: int|
            0 <= i < 8 && i < levels.len() && #[trigger] levels[i] != levels[0],
    ensures
        ({
            let bytes = encoded_levels(levels, max_level);
            bytes.len() > 0 && bytes[0] % 2 == 1 && 3 <= bytes[0] < 128
        }),
{
    let width = bit_width(max_level as nat);
    let none = Seq::<i16>::empty();
    let i = choose|i: int| 0 <= i < 8 && i < levels.len() && #[trigger] levels[i] != levels[0];
    if levels.len() < 8 {
        assert(!same(levels, levels.len() as int));
        assert((none + padded(levels)).len() == 8);
    } else {
        assert(!same(levels, 8));
        let more = none + levels.take(8);
        assert(more.len() == 8);
        lemma_packed_head(levels.skip(8), width, more);
    }
}

/// How many groups of eight there are in front of the first one that is all one level, counting what
/// is left behind the last whole group as a group.
pub open spec fn uneven_groups(levels: Seq<i16>) -> nat
    decreases levels.len(),
{
    if levels.len() == 0 {
        0
    } else if levels.len() < 8 {
        1
    } else if forall|i: int| 0 <= i < 8 ==> #[trigger] levels[i] == levels[0] {
        0
    } else {
        1 + uneven_groups(levels.skip(8))
    }
}

proof fn lemma_packed_run_is_longest(levels: Seq<i16>, width: nat, open: Seq<i16>)
    requires
        open.len() > 0,
        open.len() % 8 == 0,
        open.len() / 8 < 63,
    ensures
        ({
            let bytes = encode_behind(levels, width, open);
            let groups = open.len() / 8 + uneven_groups(levels);
            bytes.len() > 0 && bytes[0] == 2 * (if groups < 63 {
                groups
            } else {
                63
            }) + 1
        }),
    decreases levels.len(),
{
    if levels.len() == 0 {
    } else if levels.len() < 8 {
        assert((open + padded(levels)).len() == open.len() + 8);
    } else if same(levels, 8) {
        lemma_run_length(levels);
    } else {
        let more = open + levels.take(8);
        assert(more.len() == open.len() + 8);
        if more.len() / 8 < 63 {
            lemma_packed_run_is_longest(levels.skip(8), width, more);
        }
    }
}

/// A packed run goes on to the next group of one level, to the end, or until it has 63 groups: its
/// head, in the first byte, counts them.
pub proof fn packed_runs_are_longest(levels: Seq<i16>, max_level: i16)
    requires
        levels.len() > 0,
        exists|i: int|
            0 <= i < 8 && i < levels.len() && #[trigger] levels[i] != levels[0],
    ensures
        ({
            let bytes = encoded_levels(levels, max_level);
            bytes.len() > 0 && bytes[0] == 2 * (if uneven_groups(levels) < 63 {
                uneven_groups(levels)
            } else {
                63
            }) + 1
        }),
{
    let width = bit_width(max_level as nat);
    let none = Seq::<i16>::empty();
    let i = choose|i: int| 0 <= i < 8 && i < levels.len() && #[trigger] levels[i] != levels[0];
    if levels.len() < 8 {
        assert(!same(levels, levels.len() as int));
        assert((none + padded(levels)).len() == 8);
    } else {
        assert(!same(levels, 8));
        assert(!(forall|k: int| 0 <= k < 8 ==> #[trigger] levels[k] == levels[0]));
        let more = none + levels.take(8);
        assert(more.len() == 8);
        lemma_packed_run_is_longest(levels.skip(8), width, more);
    }
}

/// A packed group is one number of as many bytes as a level has bits, the lowest byte first, in which
/// the first level takes the lowest bits and each level those above the one before.
pub proof fn groups_are_packed_lowest_first(group: Seq<i16>, width: nat, n: nat, count: nat)
    ensures
        packed_number(Seq::<i16>::empty(), width) == 0,
        group.len() > 0 && group[0] >= 0 ==> packed_number(group, width) == group[0] + pow2(width)
            * packed_number(group.skip(1), width),
        le_bytes(n, 0).len() == 0,
        count > 0 ==> le_bytes(n, count) == seq![(n % 256) as u8] + le_bytes(
            n / 256,
            (count - 1) as nat,
        ),
{
}

} // verus!
