//! The two orders that byte strings have in a column: lexicographic order, and the order of the
//! big-endian two's complement numbers that decimals are stored as.
use vstd::prelude::*;
use vstd::slice::slice_subrange;

verus! {

/// Whether `a` comes after `b` in lexicographic order.
pub open spec fn bytes_greater(a: Seq<u8>, b: Seq<u8>) -> bool
    decreases a.len(),
{
    if a.len() == 0 {
        false
    } else if b.len() == 0 {
        true
    } else if a[0] != b[0] {
        a[0] > b[0]
    } else {
        bytes_greater(a.skip(1), b.skip(1))
    }
}

/// 256 to the power `n`.
pub open spec fn pow256(n: nat) -> nat
    decreases n,
{
    if n == 0 {
        1
    } else {
        256 * pow256((n - 1) as nat)
    }
}

/// The number that `s` writes in base 256, most significant byte first.
pub open spec fn unsigned_value(s: Seq<u8>) -> nat
    decreases s.len(),
{
    if s.len() == 0 {
        0
    } else {
        s[0] as nat * pow256((s.len() - 1) as nat) + unsigned_value(s.skip(1))
    }
}

/// The number that `s` writes in two's complement, most significant byte first.
pub open spec fn signed_value(s: Seq<u8>) -> int {
    if s.len() > 0 && s[0] >= 0x80 {
        unsigned_value(s) - pow256(s.len())
    } else {
        unsigned_value(s) as int
    }
}

/// What `compare_greater_byte_array_decimals` answers: an empty string is below every other one
/// and below itself not at all; the rest compare as signed numbers.
pub open spec fn decimal_greater(a: Seq<u8>, b: Seq<u8>) -> bool {
    if a.len() == 0 || b.len() == 0 {
        a.len() > 0
    } else {
        signed_value(a) > signed_value(b)
    }
}

proof fn lemma_unsigned_bound(s: Seq<u8>)
    ensures
        unsigned_value(s) < pow256(s.len()),
    decreases s.len(),
{
    if s.len() > 0 {
        lemma_unsigned_bound(s.skip(1));
        let p = pow256((s.len() - 1) as nat);
        let d = s[0] as nat;
        assert(d * p <= 255 * p) by (nonlinear_arith)
            requires
                d <= 255,
        ;
    }
}

proof fn lemma_top_digit_orders(d: nat, e: nat, p: nat, x: nat, y: nat)
    requires
        x < p,
        y < p,
    ensures
        d > e ==> d * p + x > e * p + y,
{
    if d > e {
        assert(d * p >= e * p + p) by (nonlinear_arith)
            requires
                d >= e + 1,
        ;
    }
}

/// Byte strings of one length have the lexicographic order of the numbers that they write.
pub proof fn lemma_lexicographic_is_numeric(a: Seq<u8>, b: Seq<u8>)
    requires
        a.len() == b.len(),
    ensures
        bytes_greater(a, b) <==> unsigned_value(a) > unsigned_value(b),
    decreases a.len(),
{
    if a.len() > 0 {
        let p = pow256((a.len() - 1) as nat);
        lemma_unsigned_bound(a.skip(1));
        lemma_unsigned_bound(b.skip(1));
        lemma_top_digit_orders(a[0] as nat, b[0] as nat, p, unsigned_value(a.skip(1)), unsigned_value(b.skip(1)));
        lemma_top_digit_orders(b[0] as nat, a[0] as nat, p, unsigned_value(b.skip(1)), unsigned_value(a.skip(1)));
        lemma_lexicographic_is_numeric(a.skip(1), b.skip(1));
    }
}

/// What is left of `s` behind `lead` sign bytes writes the same number as `s`, up to the power
/// that a negative sign takes off.
proof fn lemma_strip_sign(s: Seq<u8>, lead: int, extension: u8)
    requires
        0 <= lead <= s.len(),
        extension == 0 || extension == 0xff,
        forall|i: int| 0 <= i < lead ==> s[i] == extension,
    ensures
        extension == 0 ==> unsigned_value(s) == unsigned_value(s.skip(lead)),
        extension == 0xff ==> unsigned_value(s) - pow256(s.len()) == unsigned_value(s.skip(lead))
            - pow256((s.len() - lead) as nat),
    decreases lead,
{
    if lead == 0 {
        assert(s.skip(0) =~= s);
    } else {
        let t = s.skip(1);
        assert forall|i: int| 0 <= i < lead - 1 implies t[i] == extension by {
            assert(t[i] == s[i + 1]);
        }
        lemma_strip_sign(t, lead - 1, extension);
        assert(t.skip(lead - 1) =~= s.skip(lead));
        assert(s[0] == extension);
    }
}

proof fn lemma_pow256_monotone(m: nat, n: nat)
    requires
        m <= n,
    ensures
        pow256(m) <= pow256(n),
        pow256(m) > 0,
    decreases n,
{
    if m < n {
        lemma_pow256_monotone(m, (n - 1) as nat);
    } else if m > 0 {
        lemma_pow256_monotone((m - 1) as nat, (n - 1) as nat);
    }
}

/// A string that differs from the sign byte somewhere in its first `lead` bytes is out of the
/// range of the numbers that the remaining bytes can write under that sign.
proof fn lemma_beyond_sign(s: Seq<u8>, lead: int, extension: u8, at: int)
    requires
        0 <= at < lead <= s.len(),
        extension == 0 || extension == 0xff,
        s[at] != extension,
    ensures
        extension == 0 ==> unsigned_value(s) >= pow256((s.len() - lead) as nat),
        extension == 0xff ==> unsigned_value(s) < pow256(s.len()) - pow256((s.len() - lead) as nat),
    decreases s.len(),
{
    let t = s.skip(1);
    let p = pow256((s.len() - 1) as nat);
    let d = s[0] as nat;
    lemma_unsigned_bound(t);
    lemma_pow256_monotone((s.len() - lead) as nat, (s.len() - 1) as nat);
    if at == 0 {
        if extension == 0 {
            assert(d * p >= p) by (nonlinear_arith)
                requires
                    d >= 1,
            ;
        } else {
            assert(d * p <= 254 * p) by (nonlinear_arith)
                requires
                    d <= 254,
            ;
        }
    } else {
        assert(t[at - 1] == s[at]);
        lemma_beyond_sign(t, lead - 1, extension, at - 1);
        assert(0 <= d * p <= 255 * p) by (nonlinear_arith)
            requires
                d <= 255,
        ;
    }
}

/// Whether `a` comes after `b` in lexicographic order.
pub fn slice_greater(a: &[u8], b: &[u8]) -> (greater: bool)
    ensures
        greater == bytes_greater(a@, b@),
{
    let mut i: usize = 0;
    assert(a@.skip(0) =~= a@);
    assert(b@.skip(0) =~= b@);
    while i < a.len() && i < b.len()
        invariant
            i <= a.len(),
            i <= b.len(),
            bytes_greater(a@, b@) == bytes_greater(a@.skip(i as int), b@.skip(i as int)),
        decreases a.len() - i,
    {
        assert(a@.skip(i as int).skip(1) =~= a@.skip(i + 1));
        assert(b@.skip(i as int).skip(1) =~= b@.skip(i + 1));
        if a[i] != b[i] {
            return a[i] > b[i];
        }
        i = i + 1;
    }
    i < a.len()
}

/// Whether one of the bytes of `s` differs from `byte`.
fn any_other(s: &[u8], byte: u8) -> (found: bool)
    ensures
        found == exists|i: int| 0 <= i < s.len() && s[i] != byte,
{
    let mut i: usize = 0;
    while i < s.len()
        invariant
            i <= s.len(),
            forall|j: int| 0 <= j < i ==> s[j] == byte,
        decreases s.len() - i,
    {
        if s[i] != byte {
            return true;
        }
        i = i + 1;
    }
    false
}

/// Compares the longer of two numbers of one sign with the shorter: answers whether `longer` is
/// the greater and whether it is the lesser.
fn compare_longer(longer: &[u8], shorter: &[u8], negative: bool) -> (order: (bool, bool))
    requires
        longer.len() > shorter.len() > 0,
        negative == (longer[0] >= 0x80),
        negative == (shorter[0] >= 0x80),
    ensures
        order.0 == (signed_value(longer@) > signed_value(shorter@)),
        order.1 == (signed_value(shorter@) > signed_value(longer@)),
{
    let extension: u8 = if negative {
        0xff
    } else {
        0
    };
    let lead: usize = longer.len() - shorter.len();
    let head = slice_subrange(longer, 0, lead);
    proof {
        lemma_unsigned_bound(shorter@);
    }
    if any_other(head, extension) {
        proof {
            let at = choose|i: int| 0 <= i < head.len() && head[i] != extension;
            assert(head[at] == longer[at]);
            lemma_beyond_sign(longer@, lead as int, extension, at);
        }
        return (!negative, negative);
    }
    let tail = slice_subrange(longer, lead, longer.len());
    proof {
        assert forall|i: int| 0 <= i < lead implies longer[i] == extension by {
            assert(head[i] == longer[i]);
        }
        assert(tail@ =~= longer@.skip(lead as int));
        lemma_strip_sign(longer@, lead as int, extension);
        lemma_lexicographic_is_numeric(tail@, shorter@);
        lemma_lexicographic_is_numeric(shorter@, tail@);
    }
    (slice_greater(tail, shorter), slice_greater(shorter, tail))
}

/// Signed comparison of byte arrays: whether the decimal `a` is greater than the decimal `b`.
///
/// The shorter of two arrays of one sign is compared as if it were extended to the length of the
/// longer by copies of its sign.
pub fn compare_greater_byte_array_decimals(a: &[u8], b: &[u8]) -> (greater: bool)
    ensures
        greater == decimal_greater(a@, b@),
{
    if a.len() == 0 || b.len() == 0 {
        return a.len() > 0;
    }
    proof {
        lemma_unsigned_bound(a@);
        lemma_unsigned_bound(b@);
    }
    let negative_a: bool = a[0] >= 0x80;
    let negative_b: bool = b[0] >= 0x80;
    if negative_a != negative_b {
        return negative_b;
    }
    if a.len() > b.len() {
        compare_longer(a, b, negative_a).0
    } else if b.len() > a.len() {
        compare_longer(b, a, negative_a).1
    } else {
        proof {
            lemma_lexicographic_is_numeric(a@, b@);
        }
        slice_greater(a, b)
    }
}

/// Lexicographic order is total: "does not come after" is reflexive, total and transitive.
pub proof fn lexicographic_order_is_total(a: Seq<u8>, b: Seq<u8>, c: Seq<u8>)
    ensures
        !bytes_greater(a, a),
        bytes_greater(a, b) ==> !bytes_greater(b, a),
        !bytes_greater(a, b) && !bytes_greater(b, c) ==> !bytes_greater(a, c),
        !bytes_greater(a, b) && !bytes_greater(b, a) ==> a == b,
    decreases a.len(),
{
    if a.len() > 0 {
        lexicographic_order_is_total(a.skip(1), b.skip(1), c.skip(1));
        if b.len() > 0 && a[0] == b[0] && a.skip(1) == b.skip(1) {
            assert(a =~= seq![a[0]] + a.skip(1));
            assert(b =~= seq![b[0]] + b.skip(1));
        }
    } else if b.len() == 0 {
        assert(a =~= b);
    }
}

/// The order of decimals is total: "is not greater" is reflexive, total and transitive.
pub proof fn decimal_order_is_total(a: Seq<u8>, b: Seq<u8>, c: Seq<u8>)
    ensures
        !decimal_greater(a, a),
        decimal_greater(a, b) ==> !decimal_greater(b, a),
        !decimal_greater(a, b) && !decimal_greater(b, c) ==> !decimal_greater(a, c),
{
}

/// Copies of the sign in front of a decimal do not change its value.
pub proof fn sign_extension_keeps_value(s: Seq<u8>, n: nat)
    requires
        s.len() > 0,
    ensures
        signed_value(Seq::new(n, |i: int| if s[0] >= 0x80 { 0xffu8 } else { 0u8 }) + s)
            == signed_value(s),
{
    let extension: u8 = if s[0] >= 0x80 {
        0xff
    } else {
        0
    };
    let lead = Seq::new(n, |i: int| if s[0] >= 0x80 { 0xffu8 } else { 0u8 });
    let e = lead + s;
    assert forall|i: int| 0 <= i < n implies e[i] == extension by {
        assert(e[i] == lead[i]);
    }
    lemma_strip_sign(e, n as int, extension);
    assert(e.skip(n as int) =~= s);
    if n > 0 {
        assert(e[0] == extension);
    } else {
        assert(e =~= s);
    }
}

/// One byte string comes after another if and only if it is longer and starts with it, or has the
/// greater byte at the first place where they differ.
pub proof fn lexicographic_order(a: Seq<u8>, b: Seq<u8>)
    ensures
        bytes_greater(a, b) <==> (b.len() < a.len() && b == a.take(b.len() as int)) || exists|i: int|
            #![trigger a[i], b[i]]
            0 <= i < a.len() && i < b.len() && a.take(i) == b.take(i) && a[i] > b[i],
    decreases a.len(),
{
    if a.len() == 0 {
    } else if b.len() == 0 {
        assert(a.take(0) =~= b);
    } else if a[0] != b[0] {
        if a[0] > b[0] {
            assert(a.take(0) =~= b.take(0));
        } else {
            assert forall|i: int|
                #![trigger a[i], b[i]]
                0 <= i < a.len() && i < b.len() && a.take(i) == b.take(i) && a[i] > b[i] implies false
                by {
                assert(i > 0);
                assert(a.take(i)[0] == b.take(i)[0]);
            }
            if b.len() < a.len() && b == a.take(b.len() as int) {
                assert(b[0] == a.take(b.len() as int)[0]);
            }
        }
    } else {
        let (x, y) = (a.skip(1), b.skip(1));
        lexicographic_order(x, y);
        if bytes_greater(x, y) {
            if y.len() < x.len() && y == x.take(y.len() as int) {
                assert(b =~= a.take(b.len() as int)) by {
                    assert forall|k: int| 0 <= k < b.len() implies b[k] == a[k] by {
                        if k > 0 {
                            assert(y[k - 1] == x.take(y.len() as int)[k - 1]);
                        }
                    }
                }
            } else {
                let i = choose|i: int|
                    #![trigger x[i], y[i]]
                    0 <= i < x.len() && i < y.len() && x.take(i) == y.take(i) && x[i] > y[i];
                assert(a.take(i + 1) =~= b.take(i + 1)) by {
                    assert forall|k: int| 0 <= k < i + 1 implies a[k] == b[k] by {
                        if k > 0 {
                            assert(x.take(i)[k - 1] == y.take(i)[k - 1]);
                        }
                    }
                }
                assert(a[i + 1] > b[i + 1]);
            }
        } else {
            if b.len() < a.len() && b == a.take(b.len() as int) {
                assert(y =~= x.take(y.len() as int)) by {
                    assert forall|k: int| 0 <= k < y.len() implies y[k] == x[k] by {
                        assert(b[k + 1] == a.take(b.len() as int)[k + 1]);
                    }
                }
            }
            assert forall|i: int|
                #![trigger a[i], b[i]]
                0 <= i < a.len() && i < b.len() && a.take(i) == b.take(i) && a[i] > b[i] implies false
                by {
                assert(i > 0);
                assert(x.take(i - 1) =~= y.take(i - 1)) by {
                    assert forall|k: int| 0 <= k < i - 1 implies x[k] == y[k] by {
                        assert(a.take(i)[k + 1] == b.take(i)[k + 1]);
                    }
                }
                assert(x[i - 1] > y[i - 1]);
            }
        }
    }
}

pub(crate) proof fn lemma_one_more_digit(s: Seq<u8>, b: u8)
    ensures
        unsigned_value(s.push(b)) == 256 * unsigned_value(s) + b,
        pow256(s.len() + 1) == 256 * pow256(s.len()),
    decreases s.len(),
{
    let t = s.push(b);
    if s.len() == 0 {
        assert(t.skip(1) =~= Seq::<u8>::empty());
        assert(pow256(0) == 1);
        assert(unsigned_value(t.skip(1)) == 0);
        assert(unsigned_value(s) == 0);
        assert(t[0] as nat * 1 == b);
    } else {
        lemma_one_more_digit(s.skip(1), b);
        assert(t.skip(1) =~= s.skip(1).push(b));
        let p = pow256((s.len() - 1) as nat);
        let d = s[0] as nat;
        assert(t[0] == s[0]);
        assert(pow256((t.len() - 1) as nat) == 256 * p);
        assert(unsigned_value(t) == d * (256 * p) + unsigned_value(t.skip(1)));
        assert(d * (256 * p) == 256 * (d * p)) by (nonlinear_arith);
    }
}

/// A decimal of one byte is that byte as a signed number, and a byte behind a decimal adds a digit in
/// base 256.
pub proof fn decimals_are_numbers(s: Seq<u8>, b: u8)
    ensures
        signed_value(seq![b]) == if b < 128 {
            b as int
        } else {
            b - 256
        },
        s.len() > 0 ==> signed_value(s.push(b)) == 256 * signed_value(s) + b,
{
    let one = seq![b];
    lemma_one_more_digit(Seq::empty(), b);
    assert(Seq::<u8>::empty().push(b) =~= one);
    assert(unsigned_value(Seq::<u8>::empty()) == 0);
    assert(pow256(1) == 256 * pow256(0));
    lemma_one_more_digit(s, b);
}

/// Decimals compare as the numbers that they are, and an empty one is below all others.
pub proof fn decimals_compare_as_numbers(a: Seq<u8>, b: Seq<u8>)
    ensures
        a.len() > 0 && b.len() > 0 ==> (decimal_greater(a, b) <==> signed_value(a) > signed_value(
            b,
        )),
        a.len() == 0 ==> !decimal_greater(a, b),
        a.len() > 0 && b.len() == 0 ==> decimal_greater(a, b),
{
}

} // verus!
