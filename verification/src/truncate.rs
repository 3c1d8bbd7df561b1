//! Shortening the minima and maxima of byte string columns so that they stay bounds.
//!
//! A minimum may be cut off anywhere: what is left comes before the value. A maximum has to be
//! raised after it was cut, which is done on its last byte that can be raised. Text is cut and
//! raised so that it stays text.
use vstd::prelude::*;
use vstd::slice::{slice_subrange, slice_to_vec};
use vstd::string::StringSliceAdditionalSpecFns;
use vstd::utf8::{is_char_boundary, valid_utf8};

use crate::byte_order::{bytes_greater, lemma_one_more_digit, unsigned_value};

verus! {

/// The length of the longest prefix of the text `s` that ends between two characters and is not
/// longer than `limit`.
pub open spec fn text_prefix_len(s: Seq<u8>, limit: nat) -> nat
    decreases limit,
{
    if limit == 0 {
        0
    } else if is_char_boundary(s, limit as int) {
        limit
    } else {
        text_prefix_len(s, (limit - 1) as nat)
    }
}

/// The longest prefix of the text `s` that is text, not empty and shorter than `length`.
pub open spec fn text_prefix(s: Seq<u8>, length: nat) -> Option<Seq<u8>> {
    let len = text_prefix_len(s, (length - 1) as nat);
    if length > 0 && len > 0 {
        Some(s.take(len as int))
    } else {
        None
    }
}

/// The byte string that follows `s` among those of its length.
pub open spec fn raised(s: Seq<u8>) -> Option<Seq<u8>>
    decreases s.len(),
{
    if s.len() == 0 {
        None
    } else if s.last() < 0xff {
        Some(s.drop_last().push((s.last() + 1) as u8))
    } else {
        match raised(s.drop_last()) {
            Some(head) => Some(head.push(0)),
            None => None,
        }
    }
}

/// Whether `s` is text after its byte at `i` is raised by one.
pub open spec fn text_raised_at(s: Seq<u8>, i: int) -> bool {
    s[i] < 0xff && valid_utf8(s.update(i, (s[i] + 1) as u8))
}

/// The text that results where the last of the first `end` bytes of `s` that can be raised is
/// raised by one.
pub open spec fn raised_text_before(s: Seq<u8>, end: nat) -> Option<Seq<u8>>
    decreases end,
{
    if end == 0 {
        None
    } else if text_raised_at(s, end - 1) {
        Some(s.update(end - 1, (s[end - 1] + 1) as u8))
    } else {
        raised_text_before(s, (end - 1) as nat)
    }
}

/// The text that results where the last byte of `s` that can be raised is raised by one.
pub open spec fn raised_text(s: Seq<u8>) -> Option<Seq<u8>> {
    raised_text_before(s, s.len())
}

/// A lower bound of `s` that is not longer than `limit`, or shorter where `s` is text, where there is
/// one.
pub open spec fn shortened_min(limit: nat, s: Seq<u8>) -> Option<Seq<u8>> {
    if valid_utf8(s) {
        text_prefix(s, limit)
    } else {
        Some(s.take(limit as int))
    }
}

/// An upper bound of `s` that is not longer than `limit`, or shorter where `s` is text, where there
/// is one.
pub open spec fn shortened_max(limit: nat, s: Seq<u8>) -> Option<Seq<u8>> {
    if valid_utf8(s) {
        match text_prefix(s, limit) {
            Some(prefix) => raised_text(prefix),
            None => None,
        }
    } else {
        raised(s.take(limit as int))
    }
}

/// The minimum that is recorded for the least value `s`, and whether it is a shortened one.
pub open spec fn truncated_min(limit: Option<usize>, s: Seq<u8>) -> (Seq<u8>, bool) {
    match limit {
        Some(l) if s.len() > l => match shortened_min(l as nat, s) {
            Some(short) => (short, true),
            None => (s, false),
        },
        _ => (s, false),
    }
}

/// The maximum that is recorded for the greatest value `s`, and whether it is a shortened one.
pub open spec fn truncated_max(limit: Option<usize>, s: Seq<u8>) -> (Seq<u8>, bool) {
    match limit {
        Some(l) if s.len() > l => match shortened_max(l as nat, s) {
            Some(short) => (short, true),
            None => (s, false),
        },
        _ => (s, false),
    }
}

/// `std::str::from_utf8`: gives the text that `data` encodes, exactly where `data` is valid UTF-8.
#[verifier::external_body]
fn decode_text(data: &[u8]) -> (text: Option<&str>)
    ensures
        text is Some <==> valid_utf8(data@),
        text matches Some(t) ==> t.spec_bytes() == data@,
{
    std::str::from_utf8(data).ok()
}

/// Truncates text to its longest prefix that is still text, less than `length` bytes long and not
/// empty.
pub fn truncate_utf8(data: &str, length: usize) -> (prefix: Option<Vec<u8>>)
    ensures
        (match prefix {
            Some(p) => text_prefix(data.spec_bytes(), length as nat) == Some(p@),
            None => text_prefix(data.spec_bytes(), length as nat) is None,
        }),
        prefix matches Some(p) ==> 0 < p@.len() < length,
{
    if length == 0 {
        return None;
    }
    let mut split: usize = length - 1;
    while split > 0 && !data.is_char_boundary(split)
        invariant
            split < length,
            text_prefix_len(data.spec_bytes(), (length - 1) as nat) == text_prefix_len(
                data.spec_bytes(),
                split as nat,
            ),
        decreases split,
    {
        split = split - 1;
    }
    if split == 0 {
        return None;
    }
    let bytes = data.as_bytes();
    proof {
        vstd::utf8::encode_utf8_valid_utf8(data@);
        lemma_boundary_in_range(data.spec_bytes(), split as int);
    }
    let prefix = slice_to_vec(slice_subrange(bytes, 0, split));
    assert(prefix@ =~= bytes@.take(split as int));
    Some(prefix)
}

proof fn lemma_boundary_in_range(s: Seq<u8>, i: int)
    requires
        valid_utf8(s),
        is_char_boundary(s, i),
    ensures
        0 <= i <= s.len(),
{
    reveal_with_fuel(is_char_boundary, 2);
}

/// Tries to increment the bytes from right to left.
///
/// Returns `None` if all bytes are `u8::MAX`.
#[verifier::loop_isolation(false)]
pub fn increment(data: Vec<u8>) -> (next: Option<Vec<u8>>)
    ensures
        (match next {
            Some(n) => raised(data@) == Some(n@),
            None => raised(data@) is None,
        }),
{
    let mut data = data;
    let ghost start = data@;
    let mut idx: usize = data.len();
    proof {
        assert(start.take(start.len() as int) =~= start);
    }
    while idx > 0
        invariant
            idx <= data.len(),
            data.len() == start.len(),
            forall|j: int| 0 <= j < idx ==> data[j] == start[j],
            forall|j: int| idx <= j < data.len() ==> data[j] == 0,
            raised(start) is None <==> raised(start.take(idx as int)) is None,
            raised(start.take(idx as int)) matches Some(head) ==> raised(start) == Some(
                head + data@.skip(idx as int),
            ),
        decreases idx,
    {
        idx = idx - 1;
        let byte: u8 = data[idx];
        let ghost t = start.take(idx + 1);
        let ghost zeros = data@.skip(idx + 1);
        assert(t.drop_last() =~= start.take(idx as int));
        if byte < 0xff {
            data.set(idx, byte + 1);
            assert(data@ =~= t.drop_last().push((byte + 1) as u8) + zeros);
            return Some(data);
        }
        data.set(idx, 0);
        proof {
            assert(data@.skip(idx as int) =~= seq![0u8] + zeros);
            if let Some(head) = raised(start.take(idx as int)) {
                assert(raised(t) == Some(head.push(0)));
                assert(head.push(0) + zeros =~= head + data@.skip(idx as int));
            }
        }
    }
    None
}

/// Tries to increment the bytes of a text from right to left, returning when the result is text.
///
/// Returns `None` when it can't increment any byte.
#[verifier::loop_isolation(false)]
pub fn increment_utf8(data: Vec<u8>) -> (next: Option<Vec<u8>>)
    ensures
        (match next {
            Some(n) => raised_text(data@) == Some(n@),
            None => raised_text(data@) is None,
        }),
{
    let mut data = data;
    let ghost start = data@;
    let mut idx: usize = data.len();
    while idx > 0
        invariant
            idx <= data.len(),
            data@ == start,
            raised_text(start) == raised_text_before(start, idx as nat),
        decreases idx,
    {
        idx = idx - 1;
        let original: u8 = data[idx];
        if original < 0xff {
            data.set(idx, original + 1);
            if decode_text(data.as_slice()).is_some() {
                return Some(data);
            }
            data.set(idx, original);
            assert(data@ =~= start);
        }
    }
    None
}

/// The minimum to record for the least value `data`, cut to `truncation_length` bytes, or to fewer
/// where it is text, if it is longer and can be cut, and whether it was cut.
pub fn truncate_min_value(truncation_length: Option<usize>, data: &[u8]) -> (min: (Vec<u8>, bool))
    ensures
        (min.0@, min.1) == truncated_min(truncation_length, data@),
{
    if let Some(l) = truncation_length {
        if data.len() > l {
            match decode_text(data) {
                Some(text) => {
                    if let Some(short) = truncate_utf8(text, l) {
                        return (short, true);
                    }
                },
                None => {
                    let short = slice_to_vec(slice_subrange(data, 0, l));
                    assert(short@ =~= data@.take(l as int));
                    return (short, true);
                },
            }
        }
    }
    (slice_to_vec(data), false)
}

/// The maximum to record for the greatest value `data`, cut to `truncation_length` bytes, or to fewer
/// where it is text, and raised if it is longer and that can be done, and whether it was cut.
pub fn truncate_max_value(truncation_length: Option<usize>, data: &[u8]) -> (max: (Vec<u8>, bool))
    ensures
        (max.0@, max.1) == truncated_max(truncation_length, data@),
{
    if let Some(l) = truncation_length {
        if data.len() > l {
            match decode_text(data) {
                Some(text) => {
                    if let Some(short) = truncate_utf8(text, l) {
                        if let Some(raised) = increment_utf8(short) {
                            return (raised, true);
                        }
                    }
                },
                None => {
                    let short = slice_to_vec(slice_subrange(data, 0, l));
                    assert(short@ =~= data@.take(l as int));
                    if let Some(raised) = increment(short) {
                        return (raised, true);
                    }
                },
            }
        }
    }
    (slice_to_vec(data), false)
}

/// A byte string that differs from `a` first at `i`, where it has the greater byte, comes after
/// `a` and after everything that starts with the first `i + 1` bytes of `a`.
proof fn lemma_greater_at(a: Seq<u8>, b: Seq<u8>, i: int)
    requires
        0 <= i < a.len(),
        i < b.len(),
        a.take(i) == b.take(i),
        b[i] > a[i],
    ensures
        bytes_greater(b, a),
    decreases i,
{
    if i > 0 {
        assert(a[0] == a.take(i)[0]);
        assert(b[0] == b.take(i)[0]);
        assert(a.skip(1).take(i - 1) =~= a.take(i).skip(1));
        assert(b.skip(1).take(i - 1) =~= b.take(i).skip(1));
        lemma_greater_at(a.skip(1), b.skip(1), i - 1);
    }
}

proof fn lemma_prefix_not_greater(s: Seq<u8>, n: int)
    requires
        0 <= n <= s.len(),
    ensures
        !bytes_greater(s.take(n), s),
    decreases n,
{
    if n > 0 {
        assert(s.take(n).skip(1) =~= s.skip(1).take(n - 1));
        lemma_prefix_not_greater(s.skip(1), n - 1);
    }
}

proof fn lemma_text_prefix_len(s: Seq<u8>, limit: nat)
    requires
        valid_utf8(s),
    ensures
        text_prefix_len(s, limit) <= limit,
        text_prefix_len(s, limit) <= s.len(),
        is_char_boundary(s, text_prefix_len(s, limit) as int),
    decreases limit,
{
    if limit == 0 {
        reveal_with_fuel(is_char_boundary, 1);
    } else if is_char_boundary(s, limit as int) {
        lemma_boundary_in_range(s, limit as int);
    } else {
        lemma_text_prefix_len(s, (limit - 1) as nat);
    }
}

/// Where `raised` gives a string, that string has the same length, agrees with `s` up to a byte
/// that it has raised, and so comes after everything that starts with `s`.
proof fn lemma_raised(s: Seq<u8>) -> (at: int)
    requires
        raised(s) is Some,
    ensures
        raised(s)->0.len() == s.len(),
        0 <= at < s.len(),
        raised(s)->0.take(at) == s.take(at),
        raised(s)->0[at] > s[at],
    decreases s.len(),
{
    let r = raised(s)->0;
    if s.last() < 0xff {
        assert(r.take(s.len() - 1) =~= s.take(s.len() - 1));
        s.len() - 1
    } else {
        let at = lemma_raised(s.drop_last());
        let head = raised(s.drop_last())->0;
        assert(r =~= head.push(0));
        assert(r.take(at) =~= head.take(at));
        assert(s.take(at) =~= s.drop_last().take(at));
        at
    }
}

proof fn lemma_raised_text(s: Seq<u8>, end: nat) -> (at: int)
    requires
        end <= s.len(),
        raised_text_before(s, end) is Some,
    ensures
        valid_utf8(raised_text_before(s, end)->0),
        raised_text_before(s, end)->0.len() == s.len(),
        0 <= at < end,
        raised_text_before(s, end)->0.take(at) == s.take(at),
        raised_text_before(s, end)->0[at] > s[at],
    decreases end,
{
    if text_raised_at(s, end - 1) {
        let r = raised_text_before(s, end)->0;
        assert(r.take(end - 1) =~= s.take(end - 1));
        end - 1
    } else {
        lemma_raised_text(s, (end - 1) as nat)
    }
}

/// A recorded minimum never comes after the value, and a shortened one fits the limit; one of a text
/// is shorter.
pub proof fn truncated_min_is_lower_bound(limit: Option<usize>, s: Seq<u8>)
    ensures
        !bytes_greater(truncated_min(limit, s).0, s),
        truncated_min(limit, s).1 ==> limit is Some && truncated_min(limit, s).0.len() <= limit->0
            && limit->0 < s.len(),
        truncated_min(limit, s).1 && valid_utf8(s) ==> truncated_min(limit, s).0.len() < limit->0,
        !truncated_min(limit, s).1 ==> truncated_min(limit, s).0 == s,
{
    assert(s.take(s.len() as int) =~= s);
    lemma_prefix_not_greater(s, s.len() as int);
    if let Some(l) = limit {
        if s.len() > l {
            lemma_prefix_not_greater(s, l as int);
            if valid_utf8(s) && l > 0 {
                lemma_text_prefix_len(s, (l - 1) as nat);
                lemma_prefix_not_greater(s, text_prefix_len(s, (l - 1) as nat) as int);
            }
        }
    }
}

/// A shortened maximum comes after the value and fits the limit, and one of a text is shorter; one
/// that is not shortened is the value.
pub proof fn truncated_max_is_upper_bound(limit: Option<usize>, s: Seq<u8>)
    ensures
        truncated_max(limit, s).1 ==> bytes_greater(truncated_max(limit, s).0, s),
        truncated_max(limit, s).1 ==> limit is Some && truncated_max(limit, s).0.len() <= limit->0
            && limit->0 < s.len(),
        truncated_max(limit, s).1 && valid_utf8(s) ==> truncated_max(limit, s).0.len() < limit->0,
        !truncated_max(limit, s).1 ==> truncated_max(limit, s).0 == s,
{
    if let Some(l) = limit {
        if s.len() > l {
            if shortened_max(l as nat, s) is Some {
                if valid_utf8(s) {
                    lemma_text_prefix_len(s, (l - 1) as nat);
                    let p = text_prefix(s, l as nat)->0;
                    let at = lemma_raised_text(p, p.len());
                    assert(s.take(at) =~= p.take(at));
                    lemma_greater_at(s, raised_text(p)->0, at);
                } else {
                    let p = s.take(l as int);
                    let at = lemma_raised(p);
                    assert(s.take(at) =~= p.take(at));
                    lemma_greater_at(s, raised(p)->0, at);
                }
            }
        }
    }
}

/// The bounds of a text are text.
pub proof fn truncated_text_is_text(limit: Option<usize>, s: Seq<u8>)
    requires
        valid_utf8(s),
    ensures
        valid_utf8(truncated_min(limit, s).0),
        valid_utf8(truncated_max(limit, s).0),
{
    if let Some(l) = limit {
        if s.len() > l && l > 0 {
            lemma_text_prefix_len(s, (l - 1) as nat);
            let n = text_prefix_len(s, (l - 1) as nat) as int;
            vstd::utf8::valid_utf8_split(s, n);
            assert(s.take(n) =~= s.subrange(0, n));
            if let Some(p) = text_prefix(s, l as nat) {
                if raised_text(p) is Some {
                    let _ = lemma_raised_text(p, p.len());
                }
            }
        }
    }
}

proof fn lemma_text_prefix_len_is_greatest(s: Seq<u8>, limit: nat, n: nat)
    requires
        text_prefix_len(s, limit) < n <= limit,
    ensures
        !is_char_boundary(s, n as int),
    decreases limit,
{
    if n < limit {
        lemma_text_prefix_len_is_greatest(s, (limit - 1) as nat, n);
    }
}

/// The prefix that a text is cut to is shorter than the length, and it is the longest of that kind:
/// none that is longer and shorter than the length ends between two characters.
pub proof fn text_prefix_is_longest(s: Seq<u8>, length: nat, n: nat)
    requires
        valid_utf8(s),
    ensures
        text_prefix(s, length) matches Some(p) ==> {
            &&& 0 < p.len() < length
            &&& p.is_prefix_of(s)
            &&& is_char_boundary(s, p.len() as int)
            &&& p.len() < n < length ==> !is_char_boundary(s, n as int)
        },
        text_prefix(s, length) is None && 0 < n < length ==> !is_char_boundary(s, n as int),
{
    if length > 0 {
        lemma_text_prefix_len(s, (length - 1) as nat);
        if text_prefix_len(s, (length - 1) as nat) < n < length {
            lemma_text_prefix_len_is_greatest(s, (length - 1) as nat, n);
        }
    }
}

/// Raising fails exactly on the strings of nothing but `0xff`.
pub proof fn raised_unless_all_max(s: Seq<u8>)
    ensures
        raised(s) is None <==> forall|i: int| 0 <= i < s.len() ==> s[i] == 0xff,
    decreases s.len(),
{
    if s.len() > 0 {
        raised_unless_all_max(s.drop_last());
        if raised(s) is None {
            assert forall|i: int| 0 <= i < s.len() implies s[i] == 0xff by {
                if i < s.len() - 1 {
                    assert(s[i] == s.drop_last()[i]);
                }
            }
        } else if s.last() == 0xff {
            let i = choose|i: int| 0 <= i < s.drop_last().len() && s.drop_last()[i] != 0xff;
            assert(s[i] != 0xff);
        }
    }
}

/// A byte string that was raised has the same length and writes the next number in base 256.
pub proof fn raised_is_the_next_number(s: Seq<u8>)
    ensures
        raised(s) matches Some(r) ==> r.len() == s.len() && unsigned_value(r) == unsigned_value(s)
            + 1,
    decreases s.len(),
{
    if s.len() > 0 {
        let head = s.drop_last();
        assert(head.push(s.last()) =~= s);
        lemma_one_more_digit(head, s.last());
        if s.last() < 0xff {
            lemma_one_more_digit(head, (s.last() + 1) as u8);
        } else {
            raised_is_the_next_number(head);
            if let Some(r) = raised(head) {
                lemma_one_more_digit(r, 0);
            }
        }
    }
}

proof fn lemma_raised_text_is_last(s: Seq<u8>, end: nat)
    requires
        end <= s.len(),
    ensures
        raised_text_before(s, end) matches Some(r) ==> exists|i: int|
            #![trigger s[i]]
            0 <= i < end && s[i] < 0xff && r == s.update(i, (s[i] + 1) as u8) && valid_utf8(r)
                && forall|j: int|
                #![trigger s[j]]
                i < j < end ==> s[j] == 0xff || !valid_utf8(s.update(j, (s[j] + 1) as u8)),
        raised_text_before(s, end) is None ==> forall|j: int|
            #![trigger s[j]]
            0 <= j < end ==> s[j] == 0xff || !valid_utf8(s.update(j, (s[j] + 1) as u8)),
    decreases end,
{
    if end > 0 {
        if text_raised_at(s, end - 1) {
            let i = end - 1;
            assert(s[i] < 0xff);
        } else {
            lemma_raised_text_is_last(s, (end - 1) as nat);
            if raised_text_before(s, (end - 1) as nat) is Some {
                let r = raised_text_before(s, (end - 1) as nat)->0;
                let i = choose|i: int|
                    #![trigger s[i]]
                    0 <= i < end - 1 && s[i] < 0xff && r == s.update(i, (s[i] + 1) as u8)
                        && valid_utf8(r) && forall|j: int|
                        #![trigger s[j]]
                        i < j < end - 1 ==> s[j] == 0xff || !valid_utf8(
                            s.update(j, (s[j] + 1) as u8),
                        );
                assert(s[i] < 0xff);
            }
        }
    }
}

/// Text is raised in one byte, by one, so that it stays text: in the last byte where that can be done.
/// It cannot be raised only where there is no such byte.
pub proof fn text_is_raised_in_its_last_place(s: Seq<u8>)
    ensures
        raised_text(s) matches Some(r) ==> exists|i: int|
            #![trigger s[i]]
            0 <= i < s.len() && s[i] < 0xff && r == s.update(i, (s[i] + 1) as u8) && valid_utf8(r)
                && forall|j: int|
                #![trigger s[j]]
                i < j < s.len() ==> s[j] == 0xff || !valid_utf8(s.update(j, (s[j] + 1) as u8)),
        raised_text(s) is None ==> forall|j: int|
            #![trigger s[j]]
            0 <= j < s.len() ==> s[j] == 0xff || !valid_utf8(s.update(j, (s[j] + 1) as u8)),
{
    lemma_raised_text_is_last(s, s.len());
}

/// A bound that is not longer than the limit, or has none, is recorded as it is.
pub proof fn short_bounds_are_kept(limit: Option<usize>, s: Seq<u8>)
    requires
        limit matches Some(l) ==> s.len() <= l,
    ensures
        truncated_min(limit, s) == (s, false),
        truncated_max(limit, s) == (s, false),
{
}

/// Bytes beyond the limit that are no text are cut to the limit, and a maximum is raised to the next
/// number of that length; it is recorded as it is only where all of its bytes are the greatest.
pub proof fn long_bytes_are_cut_to_the_limit(limit: usize, s: Seq<u8>)
    requires
        s.len() > limit,
        !valid_utf8(s),
    ensures
        truncated_min(Some(limit), s) == (s.take(limit as int), true),
        (exists|i: int| 0 <= i < limit && #[trigger] s[i] != 0xff) ==> {
            let (max, cut) = truncated_max(Some(limit), s);
            cut && max.len() == limit && unsigned_value(max) == unsigned_value(
                s.take(limit as int),
            ) + 1
        },
        (forall|i: int| 0 <= i < limit ==> #[trigger] s[i] == 0xff) ==> truncated_max(
            Some(limit),
            s,
        ) == (s, false),
{
    let p = s.take(limit as int);
    raised_unless_all_max(p);
    raised_is_the_next_number(p);
    if exists|i: int| 0 <= i < limit && #[trigger] s[i] != 0xff {
        let i = choose|i: int| 0 <= i < limit && #[trigger] s[i] != 0xff;
        assert(p[i] != 0xff);
    }
}

/// Text beyond the limit is cut to its longest part that is text, not empty and shorter than the
/// limit; it is recorded as it is only where there is none. A maximum is raised in the last byte where
/// it stays text, and recorded as it is where there is none.
pub proof fn long_text_is_cut_between_characters(limit: usize, s: Seq<u8>)
    requires
        s.len() > limit,
        valid_utf8(s),
    ensures
        (forall|n: int| 0 < n < limit ==> !is_char_boundary(s, n)) ==> {
            &&& truncated_min(Some(limit), s) == (s, false)
            &&& truncated_max(Some(limit), s) == (s, false)
        },
        forall|n: int|
            0 < n < limit && #[trigger] is_char_boundary(s, n) && (forall|m: int|
                n < m < limit ==> !is_char_boundary(s, m)) ==> {
                let p = s.take(n);
                &&& truncated_min(Some(limit), s) == (p, true)
                &&& truncated_max(Some(limit), s) == match raised_text(p) {
                    Some(r) => (r, true),
                    None => (s, false),
                }
            },
{
    if limit > 0 {
        lemma_text_prefix_len(s, (limit - 1) as nat);
        let len = text_prefix_len(s, (limit - 1) as nat);
        assert forall|n: int|
            0 < n < limit && #[trigger] is_char_boundary(s, n) && (forall|m: int|
                n < m < limit ==> !is_char_boundary(s, m)) implies len == n by {
            if len < n {
                lemma_text_prefix_len_is_greatest(s, (limit - 1) as nat, n as nat);
            } else if len > n {
                assert(is_char_boundary(s, len as int));
            }
        }
        if forall|n: int| 0 < n < limit ==> !is_char_boundary(s, n) {
            assert(len == 0) by {
                if len > 0 {
                    assert(is_char_boundary(s, len as int));
                }
            }
        }
    }
}

} // verus!
