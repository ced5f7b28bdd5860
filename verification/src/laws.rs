//! What holds of the dedup engine on every input, proved over its model.

use crate::engine::{
    advance32, advance64, after, first_seen, lemma_advance_twice, lemma_first_seen_short,
    record_text, records, DedupEngine, EngineState,
};
use crate::store::{HasInsert, MAX_NUMBER};
use crate::text::{
    all_digits, decimal_value, drop_trailing_spaces, is_digit, lemma_padded_width, padded_digits,
    parsed_value, pow10, skip_spaces,
};
use vstd::prelude::*;
use vstd::seq_lib::lemma_seq_contains_after_push;

verus! {

/// The first-seen values of a run are exactly the values of the run that were
/// not seen before, each of them once.
pub proof fn law_first_seen_once(seen: Set<u32>, values: Seq<u32>)
    ensures
        first_seen(seen, values).no_duplicates(),
        forall|v: u32| #[trigger]
            first_seen(seen, values).contains(v) <==> values.contains(v) && !seen.contains(v),
        first_seen(seen, values).to_set() == values.to_set().difference(seen),
        first_seen(seen, values).len() == values.to_set().difference(seen).len(),
    decreases values.len(),
{
    let found = first_seen(seen, values);
    if values.len() > 0 {
        let earlier = values.drop_last();
        let last = values.last();
        law_first_seen_once(seen, earlier);
        let before = first_seen(seen, earlier);
        assert(values =~= earlier.push(last));
        assert forall|v: u32| values.contains(v) <==> (earlier.contains(v) || v == last) by {
            lemma_seq_contains_after_push(earlier, last, v);
        }
        if !(seen.contains(last) || earlier.contains(last)) {
            assert(found == before.push(last));
            assert forall|v: u32| found.contains(v) <==> (before.contains(v) || v == last) by {
                lemma_seq_contains_after_push(before, last, v);
            }
            assert forall|i: int, j: int| 0 <= i < found.len() && 0 <= j < found.len() && i != j
                implies found[i] != found[j] by {
                if i < before.len() {
                    assert(before.contains(before[i]));
                }
                if j < before.len() {
                    assert(before.contains(before[j]));
                }
            }
        }
    }
    assert(found.to_set() =~= values.to_set().difference(seen));
    found.unique_seq_to_set();
}

/// Order does not matter: two runs that hold the same values the same number
/// of times, in any interleaving, leave the same set and the same counters.
pub proof fn law_order_irrelevant(s: EngineState, a: Seq<u32>, b: Seq<u32>)
    requires
        a.to_multiset() == b.to_multiset(),
    ensures
        after(s, a) == after(s, b),
{
    a.to_multiset_ensures();
    b.to_multiset_ensures();
    assert forall|v: u32| a.contains(v) <==> b.contains(v) by {
        assert(a.contains(v) <==> a.to_multiset().count(v) > 0);
        assert(b.contains(v) <==> b.to_multiset().count(v) > 0);
    }
    assert(a.to_set() =~= b.to_set());
    law_first_seen_once(s.seen, a);
    law_first_seen_once(s.seen, b);
}

/// How often `value` occurs in `values`.
pub open spec fn occurrences(values: Seq<u32>, value: u32) -> nat
    decreases values.len(),
{
    if values.len() == 0 {
        0
    } else {
        occurrences(values.drop_last(), value) + if values.last() == value { 1nat } else { 0nat }
    }
}

/// `values` with every occurrence of `value` taken out.
pub open spec fn without(values: Seq<u32>, value: u32) -> Seq<u32>
    decreases values.len(),
{
    if values.len() == 0 {
        values
    } else if values.last() == value {
        without(values.drop_last(), value)
    } else {
        without(values.drop_last(), value).push(values.last())
    }
}

proof fn lemma_without(seen: Set<u32>, values: Seq<u32>, value: u32)
    requires
        !seen.contains(value),
    ensures
        values.len() == without(values, value).len() + occurrences(values, value),
        forall|v: u32| #[trigger]
            without(values, value).contains(v) <==> values.contains(v) && v != value,
        values.contains(value) <==> occurrences(values, value) >= 1,
        first_seen(seen, values).len() == first_seen(seen, without(values, value)).len() + if occurrences(
            values,
            value,
        ) >= 1 { 1nat } else { 0nat },
    decreases values.len(),
{
    if values.len() > 0 {
        let earlier = values.drop_last();
        let last = values.last();
        lemma_without(seen, earlier, value);
        assert(values =~= earlier.push(last));
        assert forall|v: u32| values.contains(v) <==> (earlier.contains(v) || v == last) by {
            lemma_seq_contains_after_push(earlier, last, v);
        }
        if last == value {
            assert(without(values, value) == without(earlier, value));
            assert forall|v: u32| #[trigger]
                without(values, value).contains(v) <==> values.contains(v) && v != value by {
                assert(without(earlier, value).contains(v) <==> earlier.contains(v) && v != value);
            }
        } else {
            let kept = without(earlier, value);
            assert(without(values, value) == kept.push(last));
            assert(kept.push(last).drop_last() =~= kept);
            assert forall|v: u32| kept.push(last).contains(v) <==> (kept.contains(v) || v
                == last) by {
                lemma_seq_contains_after_push(kept, last, v);
            }
            assert forall|v: u32| #[trigger]
                without(values, value).contains(v) <==> values.contains(v) && v != value by {
                assert(kept.contains(v) <==> earlier.contains(v) && v != value);
                assert(kept.push(last).contains(v) <==> (kept.contains(v) || v == last));
            }
        }
    }
}

/// Idempotent dedup: a value that was not seen before and is submitted `n`
/// times, in any interleaving with any other values, adds one to the unique
/// counter and `n - 1` to the duplicate counter, over what the other values
/// alone would have given. The counters wrap round as the machine's do.
pub proof fn law_idempotent_dedup(s: EngineState, values: Seq<u32>, value: u32)
    requires
        !s.seen.contains(value),
        occurrences(values, value) >= 1,
    ensures
        after(s, values).unique == advance32(after(s, without(values, value)).unique, 1),
        after(s, values).duplicate == advance64(
            after(s, without(values, value)).duplicate,
            occurrences(values, value) - 1,
        ),
        after(s, values).seen == after(s, without(values, value)).seen.insert(value),
{
    lemma_without(s.seen, values, value);
    let others = without(values, value);
    assert(after(s, values).seen =~= after(s, others).seen.insert(value));
    let fresh = first_seen(s.seen, others).len() as int;
    lemma_first_seen_short(s.seen, others);
    lemma_advance_twice(s.unique, s.duplicate, fresh, 1);
    lemma_advance_twice(
        s.unique,
        s.duplicate,
        others.len() - fresh,
        occurrences(values, value) - 1,
    );
}

/// A value submitted `n` times and nothing else: the unique counter goes up
/// by one and the duplicate counter by `n - 1`, where neither wraps round.
pub proof fn law_repeated_value(s: EngineState, value: u32, n: nat)
    requires
        !s.seen.contains(value),
        n >= 1,
        s.unique < u32::MAX,
        s.duplicate + n - 1 <= u64::MAX,
    ensures
        after(s, Seq::new(n, |i: int| value)).unique == s.unique + 1,
        after(s, Seq::new(n, |i: int| value)).duplicate == s.duplicate + n - 1,
        after(s, Seq::new(n, |i: int| value)).seen == s.seen.insert(value),
{
    let values = Seq::new(n, |i: int| value);
    assert(values[0] == value);
    assert(values.to_set() =~= set![value]);
    assert(values.to_set().difference(s.seen) =~= set![value]);
    law_first_seen_once(s.seen, values);
    assert(set![value].len() == 1);
    assert(after(s, values).seen =~= s.seen.insert(value));
}

/// From an empty store the unique counter is the number of distinct values
/// of the run and the duplicate counter the number of the others: values that
/// all differ are all unique, and none is a duplicate.
pub proof fn law_counts_from_empty(values: Seq<u32>)
    ensures
        values.to_set().len() <= values.len(),
        after(EngineState { seen: Set::empty(), unique: 0, duplicate: 0 }, values).unique
            == advance32(0, values.to_set().len() as int),
        after(EngineState { seen: Set::empty(), unique: 0, duplicate: 0 }, values).duplicate
            == advance64(0, values.len() - values.to_set().len()),
        values.no_duplicates() ==> values.to_set().len() == values.len(),
{
    law_first_seen_once(Set::empty(), values);
    lemma_first_seen_short(Set::empty(), values);
    assert(values.to_set().difference(Set::empty()) =~= values.to_set());
    if values.no_duplicates() {
        values.unique_seq_to_set();
    }
}

/// Backend equivalence: two engines over any two membership stores that
/// start from the same state and take in the same run end in the same state,
/// with the same counters and the same values flagged first-seen.
pub proof fn law_backend_equivalence<A: HasInsert, B: HasInsert>(
    a_before: DedupEngine<A>,
    a_after: DedupEngine<A>,
    b_before: DedupEngine<B>,
    b_after: DedupEngine<B>,
    values: Seq<u32>,
)
    requires
        a_before@ == b_before@,
        a_after@ == after(a_before@, values),
        b_after@ == after(b_before@, values),
    ensures
        a_after@ == b_after@,
        first_seen(a_before@.seen, values) == first_seen(b_before@.seen, values),
        records(a_before@.seen, values) == records(b_before@.seen, values),
{
}

/// The bytes of a text of ASCII characters.
pub open spec fn ascii_bytes(text: Seq<char>) -> Seq<u8> {
    text.map_values(|c: char| c as u8)
}

proof fn lemma_padded_bytes(n: nat, width: nat)
    ensures
        padded_digits(n, width).len() >= 1,
        all_digits(ascii_bytes(padded_digits(n, width))),
        decimal_value(ascii_bytes(padded_digits(n, width))) == n,
    decreases n, width,
{
    let digits = padded_digits(n, width);
    let bytes = ascii_bytes(digits);
    if n < 10 && width <= 1 {
        assert(bytes.drop_last() =~= Seq::<u8>::empty());
        assert(decimal_value(bytes.drop_last()) == 0);
        assert(bytes.last() == 48 + n);
    } else {
        let rest = padded_digits(n / 10, if width > 0 { (width - 1) as nat } else { 0 });
        lemma_padded_bytes(n / 10, if width > 0 { (width - 1) as nat } else { 0 });
        assert(bytes.drop_last() =~= ascii_bytes(rest));
        assert(bytes.last() == 48 + n % 10);
        assert forall|i: int| 0 <= i < bytes.len() implies is_digit(#[trigger] bytes[i]) by {
            if i < rest.len() {
                assert(bytes[i] == ascii_bytes(rest)[i]);
            }
        }
    }
}

/// What is written reads back: a value of the domain, rendered at any width
/// and read as a line, is that value again. So the log tells which values
/// were first seen.
pub proof fn law_record_reads_back(value: u32, width: nat, bound: u32)
    requires
        value < bound,
    ensures
        parsed_value(ascii_bytes(padded_digits(value as nat, width)), bound) == Some(value),
{
    let bytes = ascii_bytes(padded_digits(value as nat, width));
    lemma_padded_bytes(value as nat, width);
    assert(is_digit(bytes[0]));
    assert(is_digit(bytes[bytes.len() - 1]));
    assert(skip_spaces(bytes) == bytes);
    assert(drop_trailing_spaces(bytes) == bytes);
}

/// Log fidelity: the records of a run are the records of its first-seen
/// values, one each and in their order; no record comes twice; and the record
/// of a value of the domain is nine characters wide.
pub proof fn law_log_fidelity(seen: Set<u32>, values: Seq<u32>)
    ensures
        records(seen, values).len() == first_seen(seen, values).len(),
        forall|i: int| 0 <= i < first_seen(seen, values).len() ==> #[trigger] records(seen, values)[i]
            == record_text(first_seen(seen, values)[i]),
        records(seen, values).no_duplicates(),
        forall|i: int| 0 <= i < first_seen(seen, values).len() && first_seen(seen, values)[i]
            < MAX_NUMBER ==> (#[trigger] records(seen, values)[i]).len() == 9,
{
    let found = first_seen(seen, values);
    let lines = records(seen, values);
    law_first_seen_once(seen, values);
    assert forall|i: int, j: int| 0 <= i < lines.len() && 0 <= j < lines.len() && i != j implies lines[i]
        != lines[j] by {
        lemma_padded_bytes(found[i] as nat, 9);
        lemma_padded_bytes(found[j] as nat, 9);
    }
    assert forall|i: int| 0 <= i < found.len() && found[i] < MAX_NUMBER implies (#[trigger] lines[i]).len()
        == 9 by {
        reveal_with_fuel(pow10, 10);
        assert(pow10(9) == 1_000_000_000);
        lemma_padded_width(found[i] as nat, 9);
    }
}

} // verus!
