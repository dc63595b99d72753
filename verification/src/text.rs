//! Text helpers shared by the query builder and the error messages:
//! decimal rendering of integers and the byte-wise order of strings.

use vstd::prelude::*;
use vstd::string::StringExecFns;
use vstd::utf8::{encode_utf8, encode_utf8_decode_utf8};

verus! {

/// The decimal digit that stands for `d`.
pub open spec fn digit_char(d: int) -> char
    recommends
        0 <= d < 10,
{
    if d == 0 {
        '0'
    } else if d == 1 {
        '1'
    } else if d == 2 {
        '2'
    } else if d == 3 {
        '3'
    } else if d == 4 {
        '4'
    } else if d == 5 {
        '5'
    } else if d == 6 {
        '6'
    } else if d == 7 {
        '7'
    } else if d == 8 {
        '8'
    } else {
        '9'
    }
}

/// The decimal numeral of `n`, most significant digit first, without leading
/// zeros (`0` is written "0").
pub open spec fn decimal(n: nat) -> Seq<char>
    decreases n,
{
    if n < 10 {
        seq![digit_char(n as int)]
    } else {
        decimal(n / 10).push(digit_char((n % 10) as int))
    }
}

/// The one-character text of the digit `d`.
pub fn digit_text(d: u64) -> (text: &'static str)
    requires
        d < 10,
    ensures
        text@ == seq![digit_char(d as int)],
{
    proof {
        reveal_strlit("0");
        reveal_strlit("1");
        reveal_strlit("2");
        reveal_strlit("3");
        reveal_strlit("4");
        reveal_strlit("5");
        reveal_strlit("6");
        reveal_strlit("7");
        reveal_strlit("8");
        reveal_strlit("9");
    }
    let text = if d == 0 {
        "0"
    } else if d == 1 {
        "1"
    } else if d == 2 {
        "2"
    } else if d == 3 {
        "3"
    } else if d == 4 {
        "4"
    } else if d == 5 {
        "5"
    } else if d == 6 {
        "6"
    } else if d == 7 {
        "7"
    } else if d == 8 {
        "8"
    } else {
        "9"
    };
    assert(text@ =~= seq![digit_char(d as int)]);
    text
}

/// Appends the decimal numeral of `n` to `out`.
pub fn push_decimal(out: &mut String, n: u64)
    ensures
        final(out)@ == old(out)@ + decimal(n as nat),
    decreases n,
{
    if n >= 10 {
        push_decimal(out, n / 10);
    }
    out.append(digit_text(n % 10));
    assert(out@ =~= old(out)@ + decimal(n as nat));
}

/// The texts that `strings` holds, in order.
pub open spec fn texts_of(strings: Seq<String>) -> Seq<Seq<char>> {
    Seq::new(strings.len(), |i: int| strings[i]@)
}

/// `a` and `b` agree on their first `k` bytes, and there `a` ends while `b`
/// goes on, or `a` has the smaller byte.
pub open spec fn decided_at(a: Seq<u8>, b: Seq<u8>, k: int) -> bool {
    &&& 0 <= k <= a.len()
    &&& k < b.len()
    &&& a.take(k) == b.take(k)
    &&& k < a.len() ==> a[k] < b[k]
}

/// `a` comes before `b` in the byte-wise lexicographic order.
pub open spec fn bytes_precede(a: Seq<u8>, b: Seq<u8>) -> bool {
    exists|k: int| decided_at(a, b, k)
}

/// `a` comes before `b` where texts are ordered by their UTF-8 bytes, which
/// is the order of their code points.
pub open spec fn precedes(a: Seq<char>, b: Seq<char>) -> bool {
    bytes_precede(encode_utf8(a), encode_utf8(b))
}

/// Each text comes before every text behind it. An ascending sequence holds
/// no text twice.
pub open spec fn is_ascending(texts: Seq<Seq<char>>) -> bool {
    forall|i: int, j: int|
        0 <= i < j < texts.len() ==> precedes(#[trigger] texts[i], #[trigger] texts[j])
}

/// No byte sequence comes before itself.
pub proof fn lemma_bytes_precede_irreflexive(a: Seq<u8>)
    ensures
        !bytes_precede(a, a),
{
}

/// The byte-wise order is transitive.
pub proof fn lemma_bytes_precede_transitive(a: Seq<u8>, b: Seq<u8>, c: Seq<u8>)
    requires
        bytes_precede(a, b),
        bytes_precede(b, c),
    ensures
        bytes_precede(a, c),
{
    let k1 = choose|k: int| decided_at(a, b, k);
    let k2 = choose|k: int| decided_at(b, c, k);
    let k = if k1 <= k2 {
        k1
    } else {
        k2
    };
    assert(a.take(k) =~= a.take(k1).take(k));
    assert(b.take(k) =~= b.take(k1).take(k));
    assert(b.take(k) =~= b.take(k2).take(k));
    assert(c.take(k) =~= c.take(k2).take(k));
    if k1 < k2 {
        assert(b.take(k2)[k1] == b[k1]);
        assert(c.take(k2)[k1] == c[k1]);
    }
    if k2 < k1 {
        assert(a.take(k1)[k2] == a[k2]);
        assert(b.take(k1)[k2] == b[k2]);
    }
    assert(decided_at(a, c, k));
}

/// Of two texts at most one comes before the other, and none before itself.
pub proof fn lemma_precedes_asymmetric(a: Seq<char>, b: Seq<char>)
    ensures
        !(precedes(a, b) && precedes(b, a)),
        !precedes(a, a),
{
    lemma_bytes_precede_irreflexive(encode_utf8(a));
    if precedes(a, b) && precedes(b, a) {
        lemma_bytes_precede_transitive(encode_utf8(a), encode_utf8(b), encode_utf8(a));
    }
}

/// The order of texts is transitive.
pub proof fn lemma_precedes_transitive(a: Seq<char>, b: Seq<char>, c: Seq<char>)
    requires
        precedes(a, b),
        precedes(b, c),
    ensures
        precedes(a, c),
{
    lemma_bytes_precede_transitive(encode_utf8(a), encode_utf8(b), encode_utf8(c));
}

/// An ascending sequence of texts holds no text twice.
pub proof fn law_ascending_is_distinct(texts: Seq<Seq<char>>, i: int, j: int)
    requires
        is_ascending(texts),
        0 <= i < texts.len(),
        0 <= j < texts.len(),
        i != j,
    ensures
        texts[i] != texts[j],
{
    lemma_precedes_asymmetric(texts[i], texts[j]);
}

/// The front of an ascending sequence is ascending, and its last text is
/// not in its front.
pub proof fn lemma_ascending_front(texts: Seq<Seq<char>>)
    requires
        is_ascending(texts),
        texts.len() > 0,
    ensures
        is_ascending(texts.drop_last()),
        !texts.drop_last().contains(texts.last()),
{
    let front = texts.drop_last();
    assert forall|i: int, j: int| 0 <= i < j < front.len() implies precedes(
        #[trigger] front[i],
        #[trigger] front[j],
    ) by {
        assert(front[i] == texts[i]);
        assert(front[j] == texts[j]);
    }
    if front.contains(texts.last()) {
        let k = choose|k: int| 0 <= k < front.len() && front[k] == texts.last();
        assert(precedes(texts[k], texts[texts.len() - 1]));
        lemma_precedes_asymmetric(texts[k], texts[k]);
    }
}

/// Two ascending sequences that hold the same texts are the same sequence:
/// the texts decide the order.
pub proof fn law_ascending_is_determined(first: Seq<Seq<char>>, second: Seq<Seq<char>>)
    requires
        is_ascending(first),
        is_ascending(second),
        forall|text: Seq<char>| first.contains(text) <==> second.contains(text),
    ensures
        first == second,
    decreases first.len(),
{
    if first.len() == 0 {
        if second.len() > 0 {
            assert(second.contains(second[0]));
        }
        assert(first =~= second);
    } else {
        let top = first.last();
        assert(first[first.len() - 1] == top);
        assert(first.contains(top));
        let k = choose|k: int| 0 <= k < second.len() && second[k] == top;
        if k < second.len() - 1 {
            let other = second[second.len() - 1];
            assert(second.contains(other));
            let m = choose|m: int| 0 <= m < first.len() && first[m] == other;
            assert(precedes(second[k], second[second.len() - 1]));
            if m < first.len() - 1 {
                assert(precedes(first[m], first[first.len() - 1]));
            }
            lemma_precedes_asymmetric(top, other);
        }
        assert(second.last() == top);
        lemma_ascending_front(first);
        lemma_ascending_front(second);
        assert forall|text: Seq<char>|
            first.drop_last().contains(text) <==> second.drop_last().contains(text) by {
            if first.drop_last().contains(text) {
                let i = choose|i: int|
                    0 <= i < first.drop_last().len() && first.drop_last()[i] == text;
                assert(first[i] == text);
                assert(first.contains(text));
                let j = choose|j: int| 0 <= j < second.len() && second[j] == text;
                assert(second.drop_last()[j] == text);
            }
            if second.drop_last().contains(text) {
                let i = choose|i: int|
                    0 <= i < second.drop_last().len() && second.drop_last()[i] == text;
                assert(second[i] == text);
                assert(second.contains(text));
                let j = choose|j: int| 0 <= j < first.len() && first[j] == text;
                assert(first.drop_last()[j] == text);
            }
        }
        law_ascending_is_determined(first.drop_last(), second.drop_last());
        assert(first =~= first.drop_last().push(top));
        assert(second =~= second.drop_last().push(top));
    }
}

/// How one text stands to another in the byte-wise order.
#[derive(Debug, Clone, Copy, PartialEq, Eq, Structural)]
pub enum TextOrder {
    Before,
    Same,
    After,
}

/// Where `a` stands relative to `b` in the byte-wise order.
pub fn compare_text(a: &str, b: &str) -> (order: TextOrder)
    ensures
        order is Before <==> precedes(a@, b@),
        order is Same <==> a@ == b@,
        order is After <==> precedes(b@, a@),
{
    let x = a.as_bytes();
    let y = b.as_bytes();
    proof {
        lemma_precedes_asymmetric(a@, b@);
        lemma_precedes_asymmetric(b@, a@);
    }
    let mut i: usize = 0;
    while i < x.len() && i < y.len()
        invariant
            i <= x@.len(),
            i <= y@.len(),
            x@.take(i as int) == y@.take(i as int),
            x@ == encode_utf8(a@),
            y@ == encode_utf8(b@),
            !(precedes(a@, b@) && precedes(b@, a@)),
            !precedes(a@, a@),
        decreases x@.len() - i,
    {
        if x[i] < y[i] {
            assert(decided_at(x@, y@, i as int));
            return TextOrder::Before;
        }
        if x[i] > y[i] {
            assert(decided_at(y@, x@, i as int));
            return TextOrder::After;
        }
        assert(x@.take(i + 1) =~= x@.take(i as int).push(x@[i as int]));
        assert(y@.take(i + 1) =~= y@.take(i as int).push(y@[i as int]));
        i = i + 1;
    }
    if x.len() < y.len() {
        assert(decided_at(x@, y@, i as int));
        TextOrder::Before
    } else if x.len() > y.len() {
        assert(decided_at(y@, x@, i as int));
        TextOrder::After
    } else {
        proof {
            assert(x@.take(i as int) =~= x@);
            assert(y@.take(i as int) =~= y@);
            encode_utf8_decode_utf8(a@);
            encode_utf8_decode_utf8(b@);
        }
        TextOrder::Same
    }
}

/// Whether `a` and `b` are the same text.
pub fn same_text(a: &str, b: &str) -> (same: bool)
    ensures
        same == (a@ == b@),
{
    match compare_text(a, b) {
        TextOrder::Same => true,
        _ => false,
    }
}

} // verus!
