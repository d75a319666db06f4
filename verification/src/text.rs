//! Text order and small string helpers.
//!
//! Strings are ordered by the bytes of their UTF-8 encoding, which is the order
//! of Rust's `str`. Everything else speaks of a string's characters.

use vstd::prelude::*;
use vstd::string::*;
use vstd::utf8::*;

verus! {

/// `String::from(&str)` gives a string that holds the same text.
pub assume_specification<'a>[ <String as From<&'a str>>::from ](s: &str) -> (r: String)
    ensures
        r@ == s@,
;

/// `From::from` from a type to itself gives its argument back unchanged.
pub assume_specification<Same>[ <Same as std::convert::From<Same>>::from ](v: Same) -> (r: Same)
    ensures
        r == v,
;

/// Outcome of a three-way comparison.
#[derive(Copy, Clone, Debug, PartialEq, Eq, Structural)]
pub enum Order {
    Less,
    Equal,
    Greater,
}

/// Lexicographic order on byte sequences; a proper prefix comes first.
pub open spec fn bytes_lt(a: Seq<u8>, b: Seq<u8>) -> bool
    decreases a.len(),
{
    if b.len() == 0 {
        false
    } else if a.len() == 0 {
        true
    } else if a[0] != b[0] {
        a[0] < b[0]
    } else {
        bytes_lt(a.drop_first(), b.drop_first())
    }
}

/// The order of Rust strings: lexicographic on their UTF-8 bytes.
pub open spec fn text_lt(a: Seq<char>, b: Seq<char>) -> bool {
    bytes_lt(encode_utf8(a), encode_utf8(b))
}

proof fn lemma_bytes_lt_irreflexive(a: Seq<u8>)
    ensures
        !bytes_lt(a, a),
    decreases a.len(),
{
    if a.len() > 0 {
        lemma_bytes_lt_irreflexive(a.drop_first());
    }
}

proof fn lemma_bytes_lt_transitive(a: Seq<u8>, b: Seq<u8>, c: Seq<u8>)
    requires
        bytes_lt(a, b),
        bytes_lt(b, c),
    ensures
        bytes_lt(a, c),
    decreases a.len(),
{
    if a.len() > 0 && a[0] == b[0] && b[0] == c[0] {
        lemma_bytes_lt_transitive(a.drop_first(), b.drop_first(), c.drop_first());
    }
}

proof fn lemma_bytes_lt_total(a: Seq<u8>, b: Seq<u8>)
    ensures
        a == b || bytes_lt(a, b) || bytes_lt(b, a),
    decreases a.len(),
{
    if a.len() > 0 && b.len() > 0 && a[0] == b[0] {
        lemma_bytes_lt_total(a.drop_first(), b.drop_first());
        if a.drop_first() == b.drop_first() {
            assert(a =~= seq![a[0]] + a.drop_first());
            assert(b =~= seq![b[0]] + b.drop_first());
        }
    } else if a.len() == 0 && b.len() == 0 {
        assert(a =~= b);
    }
}

/// `text_lt` is a strict total order: no string is below itself.
pub proof fn lemma_text_lt_irreflexive(a: Seq<char>)
    ensures
        !text_lt(a, a),
{
    lemma_bytes_lt_irreflexive(encode_utf8(a));
}

/// `text_lt` is a strict total order: it is transitive.
pub proof fn lemma_text_lt_transitive(a: Seq<char>, b: Seq<char>, c: Seq<char>)
    requires
        text_lt(a, b),
        text_lt(b, c),
    ensures
        text_lt(a, c),
{
    lemma_bytes_lt_transitive(encode_utf8(a), encode_utf8(b), encode_utf8(c));
}

/// `text_lt` is a strict total order: two different strings are ordered.
pub proof fn law_text_lt_total(a: Seq<char>, b: Seq<char>)
    ensures
        a == b || text_lt(a, b) || text_lt(b, a),
{
    lemma_bytes_lt_total(encode_utf8(a), encode_utf8(b));
    encode_utf8_decode_utf8(a);
    encode_utf8_decode_utf8(b);
}

/// Compares two strings in the order of `text_lt`.
pub fn compare(a: &str, b: &str) -> (r: Order)
    ensures
        r == Order::Less <==> text_lt(a@, b@),
        r == Order::Equal <==> a@ == b@,
        r == Order::Greater <==> text_lt(b@, a@),
{
    let x = a.as_bytes();
    let y = b.as_bytes();
    let ghost xs = encode_utf8(a@);
    let ghost ys = encode_utf8(b@);
    proof {
        lemma_text_lt_irreflexive(a@);
        encode_utf8_decode_utf8(a@);
        encode_utf8_decode_utf8(b@);
        if bytes_lt(xs, ys) && bytes_lt(ys, xs) {
            lemma_text_lt_transitive(a@, b@, a@);
        }
        assert(xs.skip(0) =~= xs);
        assert(ys.skip(0) =~= ys);
    }
    let mut i: usize = 0;
    while i < x.len() && i < y.len()
        invariant
            x@ == xs,
            y@ == ys,
            xs == encode_utf8(a@),
            ys == encode_utf8(b@),
            decode_utf8(xs) == a@,
            decode_utf8(ys) == b@,
            !(bytes_lt(xs, ys) && bytes_lt(ys, xs)),
            !text_lt(a@, a@),
            i <= xs.len(),
            i <= ys.len(),
            xs.take(i as int) == ys.take(i as int),
            bytes_lt(xs, ys) == bytes_lt(xs.skip(i as int), ys.skip(i as int)),
            bytes_lt(ys, xs) == bytes_lt(ys.skip(i as int), xs.skip(i as int)),
        decreases xs.len() - i,
    {
        if x[i] < y[i] {
            return Order::Less;
        }
        if y[i] < x[i] {
            return Order::Greater;
        }
        assert(xs.skip(i as int).drop_first() =~= xs.skip(i + 1));
        assert(ys.skip(i as int).drop_first() =~= ys.skip(i + 1));
        assert(xs.take(i + 1) =~= xs.take(i as int).push(xs[i as int]));
        assert(ys.take(i + 1) =~= ys.take(i as int).push(ys[i as int]));
        i = i + 1;
    }
    if i < y.len() {
        Order::Less
    } else if i < x.len() {
        Order::Greater
    } else {
        assert(xs.take(i as int) =~= xs);
        assert(ys.take(i as int) =~= ys);
        Order::Equal
    }
}

/// Whether `prefix` starts `s`.
pub open spec fn has_prefix(s: Seq<char>, prefix: Seq<char>) -> bool {
    prefix.len() <= s.len() && s.take(prefix.len() as int) == prefix
}

/// Whether the string starts with the given prefix.
pub fn starts_with(s: &str, prefix: &str) -> (r: bool)
    ensures
        r == has_prefix(s@, prefix@),
{
    let n = prefix.unicode_len();
    if s.unicode_len() < n {
        return false;
    }
    let head = s.substring_char(0, n);
    match compare(head, prefix) {
        Order::Equal => true,
        _ => false,
    }
}

/// Splits a string at the first occurrence of a character, which is left out.
pub fn split_once<'a>(s: &'a str, c: char) -> (r: Option<(&'a str, &'a str)>)
    ensures
        match r {
            Some((head, tail)) => !head@.contains(c) && s@ == head@.push(c) + tail@,
            None => !s@.contains(c),
        },
{
    let n = s.unicode_len();
    let mut it = s.chars();
    let mut i: usize = 0;
    while i < n
        invariant
            n == s@.len(),
            i <= n,
            vstd::std_specs::iter::IteratorSpec::remaining(&it) == s@.skip(i as int),
            forall|j: int| 0 <= j < i ==> s@[j] != c,
        decreases n - i,
    {
        match it.next() {
            Some(d) => {
                if d == c {
                    let head = s.substring_char(0, i);
                    let tail = s.substring_char(i + 1, n);
                    assert(s@ =~= head@.push(c) + tail@);
                    return Some((head, tail));
                }
            }
            None => {}
        }
        i = i + 1;
    }
    None
}

/// The first byte in which two texts differ decides their order.
pub proof fn law_first_difference_decides(a: Seq<char>, b: Seq<char>, i: int)
    requires
        0 <= i < encode_utf8(a).len(),
        i < encode_utf8(b).len(),
        forall|j: int| 0 <= j < i ==> #[trigger] encode_utf8(a)[j] == encode_utf8(b)[j],
        encode_utf8(a)[i] < encode_utf8(b)[i],
    ensures
        text_lt(a, b),
        !text_lt(b, a),
{
    lemma_bytes_differ(encode_utf8(a), encode_utf8(b), i);
}

proof fn lemma_bytes_differ(a: Seq<u8>, b: Seq<u8>, i: int)
    requires
        0 <= i < a.len(),
        i < b.len(),
        forall|j: int| 0 <= j < i ==> #[trigger] a[j] == b[j],
        a[i] < b[i],
    ensures
        bytes_lt(a, b),
        !bytes_lt(b, a),
    decreases i,
{
    if i > 0 {
        assert(a[0] == b[0]);
        let x = a.drop_first();
        let y = b.drop_first();
        assert forall|j: int| 0 <= j < i - 1 implies #[trigger] x[j] == y[j] by {
            assert(a[j + 1] == b[j + 1]);
        }
        lemma_bytes_differ(x, y, i - 1);
    }
}

/// A text whose bytes are a proper prefix of those of another comes before it.
pub proof fn law_proper_prefix_comes_first(a: Seq<char>, b: Seq<char>)
    requires
        encode_utf8(a).len() < encode_utf8(b).len(),
        encode_utf8(a) == encode_utf8(b).take(encode_utf8(a).len() as int),
    ensures
        text_lt(a, b),
        !text_lt(b, a),
{
    lemma_bytes_prefix(encode_utf8(a), encode_utf8(b));
}

proof fn lemma_bytes_prefix(a: Seq<u8>, b: Seq<u8>)
    requires
        a.len() < b.len(),
        a == b.take(a.len() as int),
    ensures
        bytes_lt(a, b),
        !bytes_lt(b, a),
    decreases a.len(),
{
    if a.len() > 0 {
        let x = a.drop_first();
        let y = b.drop_first();
        assert(a[0] == b.take(a.len() as int)[0]);
        assert(x =~= y.take(x.len() as int));
        lemma_bytes_prefix(x, y);
    }
}

/// Comparing two texts the other way round gives the opposite, and they are equal
/// exactly where they hold the same characters.
pub proof fn law_comparison_is_symmetric(a: &str, b: &str, r: Order, back: Order)
    requires
        call_ensures(compare, (a, b), r),
        call_ensures(compare, (b, a), back),
    ensures
        r == Order::Less <==> back == Order::Greater,
        r == Order::Greater <==> back == Order::Less,
        r == Order::Equal <==> a@ == b@,
{
}

/// A text starts with a prefix exactly where it is that prefix with something behind
/// it.
pub proof fn law_prefix_and_rest(s: &str, prefix: &str, r: bool)
    requires
        call_ensures(starts_with, (s, prefix), r),
    ensures
        r <==> exists|rest: Seq<char>| s@ == #[trigger] (prefix@ + rest),
{
    if r {
        let rest = s@.skip(prefix@.len() as int);
        assert(s@ =~= prefix@ + rest);
    }
    if exists|rest: Seq<char>| s@ == #[trigger] (prefix@ + rest) {
        let rest = choose|rest: Seq<char>| s@ == #[trigger] (prefix@ + rest);
        assert((prefix@ + rest).take(prefix@.len() as int) =~= prefix@);
    }
}

/// Splitting a text and joining the parts again gives the text, the first part holds no
/// separator, and a text is split exactly where it holds the separator.
pub proof fn law_split_parts_join(s: &str, c: char, r: Option<(&str, &str)>)
    requires
        call_ensures(split_once, (s, c), r),
    ensures
        r is Some <==> s@.contains(c),
        r matches Some(parts) ==> s@ == parts.0@ + seq![c] + parts.1@ && !parts.0@.contains(c),
{
    if let Some(parts) = r {
        assert(s@ =~= parts.0@ + seq![c] + parts.1@);
        assert(s@[parts.0@.len() as int] == c);
    }
}

} // verus!
