//! The order of names and their endings, both taken over the bytes of a name's
//! UTF-8 encoding.

use vstd::prelude::*;
use std::borrow::Cow;
use vstd::relations::{sorted_by, total_ordering};
use vstd::seq_lib::{to_multiset_build, to_multiset_insert};
use vstd::utf8::{
    decode_utf8, encode_utf8, encode_utf8_decode_utf8, encode_utf8_valid_utf8, valid_utf8,
};

verus! {

/// Lexicographic order on byte sequences: `a` comes no later than `b` where
/// `a` is a prefix of `b`, or where the first byte in which they differ is
/// smaller in `a`.
pub open spec fn bytes_le(a: Seq<u8>, b: Seq<u8>) -> bool
    decreases a.len(),
{
    if a.len() == 0 {
        true
    } else if b.len() == 0 {
        false
    } else if a[0] != b[0] {
        a[0] < b[0]
    } else {
        bytes_le(a.drop_first(), b.drop_first())
    }
}

/// The order of names: that of their encodings' bytes.
pub open spec fn name_le(a: Seq<char>, b: Seq<char>) -> bool {
    bytes_le(encode_utf8(a), encode_utf8(b))
}

/// [`name_le`] as a relation.
pub open spec fn name_order() -> spec_fn(Seq<char>, Seq<char>) -> bool {
    |a: Seq<char>, b: Seq<char>| name_le(a, b)
}

/// Whether `names` ascend: no name comes before one that stands earlier.
pub open spec fn ascending(names: Seq<Seq<char>>) -> bool {
    sorted_by(names, name_order())
}

/// The upper-case form of `text`, as `str::to_uppercase` computes it from
/// the Unicode tables.
pub uninterp spec fn uppercase_of(text: Seq<char>) -> Seq<char>;

/// The text that `String::from_utf8_lossy` reads in `bytes`: their decoding,
/// with a replacement character for each stretch that is not UTF-8.
pub uninterp spec fn utf8_lossy(bytes: Seq<u8>) -> Seq<char>;

/// Whether the last characters of `name` are those of `suffix`.
pub open spec fn name_ends_with(name: Seq<char>, suffix: Seq<char>) -> bool {
    name.len() >= suffix.len() && name.skip(name.len() - suffix.len()) == suffix
}

/// Whether the last bytes of `s` are those of `suffix`.
pub open spec fn ends_with(s: Seq<u8>, suffix: Seq<u8>) -> bool {
    s.len() >= suffix.len() && s.skip(s.len() - suffix.len()) == suffix
}

/// The encoding of two texts, one after the other, is the encoding of the
/// first followed by that of the second.
pub proof fn lemma_encoding_of_concatenation(a: Seq<char>, b: Seq<char>)
    ensures
        encode_utf8(a + b) == encode_utf8(a) + encode_utf8(b),
    decreases a.len(),
{
    if a.len() == 0 {
        assert(a + b =~= b);
        assert(encode_utf8(a) + encode_utf8(b) =~= encode_utf8(b));
    } else {
        assert((a + b).drop_first() =~= a.drop_first() + b);
        lemma_encoding_of_concatenation(a.drop_first(), b);
        assert(encode_utf8(a + b) =~= encode_utf8(a) + encode_utf8(b));
    }
}

/// A name ends in a suffix exactly where its encoding ends in the suffix's
/// encoding: to compare the last bytes is to compare the last characters.
pub proof fn lemma_ending_by_bytes_is_ending_by_chars(name: Seq<char>, suffix: Seq<char>)
    ensures
        ends_with(encode_utf8(name), encode_utf8(suffix)) <==> name_ends_with(name, suffix),
{
    let bytes = encode_utf8(name);
    let tail = encode_utf8(suffix);
    encode_utf8_valid_utf8(name);
    encode_utf8_valid_utf8(suffix);
    encode_utf8_decode_utf8(name);
    encode_utf8_decode_utf8(suffix);
    if name_ends_with(name, suffix) {
        let cut = name.len() - suffix.len();
        assert(name =~= name.take(cut) + suffix);
        lemma_encoding_of_concatenation(name.take(cut), suffix);
        assert((encode_utf8(name.take(cut)) + tail).skip(bytes.len() - tail.len()) =~= tail);
    }
    if ends_with(bytes, tail) {
        let cut = bytes.len() - tail.len();
        assert(vstd::utf8::is_char_boundary(bytes, cut)) by {
            if tail.len() == 0 {
                vstd::utf8::is_char_boundary_start_end_of_seq(bytes);
            } else {
                vstd::utf8::is_char_boundary_start_end_of_seq(tail);
                vstd::utf8::is_char_boundary_iff_not_is_continuation_byte(tail, 0);
                assert(bytes[cut] == bytes.skip(cut)[0]);
                vstd::utf8::is_char_boundary_iff_not_is_continuation_byte(bytes, cut);
            }
        }
        vstd::utf8::decode_utf8_split(bytes, cut);
        assert(bytes.subrange(cut, bytes.len() as int) =~= tail);
        let head = decode_utf8(bytes.subrange(0, cut));
        assert(name =~= head + suffix);
        assert(name.skip(name.len() - suffix.len()) =~= suffix);
    }
}

/// Every byte sequence comes no later than itself.
pub proof fn lemma_bytes_le_reflexive(a: Seq<u8>)
    ensures
        bytes_le(a, a),
    decreases a.len(),
{
    if a.len() > 0 {
        lemma_bytes_le_reflexive(a.drop_first());
    }
}

/// Two byte sequences that each come no later than the other are the same.
pub proof fn lemma_bytes_le_antisymmetric(a: Seq<u8>, b: Seq<u8>)
    requires
        bytes_le(a, b),
        bytes_le(b, a),
    ensures
        a == b,
    decreases a.len(),
{
    if a.len() > 0 {
        lemma_bytes_le_antisymmetric(a.drop_first(), b.drop_first());
        assert(a =~= seq![a[0]] + a.drop_first());
        assert(b =~= seq![b[0]] + b.drop_first());
    } else {
        assert(a =~= b);
    }
}

/// What comes no later than a second sequence comes no later than anything
/// the second comes no later than.
pub proof fn lemma_bytes_le_transitive(a: Seq<u8>, b: Seq<u8>, c: Seq<u8>)
    requires
        bytes_le(a, b),
        bytes_le(b, c),
    ensures
        bytes_le(a, c),
    decreases a.len(),
{
    if a.len() > 0 && a[0] == b[0] && b[0] == c[0] {
        lemma_bytes_le_transitive(a.drop_first(), b.drop_first(), c.drop_first());
    }
}

/// Of any two byte sequences one comes no later than the other.
pub proof fn lemma_bytes_le_connected(a: Seq<u8>, b: Seq<u8>)
    ensures
        bytes_le(a, b) || bytes_le(b, a),
    decreases a.len(),
{
    if a.len() > 0 && b.len() > 0 && a[0] == b[0] {
        lemma_bytes_le_connected(a.drop_first(), b.drop_first());
    }
}

/// Names are totally ordered: any two compare, and two names that each come
/// no later than the other are the same name.
pub proof fn lemma_name_order_is_total()
    ensures
        total_ordering(name_order()),
{
    let r = name_order();
    assert forall|x: Seq<char>| #[trigger] r(x, x) by {
        lemma_bytes_le_reflexive(encode_utf8(x));
    }
    assert forall|x: Seq<char>, y: Seq<char>| #[trigger] r(x, y) && #[trigger] r(y, x) implies x
        == y by {
        lemma_bytes_le_antisymmetric(encode_utf8(x), encode_utf8(y));
        encode_utf8_decode_utf8(x);
        encode_utf8_decode_utf8(y);
    }
    assert forall|x: Seq<char>, y: Seq<char>, z: Seq<char>| #[trigger]
        r(x, y) && #[trigger] r(y, z) implies r(x, z) by {
        lemma_bytes_le_transitive(encode_utf8(x), encode_utf8(y), encode_utf8(z));
    }
    assert forall|x: Seq<char>, y: Seq<char>| #[trigger] r(x, y) || #[trigger] r(y, x) by {
        lemma_bytes_le_connected(encode_utf8(x), encode_utf8(y));
    }
}

/// A listing is determined by what it lists: two ascending sequences that
/// hold the same names, each as often as the other, are the same sequence.
pub proof fn lemma_ascending_is_unique(x: Seq<Seq<char>>, y: Seq<Seq<char>>)
    requires
        ascending(x),
        ascending(y),
        x.to_multiset() == y.to_multiset(),
    ensures
        x == y,
{
    lemma_name_order_is_total();
    vstd::seq_lib::lemma_sorted_unique(x, y, name_order());
}

/// `str::to_uppercase`: the upper-case form of `text`.
#[verifier::external_body]
pub(crate) fn to_uppercase(text: &str) -> (upper: String)
    ensures
        upper@ == uppercase_of(text@),
{
    text.to_uppercase()
}

/// `String::from_utf8_lossy`: the text in `bytes`. Bytes that are UTF-8
/// throughout are decoded as they stand.
#[verifier::external_body]
pub(crate) fn from_utf8_lossy<'a>(bytes: &'a [u8]) -> (text: Cow<'a, str>)
    ensures
        text@ == utf8_lossy(bytes@),
        valid_utf8(bytes@) ==> text@ == decode_utf8(bytes@),
{
    String::from_utf8_lossy(bytes)
}

/// Whether `a` comes no later than `b` in lexicographic order.
pub fn bytes_no_later(a: &[u8], b: &[u8]) -> (r: bool)
    ensures
        r == bytes_le(a@, b@),
{
    let mut i: usize = 0;
    assert(a@.skip(0) =~= a@ && b@.skip(0) =~= b@);
    while i < a.len() && i < b.len() && a[i] == b[i]
        invariant
            i <= a.len(),
            i <= b.len(),
            bytes_le(a@, b@) == bytes_le(a@.skip(i as int), b@.skip(i as int)),
        decreases a.len() - i,
    {
        assert(a@.skip(i as int).drop_first() =~= a@.skip(i + 1));
        assert(b@.skip(i as int).drop_first() =~= b@.skip(i + 1));
        i += 1;
    }
    if i == a.len() {
        true
    } else if i == b.len() {
        false
    } else {
        a[i] < b[i]
    }
}

/// Whether the name `a` comes no later than the name `b`.
pub fn name_no_later(a: &str, b: &str) -> (r: bool)
    ensures
        r == name_le(a@, b@),
{
    bytes_no_later(a.as_bytes(), b.as_bytes())
}

/// Whether `a` and `b` are the same name.
pub fn same_name(a: &str, b: &str) -> (r: bool)
    ensures
        r == (a@ == b@),
{
    let x = a.as_bytes();
    let y = b.as_bytes();
    proof {
        encode_utf8_decode_utf8(a@);
        encode_utf8_decode_utf8(b@);
    }
    if x.len() != y.len() {
        return false;
    }
    let mut i: usize = 0;
    while i < x.len()
        invariant
            x@.len() == y@.len(),
            i <= x@.len(),
            x@ == encode_utf8(a@),
            y@ == encode_utf8(b@),
            forall|k: int| 0 <= k < i ==> x@[k] == y@[k],
        decreases x.len() - i,
    {
        if x[i] != y[i] {
            return false;
        }
        i += 1;
    }
    assert(x@ =~= y@);
    true
}

/// Whether `name` ends in `suffix`.
pub fn has_suffix(name: &str, suffix: &str) -> (r: bool)
    ensures
        r == name_ends_with(name@, suffix@),
{
    let bytes = name.as_bytes();
    let tail = suffix.as_bytes();
    proof {
        lemma_ending_by_bytes_is_ending_by_chars(name@, suffix@);
    }
    if bytes.len() < tail.len() {
        return false;
    }
    let start: usize = bytes.len() - tail.len();
    let mut i: usize = 0;
    while i < tail.len()
        invariant
            start + tail.len() == bytes.len(),
            bytes@ == encode_utf8(name@),
            tail@ == encode_utf8(suffix@),
            ends_with(bytes@, tail@) <==> name_ends_with(name@, suffix@),
            i <= tail.len(),
            forall|k: int| 0 <= k < i ==> bytes@[start + k] == tail@[k],
        decreases tail.len() - i,
    {
        if bytes[start + i] != tail[i] {
            assert(bytes@.skip(start as int)[i as int] != tail@[i as int]);
            return false;
        }
        i += 1;
    }
    assert(bytes@.skip(start as int) =~= tail@);
    true
}

/// Sorts names into ascending order. Nothing is added or lost: a name that
/// stands twice in `names` stands twice in the result.
pub fn sort_names(names: Vec<String>) -> (sorted: Vec<String>)
    ensures
        ascending(sorted.deep_view()),
        sorted.deep_view().to_multiset() == names.deep_view().to_multiset(),
{
    let mut sorted: Vec<String> = Vec::new();
    let mut i: usize = 0;
    assert(names.deep_view().take(0) =~= Seq::empty());
    assert(sorted.deep_view() =~= Seq::empty());
    while i < names.len()
        invariant
            i <= names.len(),
            ascending(sorted.deep_view()),
            sorted.deep_view().to_multiset() == names.deep_view().take(i as int).to_multiset(),
        decreases names.len() - i,
    {
        let name = names[i].clone();
        let ghost before = sorted.deep_view();
        let mut at: usize = sorted.len();
        while at > 0 && !name_no_later(sorted[at - 1].as_str(), name.as_str())
            invariant
                at <= sorted.len(),
                sorted.deep_view() == before,
                forall|k: int| at <= k < sorted.len() ==> !name_le(#[trigger] before[k], name@),
            decreases at,
        {
            at -= 1;
        }
        sorted.insert(at, name);
        proof {
            lemma_name_order_is_total();
            let after = sorted.deep_view();
            assert(after =~= before.insert(at as int, name@));
            assert forall|p: int, q: int| 0 <= p < q < after.len() implies name_le(
                after[p],
                after[q],
            ) by {
                let r = name_order();
                if q == at {
                    if p < at - 1 {
                        assert(r(before[p], before[at - 1]));
                    }
                    assert(r(before[at - 1], name@));
                    assert(r(after[p], after[q]));
                } else if p == at {
                    assert(!name_le(before[q - 1], name@));
                    assert(r(before[q - 1], name@) || r(name@, before[q - 1]));
                } else if p < at && q > at {
                    assert(r(before[p], before[q - 1]));
                } else if p < at {
                    assert(r(before[p], before[q]));
                } else {
                    assert(r(before[p - 1], before[q - 1]));
                }
            }
            to_multiset_insert(before, at as int, name@);
            let taken = names.deep_view().take(i as int);
            assert(names.deep_view().take(i + 1) =~= taken.push(name@));
            to_multiset_build(taken, name@);
        }
        i += 1;
    }
    assert(names.deep_view().take(i as int) =~= names.deep_view());
    sorted
}

} // verus!
