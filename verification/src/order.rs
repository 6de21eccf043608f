//! The byte order of texts, and of keys made of several texts.

use vstd::prelude::*;
use vstd::utf8::*;

verus! {

/// The outcome of comparing two keys.
#[derive(Clone, Copy, Debug, PartialEq, Eq, Structural)]
pub enum Comparison {
    Less,
    Equal,
    Greater,
}

impl Comparison {
    /// The outcome with the two sides exchanged.
    pub open spec fn flipped(self) -> Comparison {
        match self {
            Comparison::Less => Comparison::Greater,
            Comparison::Equal => Comparison::Equal,
            Comparison::Greater => Comparison::Less,
        }
    }

    /// Whether the two sides were equal.
    pub fn is_equal(&self) -> (equal: bool)
        ensures
            equal == (*self == Comparison::Equal),
    {
        matches!(self, Comparison::Equal)
    }
}

/// Lexicographic order of byte strings.
pub open spec fn bytes_order(a: Seq<u8>, b: Seq<u8>) -> Comparison
    decreases a.len(),
{
    if a.len() == 0 && b.len() == 0 {
        Comparison::Equal
    } else if a.len() == 0 {
        Comparison::Less
    } else if b.len() == 0 {
        Comparison::Greater
    } else if a[0] < b[0] {
        Comparison::Less
    } else if a[0] > b[0] {
        Comparison::Greater
    } else {
        bytes_order(a.skip(1), b.skip(1))
    }
}

/// The order of `String`: lexicographic by UTF-8 bytes.
pub open spec fn text_order(a: Seq<char>, b: Seq<char>) -> Comparison {
    bytes_order(encode_utf8(a), encode_utf8(b))
}

/// The order of keys made of several texts: the first text that differs decides.
pub open spec fn fields_order(a: Seq<Seq<char>>, b: Seq<Seq<char>>) -> Comparison
    decreases a.len(),
{
    if a.len() == 0 && b.len() == 0 {
        Comparison::Equal
    } else if a.len() == 0 {
        Comparison::Less
    } else if b.len() == 0 {
        Comparison::Greater
    } else if text_order(a[0], b[0]) == Comparison::Equal {
        fields_order(a.skip(1), b.skip(1))
    } else {
        text_order(a[0], b[0])
    }
}

/// Whether key `a` stands strictly before key `b`.
pub open spec fn before(a: Seq<Seq<char>>, b: Seq<Seq<char>>) -> bool {
    fields_order(a, b) == Comparison::Less
}

proof fn lemma_bytes_order_laws(a: Seq<u8>, b: Seq<u8>)
    ensures
        bytes_order(a, b) == Comparison::Equal <==> a == b,
        bytes_order(b, a) == bytes_order(a, b).flipped(),
    decreases a.len(),
{
    if a.len() > 0 && b.len() > 0 && a[0] == b[0] {
        lemma_bytes_order_laws(a.skip(1), b.skip(1));
        if a.skip(1) == b.skip(1) {
            assert(a == seq![a[0]] + a.skip(1));
            assert(b == seq![b[0]] + b.skip(1));
        }
    } else if a.len() == 0 && b.len() == 0 {
        assert(a == b);
    }
}

proof fn lemma_bytes_order_transitive(a: Seq<u8>, b: Seq<u8>, c: Seq<u8>)
    requires
        bytes_order(a, b) == Comparison::Less,
        bytes_order(b, c) == Comparison::Less,
    ensures
        bytes_order(a, c) == Comparison::Less,
    decreases a.len(),
{
    if a.len() > 0 && b.len() > 0 && c.len() > 0 && a[0] == b[0] && b[0] == c[0] {
        lemma_bytes_order_transitive(a.skip(1), b.skip(1), c.skip(1));
    }
}

/// Equal texts compare equal, different texts do not, and exchanging the sides flips the outcome.
pub proof fn lemma_text_order_laws(a: Seq<char>, b: Seq<char>)
    ensures
        text_order(a, b) == Comparison::Equal <==> a == b,
        text_order(b, a) == text_order(a, b).flipped(),
{
    lemma_bytes_order_laws(encode_utf8(a), encode_utf8(b));
    encode_utf8_decode_utf8(a);
    encode_utf8_decode_utf8(b);
}

/// The order of texts is transitive.
pub proof fn lemma_text_order_transitive(a: Seq<char>, b: Seq<char>, c: Seq<char>)
    requires
        text_order(a, b) == Comparison::Less,
        text_order(b, c) == Comparison::Less,
    ensures
        text_order(a, c) == Comparison::Less,
{
    lemma_bytes_order_transitive(encode_utf8(a), encode_utf8(b), encode_utf8(c));
}

/// Equal keys compare equal, different keys do not, and exchanging the sides flips the outcome.
pub proof fn lemma_fields_order_laws(a: Seq<Seq<char>>, b: Seq<Seq<char>>)
    ensures
        fields_order(a, b) == Comparison::Equal <==> a == b,
        fields_order(b, a) == fields_order(a, b).flipped(),
    decreases a.len(),
{
    if a.len() > 0 && b.len() > 0 {
        lemma_text_order_laws(a[0], b[0]);
        lemma_fields_order_laws(a.skip(1), b.skip(1));
        if a[0] == b[0] && a.skip(1) == b.skip(1) {
            assert(a == seq![a[0]] + a.skip(1));
            assert(b == seq![b[0]] + b.skip(1));
        }
    } else if a.len() == 0 && b.len() == 0 {
        assert(a == b);
    }
}

/// The order of keys is transitive.
pub proof fn lemma_before_transitive(a: Seq<Seq<char>>, b: Seq<Seq<char>>, c: Seq<Seq<char>>)
    requires
        before(a, b),
        before(b, c),
    ensures
        before(a, c),
    decreases a.len(),
{
    if a.len() > 0 && b.len() > 0 && c.len() > 0 {
        lemma_text_order_laws(a[0], b[0]);
        lemma_text_order_laws(b[0], c[0]);
        lemma_text_order_laws(a[0], c[0]);
        if a[0] == b[0] && b[0] == c[0] {
            lemma_before_transitive(a.skip(1), b.skip(1), c.skip(1));
        } else if a[0] != b[0] && b[0] != c[0] {
            lemma_text_order_transitive(a[0], b[0], c[0]);
        }
    }
}

/// The order of keys of four texts, spelled out.
pub proof fn lemma_four_fields(a: Seq<Seq<char>>, b: Seq<Seq<char>>)
    requires
        a.len() == 4,
        b.len() == 4,
    ensures
        fields_order(a, b) == (if text_order(a[0], b[0]) != Comparison::Equal {
            text_order(a[0], b[0])
        } else if text_order(a[1], b[1]) != Comparison::Equal {
            text_order(a[1], b[1])
        } else if text_order(a[2], b[2]) != Comparison::Equal {
            text_order(a[2], b[2])
        } else {
            text_order(a[3], b[3])
        }),
{
    reveal_with_fuel(fields_order, 5);
}

/// The order of keys of five texts, spelled out.
pub proof fn lemma_five_fields(a: Seq<Seq<char>>, b: Seq<Seq<char>>)
    requires
        a.len() == 5,
        b.len() == 5,
    ensures
        fields_order(a, b) == (if text_order(a[0], b[0]) != Comparison::Equal {
            text_order(a[0], b[0])
        } else if text_order(a[1], b[1]) != Comparison::Equal {
            text_order(a[1], b[1])
        } else if text_order(a[2], b[2]) != Comparison::Equal {
            text_order(a[2], b[2])
        } else if text_order(a[3], b[3]) != Comparison::Equal {
            text_order(a[3], b[3])
        } else {
            text_order(a[4], b[4])
        }),
{
    reveal_with_fuel(fields_order, 6);
}

/// Compares two texts by their bytes.
pub fn compare_texts(a: &str, b: &str) -> (order: Comparison)
    ensures
        order == text_order(a@, b@),
{
    let x = a.as_bytes();
    let y = b.as_bytes();
    let mut i: usize = 0;
    assert(x@.skip(0) == x@);
    assert(y@.skip(0) == y@);
    while i < x.len() && i < y.len()
        invariant
            i <= x.len(),
            i <= y.len(),
            x@ == encode_utf8(a@),
            y@ == encode_utf8(b@),
            bytes_order(x@, y@) == bytes_order(x@.skip(i as int), y@.skip(i as int)),
        decreases x.len() - i,
    {
        assert(x@.skip(i as int)[0] == x@[i as int]);
        assert(y@.skip(i as int)[0] == y@[i as int]);
        if x[i] < y[i] {
            return Comparison::Less;
        }
        if x[i] > y[i] {
            return Comparison::Greater;
        }
        assert(x@.skip(i as int).skip(1) == x@.skip(i + 1));
        assert(y@.skip(i as int).skip(1) == y@.skip(i + 1));
        i += 1;
    }
    if i < y.len() {
        Comparison::Less
    } else if i < x.len() {
        Comparison::Greater
    } else {
        Comparison::Equal
    }
}

/// A value that is ordered and found again by a key made of texts.
pub trait Keyed: Sized {
    /// The texts that make up the key.
    spec fn key(&self) -> Seq<Seq<char>>;

    /// Compares the keys of two values.
    fn compare(&self, other: &Self) -> (order: Comparison)
        ensures
            order == fields_order(self.key(), other.key()),
    ;
}

impl Keyed for String {
    open spec fn key(&self) -> Seq<Seq<char>> {
        seq![self@]
    }

    fn compare(&self, other: &Self) -> (order: Comparison) {
        let order = compare_texts(self.as_str(), other.as_str());
        proof {
            reveal_with_fuel(fields_order, 2);
            assert(self.key().skip(1).len() == 0);
        }
        order
    }
}

/// The first byte that differs decides the order of two byte strings; where there is none, the
/// shorter one comes first.
pub proof fn law_first_difference_decides(a: Seq<u8>, b: Seq<u8>, i: int)
    requires
        0 <= i <= a.len(),
        i < b.len(),
        forall|j: int| 0 <= j < i ==> #[trigger] a[j] == b[j],
        i < a.len() ==> a[i] != b[i],
    ensures
        i == a.len() ==> bytes_order(a, b) == Comparison::Less,
        i < a.len() && a[i] < b[i] ==> bytes_order(a, b) == Comparison::Less,
        i < a.len() && a[i] > b[i] ==> bytes_order(a, b) == Comparison::Greater,
    decreases i,
{
    if i > 0 {
        let x = a.skip(1);
        let y = b.skip(1);
        assert(a[0] == b[0]);
        assert forall|j: int| 0 <= j < i - 1 implies #[trigger] x[j] == y[j] by {
            assert(a[j + 1] == b[j + 1]);
        }
        if i < a.len() {
            assert(x[i - 1] == a[i] && y[i - 1] == b[i]);
        }
        law_first_difference_decides(x, y, i - 1);
    }
}

/// The first text that differs decides the order of two keys of the same length.
pub proof fn law_first_field_decides(a: Seq<Seq<char>>, b: Seq<Seq<char>>, i: int)
    requires
        a.len() == b.len(),
        0 <= i < a.len(),
        forall|j: int| 0 <= j < i ==> #[trigger] a[j] == b[j],
        a[i] != b[i],
    ensures
        fields_order(a, b) == text_order(a[i], b[i]),
        fields_order(a, b) != Comparison::Equal,
    decreases i,
{
    lemma_text_order_laws(a[0], b[0]);
    lemma_text_order_laws(a[i], b[i]);
    if i > 0 {
        let x = a.skip(1);
        let y = b.skip(1);
        assert(a[0] == b[0]);
        assert forall|j: int| 0 <= j < i - 1 implies #[trigger] x[j] == y[j] by {
            assert(a[j + 1] == b[j + 1]);
        }
        assert(x[i - 1] == a[i] && y[i - 1] == b[i]);
        law_first_field_decides(x, y, i - 1);
    }
}

} // verus!
