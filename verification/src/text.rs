//! Text that the core reads and writes: decimal numbers, addresses in dotted
//! form, and the comparison of names.

use vstd::prelude::*;
use vstd::string::*;
use vstd::utf8::{encode_utf8, encode_utf8_decode_utf8};

verus! {

/// The decimal digit for `d`, which is below ten.
pub open spec fn digit_char(d: nat) -> char {
    if d == 0 {
        '0'
    } else if d == 1 {
        '1'
    } else if d == 2 {
        '2'
    } else if d == 3 {
        '3'
    } else if d == 4 {
        '4'
    } else if d == 5 {
        '5'
    } else if d == 6 {
        '6'
    } else if d == 7 {
        '7'
    } else if d == 8 {
        '8'
    } else {
        '9'
    }
}

/// `n` in decimal, without leading zeros.
pub open spec fn decimal(n: nat) -> Seq<char>
    decreases n,
{
    if n < 10 {
        seq![digit_char(n)]
    } else {
        decimal(n / 10).push(digit_char(n % 10))
    }
}

/// The four bytes of `ip` in decimal, highest first, with dots between them.
pub open spec fn dotted_quad(ip: u32) -> Seq<char> {
    decimal((ip / 0x100_0000) as nat) + seq!['.'] + decimal((ip / 0x1_0000 % 256) as nat)
        + seq!['.'] + decimal((ip / 0x100 % 256) as nat) + seq!['.'] + decimal(
        (ip % 256) as nat,
    )
}

fn digit_str(d: u32) -> (s: &'static str)
    requires
        d < 10,
    ensures
        s@ == seq![digit_char(d as nat)],
{
    proof {
        reveal_strlit("0");
        reveal_strlit("1");
        reveal_strlit("2");
        reveal_strlit("3");
        reveal_strlit("4");
        reveal_strlit("5");
        reveal_strlit("6");
        reveal_strlit("7");
        reveal_strlit("8");
        reveal_strlit("9");
    }
    let s = if d == 0 {
        "0"
    } else if d == 1 {
        "1"
    } else if d == 2 {
        "2"
    } else if d == 3 {
        "3"
    } else if d == 4 {
        "4"
    } else if d == 5 {
        "5"
    } else if d == 6 {
        "6"
    } else if d == 7 {
        "7"
    } else if d == 8 {
        "8"
    } else {
        "9"
    };
    assert(s@ =~= seq![digit_char(d as nat)]);
    s
}

/// Writes `n` in decimal.
pub fn decimal_string(n: u32) -> (s: String)
    ensures
        s@ == decimal(n as nat),
    decreases n,
{
    if n < 10 {
        String::from_str(digit_str(n))
    } else {
        let mut s = decimal_string(n / 10);
        s.append(digit_str(n % 10));
        assert(s@ =~= decimal(n as nat));
        s
    }
}

/// Writes the address `ip` in dotted form.
pub fn address_string(ip: u32) -> (s: String)
    ensures
        s@ == dotted_quad(ip),
{
    proof {
        reveal_strlit(".");
    }
    let mut s = decimal_string(ip / 0x100_0000);
    s.append(".");
    s.append(decimal_string(ip / 0x1_0000 % 256).as_str());
    s.append(".");
    s.append(decimal_string(ip / 0x100 % 256).as_str());
    s.append(".");
    s.append(decimal_string(ip % 256).as_str());
    assert(s@ =~= dotted_quad(ip));
    s
}

/// Whether the two texts are equal.
pub fn same_text(a: &str, b: &str) -> (r: bool)
    ensures
        r == (a@ == b@),
{
    let x = a.as_bytes();
    let y = b.as_bytes();
    proof {
        encode_utf8_decode_utf8(a@);
        encode_utf8_decode_utf8(b@);
    }
    if x.len() != y.len() {
        return false;
    }
    let mut i: usize = 0;
    while i < x.len()
        invariant
            i <= x.len(),
            x@.len() == y@.len(),
            x@ == encode_utf8(a@),
            y@ == encode_utf8(b@),
            forall|j: int| 0 <= j < i ==> x@[j] == y@[j],
        decreases x.len() - i,
    {
        if x[i] != y[i] {
            return false;
        }
        i = i + 1;
    }
    assert(x@ =~= y@);
    true
}

/// The texts of a sequence of strings.
pub open spec fn texts(strings: Seq<String>) -> Seq<Seq<char>> {
    Seq::new(strings.len(), |k: int| strings[k]@)
}

/// How one name stands to another in the order of names.
#[derive(Clone, Copy, Debug, PartialEq, Eq)]
pub enum NameOrder {
    /// The first name comes before the second.
    Before,
    /// The two names are equal.
    Same,
    /// The first name comes after the second.
    After,
}

/// `a` and `b` agree on their first `k` bytes, and there `a` ends or has the
/// smaller byte.
pub open spec fn parts_at(a: Seq<u8>, b: Seq<u8>, k: int) -> bool {
    &&& 0 <= k <= a.len()
    &&& k < b.len()
    &&& forall|i: int| 0 <= i < k ==> a[i] == b[i]
    &&& (k == a.len() || a[k] < b[k])
}

/// `a` comes before `b` byte by byte: at the first place where they differ
/// `a` has the smaller byte, or `a` is a proper prefix of `b`.
pub open spec fn bytes_before(a: Seq<u8>, b: Seq<u8>) -> bool {
    exists|k: int| parts_at(a, b, k)
}

/// The order of names: that of their UTF-8 bytes, which is the order in which
/// strings compare.
#[verifier::opaque]
pub open spec fn name_before(a: Seq<char>, b: Seq<char>) -> bool {
    bytes_before(encode_utf8(a), encode_utf8(b))
}

/// Nothing comes before itself.
pub proof fn lemma_before_irreflexive(a: Seq<u8>)
    ensures
        !bytes_before(a, a),
{
}

/// The order of names is transitive.
pub proof fn lemma_before_transitive(a: Seq<u8>, b: Seq<u8>, c: Seq<u8>)
    requires
        bytes_before(a, b),
        bytes_before(b, c),
    ensures
        bytes_before(a, c),
{
    let k1 = choose|k: int| parts_at(a, b, k);
    let k2 = choose|k: int| parts_at(b, c, k);
    let k = if k1 <= k2 {
        k1
    } else {
        k2
    };
    assert(parts_at(a, c, k));
}

/// Compares two names.
pub fn compare_names(a: &str, b: &str) -> (r: NameOrder)
    ensures
        r == NameOrder::Before <==> name_before(a@, b@),
        r == NameOrder::Same <==> a@ == b@,
        r == NameOrder::After <==> name_before(b@, a@),
{
    let x = a.as_bytes();
    let y = b.as_bytes();
    proof {
        reveal(name_before);
        encode_utf8_decode_utf8(a@);
        encode_utf8_decode_utf8(b@);
    }
    let mut i: usize = 0;
    while i < x.len() && i < y.len()
        invariant
            i <= x.len(),
            i <= y.len(),
            x@ == encode_utf8(a@),
            y@ == encode_utf8(b@),
            forall|j: int| 0 <= j < i ==> x@[j] == y@[j],
        decreases x.len() - i,
    {
        proof {
            reveal(name_before);
            encode_utf8_decode_utf8(a@);
            encode_utf8_decode_utf8(b@);
        }
        if x[i] < y[i] {
            proof {
                assert(parts_at(x@, y@, i as int));
                lemma_before_excludes(x@, y@);
            }
            return NameOrder::Before;
        }
        if x[i] > y[i] {
            proof {
                assert(parts_at(y@, x@, i as int));
                lemma_before_excludes(y@, x@);
            }
            return NameOrder::After;
        }
        i = i + 1;
    }
    if i < y.len() {
        proof {
            assert(parts_at(x@, y@, i as int));
            lemma_before_excludes(x@, y@);
        }
        NameOrder::Before
    } else if i < x.len() {
        proof {
            assert(parts_at(y@, x@, i as int));
            lemma_before_excludes(y@, x@);
        }
        NameOrder::After
    } else {
        proof {
            assert(x@ =~= y@);
            lemma_before_irreflexive(x@);
        }
        NameOrder::Same
    }
}

/// The order of names is transitive.
pub proof fn lemma_names_transitive(a: Seq<char>, b: Seq<char>, c: Seq<char>)
    requires
        name_before(a, b),
        name_before(b, c),
    ensures
        name_before(a, c),
{
    reveal(name_before);
    lemma_before_transitive(encode_utf8(a), encode_utf8(b), encode_utf8(c));
}

/// A name that comes before another is neither equal to it nor after it.
pub proof fn lemma_names_exclusive(a: Seq<char>, b: Seq<char>)
    requires
        name_before(a, b),
    ensures
        a != b,
        !name_before(b, a),
{
    reveal(name_before);
    lemma_before_excludes(encode_utf8(a), encode_utf8(b));
}

/// What comes before another is neither equal to it nor after it.
pub proof fn lemma_before_excludes(a: Seq<u8>, b: Seq<u8>)
    requires
        bytes_before(a, b),
    ensures
        a != b,
        !bytes_before(b, a),
{
    if bytes_before(b, a) {
        lemma_before_transitive(a, b, a);
    }
}

} // verus!
