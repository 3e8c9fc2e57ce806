//! Canonical string form of storage keys.
//!
//! Every key an embedding persists under is `"{zs_prefix}/{fmb_prefix}/{logical}"`,
//! where the two prefixes are the first eight characters of the network's
//! zerostate root hash and first-master-block root hash.  This module defines
//! the mathematical shape of those strings, the executable decimal formatter
//! the logical keys need, and the law that two networks with distinct
//! prefixes can never touch a common key.

use vstd::prelude::*;

verus! {

/// First eight characters of a root hash, or all of it if shorter.
pub open spec fn prefix8(s: Seq<char>) -> Seq<char> {
    if s.len() < 8 {
        s
    } else {
        s.take(8)
    }
}

/// The character for one decimal digit.
pub open spec fn dec_digit_char(d: nat) -> char {
    if d == 0 {
        '0'
    } else if d == 1 {
        '1'
    } else if d == 2 {
        '2'
    } else if d == 3 {
        '3'
    } else if d == 4 {
        '4'
    } else if d == 5 {
        '5'
    } else if d == 6 {
        '6'
    } else if d == 7 {
        '7'
    } else if d == 8 {
        '8'
    } else {
        '9'
    }
}

/// Decimal rendering of a natural number, most significant digit first.
pub open spec fn dec_str_of(n: nat) -> Seq<char>
    decreases n,
{
    if n < 10 {
        seq![dec_digit_char(n)]
    } else {
        dec_str_of(n / 10).push(dec_digit_char(n % 10))
    }
}

/// The full storage key for a logical key string under a network identified
/// by its two root hashes.
pub open spec fn storage_key_seq(zs: Seq<char>, fmb: Seq<char>, key: Seq<char>) -> Seq<char> {
    prefix8(zs) + seq!['/'] + prefix8(fmb) + seq!['/'] + key
}

/// Appends one decimal digit to a string.
fn push_dec_digit(s: &mut String, d: u32)
    requires
        d < 10,
    ensures
        final(s)@ == old(s)@.push(dec_digit_char(d as nat)),
{
    let digit: &str = if d == 0 {
        "0"
    } else if d == 1 {
        "1"
    } else if d == 2 {
        "2"
    } else if d == 3 {
        "3"
    } else if d == 4 {
        "4"
    } else if d == 5 {
        "5"
    } else if d == 6 {
        "6"
    } else if d == 7 {
        "7"
    } else if d == 8 {
        "8"
    } else {
        "9"
    };
    proof {
        reveal_strlit("0");
        reveal_strlit("1");
        reveal_strlit("2");
        reveal_strlit("3");
        reveal_strlit("4");
        reveal_strlit("5");
        reveal_strlit("6");
        reveal_strlit("7");
        reveal_strlit("8");
        reveal_strlit("9");
        assert(digit@ =~= seq![dec_digit_char(d as nat)]);
    }
    s.append(digit);
    proof {
        assert(old(s)@ + digit@ =~= old(s)@.push(dec_digit_char(d as nat)));
    }
}

/// Renders a `u32` in decimal, as `format!("{}", n)` would.
pub fn u32_dec_string(n: u32) -> (s: String)
    ensures
        s@ == dec_str_of(n as nat),
    decreases n,
{
    if n < 10 {
        let mut s = String::new();
        push_dec_digit(&mut s, n);
        proof {
            assert(Seq::<char>::empty().push(dec_digit_char(n as nat)) =~= seq![
                dec_digit_char(n as nat),
            ]);
        }
        s
    } else {
        let mut s = u32_dec_string(n / 10);
        push_dec_digit(&mut s, n % 10);
        s
    }
}

/// Namespace isolation: whichever logical keys two engines touch, if their
/// networks differ in the zerostate prefix or the first-master-block prefix,
/// no storage key of the one is a storage key of the other.  (Two distinct
/// networks whose root hashes agree on the first eight characters are not
/// separated by the prefixing scheme; the hashes are assumed to be at least
/// eight characters, as 64-character hex hashes are.)
pub proof fn lemma_network_namespaces_disjoint(
    zs1: Seq<char>,
    fmb1: Seq<char>,
    key1: Seq<char>,
    zs2: Seq<char>,
    fmb2: Seq<char>,
    key2: Seq<char>,
)
    requires
        zs1.len() >= 8,
        fmb1.len() >= 8,
        zs2.len() >= 8,
        fmb2.len() >= 8,
        prefix8(zs1) != prefix8(zs2) || prefix8(fmb1) != prefix8(fmb2),
    ensures
        storage_key_seq(zs1, fmb1, key1) != storage_key_seq(zs2, fmb2, key2),
{
    let k1 = storage_key_seq(zs1, fmb1, key1);
    let k2 = storage_key_seq(zs2, fmb2, key2);
    let a1 = prefix8(zs1);
    let a2 = prefix8(zs2);
    let b1 = prefix8(fmb1);
    let b2 = prefix8(fmb2);
    assert(a1.len() == 8 && a2.len() == 8 && b1.len() == 8 && b2.len() == 8);
    assert(forall|i: int| 0 <= i < 8 ==> k1[i] == a1[i] && k2[i] == a2[i]);
    assert(forall|i: int| 0 <= i < 8 ==> k1[9 + i] == b1[i] && k2[9 + i] == b2[i]);
    if a1 != a2 {
        assert(exists|i: int| 0 <= i < 8 && a1[i] != a2[i]) by {
            if forall|i: int| 0 <= i < 8 ==> a1[i] == #[trigger] a2[i] {
                assert(a1 =~= a2);
            }
        }
        let i = choose|i: int| 0 <= i < 8 && a1[i] != a2[i];
        assert(k1[i] != k2[i]);
    } else {
        assert(b1 != b2);
        assert(exists|i: int| 0 <= i < 8 && b1[i] != b2[i]) by {
            if forall|i: int| 0 <= i < 8 ==> b1[i] == #[trigger] b2[i] {
                assert(b1 =~= b2);
            }
        }
        let i = choose|i: int| 0 <= i < 8 && b1[i] != b2[i];
        assert(k1[9 + i] != k2[9 + i]);
    }
}

} // verus!
