//! Big-endian positional values of byte and six-bit digit sequences.
use vstd::arithmetic::power::pow;
use vstd::prelude::*;

verus! {

/// The value of `s` read as a big-endian number in base 256.
pub open spec fn bytes_value(s: Seq<u8>) -> int
    decreases s.len(),
{
    if s.len() == 0 {
        0
    } else {
        bytes_value(s.drop_last()) * 256 + s.last()
    }
}

/// The value of `s` read as a big-endian number in base 64.
pub open spec fn sextets_value(s: Seq<u8>) -> int
    decreases s.len(),
{
    if s.len() == 0 {
        0
    } else {
        sextets_value(s.drop_last()) * 64 + s.last()
    }
}

/// The lowest `len` base-64 digits of `n`, most significant first.
pub open spec fn sextets(n: nat, len: nat) -> Seq<u8>
    decreases len,
{
    if len == 0 {
        Seq::empty()
    } else {
        sextets(n / 64, (len - 1) as nat).push((n % 64) as u8)
    }
}

/// Whether every entry of `s` is a six-bit value.
pub open spec fn all_sextets(s: Seq<u8>) -> bool {
    forall|i: int| 0 <= i < s.len() ==> #[trigger] s[i] < 64
}

/// Appending a byte shifts the value up by one byte.
pub broadcast proof fn lemma_bytes_value_push(s: Seq<u8>, x: u8)
    ensures
        #[trigger] bytes_value(s.push(x)) == bytes_value(s) * 256 + x,
{
    assert(s.push(x).drop_last() =~= s);
}

/// Appending a digit shifts the value up by one base-64 place.
pub broadcast proof fn lemma_sextets_value_push(s: Seq<u8>, x: u8)
    ensures
        #[trigger] sextets_value(s.push(x)) == sextets_value(s) * 64 + x,
{
    assert(s.push(x).drop_last() =~= s);
}

/// A digit expansion of length `len` has `len` six-bit digits, the last of
/// which is `n % 64`.
pub proof fn lemma_sextets_shape(n: nat, len: nat)
    ensures
        sextets(n, len).len() == len,
        all_sextets(sextets(n, len)),
        len > 0 ==> sextets(n, len).last() == n % 64,
    decreases len,
{
    if len > 0 {
        let t = sextets(n / 64, (len - 1) as nat);
        lemma_sextets_shape(n / 64, (len - 1) as nat);
        let s = sextets(n, len);
        assert forall|i: int| 0 <= i < s.len() implies #[trigger] s[i] < 64 by {
            if i < t.len() {
                assert(s[i] == t[i]);
            }
        }
    }
}

/// A sequence of six-bit digits is the digit expansion of its own value.
pub proof fn lemma_sextets_of_value(s: Seq<u8>)
    requires
        all_sextets(s),
    ensures
        sextets_value(s) >= 0,
        sextets(sextets_value(s) as nat, s.len()) == s,
    decreases s.len(),
{
    if s.len() > 0 {
        let t = s.drop_last();
        assert(all_sextets(t)) by {
            assert forall|i: int| 0 <= i < t.len() implies #[trigger] t[i] < 64 by {
                assert(t[i] == s[i]);
            }
        }
        lemma_sextets_of_value(t);
        let n = sextets_value(s);
        assert(s[s.len() - 1] < 64);
        assert(n / 64 == sextets_value(t));
        assert(n % 64 == s.last());
        assert(s =~= t.push(s.last()));
    }
}

/// The digit expansion of a number below `64^len` has that number as its value.
pub proof fn lemma_value_of_sextets(n: nat, len: nat)
    requires
        n < pow(64, len),
    ensures
        sextets_value(sextets(n, len)) == n,
    decreases len,
{
    reveal(pow);
    if len > 0 {
        assert(n / 64 < pow(64, (len - 1) as nat));
        lemma_value_of_sextets(n / 64, (len - 1) as nat);
        let t = sextets(n / 64, (len - 1) as nat);
        assert(sextets(n, len).drop_last() =~= t);
    }
}

} // verus!
