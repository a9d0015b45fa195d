//! Address normalization and validation.
//!
//! A Ronin account is written either `ronin:<hex>` or `0x<hex>`.
//! Normalization rewrites the first occurrence of the literal `ronin:`
//! to `0x`; validation accepts exactly a `0x` prefix followed by forty
//! hexadecimal digits (a 20-byte account identifier).

use vstd::prelude::*;

verus! {

/// The textual prefix that marks a Ronin-form address.
pub open spec fn ronin_prefix() -> Seq<char> {
    seq!['r', 'o', 'n', 'i', 'n', ':']
}

/// The prefix that marks a hex-form address.
pub open spec fn hex_prefix() -> Seq<char> {
    seq!['0', 'x']
}

/// The string `s` holds the `ronin:` marker starting at position `i`.
pub open spec fn marker_at(s: Seq<char>, i: int) -> bool {
    0 <= i && i + 6 <= s.len() && s.subrange(i, i + 6) == ronin_prefix()
}

/// Position of the first `ronin:` marker at or after `i`, if any.
pub open spec fn first_marker_from(s: Seq<char>, i: nat) -> Option<nat>
    decreases s.len() - i when i <= s.len()
{
    if i + 6 > s.len() {
        None
    } else if marker_at(s, i as int) {
        Some(i)
    } else {
        first_marker_from(s, i + 1)
    }
}

/// The normalized form: the first `ronin:` marker, if present, replaced
/// by `0x`; otherwise the string unchanged.
pub open spec fn normalize_spec(s: Seq<char>) -> Seq<char> {
    match first_marker_from(s, 0) {
        None => s,
        Some(i) => s.subrange(0, i as int) + hex_prefix() + s.subrange(
            i as int + 6,
            s.len() as int,
        ),
    }
}

/// Replace the first occurrence of `ronin:` in `input` with `0x`;
/// an input without the marker comes back unchanged.
pub fn normalize_address(input: &str) -> (r: String)
    ensures
        r@ == normalize_spec(input@),
{
    let n: usize = input.unicode_len();
    let mut i: usize = 0;
    while n >= 6 && i <= n - 6
        invariant
            n == input@.len(),
            i <= n,
            first_marker_from(input@, 0) == first_marker_from(input@, i as nat),
        decreases n - i,
    {
        let m: bool = input.get_char(i) == 'r' && input.get_char(i + 1) == 'o'
            && input.get_char(i + 2) == 'n' && input.get_char(i + 3) == 'i'
            && input.get_char(i + 4) == 'n' && input.get_char(i + 5) == ':';
        if m {
            proof {
                assert(input@.subrange(i as int, i + 6) =~= ronin_prefix());
                assert(first_marker_from(input@, i as nat) == Some(i as nat));
            }
            let prefix: &str = input.substring_char(0, i);
            let suffix: &str = input.substring_char(i + 6, n);
            let r: String = String::from_str(prefix).concat("0x").concat(suffix);
            proof {
                reveal_strlit("0x");
                assert("0x"@ =~= hex_prefix());
                assert(r@ =~= input@.subrange(0, i as int) + hex_prefix() + input@.subrange(
                    i + 6,
                    n as int,
                ));
            }
            return r;
        }
        proof {
            assert(!marker_at(input@, i as int)) by {
                if marker_at(input@, i as int) {
                    assert(input@.subrange(i as int, i + 6)[0] == input@[i as int]);
                    assert(input@.subrange(i as int, i + 6)[1] == input@[i + 1]);
                    assert(input@.subrange(i as int, i + 6)[2] == input@[i + 2]);
                    assert(input@.subrange(i as int, i + 6)[3] == input@[i + 3]);
                    assert(input@.subrange(i as int, i + 6)[4] == input@[i + 4]);
                    assert(input@.subrange(i as int, i + 6)[5] == input@[i + 5]);
                }
            }
        }
        i = i + 1;
    }
    proof {
        assert(first_marker_from(input@, i as nat) is None);
    }
    String::from_str(input)
}

/// `c` is an ASCII hexadecimal digit.
pub open spec fn is_hex_digit(c: char) -> bool {
    (48 <= c as u32 && c as u32 <= 57)  // '0'..='9'
    || (97 <= c as u32 && c as u32 <= 102)  // 'a'..='f'
    || (65 <= c as u32 && c as u32 <= 70)  // 'A'..='F'
}

/// A valid normalized address: `0x` followed by exactly forty
/// hexadecimal digits.
pub open spec fn valid_address(s: Seq<char>) -> bool {
    &&& s.len() == 42
    &&& s[0] == '0'
    &&& s[1] == 'x'
    &&& forall|i: int| 2 <= i < 42 ==> is_hex_digit(#[trigger] s[i])
}

/// Whether `s` parses as a 20-byte hex account address.
pub fn is_valid_address(s: &str) -> (r: bool)
    ensures
        r == valid_address(s@),
{
    let n: usize = s.unicode_len();
    if n != 42 {
        return false;
    }
    if s.get_char(0) != '0' || s.get_char(1) != 'x' {
        return false;
    }
    let mut i: usize = 2;
    while i < 42
        invariant
            n == s@.len(),
            n == 42,
            2 <= i <= 42,
            forall|j: int| 2 <= j < i ==> is_hex_digit(#[trigger] s@[j]),
        decreases 42 - i,
    {
        let c: u32 = s.get_char(i) as u32;
        let ok: bool = (48 <= c && c <= 57) || (97 <= c && c <= 102) || (65 <= c && c <= 70);
        if !ok {
            return false;
        }
        i = i + 1;
    }
    true
}

/// For every string written as `ronin:` plus a suffix, normalization
/// yields `0x` plus that suffix, and the result is a valid address
/// exactly when the suffix is forty hexadecimal digits.
pub proof fn lemma_ronin_normalization_parses(suffix: Seq<char>)
    ensures
        normalize_spec(ronin_prefix() + suffix) == hex_prefix() + suffix,
        valid_address(normalize_spec(ronin_prefix() + suffix)) <==> (suffix.len() == 40
            && forall|i: int| 0 <= i < 40 ==> is_hex_digit(#[trigger] suffix[i])),
{
    let s = ronin_prefix() + suffix;
    assert(s.subrange(0, 6) =~= ronin_prefix());
    assert(marker_at(s, 0));
    assert(first_marker_from(s, 0) == Some(0nat));
    assert(normalize_spec(s) =~= hex_prefix() + suffix);
    let r = hex_prefix() + suffix;
    if suffix.len() == 40 && forall|i: int| 0 <= i < 40 ==> is_hex_digit(#[trigger] suffix[i]) {
        assert(r[0] == '0');
        assert(r[1] == 'x');
        assert(forall|i: int| 2 <= i < 42 ==> #[trigger] r[i] == suffix[i - 2]);
        assert(valid_address(r));
    }
    if valid_address(r) {
        assert(suffix.len() == 40);
        assert forall|i: int| 0 <= i < 40 implies is_hex_digit(#[trigger] suffix[i]) by {
            assert(r[i + 2] == suffix[i]);
            assert(is_hex_digit(r[i + 2]));
        }
    }
}

} // verus!
