//! Extraction of the session id that the portal's entry page embeds in its
//! inline script, right after the marker `h:'`.

use vstd::prelude::*;
use crate::text::chars_of;

verus! {

/// Number of digits of a session id.
pub const SESSION_ID_DIGITS: usize = 7;

/// Why no session id could be read from the entry page.
#[derive(Debug, Clone, Copy, PartialEq, Eq, Structural)]
pub enum BootstrapError {
    /// The page does not contain the marker.
    MarkerNotFound,
    /// The seven characters after the marker are not seven decimal digits.
    MalformedSessionId,
}

/// The text that precedes the session id.
pub open spec fn marker() -> Seq<char> {
    seq!['h', ':', '\'']
}

/// The marker starts at index `i` of `s`.
pub open spec fn marker_at(s: Seq<char>, i: int) -> bool {
    0 <= i && i + 3 <= s.len() && s.subrange(i, i + 3) == marker()
}

/// The marker starts at `i`, and nowhere before.
pub open spec fn first_marker_at(s: Seq<char>, i: int) -> bool {
    marker_at(s, i) && forall|j: int| 0 <= j < i ==> !marker_at(s, j)
}

pub open spec fn is_digit(c: char) -> bool {
    '0' <= c <= '9'
}

pub open spec fn all_digits(s: Seq<char>) -> bool {
    forall|k: int| 0 <= k < s.len() ==> is_digit(#[trigger] s[k])
}

/// The number that the decimal digits `s` spell.
pub open spec fn digits_value(s: Seq<char>) -> nat
    decreases s.len(),
{
    if s.len() == 0 {
        0
    } else {
        digits_value(s.drop_last()) * 10 + ((s.last() as u32 - 48) as nat)
    }
}

pub open spec fn pow10(n: nat) -> nat
    decreases n,
{
    if n == 0 {
        1
    } else {
        10 * pow10((n - 1) as nat)
    }
}

/// What the page gives when the marker first occurs at `i`.
pub open spec fn session_id_after(s: Seq<char>, i: int) -> Result<u32, BootstrapError> {
    let start = i + 3;
    if start + 7 <= s.len() && all_digits(s.subrange(start, start + 7)) {
        Ok(digits_value(s.subrange(start, start + 7)) as u32)
    } else {
        Err(BootstrapError::MalformedSessionId)
    }
}

proof fn lemma_digits_value_bound(s: Seq<char>)
    requires
        all_digits(s),
    ensures
        digits_value(s) < pow10(s.len()),
    decreases s.len(),
{
    if s.len() > 0 {
        let t = s.drop_last();
        assert(all_digits(t)) by {
            assert forall|k: int| 0 <= k < t.len() implies is_digit(#[trigger] t[k]) by {
                assert(t[k] == s[k]);
            }
        }
        lemma_digits_value_bound(t);
        assert(is_digit(s[s.len() - 1]));
    }
}

/// What the entry page `s` yields: the session id after the first marker, or
/// why there is none.
pub open spec fn session_id_of(s: Seq<char>) -> Result<u32, BootstrapError> {
    if exists|i: int| first_marker_at(s, i) {
        session_id_after(s, choose|i: int| first_marker_at(s, i))
    } else {
        Err(BootstrapError::MarkerNotFound)
    }
}

/// Reads the session id from the text of the entry page: the seven decimal
/// digits that follow the first occurrence of the marker.
pub fn extract_session_id(page: &str) -> (r: Result<u32, BootstrapError>)
    ensures
        (forall|i: int| !marker_at(page@, i)) ==> r == Err::<u32, BootstrapError>(
            BootstrapError::MarkerNotFound,
        ),
        forall|i: int| first_marker_at(page@, i) ==> r == session_id_after(page@, i),
        r == session_id_of(page@),
{
    let s = chars_of(page);
    let n = s.len();
    let mut i: usize = 0;
    let mut found = false;
    while !found && n >= 3 && i <= n - 3
        invariant
            s@ == page@,
            n == s@.len(),
            i <= n,
            found ==> marker_at(s@, i as int),
            forall|j: int| 0 <= j < i ==> !marker_at(s@, j),
        decreases n - i, if found { 0int } else { 1int },
    {
        if s[i] == 'h' && s[i + 1] == ':' && s[i + 2] == '\'' {
            assert(s@.subrange(i as int, i + 3) =~= marker());
            found = true;
        } else {
            assert(!marker_at(s@, i as int)) by {
                if marker_at(s@, i as int) {
                    assert(s@.subrange(i as int, i + 3)[0] == s@[i as int]);
                    assert(s@.subrange(i as int, i + 3)[1] == s@[i + 1]);
                    assert(s@.subrange(i as int, i + 3)[2] == s@[i + 2]);
                }
            }
            i = i + 1;
        }
    }
    if !found {
        assert forall|j: int| !marker_at(page@, j) by {
            if j >= i {
                assert(j + 3 > n);
            }
        }
        return Err(BootstrapError::MarkerNotFound);
    }
    assert(first_marker_at(page@, i as int));
    assert forall|j: int| first_marker_at(page@, j) implies j == i by {
        if j < i {
        } else if j > i {
            assert(!first_marker_at(page@, j));
        }
    }
    assert(session_id_of(page@) == session_id_after(page@, i as int)) by {
        let j = choose|j: int| first_marker_at(page@, j);
        assert(j == i);
    }
    let start = i + 3;
    if n - start < SESSION_ID_DIGITS {
        return Err(BootstrapError::MalformedSessionId);
    }
    let ghost digits = s@.subrange(start as int, start + 7);
    let mut value: u32 = 0;
    let mut k: usize = 0;
    while k < SESSION_ID_DIGITS
        invariant
            s@ == page@,
            n == s@.len(),
            start + 7 <= n,
            start == i + 3,
            marker_at(page@, i as int),
            forall|j: int| first_marker_at(page@, j) ==> j == i,
            session_id_of(page@) == session_id_after(page@, i as int),
            digits == s@.subrange(start as int, start + 7),
            k <= 7,
            all_digits(digits.subrange(0, k as int)),
            value as nat == digits_value(digits.subrange(0, k as int)),
        decreases 7 - k,
    {
        let c = s[start + k];
        if !('0' <= c && c <= '9') {
            assert(!all_digits(digits)) by {
                assert(digits[k as int] == c);
            }
            return Err(BootstrapError::MalformedSessionId);
        }
        proof {
            let t = digits.subrange(0, k + 1);
            assert(t.drop_last() =~= digits.subrange(0, k as int));
            assert(t.last() == c);
            lemma_digits_value_bound(digits.subrange(0, k as int));
            assert(pow10(k as nat) <= 1_000_000) by {
                reveal_with_fuel(pow10, 8);
                if k == 0 {} else if k == 1 {} else if k == 2 {} else if k == 3 {}
                else if k == 4 {} else if k == 5 {} else {}
            }
            assert(all_digits(t)) by {
                assert forall|m: int| 0 <= m < t.len() implies is_digit(#[trigger] t[m]) by {
                    if m < k {
                        assert(t[m] == digits.subrange(0, k as int)[m]);
                    }
                }
            }
        }
        value = value * 10 + (c as u32 - 48);
        k = k + 1;
    }
    assert(digits.subrange(0, 7) =~= digits);
    Ok(value)
}

} // verus!
