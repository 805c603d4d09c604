//! How group and address literals are written, and their canonical forms.
//!
//! An address is written as 63 characters: the prefix `aleo1`, then 58 letters or
//! digits. Letters may be written in either case; the canonical form is all lower
//! case. A number of a group literal is written as decimal digits, with an optional
//! minus sign in front. A group literal written as a single number `n` is short for
//! the pair whose first coordinate is `n` and whose second coordinate is inferred;
//! the pair is its canonical form.

use vstd::prelude::*;
use vstd::string::{StrSliceExecFns, StringExecFns};
use crate::expression::{GroupCoordinate, GroupCoordinateView, Literal, LiteralView};

verus! {

pub open spec fn is_digit(c: char) -> bool {
    '0' <= c && c <= '9'
}

/// The position of the first digit of a number: behind the minus sign, if there is one.
pub open spec fn number_start(s: Seq<char>) -> int {
    if s.len() > 0 && s[0] == '-' {
        1
    } else {
        0
    }
}

/// `s` is a number: an optional minus sign, then one decimal digit or more.
pub open spec fn valid_number(s: Seq<char>) -> bool {
    &&& number_start(s) < s.len()
    &&& forall|i: int| number_start(s) <= i < s.len() ==> is_digit(#[trigger] s[i])
}

/// The lower-case letter of an upper-case ASCII letter; any other character itself.
pub open spec fn lower_char(c: char) -> char {
    if 'A' <= c && c <= 'Z' {
        ((c as u32) + 32) as char
    } else {
        c
    }
}

/// `s` with each upper-case ASCII letter replaced by its lower-case letter.
pub open spec fn lowered(s: Seq<char>) -> Seq<char> {
    Seq::new(s.len(), |i: int| lower_char(s[i]))
}

/// The five characters that every address begins with.
pub open spec fn address_prefix() -> Seq<char> {
    seq!['a', 'l', 'e', 'o', '1']
}

pub open spec fn is_address_char(c: char) -> bool {
    ('a' <= c && c <= 'z') || is_digit(c)
}

/// `s` is an address, in either case of its letters.
pub open spec fn valid_address(s: Seq<char>) -> bool {
    &&& s.len() == 63
    &&& forall|i: int| 0 <= i < 5 ==> lower_char(#[trigger] s[i]) == address_prefix()[i]
    &&& forall|i: int| 5 <= i < 63 ==> is_address_char(lower_char(#[trigger] s[i]))
}

pub open spec fn valid_coordinate(c: GroupCoordinateView) -> bool {
    match c {
        GroupCoordinateView::Number(digits) => valid_number(digits),
        _ => true,
    }
}

/// The canonical form of the literal `l`, or `None` where `l` is a group or address
/// literal that is not written as one must be. Literals of the other kinds are their
/// own canonical form.
pub open spec fn canonical_literal(l: LiteralView) -> Option<LiteralView> {
    match l {
        LiteralView::Address(text) => if valid_address(text) {
            Some(LiteralView::Address(lowered(text)))
        } else {
            None
        },
        LiteralView::GroupSingle(digits) => if valid_number(digits) {
            Some(
                LiteralView::GroupPair(
                    GroupCoordinateView::Number(digits),
                    GroupCoordinateView::Inferred,
                ),
            )
        } else {
            None
        },
        LiteralView::GroupPair(x, y) => if valid_coordinate(x) && valid_coordinate(y) {
            Some(l)
        } else {
            None
        },
        _ => Some(l),
    }
}

/// A canonical form is its own canonical form.
pub proof fn lemma_canonical_literal_is_stable(l: LiteralView)
    requires
        canonical_literal(l) is Some,
    ensures
        canonical_literal(canonical_literal(l)->Some_0) == canonical_literal(l),
{
    match l {
        LiteralView::Address(text) => {
            let low = lowered(text);
            assert forall|i: int| 0 <= i < low.len() implies lower_char(#[trigger] low[i]) == low[i] by {
                let c = text[i];
                if 'A' <= c && c <= 'Z' {
                    assert(lower_char(c) as u32 == c as u32 + 32);
                }
            }
            assert(lowered(low) =~= low);
            assert forall|i: int| 0 <= i < 5 implies lower_char(#[trigger] low[i]) == address_prefix()[i] by {
                assert(lower_char(text[i]) == address_prefix()[i]);
            }
            assert forall|i: int| 5 <= i < 63 implies is_address_char(lower_char(#[trigger] low[i])) by {
                assert(is_address_char(lower_char(text[i])));
            }
        },
        _ => {},
    }
}

/// Whether `s` is a number.
pub fn is_valid_number(s: &String) -> (r: bool)
    ensures
        r == valid_number(s@),
{
    let text = s.as_str();
    let n = text.unicode_len();
    let start: usize = if n > 0 && text.get_char(0) == '-' {
        1
    } else {
        0
    };
    if start >= n {
        return false;
    }
    let mut i: usize = start;
    while i < n
        invariant
            start <= i <= n,
            n == s@.len(),
            text@ == s@,
            start == number_start(s@),
            forall|k: int| start <= k < i ==> is_digit(#[trigger] s@[k]),
        decreases n - i,
    {
        let c = text.get_char(i);
        if !(c >= '0' && c <= '9') {
            return false;
        }
        i = i + 1;
    }
    true
}

/// Whether `s` is an address.
pub fn is_valid_address(s: &String) -> (r: bool)
    ensures
        r == valid_address(s@),
{
    let text = s.as_str();
    let prefix = "aleo1";
    proof {
        reveal_strlit("aleo1");
        assert(prefix@ =~= address_prefix());
    }
    if text.unicode_len() != 63 {
        return false;
    }
    let mut i: usize = 0;
    while i < 63
        invariant
            i <= 63,
            s@.len() == 63,
            text@ == s@,
            prefix@ == address_prefix(),
            forall|k: int| 0 <= k < i && k < 5 ==> lower_char(#[trigger] s@[k]) == address_prefix()[k],
            forall|k: int| 5 <= k < i ==> is_address_char(lower_char(#[trigger] s@[k])),
        decreases 63 - i,
    {
        let c = lower(text.get_char(i));
        if i < 5 {
            if c != prefix.get_char(i) {
                return false;
            }
        } else if !((c >= 'a' && c <= 'z') || (c >= '0' && c <= '9')) {
            return false;
        }
        i = i + 1;
    }
    true
}

/// The lower-case letter of `c`, if `c` is an upper-case ASCII letter; else `c`.
pub fn lower(c: char) -> (r: char)
    ensures
        r == lower_char(c),
{
    if c >= 'A' && c <= 'Z' {
        let alphabet = "abcdefghijklmnopqrstuvwxyz";
        proof {
            reveal_strlit("abcdefghijklmnopqrstuvwxyz");
        }
        let k: usize = (c as u32 - 'A' as u32) as usize;
        alphabet.get_char(k)
    } else {
        c
    }
}

/// `s` in lower case.
pub fn lowercase(s: &String) -> (r: String)
    ensures
        r@ == lowered(s@),
{
    let text = s.as_str();
    let alphabet = "abcdefghijklmnopqrstuvwxyz";
    let n = text.unicode_len();
    let mut out = String::new();
    let mut i: usize = 0;
    while i < n
        invariant
            i <= n,
            n == s@.len(),
            text@ == s@,
            alphabet@ == "abcdefghijklmnopqrstuvwxyz"@,
            out@ == lowered(s@).take(i as int),
        decreases n - i,
    {
        let c = text.get_char(i);
        if c >= 'A' && c <= 'Z' {
            let k: usize = (c as u32 - 'A' as u32) as usize;
            proof {
                reveal_strlit("abcdefghijklmnopqrstuvwxyz");
                assert(alphabet@[k as int] == lower_char(c));
            }
            out.append(alphabet.substring_char(k, k + 1));
        } else {
            out.append(text.substring_char(i, i + 1));
        }
        assert(out@ =~= lowered(s@).take(i + 1));
        i = i + 1;
    }
    assert(out@ =~= lowered(s@));
    out
}

/// Whether a coordinate of a group literal is written as it must be.
pub fn is_valid_coordinate(c: &GroupCoordinate) -> (r: bool)
    ensures
        r == valid_coordinate(c@),
{
    match c {
        GroupCoordinate::Number(digits) => is_valid_number(digits),
        _ => true,
    }
}

/// The view of an optional literal.
pub open spec fn optional_literal_view(l: Option<Literal>) -> Option<LiteralView> {
    match l {
        Some(l) => Some(l@),
        None => None,
    }
}

/// The canonical form of `l`, or `None` where `l` is malformed.
pub fn canonicalize_literal(l: &Literal) -> (r: Option<Literal>)
    ensures
        optional_literal_view(r) == canonical_literal(l@),
{
    match l {
        Literal::Address(text) => if is_valid_address(text) {
            Some(Literal::Address(lowercase(text)))
        } else {
            None
        },
        Literal::GroupSingle(digits) => if is_valid_number(digits) {
            Some(Literal::GroupPair(GroupCoordinate::Number(digits.clone()), GroupCoordinate::Inferred))
        } else {
            None
        },
        Literal::GroupPair(x, y) => if is_valid_coordinate(x) && is_valid_coordinate(y) {
            Some(l.clone())
        } else {
            None
        },
        _ => Some(l.clone()),
    }
}

} // verus!
