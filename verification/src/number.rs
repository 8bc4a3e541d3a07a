//! The grammar of numbers, and that the tokenizer scans by it.
//!
//! ```text
//! number := '-'? digit+ ('.' digit+)? (('e' | 'E') ('+' | '-')? digit+)?
//! ```

use vstd::prelude::*;
use crate::classes::is_digit;
use crate::fault::Fault;
use crate::scan::{
    digit_run_outcome, digits_end, holds, holds_digit, lemma_digits_end, number_outcome,
};

verus! {

/// Whether the code points of `w` from `i` to `j` are decimal digits, and at
/// least one: `digit+`.
pub open spec fn digits_at(w: Seq<char>, i: int, j: int) -> bool {
    &&& 0 <= i < j <= w.len()
    &&& forall|k: int| i <= k < j ==> is_digit(#[trigger] w[k])
}

/// Whether `w` is a number whose integer digits end at `a`, whose fraction
/// ends at `b` and whose exponent digits start at `c`.
///
/// Without a fraction `b` is `a`. Without an exponent `b` is the end of `w`,
/// and so is `c`.
pub open spec fn number_with(w: Seq<char>, a: int, b: int, c: int) -> bool {
    let m = if holds(w, 0, '-') { 1int } else { 0int };
    &&& digits_at(w, m, a)
    &&& (b == a || (holds(w, a, '.') && digits_at(w, a + 1, b)))
    &&& if b == w.len() {
        c == b
    } else {
        &&& holds(w, b, 'e') || holds(w, b, 'E')
        &&& c == b + 1 || (c == b + 2 && (holds(w, b + 1, '+') || holds(w, b + 1, '-')))
        &&& digits_at(w, c, w.len() as int)
    }
}

/// Whether `w` is a number of the grammar.
pub open spec fn is_number(w: Seq<char>) -> bool {
    exists|a: int, b: int, c: int| #[trigger] number_with(w, a, b, c)
}

/// Whether the code point at `pos` could carry a number on that ends there:
/// a digit, a decimal point or an exponent marker.
pub open spec fn carries_on(s: Seq<char>, pos: int) -> bool {
    holds_digit(s, pos) || holds(s, pos, '.') || holds(s, pos, 'e') || holds(s, pos, 'E')
}

/// The code points from a position up to where its digits end are digits.
pub proof fn lemma_digits_run(s: Seq<char>, pos: int)
    requires
        0 <= pos <= s.len(),
    ensures
        forall|k: int| pos <= k < digits_end(s, pos) ==> is_digit(#[trigger] s[k]),
    decreases s.len() - pos,
{
    if holds_digit(s, pos) {
        lemma_digits_run(s, pos + 1);
    }
}

/// Digits end at the first position behind them that holds none.
pub proof fn lemma_digits_end_is(s: Seq<char>, pos: int, end: int)
    requires
        0 <= pos <= end <= s.len(),
        forall|k: int| pos <= k < end ==> is_digit(#[trigger] s[k]),
        !holds_digit(s, end),
    ensures
        digits_end(s, pos) == end,
    decreases end - pos,
{
    if pos < end {
        assert(is_digit(s[pos]));
        lemma_digits_end_is(s, pos + 1, end);
    }
}

/// What the tokenizer scans as a number is a number of the grammar.
pub proof fn lemma_number_matches(s: Seq<char>, pos: int)
    requires
        0 <= pos <= s.len(),
        number_outcome(s, pos) is Ok,
    ensures
        pos < number_outcome(s, pos)->Ok_0 <= s.len(),
        is_number(s.subrange(pos, number_outcome(s, pos)->Ok_0)),
{
    let e = number_outcome(s, pos)->Ok_0;
    let m = if holds(s, pos, '-') { pos + 1 } else { pos };
    let a = digits_end(s, m);
    lemma_digits_end(s, m + 1);
    lemma_digits_run(s, m);
    let b = if holds(s, a, '.') { digits_end(s, a + 1) } else { a };
    if holds(s, a, '.') {
        lemma_digits_end(s, a + 2);
        lemma_digits_run(s, a + 1);
    }
    assert(digit_run_outcome(s, m, false) == Ok::<int, Fault>(b));
    let c = if !(holds(s, b, 'e') || holds(s, b, 'E')) {
        b
    } else if holds(s, b + 1, '+') || holds(s, b + 1, '-') {
        b + 2
    } else {
        b + 1
    };
    if holds(s, b, 'e') || holds(s, b, 'E') {
        lemma_digits_end(s, c + 1);
        lemma_digits_run(s, c);
        assert(e == digits_end(s, c));
    } else {
        assert(e == b);
    }
    let w = s.subrange(pos, e);
    assert forall|k: int| 0 <= k < w.len() implies w[k] == s[pos + k] by {}
    assert(digits_at(w, m - pos, a - pos)) by {
        assert forall|k: int| m - pos <= k < a - pos implies is_digit(#[trigger] w[k]) by {
            assert(is_digit(s[pos + k]));
        }
    }
    if b != a {
        assert(digits_at(w, a + 1 - pos, b - pos)) by {
            assert forall|k: int| a + 1 - pos <= k < b - pos implies is_digit(#[trigger] w[k]) by {
                assert(is_digit(s[pos + k]));
            }
        }
    }
    if b != e {
        assert(digits_at(w, c - pos, w.len() as int)) by {
            assert forall|k: int| c - pos <= k < w.len() implies is_digit(#[trigger] w[k]) by {
                assert(is_digit(s[pos + k]));
            }
        }
    }
    assert(number_with(w, a - pos, b - pos, c - pos));
}

/// The tokenizer scans every number of the grammar to its end, if what
/// follows cannot carry the number on.
pub proof fn lemma_number_scanned(s: Seq<char>, pos: int, end: int)
    requires
        0 <= pos <= end <= s.len(),
        is_number(s.subrange(pos, end)),
        !carries_on(s, end),
    ensures
        number_outcome(s, pos) == Ok::<int, Fault>(end),
{
    let w = s.subrange(pos, end);
    let (a, b, c) = choose|a: int, b: int, c: int| #[trigger] number_with(w, a, b, c);
    assert forall|k: int| 0 <= k < w.len() implies w[k] == s[pos + k] by {}
    let m = if holds(w, 0, '-') { 1int } else { 0int };
    assert(holds(w, 0, '-') == holds(s, pos, '-')) by {
        if w.len() > 0 {
            assert(w[0] == s[pos + 0]);
        }
    }
    assert(digits_end(s, pos + m) == pos + a) by {
        assert forall|k: int| pos + m <= k < pos + a implies is_digit(#[trigger] s[k]) by {
            assert(is_digit(w[k - pos]));
        }
        if a < w.len() {
            assert(w[a] == s[pos + a]);
        }
        lemma_digits_end_is(s, pos + m, pos + a);
    }
    assert(holds_digit(s, pos + m)) by {
        assert(is_digit(w[m]));
    }
    if b != a {
        assert(w[a] == s[pos + a]);
        assert(digits_end(s, pos + a + 1) == pos + b) by {
            assert forall|k: int| pos + a + 1 <= k < pos + b implies is_digit(#[trigger] s[k]) by {
                assert(is_digit(w[k - pos]));
            }
            if b < w.len() {
                assert(w[b] == s[pos + b]);
            }
            lemma_digits_end_is(s, pos + a + 1, pos + b);
        }
        assert(holds_digit(s, pos + a + 1)) by {
            assert(is_digit(w[a + 1]));
        }
    } else if a < w.len() {
        assert(w[a] == s[pos + a]);
    }
    assert(digit_run_outcome(s, pos + m, false) == Ok::<int, Fault>(pos + b));
    if b != w.len() {
        assert(w[b] == s[pos + b]);
        if c == b + 2 {
            assert(w[b + 1] == s[pos + b + 1]);
        } else {
            assert(is_digit(w[c]));
            assert(w[b + 1] == s[pos + b + 1]);
        }
        assert(holds_digit(s, pos + c)) by {
            assert(is_digit(w[c]));
        }
        assert(digits_end(s, pos + c) == end) by {
            assert forall|k: int| pos + c <= k < end implies is_digit(#[trigger] s[k]) by {
                assert(is_digit(w[k - pos]));
            }
            lemma_digits_end_is(s, pos + c, end);
        }
    }
}

} // verus!
