//! What holds of the checker as a whole.
//!
//! The checker accepts a stream of tokens exactly when the types of its
//! tokens form a document of the grammar and the text ends behind them.

use vstd::prelude::*;
use crate::descent::{
    array_outcome, document_outcome, elements_outcome, is_scalar, members_outcome, object_outcome,
    pair_outcome, value_outcome, verdict,
};
use crate::grammar::{
    array_at, elements_at, is_document, members_at, object_at, pair_at, value_at,
};
use crate::fault::Fault;
use crate::lexer::TokenType;
use crate::stream::{lemma_skip, lemma_stream_within, stream_from, Stream};

verus! {

/// Whether the token behind the first `j` tokens of `st` can be fetched: one
/// is there, or the text ends without a fault.
pub open spec fn fetches(st: Stream, j: int) -> bool {
    j < st.tokens.len() || st.ending is End
}

/// Whether a token of type `kind` can start a value.
pub open spec fn starts_value(kind: TokenType) -> bool {
    is_scalar(kind) || kind == TokenType::OPSQ || kind == TokenType::OPBR
}

/// What the stream behind the first `i` tokens of `base` shows.
proof fn lemma_at(base: Stream, i: nat)
    ensures
        base.kinds().len() == base.tokens.len(),
        base.skip(i).ending == base.ending,
        i < base.tokens.len() ==> base.skip(i).kind() == base.kinds()[i as int] && base.skip(
            i,
        ).tokens.len() == base.tokens.len() - i,
        i >= base.tokens.len() ==> base.skip(i).tokens.len() == 0,
{
}

/// A value is not empty, lies inside the sequence and starts with a token
/// that can start one.
pub proof fn lemma_value_starts(ts: Seq<TokenType>, i: int, j: int)
    requires
        value_at(ts, i, j),
    ensures
        0 <= i < j <= ts.len(),
        starts_value(ts[i]),
{
}

/// Elements are not empty, lie inside the sequence and start with a token
/// that can start a value.
pub proof fn lemma_elements_start(ts: Seq<TokenType>, i: int, j: int)
    requires
        elements_at(ts, i, j),
    ensures
        0 <= i < j <= ts.len(),
        starts_value(ts[i]),
    decreases j - i,
{
    if value_at(ts, i, j) {
        lemma_value_starts(ts, i, j);
    } else {
        let k = choose|k: int|
            i < k < j - 1 && value_at(ts, i, k) && #[trigger] ts[k] == TokenType::COMMA
                && elements_at(ts, k + 1, j);
        lemma_value_starts(ts, i, k);
        lemma_elements_start(ts, k + 1, j);
    }
}

/// Pairs are not empty, lie inside the sequence and start with a string.
pub proof fn lemma_members_start(ts: Seq<TokenType>, i: int, j: int)
    requires
        members_at(ts, i, j),
    ensures
        0 <= i < j <= ts.len(),
        ts[i] == TokenType::STRING,
    decreases j - i,
{
    if !pair_at(ts, i, j) {
        let k = choose|k: int|
            i < k < j - 1 && pair_at(ts, i, k) && #[trigger] ts[k] == TokenType::COMMA
                && members_at(ts, k + 1, j);
        lemma_members_start(ts, k + 1, j);
    }
}

/// The tokens that the checker takes up for a value form a value, and the
/// token behind them was fetched.
pub proof fn lemma_value_sound(base: Stream, i: nat)
    requires
        value_outcome(base.skip(i)) is Ok,
    ensures
        ({
            let a = i as int;
            let n = (value_outcome(base.skip(i))->Ok_0) as int;
            &&& n > 0
            &&& value_at(base.kinds(), a, a + n)
            &&& fetches(base, a + n)
        }),
    decreases base.skip(i).tokens.len(), 2int,
{
    let st = base.skip(i);
    lemma_at(base, i);
    if st.kind() == TokenType::OPBR {
        lemma_object_sound(base, i);
    } else if st.kind() == TokenType::OPSQ {
        lemma_array_sound(base, i);
    }
}

/// The tokens that the checker takes up for an array form an array, and the
/// token behind them was fetched.
pub proof fn lemma_array_sound(base: Stream, i: nat)
    requires
        array_outcome(base.skip(i)) is Ok,
    ensures
        ({
            let a = i as int;
            let n = (array_outcome(base.skip(i))->Ok_0) as int;
            &&& n >= 2
            &&& array_at(base.kinds(), a, a + n)
            &&& fetches(base, a + n)
        }),
    decreases base.skip(i).tokens.len(), 1int,
{
    let st = base.skip(i);
    let inner = st.skip(1);
    lemma_at(base, i);
    lemma_skip(base, i, 1);
    lemma_at(base, i + 1);
    if inner.kind() != TokenType::CLSQ {
        lemma_elements_sound(base, i + 1);
    }
}

/// The tokens that the checker takes up for the elements of an array form
/// values with commas between them, and a closing bracket. The token behind
/// that was fetched.
pub proof fn lemma_elements_sound(base: Stream, i: nat)
    requires
        elements_outcome(base.skip(i)) is Ok,
    ensures
        ({
            let a = i as int;
            let n = (elements_outcome(base.skip(i))->Ok_0) as int;
            &&& n >= 2
            &&& a + n <= base.tokens.len()
            &&& elements_at(base.kinds(), a, a + n - 1)
            &&& base.kinds()[a + n - 1] == TokenType::CLSQ
            &&& fetches(base, a + n)
        }),
    decreases base.skip(i).tokens.len(), 3int,
{
    let st = base.skip(i);
    lemma_at(base, i);
    lemma_value_sound(base, i);
    let n = value_outcome(st)->Ok_0;
    lemma_value_starts(base.kinds(), i as int, (i + n) as int);
    let after = st.skip(n);
    lemma_skip(base, i, n);
    lemma_at(base, i + n);
    if after.kind() == TokenType::COMMA {
        lemma_skip(base, i, n + 1);
        lemma_at(base, i + n + 1);
        lemma_elements_sound(base, i + n + 1);
        let m = elements_outcome(st.skip(n + 1))->Ok_0;
        assert(value_at(base.kinds(), i as int, (i + n) as int) && elements_at(
            base.kinds(),
            (i + n + 1) as int,
            (i + n + m) as int,
        ));
    }
}

/// The tokens that the checker takes up for a pair form a pair, and the
/// token behind them was fetched.
pub proof fn lemma_pair_sound(base: Stream, i: nat)
    requires
        pair_outcome(base.skip(i)) is Ok,
    ensures
        ({
            let a = i as int;
            let n = (pair_outcome(base.skip(i))->Ok_0) as int;
            &&& n >= 3
            &&& pair_at(base.kinds(), a, a + n)
            &&& fetches(base, a + n)
        }),
    decreases base.skip(i).tokens.len(), 3int,
{
    let st = base.skip(i);
    lemma_at(base, i);
    lemma_skip(base, i, 1);
    lemma_at(base, i + 1);
    lemma_skip(base, i, 2);
    lemma_at(base, i + 2);
    lemma_value_sound(base, i + 2);
    lemma_value_starts(
        base.kinds(),
        (i + 2) as int,
        (i + 2 + value_outcome(st.skip(2))->Ok_0) as int,
    );
}

/// The tokens that the checker takes up for an object form an object, and
/// the token behind them was fetched.
pub proof fn lemma_object_sound(base: Stream, i: nat)
    requires
        object_outcome(base.skip(i)) is Ok,
    ensures
        ({
            let a = i as int;
            let n = (object_outcome(base.skip(i))->Ok_0) as int;
            &&& n >= 2
            &&& object_at(base.kinds(), a, a + n)
            &&& fetches(base, a + n)
        }),
    decreases base.skip(i).tokens.len(), 1int,
{
    let st = base.skip(i);
    let inner = st.skip(1);
    lemma_at(base, i);
    lemma_skip(base, i, 1);
    lemma_at(base, i + 1);
    if inner.kind() != TokenType::CLBR {
        lemma_members_sound(base, i + 1);
    }
}

/// The tokens that the checker takes up for the pairs of an object form
/// pairs with commas between them, and a closing brace. The token behind
/// that was fetched.
pub proof fn lemma_members_sound(base: Stream, i: nat)
    requires
        members_outcome(base.skip(i)) is Ok,
    ensures
        ({
            let a = i as int;
            let n = (members_outcome(base.skip(i))->Ok_0) as int;
            &&& n >= 2
            &&& a + n <= base.tokens.len()
            &&& members_at(base.kinds(), a, a + n - 1)
            &&& base.kinds()[a + n - 1] == TokenType::CLBR
            &&& fetches(base, a + n)
        }),
    decreases base.skip(i).tokens.len(), 4int,
{
    let st = base.skip(i);
    lemma_at(base, i);
    lemma_pair_sound(base, i);
    let n = pair_outcome(st)->Ok_0;
    let after = st.skip(n);
    lemma_skip(base, i, n);
    lemma_at(base, i + n);
    if after.kind() == TokenType::COMMA {
        lemma_skip(base, i, n + 1);
        lemma_at(base, i + n + 1);
        lemma_members_sound(base, i + n + 1);
        let m = members_outcome(st.skip(n + 1))->Ok_0;
        assert(pair_at(base.kinds(), i as int, (i + n) as int) && members_at(
            base.kinds(),
            (i + n + 1) as int,
            (i + n + m) as int,
        ));
    }
}

/// The checker takes up a value wherever one stands whose tokens it can
/// fetch, and takes up all of it.
pub proof fn lemma_value_complete(base: Stream, i: nat, j: int)
    requires
        value_at(base.kinds(), i as int, j),
        fetches(base, j),
    ensures
        value_outcome(base.skip(i)) == Ok::<nat, Fault>((j - i) as nat),
    decreases j - i, 2int,
{
    lemma_at(base, i);
    if array_at(base.kinds(), i as int, j) {
        lemma_array_complete(base, i, j);
    } else if object_at(base.kinds(), i as int, j) {
        lemma_object_complete(base, i, j);
    }
}

/// The checker takes up an array wherever one stands whose tokens it can
/// fetch, and takes up all of it.
pub proof fn lemma_array_complete(base: Stream, i: nat, j: int)
    requires
        array_at(base.kinds(), i as int, j),
        fetches(base, j),
    ensures
        array_outcome(base.skip(i)) == Ok::<nat, Fault>((j - i) as nat),
    decreases j - i, 1int,
{
    lemma_at(base, i);
    lemma_skip(base, i, 1);
    lemma_at(base, i + 1);
    if j != i + 2 {
        lemma_elements_start(base.kinds(), (i + 1) as int, j - 1);
        lemma_elements_complete(base, i + 1, j - 1);
    }
}

/// The checker takes up the elements of an array and the closing bracket
/// behind them wherever they stand, and takes up all of them.
pub proof fn lemma_elements_complete(base: Stream, i: nat, j: int)
    requires
        elements_at(base.kinds(), i as int, j),
        j < base.tokens.len(),
        base.kinds()[j] == TokenType::CLSQ,
        fetches(base, j + 1),
    ensures
        elements_outcome(base.skip(i)) == Ok::<nat, Fault>((j - i + 1) as nat),
    decreases j - i, 3int,
{
    let ts = base.kinds();
    lemma_at(base, i);
    lemma_elements_start(ts, i as int, j);
    if value_at(ts, i as int, j) {
        lemma_value_complete(base, i, j);
        lemma_skip(base, i, (j - i) as nat);
        lemma_at(base, j as nat);
    } else {
        let k = choose|k: int|
            i < k < j - 1 && value_at(ts, i as int, k) && #[trigger] ts[k] == TokenType::COMMA
                && elements_at(ts, k + 1, j);
        lemma_value_complete(base, i, k);
        lemma_skip(base, i, (k - i) as nat);
        lemma_at(base, k as nat);
        lemma_skip(base, i, (k - i + 1) as nat);
        lemma_at(base, (k + 1) as nat);
        lemma_elements_start(ts, k + 1, j);
        lemma_elements_complete(base, (k + 1) as nat, j);
    }
}

/// The checker takes up a pair wherever one stands whose tokens it can
/// fetch, and takes up all of it.
pub proof fn lemma_pair_complete(base: Stream, i: nat, j: int)
    requires
        pair_at(base.kinds(), i as int, j),
        fetches(base, j),
    ensures
        pair_outcome(base.skip(i)) == Ok::<nat, Fault>((j - i) as nat),
    decreases j - i, 3int,
{
    lemma_at(base, i);
    lemma_skip(base, i, 1);
    lemma_at(base, i + 1);
    lemma_skip(base, i, 2);
    lemma_at(base, i + 2);
    lemma_value_complete(base, i + 2, j);
}

/// The checker takes up an object wherever one stands whose tokens it can
/// fetch, and takes up all of it.
pub proof fn lemma_object_complete(base: Stream, i: nat, j: int)
    requires
        object_at(base.kinds(), i as int, j),
        fetches(base, j),
    ensures
        object_outcome(base.skip(i)) == Ok::<nat, Fault>((j - i) as nat),
    decreases j - i, 1int,
{
    lemma_at(base, i);
    lemma_skip(base, i, 1);
    lemma_at(base, i + 1);
    if j != i + 2 {
        lemma_members_start(base.kinds(), (i + 1) as int, j - 1);
        lemma_members_complete(base, i + 1, j - 1);
    }
}

/// The checker takes up the pairs of an object and the closing brace behind
/// them wherever they stand, and takes up all of them.
pub proof fn lemma_members_complete(base: Stream, i: nat, j: int)
    requires
        members_at(base.kinds(), i as int, j),
        j < base.tokens.len(),
        base.kinds()[j] == TokenType::CLBR,
        fetches(base, j + 1),
    ensures
        members_outcome(base.skip(i)) == Ok::<nat, Fault>((j - i + 1) as nat),
    decreases j - i, 4int,
{
    let ts = base.kinds();
    lemma_at(base, i);
    lemma_members_start(ts, i as int, j);
    if pair_at(ts, i as int, j) {
        lemma_pair_complete(base, i, j);
        lemma_skip(base, i, (j - i) as nat);
        lemma_at(base, j as nat);
    } else {
        let k = choose|k: int|
            i < k < j - 1 && pair_at(ts, i as int, k) && #[trigger] ts[k] == TokenType::COMMA
                && members_at(ts, k + 1, j);
        lemma_pair_complete(base, i, k);
        lemma_skip(base, i, (k - i) as nat);
        lemma_at(base, k as nat);
        lemma_skip(base, i, (k - i + 1) as nat);
        lemma_at(base, (k + 1) as nat);
        lemma_members_start(ts, k + 1, j);
        lemma_members_complete(base, (k + 1) as nat, j);
    }
}

/// The checker accepts exactly the documents of the grammar.
///
/// Of a stream without `EOF` among its tokens, the rule `document` succeeds
/// if and only if the stream ends at the end of the text, without a fault,
/// and the types of all its tokens form a document. No token is left over on
/// success, and no document is turned away.
pub proof fn lemma_document_outcome(st: Stream)
    requires
        forall|i: int| 0 <= i < st.tokens.len() ==> (#[trigger] st.tokens[i]).kind != TokenType::EOF,
    ensures
        document_outcome(st) is Ok <==> st.ending is End && is_document(st.kinds()),
{
    let ts = st.kinds();
    let len = st.tokens.len();
    lemma_skip(st, 0, 0);
    lemma_at(st, 0);
    if document_outcome(st) is Ok {
        lemma_value_sound(st, 0);
        let n = value_outcome(st)->Ok_0;
        lemma_value_starts(ts, 0, n as int);
        lemma_at(st, n);
        if n < len {
            assert(st.skip(n).kind() == st.tokens[n as int].kind);
        }
    }
    if st.ending is End && is_document(ts) {
        lemma_value_complete(st, 0, len as int);
        lemma_at(st, len);
    }
}

/// A text is accepted exactly when it is a document.
///
/// The verdict on a text is success if and only if the tokenizer reaches
/// the end of the text without a fault and the types of the tokens that it
/// finds on the way, all of them, form a document of the grammar.
pub proof fn lemma_verdict(s: Seq<char>)
    requires
        s.len() <= usize::MAX,
    ensures
        verdict(s) is Ok <==> stream_from(s, 0).ending is End && is_document(
            stream_from(s, 0).kinds(),
        ),
{
    lemma_stream_within(s, 0);
    lemma_document_outcome(stream_from(s, 0));
}

/// What lies behind the first `n` tokens of a stream of a text is a stream
/// of that text too, and starts inside the text or at its end.
pub proof fn lemma_skip_within(st: Stream, s: Seq<char>, pos: int, n: nat)
    requires
        st.within(s, pos),
        0 <= pos <= s.len(),
    ensures
        st.skip(n).within(s, pos),
        pos <= st.skip(n).start() <= s.len(),
{
    let rest = st.skip(n);
    assert forall|i: int| 0 <= i < rest.tokens.len() implies {
        &&& (#[trigger] rest.tokens[i]).kind != TokenType::EOF
        &&& rest.tokens[i].kind != TokenType::NONE
        &&& pos <= rest.tokens[i].start < s.len()
    } by {
        assert(rest.tokens[i] == st.tokens[i + n]);
    }
    if rest.tokens.len() > 0 {
        assert(pos <= rest.tokens[0].start < s.len());
    }
}

/// A fault in a value of a text lies inside the text or at its end.
pub proof fn lemma_value_fault_within(st: Stream, s: Seq<char>, pos: int)
    requires
        st.within(s, pos),
        0 <= pos <= s.len() <= usize::MAX,
    ensures
        value_outcome(st) matches Err(f) ==> pos <= f.at() <= s.len(),
    decreases st.tokens.len(), 2int,
{
    lemma_skip(st, 0, 0);
    lemma_skip_within(st, s, pos, 0);
    if st.kind() == TokenType::OPBR {
        lemma_object_fault_within(st, s, pos);
    } else if st.kind() == TokenType::OPSQ {
        lemma_array_fault_within(st, s, pos);
    }
}

/// A fault in an array of a text lies inside the text or at its end.
pub proof fn lemma_array_fault_within(st: Stream, s: Seq<char>, pos: int)
    requires
        st.within(s, pos),
        0 <= pos <= s.len() <= usize::MAX,
    ensures
        array_outcome(st) matches Err(f) ==> pos <= f.at() <= s.len(),
    decreases st.tokens.len(), 1int,
{
    lemma_skip(st, 0, 0);
    lemma_skip_within(st, s, pos, 0);
    lemma_skip_within(st, s, pos, 1);
    if st.kind() == TokenType::OPSQ && st.skip(1).kind() != TokenType::CLSQ {
        lemma_elements_fault_within(st.skip(1), s, pos);
    }
}

/// A fault in the elements of an array of a text lies inside the text or at
/// its end.
pub proof fn lemma_elements_fault_within(st: Stream, s: Seq<char>, pos: int)
    requires
        st.within(s, pos),
        0 <= pos <= s.len() <= usize::MAX,
    ensures
        elements_outcome(st) matches Err(f) ==> pos <= f.at() <= s.len(),
    decreases st.tokens.len(), 3int,
{
    lemma_value_fault_within(st, s, pos);
    if let Ok(n) = value_outcome(st) {
        lemma_skip_within(st, s, pos, n);
        lemma_skip_within(st, s, pos, n + 1);
        if st.skip(n).kind() == TokenType::COMMA {
            lemma_elements_fault_within(st.skip(n + 1), s, pos);
        }
    }
}

/// A fault in a pair of a text lies inside the text or at its end.
pub proof fn lemma_pair_fault_within(st: Stream, s: Seq<char>, pos: int)
    requires
        st.within(s, pos),
        0 <= pos <= s.len() <= usize::MAX,
    ensures
        pair_outcome(st) matches Err(f) ==> pos <= f.at() <= s.len(),
    decreases st.tokens.len(), 3int,
{
    lemma_skip(st, 0, 0);
    lemma_skip_within(st, s, pos, 0);
    lemma_skip_within(st, s, pos, 1);
    lemma_skip_within(st, s, pos, 2);
    if st.kind() == TokenType::STRING {
        lemma_value_fault_within(st.skip(2), s, pos);
    }
}

/// A fault in an object of a text lies inside the text or at its end.
pub proof fn lemma_object_fault_within(st: Stream, s: Seq<char>, pos: int)
    requires
        st.within(s, pos),
        0 <= pos <= s.len() <= usize::MAX,
    ensures
        object_outcome(st) matches Err(f) ==> pos <= f.at() <= s.len(),
    decreases st.tokens.len(), 1int,
{
    lemma_skip(st, 0, 0);
    lemma_skip_within(st, s, pos, 0);
    lemma_skip_within(st, s, pos, 1);
    if st.kind() == TokenType::OPBR && st.skip(1).kind() != TokenType::CLBR {
        lemma_members_fault_within(st.skip(1), s, pos);
    }
}

/// A fault in the pairs of an object of a text lies inside the text or at
/// its end.
pub proof fn lemma_members_fault_within(st: Stream, s: Seq<char>, pos: int)
    requires
        st.within(s, pos),
        0 <= pos <= s.len() <= usize::MAX,
    ensures
        members_outcome(st) matches Err(f) ==> pos <= f.at() <= s.len(),
    decreases st.tokens.len(), 4int,
{
    lemma_pair_fault_within(st, s, pos);
    if let Ok(n) = pair_outcome(st) {
        lemma_skip_within(st, s, pos, n);
        lemma_skip_within(st, s, pos, n + 1);
        if st.skip(n).kind() == TokenType::COMMA {
            lemma_members_fault_within(st.skip(n + 1), s, pos);
        }
    }
}

/// The fault in a text that is no document lies inside the text or at its
/// end.
pub proof fn lemma_fault_within(s: Seq<char>)
    requires
        s.len() <= usize::MAX,
    ensures
        verdict(s) matches Err(f) ==> 0 <= f.at() <= s.len(),
{
    let st = stream_from(s, 0);
    lemma_stream_within(s, 0);
    lemma_skip(st, 0, 0);
    lemma_skip_within(st, s, 0, 0);
    lemma_value_fault_within(st, s, 0);
    if let Ok(n) = value_outcome(st) {
        lemma_skip_within(st, s, 0, n);
    }
}

/// The verdict depends on nothing but the code points of the text: two
/// texts that hold the same code points at the same positions get the same
/// verdict, with the same fault at the same position.
pub proof fn lemma_verdict_is_determined(a: Seq<char>, b: Seq<char>)
    requires
        a.len() == b.len(),
        forall|i: int| 0 <= i < a.len() ==> a[i] == b[i],
    ensures
        verdict(a) == verdict(b),
{
    assert(a =~= b);
}

} // verus!
