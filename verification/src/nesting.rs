//! Well-nested flat token sequences: every closing marker closes the
//! innermost open group, with the same delimiter, and every group closes.
//! The macros keep their outputs well nested whenever the token sequences
//! they copy from their input are.
use vstd::prelude::*;
use crate::tokens::{group, Delimiter, Tok};

verus! {

/// The stack of open delimiters after the tokens from `k` on, starting from
/// `stack`; `None` when a closing marker does not match.
pub open spec fn nest_from(s: Seq<Tok>, k: int, stack: Seq<Delimiter>) -> Option<Seq<Delimiter>>
    decreases s.len() - k,
{
    if k < 0 || k >= s.len() {
        Some(stack)
    } else {
        match s[k] {
            Tok::Open { delim, .. } => nest_from(s, k + 1, stack.push(delim)),
            Tok::Close { delim } => if stack.len() > 0 && stack.last() == delim {
                nest_from(s, k + 1, stack.drop_last())
            } else {
                None
            },
            _ => nest_from(s, k + 1, stack),
        }
    }
}

/// The tokens are well nested.
pub open spec fn balanced(s: Seq<Tok>) -> bool {
    nest_from(s, 0, seq![]) == Some(Seq::<Delimiter>::empty())
}

/// A token that neither opens nor closes a group.
pub open spec fn is_atom(t: Tok) -> bool {
    !(t is Open) && !(t is Close)
}

proof fn lemma_nest_shift(a: Seq<Tok>, b: Seq<Tok>, j: int, st: Seq<Delimiter>)
    requires
        0 <= j <= b.len(),
    ensures
        nest_from(a + b, a.len() + j, st) == nest_from(b, j, st),
    decreases b.len() - j,
{
    if j < b.len() {
        assert((a + b)[a.len() + j] == b[j]);
        match b[j] {
            Tok::Open { delim, .. } => lemma_nest_shift(a, b, j + 1, st.push(delim)),
            Tok::Close { delim } => if st.len() > 0 && st.last() == delim {
                lemma_nest_shift(a, b, j + 1, st.drop_last());
            },
            _ => lemma_nest_shift(a, b, j + 1, st),
        }
    }
}

proof fn lemma_nest_append_from(a: Seq<Tok>, b: Seq<Tok>, k: int, st: Seq<Delimiter>)
    requires
        0 <= k <= a.len(),
    ensures
        nest_from(a + b, k, st) == match nest_from(a, k, st) {
            Some(st2) => nest_from(b, 0, st2),
            None => None,
        },
    decreases a.len() - k,
{
    if k == a.len() {
        lemma_nest_shift(a, b, 0, st);
    } else {
        assert((a + b)[k] == a[k]);
        match a[k] {
            Tok::Open { delim, .. } => lemma_nest_append_from(a, b, k + 1, st.push(delim)),
            Tok::Close { delim } => if st.len() > 0 && st.last() == delim {
                lemma_nest_append_from(a, b, k + 1, st.drop_last());
            },
            _ => lemma_nest_append_from(a, b, k + 1, st),
        }
    }
}

/// Reading `a + b` is reading `a`, then `b`.
pub proof fn lemma_nest_append(a: Seq<Tok>, b: Seq<Tok>, st: Seq<Delimiter>)
    ensures
        nest_from(a + b, 0, st) == match nest_from(a, 0, st) {
            Some(st2) => nest_from(b, 0, st2),
            None => None,
        },
{
    lemma_nest_append_from(a, b, 0, st);
}

proof fn lemma_nest_frame(s: Seq<Tok>, k: int, base: Seq<Delimiter>, st: Seq<Delimiter>)
    requires
        0 <= k,
        nest_from(s, k, st) is Some,
    ensures
        nest_from(s, k, base + st) == Some(base + nest_from(s, k, st)->Some_0),
    decreases s.len() - k,
{
    if k < s.len() {
        match s[k] {
            Tok::Open { delim, .. } => {
                assert((base + st).push(delim) =~= base + st.push(delim));
                lemma_nest_frame(s, k + 1, base, st.push(delim));
            },
            Tok::Close { delim } => {
                assert((base + st).last() == st.last());
                assert((base + st).drop_last() =~= base + st.drop_last());
                lemma_nest_frame(s, k + 1, base, st.drop_last());
            },
            _ => lemma_nest_frame(s, k + 1, base, st),
        }
    }
}

/// Well-nested tokens leave any stack of open groups as it was.
pub proof fn lemma_balanced_keeps(s: Seq<Tok>, st: Seq<Delimiter>)
    requires
        balanced(s),
    ensures
        nest_from(s, 0, st) == Some(st),
{
    lemma_nest_frame(s, 0, st, seq![]);
    assert(st + Seq::<Delimiter>::empty() =~= st);
}

/// Two well-nested sequences one after the other are well nested.
pub broadcast proof fn lemma_balanced_add(a: Seq<Tok>, b: Seq<Tok>)
    requires
        balanced(a),
        balanced(b),
    ensures
        #[trigger] balanced(a + b),
{
    lemma_nest_append(a, b, seq![]);
    lemma_balanced_keeps(a, seq![]);
}

/// The empty sequence is well nested.
pub broadcast proof fn lemma_balanced_empty()
    ensures
        #[trigger] balanced(Seq::<Tok>::empty()),
{
}

/// A token that neither opens nor closes, after well-nested tokens, keeps
/// them well nested.
pub broadcast proof fn lemma_balanced_push(s: Seq<Tok>, t: Tok)
    requires
        balanced(s),
        is_atom(t),
    ensures
        #[trigger] balanced(s.push(t)),
{
    assert(s.push(t) =~= s + seq![t]);
    lemma_nest_append(s, seq![t], seq![]);
    assert(nest_from(seq![t], 1, seq![]) == Some(Seq::<Delimiter>::empty()));
}

/// A group around well-nested tokens is well nested.
pub broadcast proof fn lemma_balanced_group(d: Delimiter, s: Seq<Tok>)
    requires
        balanced(s),
    ensures
        #[trigger] balanced(group(d, s)),
{
    let o = seq![crate::tokens::open(d)];
    let c = seq![crate::tokens::close(d)];
    lemma_nest_append(o + s, c, seq![]);
    lemma_nest_append(o, s, seq![]);
    lemma_balanced_keeps(s, seq![d]);
    assert(Seq::<Delimiter>::empty().push(d) =~= seq![d]);
    assert(nest_from(o, 1, seq![d]) == Some(seq![d]));
    assert(nest_from(o, 0, seq![]) == Some(seq![d]));
    assert(seq![d].drop_last() =~= Seq::<Delimiter>::empty());
    assert(nest_from(c, 1, Seq::<Delimiter>::empty()) == Some(Seq::<Delimiter>::empty()));
    assert(nest_from(c, 0, seq![d]) == Some(Seq::<Delimiter>::empty()));
}

proof fn lemma_atoms_from(s: Seq<Tok>, k: int)
    requires
        0 <= k,
        forall|i: int| 0 <= i < s.len() ==> is_atom(#[trigger] s[i]),
    ensures
        nest_from(s, k, seq![]) == Some(Seq::<Delimiter>::empty()),
    decreases s.len() - k,
{
    if k < s.len() {
        assert(is_atom(s[k]));
        lemma_atoms_from(s, k + 1);
    }
}

/// Tokens none of which opens or closes a group are well nested.
pub broadcast proof fn lemma_atoms_balanced(s: Seq<Tok>)
    requires
        forall|i: int| 0 <= i < s.len() ==> is_atom(#[trigger] s[i]),
    ensures
        #[trigger] balanced(s),
{
    lemma_atoms_from(s, 0);
}

pub broadcast group group_balanced {
    lemma_atoms_balanced,
    lemma_balanced_add,
    lemma_balanced_empty,
    lemma_balanced_push,
    lemma_balanced_group,
}

} // verus!

verus! {

/// Well-nested parts joined by `,` are well nested.
pub proof fn lemma_join_commas_balanced(parts: Seq<Seq<Tok>>)
    requires
        forall|i: int| 0 <= i < parts.len() ==> balanced(#[trigger] parts[i]),
    ensures
        balanced(crate::tokens::join_commas(parts)),
    decreases parts.len(),
{
    broadcast use group_balanced;

    if parts.len() > 1 {
        lemma_join_commas_balanced(parts.drop_last());
        assert(balanced(parts.last()));
    } else if parts.len() == 1 {
        assert(balanced(parts[0]));
    }
}

/// Well-nested parts one after the other are well nested.
pub proof fn lemma_concat_balanced(parts: Seq<Seq<Tok>>)
    requires
        forall|i: int| 0 <= i < parts.len() ==> balanced(#[trigger] parts[i]),
    ensures
        balanced(crate::tokens::concat(parts)),
    decreases parts.len(),
{
    broadcast use group_balanced;

    if parts.len() > 0 {
        lemma_concat_balanced(parts.drop_last());
        assert(balanced(parts.last()));
    }
}

} // verus!
