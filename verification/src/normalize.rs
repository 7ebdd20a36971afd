//! Normalization of token-stream spacing in type and function names.
//!
//! Token streams render with a space between every token; this module drops
//! the spaces that typical Rust style omits, e.g. `Lex < 'buf >` becomes
//! `Lex<'buf>`.

use vstd::prelude::*;

use crate::text::{chars_to_string, str_to_chars};

verus! {

/// Characters after which a space is dropped.
pub open spec fn is_drop_after(c: char) -> bool {
    c == ':' || c == '&' || c == '<' || c == '>'
}

/// Characters before which a space is dropped.
pub open spec fn is_drop_before(c: char) -> bool {
    c == ':' || c == ',' || c == '<' || c == '>'
}

/// Does `r` end with the arrow token `->`?
pub open spec fn ends_arrow(r: Seq<char>) -> bool {
    r.len() >= 2 && r[r.len() - 2] == '-' && r[r.len() - 1] == '>'
}

/// One step of normalization: the effect of appending the next input
/// character `c` to the output built so far. A space is dropped after any
/// drop-after character, except when that character closes the arrow `->`,
/// whose following space stays.
pub open spec fn norm_step(r: Seq<char>, c: char) -> Seq<char> {
    if c == ' ' {
        if ends_arrow(r) {
            r.push(c)
        } else if r.len() > 0 && is_drop_after(r.last()) {
            r
        } else {
            r.push(c)
        }
    } else if is_drop_before(c) && r.len() > 0 && r.last() == ' ' {
        r.drop_last().push(c)
    } else {
        r.push(c)
    }
}

/// Normalization of `s` appended onto an already-built output `r`.
pub open spec fn norm_onto(r: Seq<char>, s: Seq<char>) -> Seq<char>
    decreases s.len(),
{
    if s.len() == 0 {
        r
    } else {
        norm_onto(norm_step(r, s[0]), s.skip(1))
    }
}

/// The excess-space normalization of `s`.
pub open spec fn spec_normalize(s: Seq<char>) -> Seq<char> {
    norm_onto(Seq::<char>::empty(), s)
}

/// Drops excess spaces from a token-stream rendering: spaces following any
/// of `: & < >` (except after the arrow `->`), and spaces preceding any of
/// `: , < >`.
pub fn remove_excess_spaces(s: &str) -> (r: String)
    ensures
        r@ == spec_normalize(s@),
{
    let v = str_to_chars(s);
    let n = v.len();
    let mut r: Vec<char> = Vec::new();
    let mut i: usize = 0;
    proof {
        assert(v@.skip(0) =~= v@);
    }
    while i < n
        invariant
            n == v@.len(),
            i <= n,
            v@ == s@,
            spec_normalize(s@) == norm_onto(r@, v@.skip(i as int)),
        decreases n - i,
    {
        let c = v[i];
        proof {
            assert(v@.skip(i as int)[0] == c);
            assert(v@.skip(i as int).skip(1) =~= v@.skip(i as int + 1));
        }
        let rlen = r.len();
        if c == ' ' {
            let arrow = rlen >= 2 && r[rlen - 2] == '-' && r[rlen - 1] == '>';
            if arrow {
                r.push(c);
            } else if rlen > 0 && (r[rlen - 1] == ':' || r[rlen - 1] == '&' || r[rlen - 1] == '<'
                || r[rlen - 1] == '>') {
            } else {
                r.push(c);
            }
        } else if (c == ':' || c == ',' || c == '<' || c == '>') && rlen > 0 && r[rlen - 1] == ' ' {
            let ghost r0 = r@;
            let _ = r.pop();
            r.push(c);
            proof {
                assert(r@ =~= r0.drop_last().push(c));
            }
        } else {
            r.push(c);
        }
        i += 1;
    }
    proof {
        assert(v@.skip(n as int) =~= Seq::<char>::empty());
    }
    chars_to_string(&r)
}

/// In `t`, no space follows a drop-after character, except after an arrow.
pub open spec fn no_space_after_specials(t: Seq<char>) -> bool {
    forall|i: int|
        0 <= i < t.len() && #[trigger] t[i] == ' ' ==> (i == 0 || !is_drop_after(t[i - 1])) || (i
            >= 2 && t[i - 2] == '-' && t[i - 1] == '>')
}

/// In `t`, no space precedes a drop-before character.
pub open spec fn no_space_before_specials(t: Seq<char>) -> bool {
    forall|i: int| 0 <= i < t.len() && is_drop_before(#[trigger] t[i]) ==> (i == 0 || t[i - 1] != ' ')
}

proof fn lemma_step_preserves_no_space_after(r: Seq<char>, c: char)
    requires
        no_space_after_specials(r),
    ensures
        no_space_after_specials(norm_step(r, c)),
{
    let t = norm_step(r, c);
    if c == ' ' && (ends_arrow(r) || !(r.len() > 0 && is_drop_after(r.last()))) {
        assert forall|i: int|
            0 <= i < t.len() && #[trigger] t[i] == ' ' implies ((i == 0 || !is_drop_after(
            t[i - 1],
        )) || (i >= 2 && t[i - 2] == '-' && t[i - 1] == '>')) by {
            if i < r.len() {
                assert(t[i] == r[i]);
            }
        }
    } else if c != ' ' && is_drop_before(c) && r.len() > 0 && r.last() == ' ' {
        assert forall|i: int|
            0 <= i < t.len() && #[trigger] t[i] == ' ' implies ((i == 0 || !is_drop_after(
            t[i - 1],
        )) || (i >= 2 && t[i - 2] == '-' && t[i - 1] == '>')) by {
            assert(t[i] == r[i]);
        }
    } else if c != ' ' {
        assert forall|i: int|
            0 <= i < t.len() && #[trigger] t[i] == ' ' implies ((i == 0 || !is_drop_after(
            t[i - 1],
        )) || (i >= 2 && t[i - 2] == '-' && t[i - 1] == '>')) by {
            assert(i < r.len() && t[i] == r[i]);
            if i >= 1 {
                assert(t[i - 1] == r[i - 1]);
            }
            if i >= 2 {
                assert(t[i - 2] == r[i - 2]);
            }
        }
    }
}

proof fn lemma_onto_preserves_no_space_after(r: Seq<char>, s: Seq<char>)
    requires
        no_space_after_specials(r),
    ensures
        no_space_after_specials(norm_onto(r, s)),
    decreases s.len(),
{
    if s.len() > 0 {
        lemma_step_preserves_no_space_after(r, s[0]);
        lemma_onto_preserves_no_space_after(norm_step(r, s[0]), s.skip(1));
    }
}

proof fn lemma_norm_fixed_point(t: Seq<char>, i: int)
    requires
        no_space_after_specials(t),
        no_space_before_specials(t),
        0 <= i <= t.len(),
    ensures
        norm_onto(t.take(i), t.skip(i)) == t,
    decreases t.len() - i,
{
    if i == t.len() {
        assert(t.take(i) =~= t);
    } else {
        let c = t[i];
        let r = t.take(i);
        assert(t.skip(i)[0] == c);
        if c == ' ' {
            assert(ends_arrow(r) || !(r.len() > 0 && is_drop_after(r.last())));
        } else if is_drop_before(c) {
            assert(!(r.len() > 0 && r.last() == ' '));
        }
        assert(norm_step(r, c) =~= t.take(i + 1));
        assert(t.skip(i).skip(1) =~= t.skip(i + 1));
        lemma_norm_fixed_point(t, i + 1);
    }
}

/// Idempotence of excess-space normalization: normalizing a second time
/// changes nothing, provided the first pass left no space directly before one
/// of `: , < >`. (A run of two or more spaces directly before such a
/// character shrinks by one space per pass, so such inputs are excluded.)
pub proof fn lemma_normalize_idempotent(s: Seq<char>)
    requires
        no_space_before_specials(spec_normalize(s)),
    ensures
        spec_normalize(spec_normalize(s)) == spec_normalize(s),
{
    let t = spec_normalize(s);
    lemma_onto_preserves_no_space_after(Seq::<char>::empty(), s);
    assert(t.take(0) =~= Seq::<char>::empty());
    assert(t.skip(0) =~= t);
    lemma_norm_fixed_point(t, 0);
}

} // verus!
