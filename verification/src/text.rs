//! Text utilities shared across the crate: conversions between `String` and
//! `Vec<char>`, splitting and joining on a separator, decimal rendering of
//! integers, and a lexicographic order on character sequences.

use vstd::prelude::*;

verus! {

/// Relies on `str::chars` (std): iterating a `&str` yields exactly the
/// characters of the string, in order; collecting them gives that sequence.
#[verifier::external_body]
pub fn str_to_chars(s: &str) -> (r: Vec<char>)
    ensures
        r@ == s@,
{
    s.chars().collect()
}

/// Relies on `String::from_iter` (std): building a `String` from an iterator
/// of characters produces the string holding exactly those characters in order.
#[verifier::external_body]
pub fn chars_to_string(v: &Vec<char>) -> (r: String)
    ensures
        r@ == v@,
{
    v.iter().collect()
}

/// Character-wise equality of two vectors; equivalent to string equality on
/// the corresponding views.
pub fn chars_eq(a: &Vec<char>, b: &Vec<char>) -> (r: bool)
    ensures
        r == (a@ == b@),
{
    if a.len() != b.len() {
        assert(a@ != b@);
        return false;
    }
    let n = a.len();
    let mut i: usize = 0;
    while i < n
        invariant
            n == a@.len() == b@.len(),
            i <= n,
            forall|j: int| 0 <= j < i ==> a@[j] == b@[j],
        decreases n - i,
    {
        if a[i] != b[i] {
            assert(a@ != b@);
            return false;
        }
        i += 1;
    }
    proof {
        assert(a@ =~= b@);
    }
    true
}

/// Equality of two string slices, decided character by character.
pub fn str_eq(a: &str, b: &str) -> (r: bool)
    ensures
        r == (a@ == b@),
{
    let va = str_to_chars(a);
    let vb = str_to_chars(b);
    chars_eq(&va, &vb)
}

/// Does `s` end with the given suffix?
pub open spec fn spec_ends_with(s: Seq<char>, suffix: Seq<char>) -> bool {
    s.len() >= suffix.len() && s.subrange(s.len() - suffix.len(), s.len() as int) == suffix
}

/// Does `s` start with the given prefix?
pub open spec fn spec_starts_with(s: Seq<char>, prefix: Seq<char>) -> bool {
    s.len() >= prefix.len() && s.subrange(0, prefix.len() as int) == prefix
}

pub fn chars_ends_with(s: &Vec<char>, suffix: &Vec<char>) -> (r: bool)
    ensures
        r == spec_ends_with(s@, suffix@),
{
    if s.len() < suffix.len() {
        return false;
    }
    let off = s.len() - suffix.len();
    let n = suffix.len();
    let slen = s.len();
    let mut i: usize = 0;
    while i < n
        invariant
            n == suffix@.len(),
            off == s@.len() - n,
            slen == s@.len(),
            off + n == slen,
            s@.len() >= n,
            i <= n,
            forall|j: int| 0 <= j < i ==> s@[off + j] == suffix@[j],
        decreases n - i,
    {
        if s[off + i] != suffix[i] {
            assert(s@.subrange(s@.len() - suffix@.len(), s@.len() as int)[i as int] != suffix@[i as int]);
            return false;
        }
        i += 1;
    }
    proof {
        assert(s@.subrange(s@.len() - suffix@.len(), s@.len() as int) =~= suffix@);
    }
    true
}

pub fn chars_starts_with(s: &Vec<char>, prefix: &Vec<char>) -> (r: bool)
    ensures
        r == spec_starts_with(s@, prefix@),
{
    if s.len() < prefix.len() {
        return false;
    }
    let n = prefix.len();
    let mut i: usize = 0;
    while i < n
        invariant
            n == prefix@.len(),
            s@.len() >= n,
            i <= n,
            forall|j: int| 0 <= j < i ==> s@[j] == prefix@[j],
        decreases n - i,
    {
        if s[i] != prefix[i] {
            assert(s@.subrange(0, prefix@.len() as int)[i as int] != prefix@[i as int]);
            return false;
        }
        i += 1;
    }
    proof {
        assert(s@.subrange(0, prefix@.len() as int) =~= prefix@);
    }
    true
}

/// Splitting a character sequence on a separator character. The result always
/// has at least one part; the parts never contain the separator.
pub open spec fn spec_split(s: Seq<char>, sep: char) -> Seq<Seq<char>>
    decreases s.len(),
{
    if s.len() == 0 {
        seq![Seq::<char>::empty()]
    } else if s[0] == sep {
        seq![Seq::<char>::empty()].add(spec_split(s.skip(1), sep))
    } else {
        let rest = spec_split(s.skip(1), sep);
        seq![seq![s[0]].add(rest[0])].add(rest.skip(1))
    }
}

pub proof fn lemma_split_nonempty(s: Seq<char>, sep: char)
    ensures
        spec_split(s, sep).len() >= 1,
    decreases s.len(),
{
    if s.len() == 0 {
    } else if s[0] == sep {
        lemma_split_nonempty(s.skip(1), sep);
    } else {
        lemma_split_nonempty(s.skip(1), sep);
    }
}

/// A sequence without the separator splits into exactly itself.
pub proof fn lemma_split_no_sep(s: Seq<char>, sep: char)
    requires
        forall|i: int| 0 <= i < s.len() ==> s[i] != sep,
    ensures
        spec_split(s, sep) =~= seq![s],
    decreases s.len(),
{
    if s.len() == 0 {
        assert(s =~= Seq::<char>::empty());
    } else {
        lemma_split_no_sep(s.skip(1), sep);
        assert(seq![s[0]].add(s.skip(1)) =~= s);
    }
}

/// Splitting distributes over a separator: the parts of `a + [sep] + b` are
/// the parts of `a` followed by the parts of `b`.
pub proof fn lemma_split_append(a: Seq<char>, b: Seq<char>, sep: char)
    ensures
        spec_split(a.add(seq![sep]).add(b), sep) =~= spec_split(a, sep).add(spec_split(b, sep)),
    decreases a.len(),
{
    let s = a.add(seq![sep]).add(b);
    if a.len() == 0 {
        assert(s =~= seq![sep].add(b));
        assert(s[0] == sep);
        assert(s.skip(1) =~= b);
    } else {
        lemma_split_append(a.skip(1), b, sep);
        assert(s[0] == a[0]);
        assert(s.skip(1) =~= a.skip(1).add(seq![sep]).add(b));
        if a[0] == sep {
            assert(spec_split(a, sep) =~= seq![Seq::<char>::empty()].add(spec_split(a.skip(1), sep)));
        } else {
            lemma_split_nonempty(a.skip(1), sep);
        }
    }
}

/// Joining parts with a separator sequence.
pub open spec fn spec_join(parts: Seq<Seq<char>>, sep: Seq<char>) -> Seq<char>
    decreases parts.len(),
{
    if parts.len() == 0 {
        Seq::<char>::empty()
    } else if parts.len() == 1 {
        parts[0]
    } else {
        parts[0].add(sep).add(spec_join(parts.skip(1), sep))
    }
}

/// Splitting a joined sequence on the separator ends with the last part,
/// provided that part does not itself contain the separator.
pub proof fn lemma_split_join_last(parts: Seq<Seq<char>>, last: Seq<char>, sep: char)
    requires
        forall|i: int| 0 <= i < last.len() ==> last[i] != sep,
    ensures
        spec_split(spec_join(parts.push(last), seq![sep]), sep).len() >= 1,
        spec_split(spec_join(parts.push(last), seq![sep]), sep).last() == last,
    decreases parts.len(),
{
    let whole = spec_join(parts.push(last), seq![sep]);
    lemma_split_nonempty(whole, sep);
    if parts.len() == 0 {
        assert(whole == last);
        lemma_split_no_sep(last, sep);
    } else {
        let rest = spec_join(parts.skip(1).push(last), seq![sep]);
        assert(parts.push(last).skip(1) =~= parts.skip(1).push(last));
        assert(whole =~= parts[0].add(seq![sep]).add(rest));
        lemma_split_append(parts[0], rest, sep);
        lemma_split_join_last(parts.skip(1), last, sep);
        lemma_split_nonempty(rest, sep);
        lemma_split_nonempty(parts[0], sep);
        assert(spec_split(whole, sep).last() == spec_split(rest, sep).last());
    }
}

/// Splits `s[from..]` on `sep`, mirroring `spec_split`.
pub fn split_chars_from(s: &Vec<char>, from: usize, sep: char) -> (r: Vec<Vec<char>>)
    requires
        from <= s@.len(),
    ensures
        r@.map_values(|p: Vec<char>| p@) =~= spec_split(s@.skip(from as int), sep),
    decreases s@.len() - from,
{
    if from == s.len() {
        let mut r: Vec<Vec<char>> = Vec::new();
        r.push(Vec::new());
        return r;
    }
    let c = s[from];
    let mut rest = split_chars_from(s, from + 1, sep);
    assert(s@.skip(from as int).skip(1) =~= s@.skip(from as int + 1));
    if c == sep {
        rest.insert(0, Vec::new());
        assert(rest@.map_values(|p: Vec<char>| p@) =~= seq![Seq::<char>::empty()].add(
            spec_split(s@.skip(from as int).skip(1), sep),
        ));
        rest
    } else {
        proof {
            lemma_split_nonempty(s@.skip(from as int + 1), sep);
        }
        let mut first = rest.remove(0);
        first.insert(0, c);
        let ghost firstv = first@;
        rest.insert(0, first);
        proof {
            let srest = spec_split(s@.skip(from as int).skip(1), sep);
            assert(s@.skip(from as int)[0] == c);
            assert(firstv =~= seq![c].add(srest[0]));
            assert(rest@.map_values(|p: Vec<char>| p@) =~= seq![seq![c].add(srest[0])].add(
                srest.skip(1),
            ));
        }
        rest
    }
}

/// Joins the parts from index `from` on with `sep`, mirroring `spec_join`.
pub fn join_parts_from(parts: &Vec<Vec<char>>, from: usize, sep: &Vec<char>) -> (r: Vec<char>)
    requires
        from <= parts@.len(),
    ensures
        r@ =~= spec_join(parts@.map_values(|p: Vec<char>| p@).skip(from as int), sep@),
    decreases parts@.len() - from,
{
    let ghost m = parts@.map_values(|p: Vec<char>| p@);
    if from == parts.len() {
        Vec::new()
    } else if from + 1 == parts.len() {
        let r = parts[from].clone();
        assert(m.skip(from as int) =~= seq![m[from as int]]);
        r
    } else {
        let mut r = parts[from].clone();
        let mut sepc = sep.clone();
        let mut tail = join_parts_from(parts, from + 1, sep);
        r.append(&mut sepc);
        r.append(&mut tail);
        assert(m.skip(from as int).skip(1) =~= m.skip(from as int + 1));
        assert(m.skip(from as int)[0] == m[from as int]);
        r
    }
}

/// The decimal rendering of a natural number, most significant digit first.
pub open spec fn spec_dec(n: nat) -> Seq<char>
    decreases n,
{
    if n < 10 {
        seq![spec_digit_char(n)]
    } else {
        spec_dec(n / 10).push(spec_digit_char(n % 10))
    }
}

pub open spec fn spec_digit_char(d: nat) -> char {
    ((48 + d) as u8) as char
}

/// Renders `n` in decimal, mirroring `spec_dec`.
pub fn dec_chars(n: u64) -> (r: Vec<char>)
    ensures
        r@ =~= spec_dec(n as nat),
    decreases n,
{
    let d: u64 = n % 10;
    let c: char = (48 + d as u8) as char;
    if n < 10 {
        let mut r: Vec<char> = Vec::new();
        r.push(c);
        r
    } else {
        let mut r = dec_chars(n / 10);
        r.push(c);
        r
    }
}

/// Renders `n` in decimal as a `String`.
pub fn dec_string(n: u64) -> (r: String)
    ensures
        r@ =~= spec_dec(n as nat),
{
    let v = dec_chars(n);
    chars_to_string(&v)
}

/// Strict lexicographic order on character sequences, comparing characters by
/// their scalar values.
pub open spec fn spec_str_lt(a: Seq<char>, b: Seq<char>) -> bool
    decreases a.len(),
{
    if b.len() == 0 {
        false
    } else if a.len() == 0 {
        true
    } else if a[0] != b[0] {
        (a[0] as u32) < (b[0] as u32)
    } else {
        spec_str_lt(a.skip(1), b.skip(1))
    }
}

/// Decides `spec_str_lt` on the suffixes of `a` and `b` starting at `i`.
fn chars_lt_from(a: &Vec<char>, b: &Vec<char>, i: usize) -> (r: bool)
    requires
        i <= a@.len(),
        i <= b@.len(),
    ensures
        r == spec_str_lt(a@.skip(i as int), b@.skip(i as int)),
    decreases a@.len() - i,
{
    if i == b.len() {
        false
    } else if i == a.len() {
        true
    } else if a[i] != b[i] {
        assert(a@.skip(i as int)[0] == a@[i as int]);
        assert(b@.skip(i as int)[0] == b@[i as int]);
        (a[i] as u32) < (b[i] as u32)
    } else {
        let r = chars_lt_from(a, b, i + 1);
        assert(a@.skip(i as int).skip(1) =~= a@.skip(i as int + 1));
        assert(b@.skip(i as int).skip(1) =~= b@.skip(i as int + 1));
        assert(a@.skip(i as int)[0] == a@[i as int]);
        assert(b@.skip(i as int)[0] == b@[i as int]);
        r
    }
}

/// Strict lexicographic comparison of two character vectors.
pub fn chars_lt(a: &Vec<char>, b: &Vec<char>) -> (r: bool)
    ensures
        r == spec_str_lt(a@, b@),
{
    let r = chars_lt_from(a, b, 0);
    assert(a@.skip(0) =~= a@);
    assert(b@.skip(0) =~= b@);
    r
}

/// Non-strict lexicographic order.
pub open spec fn spec_str_le(a: Seq<char>, b: Seq<char>) -> bool {
    !spec_str_lt(b, a)
}

/// `x` inserted into the (sorted) sequence `s` before the first element it
/// does not exceed.
pub open spec fn spec_insert_sorted(x: Seq<char>, s: Seq<Seq<char>>) -> Seq<Seq<char>>
    decreases s.len(),
{
    if s.len() == 0 {
        seq![x]
    } else if spec_str_lt(s[0], x) {
        seq![s[0]].add(spec_insert_sorted(x, s.skip(1)))
    } else {
        seq![x].add(s)
    }
}

/// The insertion sort of `s` under the lexicographic order.
pub open spec fn spec_sort_strs(s: Seq<Seq<char>>) -> Seq<Seq<char>>
    decreases s.len(),
{
    if s.len() == 0 {
        Seq::<Seq<char>>::empty()
    } else {
        spec_insert_sorted(s[0], spec_sort_strs(s.skip(1)))
    }
}

/// `s` with runs of adjacent equal elements collapsed to one.
pub open spec fn spec_dedup_adjacent(s: Seq<Seq<char>>) -> Seq<Seq<char>>
    decreases s.len(),
{
    if s.len() <= 1 {
        s
    } else if s[0] == s[1] {
        spec_dedup_adjacent(s.skip(1))
    } else {
        seq![s[0]].add(spec_dedup_adjacent(s.skip(1)))
    }
}

} // verus!

verus! {

/// The lexicographic order is asymmetric.
pub proof fn lemma_str_lt_asymmetric(a: Seq<char>, b: Seq<char>)
    requires
        spec_str_lt(a, b),
    ensures
        !spec_str_lt(b, a),
    decreases a.len(),
{
    if b.len() == 0 {
    } else if a.len() == 0 {
    } else if a[0] != b[0] {
    } else {
        lemma_str_lt_asymmetric(a.skip(1), b.skip(1));
    }
}

/// Sorted in the non-strict lexicographic order.
pub open spec fn spec_sorted_strs(s: Seq<Seq<char>>) -> bool {
    forall|i: int, j: int| 0 <= i < j < s.len() ==> spec_str_le(#[trigger] s[i], #[trigger] s[j])
}

proof fn lemma_insert_sorted_elements(x: Seq<char>, s: Seq<Seq<char>>)
    ensures
        spec_insert_sorted(x, s).len() == s.len() + 1,
        forall|i: int|
            0 <= i < spec_insert_sorted(x, s).len() ==> #[trigger] spec_insert_sorted(x, s)[i] == x
                || exists|j: int| 0 <= j < s.len() && spec_insert_sorted(x, s)[i] == s[j],
    decreases s.len(),
{
    if s.len() == 0 {
    } else if spec_str_lt(s[0], x) {
        lemma_insert_sorted_elements(x, s.skip(1));
        let r = spec_insert_sorted(x, s);
        assert forall|i: int| 0 <= i < r.len() implies #[trigger] r[i] == x || exists|j: int|
            0 <= j < s.len() && r[i] == s[j] by {
            if i == 0 {
                assert(r[i] == s[0]);
            } else {
                let ri = spec_insert_sorted(x, s.skip(1));
                assert(r[i] == ri[i - 1]);
                if ri[i - 1] != x {
                    let j = choose|j: int| 0 <= j < s.skip(1).len() && ri[i - 1] == s.skip(1)[j];
                    assert(r[i] == s[j + 1]);
                }
            }
        }
    }
}

proof fn lemma_insert_sorted_keeps_sorted(x: Seq<char>, s: Seq<Seq<char>>)
    requires
        spec_sorted_strs(s),
    ensures
        spec_sorted_strs(spec_insert_sorted(x, s)),
    decreases s.len(),
{
    let r = spec_insert_sorted(x, s);
    if s.len() == 0 {
    } else if spec_str_lt(s[0], x) {
        assert(spec_sorted_strs(s.skip(1)));
        lemma_insert_sorted_keeps_sorted(x, s.skip(1));
        lemma_insert_sorted_elements(x, s.skip(1));
        let ri = spec_insert_sorted(x, s.skip(1));
        assert forall|i: int, j: int| 0 <= i < j < r.len() implies spec_str_le(
            #[trigger] r[i],
            #[trigger] r[j],
        ) by {
            if i == 0 {
                assert(r[0] == s[0]);
                assert(r[j] == ri[j - 1]);
                if ri[j - 1] == x {
                    lemma_str_lt_asymmetric(s[0], x);
                } else {
                    let j2 = choose|j2: int|
                        0 <= j2 < s.skip(1).len() && ri[j - 1] == s.skip(1)[j2];
                    assert(s.skip(1)[j2] == s[j2 + 1]);
                    assert(spec_str_le(s[0], s[j2 + 1]));
                }
            } else {
                assert(r[i] == ri[i - 1] && r[j] == ri[j - 1]);
            }
        }
    } else {
        assert forall|i: int, j: int| 0 <= i < j < r.len() implies spec_str_le(
            #[trigger] r[i],
            #[trigger] r[j],
        ) by {
            if i == 0 {
                assert(r[0] == x);
                assert(r[j] == s[j - 1]);
                if j == 1 {
                } else {
                    assert(spec_str_le(s[0], s[j - 1]));
                    if spec_str_lt(s[j - 1], x) {
                        lemma_str_le_lt_trans(s[0], s[j - 1], x);
                    }
                }
            } else {
                assert(r[i] == s[i - 1] && r[j] == s[j - 1]);
            }
        }
    }
}

/// `a <= b` and `b < c` give `a < c`.
proof fn lemma_str_le_lt_trans(a: Seq<char>, b: Seq<char>, c: Seq<char>)
    requires
        spec_str_le(a, b),
        spec_str_lt(b, c),
    ensures
        spec_str_lt(a, c),
    decreases a.len() + b.len() + c.len(),
{
    if b.len() == 0 {
        if a.len() > 0 {
            assert(spec_str_lt(b, a));
        }
    } else if c.len() == 0 {
    } else if a.len() == 0 {
    } else {
        if a[0] != b[0] {
            if (b[0] as u32) < (a[0] as u32) {
                assert(spec_str_lt(b, a));
            }
        }
        if b[0] != c[0] {
            if !((b[0] as u32) < (c[0] as u32)) {
                assert(!spec_str_lt(b, c));
            }
        }
        assert(!spec_str_lt(b, a));
        if a[0] == b[0] && b[0] == c[0] {
            assert(!spec_str_lt(b.skip(1), a.skip(1)));
            lemma_str_le_lt_trans(a.skip(1), b.skip(1), c.skip(1));
        } else if a[0] == b[0] {
            assert((b[0] as u32) < (c[0] as u32));
            assert(spec_str_lt(a, c));
        } else {
            assert(!((b[0] as u32) < (a[0] as u32)));
            assert(a[0] as u32 != b[0] as u32) by {
                if a[0] as u32 == b[0] as u32 {
                    vstd::utf8::char_u32_cast(a[0], a[0] as u32);
                    vstd::utf8::char_u32_cast(b[0], b[0] as u32);
                }
            }
            assert((a[0] as u32) < (b[0] as u32));
            if b[0] == c[0] {
                assert(spec_str_lt(a, c));
            } else {
                assert((b[0] as u32) < (c[0] as u32));
                assert(spec_str_lt(a, c));
            }
        }
    }
}

/// The insertion sort yields a sorted sequence.
pub proof fn lemma_sort_strs_sorted(s: Seq<Seq<char>>)
    ensures
        spec_sorted_strs(spec_sort_strs(s)),
    decreases s.len(),
{
    if s.len() > 0 {
        lemma_sort_strs_sorted(s.skip(1));
        lemma_insert_sorted_keeps_sorted(s[0], spec_sort_strs(s.skip(1)));
    }
}

} // verus!
