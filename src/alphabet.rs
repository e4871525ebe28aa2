//! Letters of the 26-letter alphabet and permutations over their indices.
use vstd::prelude::*;

verus! {

/// An uppercase ASCII letter.
pub open spec fn is_upper(c: char) -> bool {
    'A' <= c && c <= 'Z'
}

/// An ASCII letter of either case.
pub open spec fn is_alpha(c: char) -> bool {
    ('A' <= c && c <= 'Z') || ('a' <= c && c <= 'z')
}

/// The uppercase form of an ASCII letter; other characters are unchanged.
pub open spec fn to_upper(c: char) -> char {
    if 'a' <= c && c <= 'z' {
        letter_of(c as int - 'a' as int)
    } else {
        c
    }
}

/// The ASCII letters of `s`, in order and in upper case; everything else is dropped.
pub open spec fn letters(s: Seq<char>) -> Seq<char>
    decreases s.len(),
{
    if s.len() == 0 {
        Seq::empty()
    } else if is_alpha(s.last()) {
        letters(s.drop_last()).push(to_upper(s.last()))
    } else {
        letters(s.drop_last())
    }
}

pub proof fn lemma_letters_are_upper(s: Seq<char>)
    ensures
        forall|k: int| 0 <= k < letters(s).len() ==> #[trigger] is_upper(letters(s)[k]),
        letters(s).len() <= s.len(),
    decreases s.len(),
{
    if s.len() > 0 {
        lemma_letters_are_upper(s.drop_last());
    }
}

/// Extends the letters of a prefix of `s` by one character.
pub proof fn lemma_letters_take(s: Seq<char>, i: int)
    requires
        0 <= i < s.len(),
    ensures
        letters(s.take(i + 1)) == if is_alpha(s[i]) {
            letters(s.take(i)).push(to_upper(s[i]))
        } else {
            letters(s.take(i))
        },
{
    assert(s.take(i + 1).drop_last() =~= s.take(i));
}

/// Whether `c` is an ASCII letter of either case.
pub fn is_ascii_letter(c: char) -> (r: bool)
    ensures
        r == is_alpha(c),
{
    ('A' <= c && c <= 'Z') || ('a' <= c && c <= 'z')
}

/// The uppercase form of an ASCII letter.
pub fn upper_letter(c: char) -> (r: char)
    requires
        is_alpha(c),
    ensures
        r == to_upper(c),
        is_upper(r),
{
    if 'a' <= c && c <= 'z' {
        u8_to_char((c as u32 - 'a' as u32) as u8)
    } else {
        c
    }
}

/// The index 0..=25 of an uppercase letter.
pub open spec fn index_of(c: char) -> int {
    c as int - 'A' as int
}

/// The uppercase letter whose index is `i`.
pub open spec fn letter_of(i: int) -> char {
    (i + 'A' as int) as u32 as char
}

/// A table of 26 indices that maps 0..=25 one to one onto 0..=25.
pub open spec fn is_permutation26(t: Seq<u8>) -> bool {
    &&& t.len() == 26
    &&& forall|i: int| 0 <= i < 26 ==> #[trigger] t[i] < 26
    &&& forall|i: int, j: int| 0 <= i < 26 && 0 <= j < 26 && #[trigger] t[i] == #[trigger] t[j] ==> i == j
    &&& forall|x: int| 0 <= x < 26 ==> #[trigger] takes_value(t, x)
}

/// Some index 0..=25 is sent to `x` by `t`.
pub open spec fn takes_value(t: Seq<u8>, x: int) -> bool {
    exists|i: int| 0 <= i < 26 && #[trigger] t[i] == x
}

/// A table of 26 letter indices.
pub open spec fn is_table26(t: Seq<u8>) -> bool {
    t.len() == 26 && forall|i: int| 0 <= i < 26 ==> #[trigger] t[i] < 26
}

/// `u` undoes `t` and `t` undoes `u`, both over 0..=25.
pub open spec fn are_inverse26(t: Seq<u8>, u: Seq<u8>) -> bool {
    &&& t.len() == 26
    &&& u.len() == 26
    &&& forall|i: int| 0 <= i < 26 ==> #[trigger] t[i] < 26 && u[t[i] as int] == i
    &&& forall|i: int| 0 <= i < 26 ==> #[trigger] u[i] < 26 && t[u[i] as int] == i
}

/// A table that is its own inverse and moves every index.
pub open spec fn is_fixed_point_free_involution26(t: Seq<u8>) -> bool {
    &&& are_inverse26(t, t)
    &&& forall|i: int| 0 <= i < 26 ==> #[trigger] t[i] != i
}

/// The first `n` entries of `t` and of `u` are undone by the other table.
pub open spec fn inverse_upto(t: Seq<u8>, u: Seq<u8>, n: nat) -> bool
    decreases n,
{
    if n == 0 {
        true
    } else {
        let k = n - 1;
        &&& inverse_upto(t, u, (n - 1) as nat)
        &&& t[k] < 26 && u[t[k] as int] == k
        &&& u[k] < 26 && t[u[k] as int] == k
    }
}

pub proof fn lemma_inverse_upto(t: Seq<u8>, u: Seq<u8>, n: nat)
    requires
        inverse_upto(t, u, n),
    ensures
        forall|i: int| 0 <= i < n ==> #[trigger] t[i] < 26 && u[t[i] as int] == i,
        forall|i: int| 0 <= i < n ==> #[trigger] u[i] < 26 && t[u[i] as int] == i,
    decreases n,
{
    if n > 0 {
        lemma_inverse_upto(t, u, (n - 1) as nat);
    }
}

/// None of the first `n` entries of `t` is a fixed point.
pub open spec fn moves_upto(t: Seq<u8>, n: nat) -> bool
    decreases n,
{
    n == 0 || (moves_upto(t, (n - 1) as nat) && t[n - 1] != n - 1)
}

pub proof fn lemma_moves_upto(t: Seq<u8>, n: nat)
    requires
        moves_upto(t, n),
    ensures
        forall|i: int| 0 <= i < n ==> #[trigger] t[i] != i,
    decreases n,
{
    if n > 0 {
        lemma_moves_upto(t, (n - 1) as nat);
    }
}

/// A table with an inverse is a permutation.
pub proof fn lemma_inverse_gives_permutation(t: Seq<u8>, u: Seq<u8>)
    requires
        are_inverse26(t, u),
    ensures
        is_permutation26(t),
        is_permutation26(u),
{
    assert forall|x: int| 0 <= x < 26 implies #[trigger] takes_value(t, x) by {
        assert(t[u[x] as int] == x);
    }
    assert forall|x: int| 0 <= x < 26 implies #[trigger] takes_value(u, x) by {
        assert(u[t[x] as int] == x);
    }
    assert forall|i: int, j: int| 0 <= i < 26 && 0 <= j < 26 && #[trigger] t[i] == #[trigger] t[j] implies i == j by {
        assert(u[t[i] as int] == i);
        assert(u[t[j] as int] == j);
    }
    assert forall|i: int, j: int| 0 <= i < 26 && 0 <= j < 26 && #[trigger] u[i] == #[trigger] u[j] implies i == j by {
        assert(t[u[i] as int] == i);
        assert(t[u[j] as int] == j);
    }
}

/// Index 0..=25 of an uppercase letter.
pub fn char_to_u8(c: char) -> (r: u8)
    requires
        is_upper(c),
    ensures
        r == index_of(c),
        r < 26,
{
    (c as u32 - 'A' as u32) as u8
}

/// Uppercase letter of an index 0..=25.
pub fn u8_to_char(i: u8) -> (r: char)
    requires
        i < 26,
    ensures
        r == letter_of(i as int),
        is_upper(r),
        index_of(r) == i,
{
    (i + 65) as char
}

} // verus!
