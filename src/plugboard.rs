//! The plugboard: letters connected in pairs, each swapped with its partner.
use vstd::prelude::*;
use crate::alphabet::{
    are_inverse26, char_to_u8, index_of, is_ascii_letter, is_table26, is_upper, lemma_letters_take,
    letters, upper_letter,
};

verus! {

/// The table that connects no letter.
pub open spec fn identity26() -> Seq<u8> {
    Seq::new(26, |i: int| i as u8)
}

/// Connects `a` and `b`: `a` now goes to `b` and `b` to `a`, overwriting
/// whatever either was set to before.
pub open spec fn connect(t: Seq<u8>, a: int, b: int) -> Seq<u8> {
    t.update(a, b as u8).update(b, a as u8)
}

/// The table made by connecting consecutive pairs of the uppercase letters `ls`
/// in order; a last letter without a partner is ignored.
pub open spec fn plug_table(ls: Seq<char>) -> Seq<u8>
    decreases ls.len(),
{
    if ls.len() < 2 {
        identity26()
    } else if ls.len() % 2 == 1 {
        plug_table(ls.drop_last())
    } else {
        let n = ls.len() as int;
        connect(plug_table(ls.take(n - 2)), index_of(ls[n - 2]), index_of(ls[n - 1]))
    }
}

/// No letter of a complete pair of `ls` appears in another complete pair.
pub open spec fn pairs_disjoint(ls: Seq<char>) -> bool {
    let paired = 2 * (ls.len() / 2);
    forall|i: int, j: int|
        0 <= i < paired && 0 <= j < paired && i / 2 != j / 2 ==> #[trigger] ls[i] != #[trigger] ls[j]
}

pub proof fn lemma_plug_table_is_table(ls: Seq<char>)
    requires
        forall|k: int| 0 <= k < ls.len() ==> #[trigger] is_upper(ls[k]),
    ensures
        is_table26(plug_table(ls)),
    decreases ls.len(),
{
    if ls.len() >= 2 {
        if ls.len() % 2 == 1 {
            lemma_plug_table_is_table(ls.drop_last());
        } else {
            let n = ls.len() as int;
            lemma_plug_table_is_table(ls.take(n - 2));
            assert(is_upper(ls[n - 2]) && is_upper(ls[n - 1]));
        }
    }
}

/// A letter that is in no complete pair stays where it is.
pub proof fn lemma_plug_table_unpaired(ls: Seq<char>, x: int)
    requires
        0 <= x < 26,
        forall|k: int| 0 <= k < ls.len() ==> #[trigger] is_upper(ls[k]),
        forall|k: int| 0 <= k < 2 * (ls.len() / 2) ==> index_of(#[trigger] ls[k]) != x,
    ensures
        plug_table(ls)[x] == x,
    decreases ls.len(),
{
    if ls.len() < 2 {
        assert(identity26()[x] == x);
    } else {
        if ls.len() % 2 == 1 {
            let d = ls.drop_last();
            assert forall|k: int| 0 <= k < 2 * (d.len() / 2) implies index_of(#[trigger] d[k]) != x by {
                assert(d[k] == ls[k]);
            }
            lemma_plug_table_unpaired(d, x);
        } else {
            let n = ls.len() as int;
            let d = ls.take(n - 2);
            assert forall|k: int| 0 <= k < 2 * (d.len() / 2) implies index_of(#[trigger] d[k]) != x by {
                assert(d[k] == ls[k]);
            }
            lemma_plug_table_unpaired(d, x);
            lemma_plug_table_is_table(d);
            assert(is_upper(ls[n - 2]) && is_upper(ls[n - 1]));
            assert(index_of(ls[n - 2]) != x && index_of(ls[n - 1]) != x);
        }
    }
}

/// Connecting two letters that stood alone keeps a table an involution.
pub proof fn lemma_connect_keeps_involution(t: Seq<u8>, a: int, b: int)
    requires
        are_inverse26(t, t),
        0 <= a < 26,
        0 <= b < 26,
        t[a] == a,
        t[b] == b,
    ensures
        are_inverse26(connect(t, a, b), connect(t, a, b)),
{
    let t3 = connect(t, a, b);
    assert forall|i: int| 0 <= i < 26 implies #[trigger] t3[i] < 26 && t3[t3[i] as int] == i by {
        if i != a && i != b {
            assert(t[t[i] as int] == i);
            assert(t[i] != a && t[i] != b);
        }
    }
}

/// When no letter is in two pairs, the board swaps letters in pairs.
pub proof fn lemma_plug_table_involution(ls: Seq<char>)
    requires
        forall|k: int| 0 <= k < ls.len() ==> #[trigger] is_upper(ls[k]),
        pairs_disjoint(ls),
    ensures
        are_inverse26(plug_table(ls), plug_table(ls)),
    decreases ls.len(),
{
    if ls.len() < 2 {
        assert(are_inverse26(identity26(), identity26()));
    } else if ls.len() % 2 == 1 {
        let d = ls.drop_last();
        assert(2 * (d.len() / 2) == 2 * (ls.len() / 2));
        assert forall|i: int, j: int|
            0 <= i < 2 * (d.len() / 2) && 0 <= j < 2 * (d.len() / 2) && i / 2 != j / 2 implies
            #[trigger] d[i] != #[trigger] d[j] by {
            assert(d[i] == ls[i] && d[j] == ls[j]);
        }
        lemma_plug_table_involution(d);
    } else {
        let n = ls.len() as int;
        let d = ls.take(n - 2);
        assert forall|i: int, j: int|
            0 <= i < 2 * (d.len() / 2) && 0 <= j < 2 * (d.len() / 2) && i / 2 != j / 2 implies
            #[trigger] d[i] != #[trigger] d[j] by {
            assert(d[i] == ls[i] && d[j] == ls[j]);
        }
        lemma_plug_table_involution(d);
        let a = index_of(ls[n - 2]);
        let b = index_of(ls[n - 1]);
        assert(is_upper(ls[n - 2]) && is_upper(ls[n - 1]));
        assert forall|k: int| 0 <= k < 2 * (d.len() / 2) implies index_of(#[trigger] d[k]) != a by {
            assert(d[k] == ls[k]);
            assert(ls[k] != ls[n - 2]);
        }
        assert forall|k: int| 0 <= k < 2 * (d.len() / 2) implies index_of(#[trigger] d[k]) != b by {
            assert(d[k] == ls[k]);
            assert(ls[k] != ls[n - 1]);
        }
        lemma_plug_table_unpaired(d, a);
        lemma_plug_table_unpaired(d, b);
        lemma_connect_keeps_involution(plug_table(d), a, b);
    }
}

/// A plugboard: a table over letter indices that swaps connected letters.
pub struct Plugboard {
    map: [u8; 26],
}

impl View for Plugboard {
    type V = Seq<u8>;

    closed spec fn view(&self) -> Seq<u8> {
        self.map@
    }
}

impl Plugboard {
    /// The board sends each of the 26 letters to a letter.
    pub open spec fn wf(&self) -> bool {
        is_table26(self@)
    }

    /// Builds a plugboard from a string of letter pairs such as "AB CD". Only
    /// ASCII letters count, in either case; they pair up in order, and a last
    /// letter without a partner is dropped. Each pair (a, b) sets a to b and
    /// then b to a, overwriting what earlier pairs set: after "AB AC", A goes
    /// to C, C to A, and B still to A.
    pub fn new(pairs_str: &str) -> (r: Plugboard)
        ensures
            r.wf(),
            r@ == plug_table(letters(pairs_str@)),
    {
        let mut map: [u8; 26] = [0, 1, 2, 3, 4, 5, 6, 7, 8, 9, 10, 11, 12, 13, 14, 15, 16, 17, 18, 19, 20, 21, 22, 23, 24, 25];
        assert(map@ =~= identity26());
        broadcast use vstd::string::group_string_axioms;
        let mut pending: Option<u8> = None;
        for c in it: pairs_str.chars()
            invariant
                it.seq() == pairs_str@,
                map@ == plug_table(letters(pairs_str@.take(it.index() as int))),
                pending == (if letters(pairs_str@.take(it.index() as int)).len() % 2 == 1 {
                    Some(index_of(letters(pairs_str@.take(it.index() as int)).last()) as u8)
                } else {
                    None::<u8>
                }),
                forall|k: int| 0 <= k < letters(pairs_str@.take(it.index() as int)).len()
                    ==> #[trigger] is_upper(letters(pairs_str@.take(it.index() as int))[k]),
        {
            proof {
                lemma_letters_take(pairs_str@, it.index() as int);
            }
            let ghost before = letters(pairs_str@.take(it.index() as int));
            assert(before.len() > 0 ==> is_upper(before.last()));
            if is_ascii_letter(c) {
                let u = upper_letter(c);
                let x = char_to_u8(u);
                let ghost after = before.push(u);
                assert(after.drop_last() =~= before);
                match pending {
                    Some(a) => {
                        proof {
                            assert(after.take(after.len() - 2) =~= before.drop_last());
                        }
                        map[a as usize] = x;
                        map[x as usize] = a;
                        assert(map@ =~= connect(plug_table(before), a as int, x as int));
                        assert(plug_table(before) == plug_table(before.drop_last()));
                        assert(after[after.len() - 2] == before.last());
                        assert(plug_table(after) == connect(
                            plug_table(after.take(after.len() - 2)),
                            index_of(after[after.len() - 2]),
                            index_of(after[after.len() - 1]),
                        ));
                        pending = None;
                    },
                    None => {
                        assert(plug_table(after) == plug_table(before));
                        pending = Some(x);
                    },
                }
            }
        }
        assert(pairs_str@.take(pairs_str@.len() as int) =~= pairs_str@);
        proof {
            lemma_plug_table_is_table(letters(pairs_str@));
        }
        Plugboard { map }
    }

    /// The letter index that `c` is connected to (itself when unconnected).
    pub fn process(&self, c: u8) -> (r: u8)
        requires
            self.wf(),
            c < 26,
        ensures
            r == self@[c as int],
            r < 26,
    {
        self.map[c as usize]
    }
}

} // verus!
