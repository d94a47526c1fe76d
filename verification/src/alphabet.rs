//! Alphabets: an ordered table of characters, in which a character's position
//! is the digit it stands for.

use vstd::prelude::*;

verus! {

/// The position of the first occurrence of `c` in `table`, if there is one.
pub open spec fn position(table: Seq<char>, c: char) -> Option<nat>
    decreases table.len(),
{
    if table.len() == 0 {
        None
    } else {
        match position(table.drop_last(), c) {
            Some(p) => Some(p),
            None => if table.last() == c {
                Some((table.len() - 1) as nat)
            } else {
                None
            },
        }
    }
}

/// `position` finds a character exactly when the table holds it, and then
/// gives the first place where it stands.
pub proof fn lemma_position_is_first(table: Seq<char>, c: char)
    ensures
        position(table, c) is Some <==> table.contains(c),
        position(table, c) matches Some(p) ==> {
            &&& p < table.len()
            &&& table[p as int] == c
            &&& forall|j: int| 0 <= j < p ==> table[j] != c
        },
    decreases table.len(),
{
    if table.len() > 0 {
        let front = table.drop_last();
        lemma_position_is_first(front, c);
        if position(front, c) is Some {
            let p = position(front, c)->0;
            assert(table[p as int] == front[p as int]);
            assert(table.contains(c));
            assert forall|j: int| 0 <= j < p implies table[j] != c by {
                assert(table[j] == front[j]);
            }
        } else if table.last() == c {
            assert(table[table.len() - 1] == c);
            assert forall|j: int| 0 <= j < table.len() - 1 implies table[j] != c by {
                assert(front[j] == table[j]);
                assert(front.contains(front[j]));
            }
        } else {
            if table.contains(c) {
                let j = choose|j: int| 0 <= j < table.len() && table[j] == c;
                assert(front[j] == c);
                assert(front.contains(c));
            }
        }
    }
}

/// A position found in a prefix of the table is the position in the whole table.
proof fn lemma_position_extends(table: Seq<char>, c: char, n: int)
    requires
        0 <= n <= table.len(),
        position(table.take(n), c) is Some,
    ensures
        position(table, c) == position(table.take(n), c),
    decreases table.len() - n,
{
    if n == table.len() {
        assert(table.take(n) =~= table);
    } else {
        assert(table.drop_last().take(n) =~= table.take(n));
        lemma_position_extends(table.drop_last(), c, n);
    }
}

/// The digit that `c` stands for in `table`: its position, kept to the range
/// of a byte. A table of at most 256 characters loses nothing by that.
pub open spec fn digit_of(table: Seq<char>, c: char) -> Option<u8> {
    match position(table, c) {
        Some(p) => Some((p % 256) as u8),
        None => None,
    }
}

/// Every character of `text` stands in `table`.
pub open spec fn all_known(text: Seq<char>, table: Seq<char>) -> bool {
    forall|i: int| 0 <= i < text.len() ==> table.contains(#[trigger] text[i])
}

/// `at` is the place of the first character of `text` that `table` lacks.
pub open spec fn is_first_unknown(text: Seq<char>, table: Seq<char>, at: int) -> bool {
    &&& 0 <= at < text.len()
    &&& !table.contains(text[at])
    &&& forall|i: int| 0 <= i < at ==> table.contains(#[trigger] text[i])
}

/// The digits that `text` stands for, character by character.
pub open spec fn decoded(text: Seq<char>, table: Seq<char>) -> Seq<u8> {
    Seq::new(text.len(), |i: int| digit_of(table, text[i]).unwrap())
}

/// Looks `c` up in `table` and returns the digit it stands for, if it stands
/// in the table at all.
pub fn lookup(table: &str, c: char) -> (digit: Option<u8>)
    ensures
        digit == digit_of(table@, c),
        digit is Some <==> table@.contains(c),
{
    proof {
        lemma_position_is_first(table@, c);
    }
    broadcast use vstd::string::group_string_axioms;
    let chars = table.chars();
    let mut digit: u8 = 0;
    let ghost mut scanned: int = 0;
    for entry in it: chars
        invariant
            it.seq() == table@,
            scanned == it.index(),
            digit as int == scanned % 256,
            position(table@.take(scanned), c) is None,
    {
        assert(entry == table@[it.index()]);
        assert(table@.take(it.index() + 1).drop_last() =~= table@.take(it.index()));
        if entry == c {
            proof {
                lemma_position_extends(table@, c, it.index() + 1);
            }
            return Some(digit);
        }
        digit = if digit == 255 { 0 } else { digit + 1 };
        proof {
            scanned = scanned + 1;
        }
    }
    assert(table@.take(scanned) =~= table@);
    None
}

} // verus!
