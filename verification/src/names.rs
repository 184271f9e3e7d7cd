//! Symbolic names for backgrounds and effects.
//!
//! A background or an effect can be asked for by name in the stead of an
//! identifier. Names are looked up in a table without regard to the case of
//! ASCII letters. The word `random` asks for any entry of the table; which
//! one is decided by a number that the caller draws.

use vstd::prelude::*;
use vstd::string::*;
use crate::error::IconError;
use crate::ident::{canonical_id, parse_decimal_or_hex_string};

verus! {

/// One entry of a name table: a name and the canonical id that it stands
/// for.
#[derive(Clone, Debug)]
pub struct NamedIcon {
    pub name: String,
    pub id: i32,
}

/// The word that asks for any entry of a table.
pub open spec fn random_word() -> Seq<char> {
    seq!['r', 'a', 'n', 'd', 'o', 'm']
}

/// The character with an ASCII capital turned into its small letter.
pub open spec fn folded(c: char) -> char {
    if 'A' <= c <= 'Z' {
        ((c as u8 + 32) as u8) as char
    } else {
        c
    }
}

/// True when two names are the same but for the case of ASCII letters.
pub open spec fn same_name(a: Seq<char>, b: Seq<char>) -> bool {
    &&& a.len() == b.len()
    &&& forall|i: int| 0 <= i < a.len() ==> folded(#[trigger] a[i]) == folded(b[i])
}

/// True when entry `i` of the table is the first that is called `name`.
pub open spec fn is_first_match(table: Seq<NamedIcon>, name: Seq<char>, i: int) -> bool {
    &&& 0 <= i < table.len()
    &&& same_name(table[i].name@, name)
    &&& forall|j: int| 0 <= j < i ==> !same_name((#[trigger] table[j]).name@, name)
}

/// The id of the first entry of the table that is called `name`.
pub open spec fn named_id(table: Seq<NamedIcon>, name: Seq<char>) -> Option<i32> {
    if exists|i: int| is_first_match(table, name, i) {
        Some(table[choose|i: int| is_first_match(table, name, i)].id)
    } else {
        None
    }
}

/// The canonical id that the text of a background or effect parameter asks
/// for, with `draw` as the number drawn for `random`.
///
/// The word `random` gives entry `draw` modulo the size of the table, and no
/// id where the table is empty. Text that is an identifier gives its
/// canonical id. Other text is looked up as a name.
pub open spec fn named_layer(table: Seq<NamedIcon>, text: Seq<char>, draw: u64) -> Result<
    i32,
    IconError,
> {
    if text == random_word() {
        if table.len() == 0 {
            Err(IconError::InvalidSymbolicName)
        } else {
            Ok(table[draw as int % table.len() as int].id)
        }
    } else {
        match canonical_id(text) {
            Some(id) => Ok(id as i32),
            None => match named_id(table, text) {
                Some(id) => Ok(id),
                None => Err(IconError::InvalidSymbolicName),
            },
        }
    }
}

/// Turns an ASCII capital into its small letter.
fn fold(c: char) -> (f: char)
    ensures
        f == folded(c),
{
    if c >= 'A' && c <= 'Z' {
        ((c as u8) + 32) as char
    } else {
        c
    }
}

/// Compares two texts, with or without regard to the case of ASCII letters.
fn same_text(a: &str, b: &str, fold_case: bool) -> (same: bool)
    ensures
        fold_case ==> same == same_name(a@, b@),
        !fold_case ==> same == (a@ == b@),
{
    let n: usize = a.unicode_len();
    if b.unicode_len() != n {
        return false;
    }
    let mut i: usize = 0;
    while i < n
        invariant
            n == a@.len(),
            n == b@.len(),
            i <= n,
            fold_case ==> forall|j: int| 0 <= j < i ==> folded(#[trigger] a@[j]) == folded(b@[j]),
            !fold_case ==> forall|j: int| 0 <= j < i ==> #[trigger] a@[j] == b@[j],
        decreases n - i,
    {
        let x: char = a.get_char(i);
        let y: char = b.get_char(i);
        if fold_case {
            if fold(x) != fold(y) {
                return false;
            }
        } else {
            if x != y {
                return false;
            }
        }
        i = i + 1;
    }
    proof {
        if !fold_case {
            assert(a@ =~= b@);
        }
    }
    true
}

/// Looks a name up in a table, without regard to the case of ASCII letters.
/// Where several entries have the name, the first counts.
pub fn find_name(table: &Vec<NamedIcon>, name: &str) -> (r: Option<i32>)
    ensures
        r == named_id(table@, name@),
{
    let mut i: usize = 0;
    while i < table.len()
        invariant
            i <= table.len(),
            forall|j: int| 0 <= j < i ==> !same_name((#[trigger] table@[j]).name@, name@),
        decreases table.len() - i,
    {
        if same_text(table[i].name.as_str(), name, true) {
            proof {
                assert(is_first_match(table@, name@, i as int));
                let k = choose|k: int| is_first_match(table@, name@, k);
                if k < i {
                    assert(!same_name(table@[k].name@, name@));
                }
                if i < k {
                    assert(same_name(table@[i as int].name@, name@));
                }
                assert(k == i);
            }
            return Some(table[i].id);
        }
        i = i + 1;
    }
    proof {
        if exists|k: int| is_first_match(table@, name@, k) {
            let k = choose|k: int| is_first_match(table@, name@, k);
            assert(!same_name(table@[k].name@, name@));
        }
    }
    None
}

/// Resolves the text of a background or effect parameter: the word
/// `random`, an identifier, or a name of the table. Text that is none of
/// these fails with [`IconError::InvalidSymbolicName`], and so does `random`
/// with an empty table.
///
/// `draw` is the number that decides what `random` gives. It is for the
/// caller to draw it at random.
pub fn resolve_named(table: &Vec<NamedIcon>, text: &str, draw: u64) -> (r: Result<i32, IconError>)
    ensures
        r == named_layer(table@, text@, draw),
{
    proof {
        reveal_strlit("random");
        assert("random"@ =~= random_word());
    }
    if same_text(text, "random", false) {
        let n: usize = table.len();
        if n == 0 {
            return Err(IconError::InvalidSymbolicName);
        }
        let pick: u64 = draw % (n as u64);
        return Ok(table[pick as usize].id);
    }
    match parse_decimal_or_hex_string(text) {
        Ok(id) => Ok(id),
        Err(_) => match find_name(table, text) {
            Some(id) => Ok(id),
            None => Err(IconError::InvalidSymbolicName),
        },
    }
}

} // verus!
