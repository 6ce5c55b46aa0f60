//! The compact latin alphabet that glyphs encode, and the encoder itself.

use vstd::prelude::*;
use std::collections::HashMap;

verus! {

broadcast use vstd::std_specs::hash::group_hash_axioms;

/// The alphabet, in code order: the code of a symbol is its position here.
pub open spec fn symbol_table() -> Seq<char> {
    seq![
        'a', 'b', 'c', 'd', 'e', 'f', 'g', 'h', 'i', 'j', 'k', 'l', 'm', 'n', 'o', 'p', 'q', 'r',
        's', 't', 'u', 'v', 'w', 'x', 'y', 'z', ' ', 'ó', '.', '0', '1', '2', '3', '4', '5', '6',
        '7', '8', '9', 'ù', 'à', 'é', 'è', ',', ':', ';', '_', '-', '+', '*', '/', '\\', '(', ')',
        '[', ']',
    ]
}

/// The map from a character (by its code point) to its code that inserting
/// the first `n` symbols of the alphabet, in order, builds.
pub open spec fn symbol_index_prefix(n: nat) -> Map<u32, i8>
    decreases n,
{
    if n == 0 {
        Map::empty()
    } else {
        symbol_index_prefix((n - 1) as nat).insert(
            symbol_table()[n - 1] as u32,
            (n - 1) as i8,
        )
    }
}

/// The map from a character (by its code point) to its code.
pub open spec fn symbol_index() -> Map<u32, i8> {
    symbol_index_prefix(symbol_table().len())
}

/// The code of a character: its position in the alphabet, or 0 when the
/// alphabet does not hold it.
pub open spec fn symbol_code(c: char) -> i8 {
    if symbol_index().contains_key(c as u32) {
        symbol_index()[c as u32]
    } else {
        0
    }
}

/// The alphabet as a vector.
pub fn char_list() -> (list: Vec<char>)
    ensures
        list@ == symbol_table(),
{
    let list = vec![
        'a', 'b', 'c', 'd', 'e', 'f', 'g', 'h', 'i', 'j', 'k', 'l', 'm', 'n', 'o', 'p', 'q', 'r',
        's', 't', 'u', 'v', 'w', 'x', 'y', 'z', ' ', 'ó', '.', '0', '1', '2', '3', '4', '5', '6',
        '7', '8', '9', 'ù', 'à', 'é', 'è', ',', ':', ';', '_', '-', '+', '*', '/', '\\', '(', ')',
        '[', ']',
    ];
    assert(list@ =~= symbol_table());
    list
}

proof fn lemma_symbol_index_prefix(n: nat, k: u32)
    requires
        n <= symbol_table().len(),
    ensures
        symbol_index_prefix(n).contains_key(k) <==> exists|j: int|
            0 <= j < n && #[trigger] symbol_table()[j] as u32 == k,
        symbol_index_prefix(n).contains_key(k) ==> {
            let v = symbol_index_prefix(n)[k];
            &&& 0 <= v < n
            &&& symbol_table()[v as int] as u32 == k
        },
    decreases n,
{
    if n > 0 {
        lemma_symbol_index_prefix((n - 1) as nat, k);
        if symbol_table()[n - 1] as u32 != k && symbol_index_prefix(n).contains_key(k) {
            let j = choose|j: int| 0 <= j < n && #[trigger] symbol_table()[j] as u32 == k;
            assert(j < n - 1);
        }
    }
}

/// Decoding law: a symbol of the alphabet is encoded as a position of the
/// alphabet that holds that very symbol, so looking its code up in the
/// alphabet gives it back; any other character is encoded as 0.
pub proof fn lemma_symbol_code_decodes(c: char)
    ensures
        symbol_table().contains(c) ==> {
            &&& 0 <= symbol_code(c) < symbol_table().len()
            &&& symbol_table()[symbol_code(c) as int] == c
        },
        !symbol_table().contains(c) ==> symbol_code(c) == 0,
{
    lemma_symbol_index_prefix(symbol_table().len(), c as u32);
    if symbol_table().contains(c) {
        let j = choose|j: int| 0 <= j < symbol_table().len() && symbol_table()[j] == c;
        assert(symbol_table()[j] as u32 == c as u32);
        let v = symbol_code(c);
        assert(symbol_table()[v as int] as u32 == c as u32);
    } else if symbol_index().contains_key(c as u32) {
        let j = choose|j: int|
            0 <= j < symbol_table().len() && #[trigger] symbol_table()[j] as u32 == c as u32;
        assert(symbol_table()[j] == c);
    }
}

/// No symbol from position `j` of the alphabet on is a lowercase latin
/// letter or the space.
pub open spec fn no_plain_symbol_from(j: int) -> bool
    decreases symbol_table().len() - j,
{
    if j < 0 || j >= symbol_table().len() {
        true
    } else {
        let c = symbol_table()[j];
        !(('a' <= c && c <= 'z') || c == ' ') && no_plain_symbol_from(j + 1)
    }
}

proof fn lemma_no_plain_symbol_from(j: int, k: int)
    requires
        0 <= j <= k < symbol_table().len(),
        no_plain_symbol_from(j),
    ensures
        !(('a' <= symbol_table()[k] && symbol_table()[k] <= 'z') || symbol_table()[k] == ' '),
    decreases k - j,
{
    if j < k {
        lemma_no_plain_symbol_from(j + 1, k);
    }
}

/// The lowercase latin letters and the space are encoded by the first 27
/// codes: the letters in alphabetical order, then the space.
pub proof fn lemma_plain_symbol_codes(c: char)
    requires
        ('a' <= c && c <= 'z') || c == ' ',
    ensures
        0 <= symbol_code(c) <= 26,
        symbol_table()[symbol_code(c) as int] == c,
{
    assert(no_plain_symbol_from(27)) by {
        reveal_with_fuel(no_plain_symbol_from, 30);
    }
    let j: int = if c == ' ' { 26 } else { c as int - 'a' as int };
    assert(symbol_table()[j] == c) by {
        assert(symbol_table()[0] == 'a');
    }
    assert(symbol_table().contains(c));
    lemma_symbol_code_decodes(c);
    if symbol_code(c) > 26 {
        lemma_no_plain_symbol_from(27, symbol_code(c) as int);
    }
}

/// Builds the map from each symbol of the alphabet (by its code point) to
/// its code.
pub fn _compute_reversed_char_list() -> (map: HashMap<u32, i8>)
    ensures
        map@ == symbol_index(),
{
    let list = char_list();
    let mut map: HashMap<u32, i8> = HashMap::new();
    let mut i: usize = 0;
    while i < list.len()
        invariant
            list@ == symbol_table(),
            i <= list.len(),
            map@ == symbol_index_prefix(i as nat),
        decreases list.len() - i,
    {
        map.insert(list[i] as u32, i as i8);
        i = i + 1;
    }
    map
}

/// Encodes each character of `s` as its code in the alphabet; characters
/// outside the alphabet are encoded as 0.
pub fn encode(s: &str) -> (codes: Vec<i8>)
    ensures
        codes@.len() == s@.len(),
        forall|i: int| 0 <= i < s@.len() ==> codes@[i] == symbol_code(#[trigger] s@[i]),
{
    let reversed_char_list = _compute_reversed_char_list();
    let mut codes: Vec<i8> = Vec::new();
    for c in it: s.chars()
        invariant
            reversed_char_list@ == symbol_index(),
            codes@.len() == it.index(),
            it.seq() == s@,
            forall|i: int| 0 <= i < codes@.len() ==> codes@[i] == symbol_code(s@[i]),
    {
        let code: i8 = match reversed_char_list.get(&(c as u32)) {
            Some(v) => *v,
            None => 0,
        };
        codes.push(code);
    }
    codes
}

} // verus!
