//! The fixed table between 6-bit codes and 64 printable characters.
use bimap::BiHashMap;
use vstd::prelude::*;

verus! {

#[verifier::external_type_specification]
#[verifier::external_body]
#[verifier::reject_recursive_types(L)]
#[verifier::reject_recursive_types(R)]
#[verifier::reject_recursive_types(LS)]
#[verifier::reject_recursive_types(RS)]
pub struct ExBiHashMap<L, R, LS, RS>(BiHashMap<L, R, LS, RS>);

/// The character of a 6-bit code.
pub open spec fn glyph(v: u8) -> char {
    if v == 0 {
        '0'
    } else if v == 1 {
        '1'
    } else if v == 2 {
        '2'
    } else if v == 3 {
        '3'
    } else if v == 4 {
        '4'
    } else if v == 5 {
        '5'
    } else if v == 6 {
        '6'
    } else if v == 7 {
        '7'
    } else if v == 8 {
        '8'
    } else if v == 9 {
        '9'
    } else if v == 10 {
        '='
    } else if v == 11 {
        '-'
    } else if v == 12 {
        '+'
    } else if v == 13 {
        '*'
    } else if v == 14 {
        '/'
    } else if v == 15 {
        '^'
    } else if v == 16 {
        'A'
    } else if v == 17 {
        'B'
    } else if v == 18 {
        'C'
    } else if v == 19 {
        'D'
    } else if v == 20 {
        'E'
    } else if v == 21 {
        'F'
    } else if v == 22 {
        'G'
    } else if v == 23 {
        'H'
    } else if v == 24 {
        'I'
    } else if v == 25 {
        'J'
    } else if v == 26 {
        'K'
    } else if v == 27 {
        'L'
    } else if v == 28 {
        'M'
    } else if v == 29 {
        'N'
    } else if v == 30 {
        'O'
    } else if v == 31 {
        'P'
    } else if v == 32 {
        'Q'
    } else if v == 33 {
        'R'
    } else if v == 34 {
        'S'
    } else if v == 35 {
        'T'
    } else if v == 36 {
        'U'
    } else if v == 37 {
        'V'
    } else if v == 38 {
        'W'
    } else if v == 39 {
        'X'
    } else if v == 40 {
        'Y'
    } else if v == 41 {
        'Z'
    } else if v == 42 {
        ' '
    } else if v == 43 {
        '.'
    } else if v == 44 {
        ','
    } else if v == 45 {
        '\''
    } else if v == 46 {
        '"'
    } else if v == 47 {
        '`'
    } else if v == 48 {
        '#'
    } else if v == 49 {
        '!'
    } else if v == 50 {
        '&'
    } else if v == 51 {
        '?'
    } else if v == 52 {
        ';'
    } else if v == 53 {
        ':'
    } else if v == 54 {
        '$'
    } else if v == 55 {
        '%'
    } else if v == 56 {
        '|'
    } else if v == 57 {
        '>'
    } else if v == 58 {
        '<'
    } else if v == 59 {
        '['
    } else if v == 60 {
        ']'
    } else if v == 61 {
        '('
    } else if v == 62 {
        ')'
    } else if v == 63 {
        '\\'
    } else {
        '\0'
    }
}

/// The character of a 6-bit code, from the fixed table.
fn glyph_of(v: u8) -> (r: char)
    requires
        v < 64,
    ensures
        r == glyph(v),
{
    if v == 0 {
        '0'
    } else if v == 1 {
        '1'
    } else if v == 2 {
        '2'
    } else if v == 3 {
        '3'
    } else if v == 4 {
        '4'
    } else if v == 5 {
        '5'
    } else if v == 6 {
        '6'
    } else if v == 7 {
        '7'
    } else if v == 8 {
        '8'
    } else if v == 9 {
        '9'
    } else if v == 10 {
        '='
    } else if v == 11 {
        '-'
    } else if v == 12 {
        '+'
    } else if v == 13 {
        '*'
    } else if v == 14 {
        '/'
    } else if v == 15 {
        '^'
    } else if v == 16 {
        'A'
    } else if v == 17 {
        'B'
    } else if v == 18 {
        'C'
    } else if v == 19 {
        'D'
    } else if v == 20 {
        'E'
    } else if v == 21 {
        'F'
    } else if v == 22 {
        'G'
    } else if v == 23 {
        'H'
    } else if v == 24 {
        'I'
    } else if v == 25 {
        'J'
    } else if v == 26 {
        'K'
    } else if v == 27 {
        'L'
    } else if v == 28 {
        'M'
    } else if v == 29 {
        'N'
    } else if v == 30 {
        'O'
    } else if v == 31 {
        'P'
    } else if v == 32 {
        'Q'
    } else if v == 33 {
        'R'
    } else if v == 34 {
        'S'
    } else if v == 35 {
        'T'
    } else if v == 36 {
        'U'
    } else if v == 37 {
        'V'
    } else if v == 38 {
        'W'
    } else if v == 39 {
        'X'
    } else if v == 40 {
        'Y'
    } else if v == 41 {
        'Z'
    } else if v == 42 {
        ' '
    } else if v == 43 {
        '.'
    } else if v == 44 {
        ','
    } else if v == 45 {
        '\''
    } else if v == 46 {
        '"'
    } else if v == 47 {
        '`'
    } else if v == 48 {
        '#'
    } else if v == 49 {
        '!'
    } else if v == 50 {
        '&'
    } else if v == 51 {
        '?'
    } else if v == 52 {
        ';'
    } else if v == 53 {
        ':'
    } else if v == 54 {
        '$'
    } else if v == 55 {
        '%'
    } else if v == 56 {
        '|'
    } else if v == 57 {
        '>'
    } else if v == 58 {
        '<'
    } else if v == 59 {
        '['
    } else if v == 60 {
        ']'
    } else if v == 61 {
        '('
    } else if v == 62 {
        ')'
    } else if v == 63 {
        '\\'
    } else {
        '\0'
    }
}

/// The pairs of codes and characters that a bimap holds.
pub uninterp spec fn pairs_of(m: BiHashMap<u8, char>) -> Set<(u8, char)>;

/// Relies on `BiHashMap::new`: an empty bimap.
#[verifier::external_body]
fn empty_table() -> (r: BiHashMap<u8, char>)
    ensures
        pairs_of(r) == Set::<(u8, char)>::empty(),
{
    BiHashMap::new()
}

/// Relies on `BiHashMap::insert_no_overwrite`: the pair is added when neither of its
/// values is in the bimap yet, and otherwise the bimap is unchanged.
#[verifier::external_body]
fn insert_new_pair(m: &mut BiHashMap<u8, char>, left: u8, right: char) -> (r: bool)
    ensures
        r == (!(exists|c: char| pairs_of(*old(m)).contains((left, c)))
            && !(exists|v: u8| pairs_of(*old(m)).contains((v, right)))),
        r ==> pairs_of(*final(m)) == pairs_of(*old(m)).insert((left, right)),
        !r ==> pairs_of(*final(m)) == pairs_of(*old(m)),
{
    m.insert_no_overwrite(left, right).is_ok()
}

/// Relies on `BiHashMap::get_by_left`: the character paired with a code, if any.
#[verifier::external_body]
fn right_of(m: &BiHashMap<u8, char>, left: u8) -> (r: Option<char>)
    ensures
        r matches Some(c) ==> pairs_of(*m).contains((left, c)),
        r is None ==> forall|c: char| !pairs_of(*m).contains((left, c)),
{
    m.get_by_left(&left).copied()
}

/// Relies on `BiHashMap::get_by_right`: the code paired with a character, if any.
#[verifier::external_body]
fn left_of(m: &BiHashMap<u8, char>, right: char) -> (r: Option<u8>)
    ensures
        r matches Some(v) ==> pairs_of(*m).contains((v, right)),
        r is None ==> forall|v: u8| !pairs_of(*m).contains((v, right)),
{
    m.get_by_right(&right).copied()
}

/// The pairs of the table for the codes below `n`.
pub open spec fn table_below(n: int) -> Set<(u8, char)> {
    Set::new(|p: (u8, char)| p.0 < n && p.1 == glyph(p.0))
}

/// The table gives each code its own character.
pub proof fn lemma_glyph_injective(a: u8, b: u8)
    requires
        a < 64,
        b < 64,
        glyph(a) == glyph(b),
    ensures
        a == b,
{
}

/// The bimap between the 64 codes and their characters.
pub fn character_table() -> (r: BiHashMap<u8, char>)
    ensures
        pairs_of(r) == table_below(64),
{
    let mut m = empty_table();
    let mut v: u8 = 0;
    assert(pairs_of(m) =~= table_below(0));
    while v < 64
        invariant
            v <= 64,
            pairs_of(m) == table_below(v as int),
        decreases 64 - v,
    {
        let c = glyph_of(v);
        proof {
            assert forall|x: char| !pairs_of(m).contains((v, x)) by {}
            assert forall|u: u8| !pairs_of(m).contains((u, c)) by {
                if pairs_of(m).contains((u, c)) {
                    lemma_glyph_injective(u, v);
                }
            }
        }
        let added = insert_new_pair(&mut m, v, c);
        assert(added);
        v = v + 1;
        assert(pairs_of(m) =~= table_below(v as int));
    }
    m
}

/// The character of a 6-bit code.
pub fn decode_character(v: u8) -> (r: char)
    requires
        v < 64,
    ensures
        r == glyph(v),
{
    let table = character_table();
    match right_of(&table, v) {
        Some(c) => c,
        None => {
            assert(pairs_of(table).contains((v, glyph(v))));
            glyph_of(v)
        },
    }
}

/// The code of a character, if the table has one.
pub open spec fn code_of(c: char) -> Option<u8> {
    if exists|v: u8| v < 64 && glyph(v) == c {
        Some(choose|v: u8| v < 64 && glyph(v) == c)
    } else {
        None
    }
}

/// The code of a character, if the table has it.
pub fn encode_character(c: char) -> (r: Option<u8>)
    ensures
        r matches Some(v) ==> v < 64 && glyph(v) == c,
        r is None ==> forall|v: u8| v < 64 ==> glyph(v) != c,
        r == code_of(c),
{
    let table = character_table();
    let r = left_of(&table, c);
    proof {
        if r is None {
            assert forall|v: u8| v < 64 implies glyph(v) != c by {
                if glyph(v) == c {
                    assert(pairs_of(table).contains((v, c)));
                }
            }
        } else {
            let v = r->Some_0;
            assert(pairs_of(table).contains((v, c)));
            let w = choose|w: u8| w < 64 && glyph(w) == c;
            lemma_glyph_injective(v, w);
        }
    }
    r
}

} // verus!
