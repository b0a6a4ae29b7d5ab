//! Case folding for the token alphabets the update protocol accepts.
//!
//! Instruction values are matched case-insensitively against a fixed set of
//! tokens (`socket`, `thermometer`, `on`/`off` and their Russian equivalents
//! `вкл`/`выкл`).  Folding therefore only needs to lower-case ASCII letters
//! and the basic Cyrillic block; every other character is left alone, which
//! makes any value containing one fail to match every token, upper case or
//! not.

use vstd::prelude::*;

verus! {

/// Lower-case image of one character: ASCII `A`..`Z` and the Cyrillic
/// letters `А`..`Я` and `Ё` are mapped to their lower-case forms, all
/// other characters are unchanged.
pub open spec fn fold_char(c: char) -> char {
    if 'A' <= c && c <= 'Z' {
        ((c as u32) + 32) as char
    } else if '\u{0410}' <= c && c <= '\u{042f}' {
        ((c as u32) + 32) as char
    } else if c == '\u{0401}' {
        '\u{0451}'
    } else {
        c
    }
}

/// Character-wise lower-case image of a string.
pub open spec fn fold_seq(s: Seq<char>) -> Seq<char> {
    s.map_values(|c: char| fold_char(c))
}

fn fold_char_exec(c: char) -> (r: char)
    ensures
        r == fold_char(c),
{
    if 'A' <= c && c <= 'Z' {
        (((c as u32) + 32) as u8) as char
    } else {
        match c {
            'А' => 'а',
            'Б' => 'б',
            'В' => 'в',
            'Г' => 'г',
            'Д' => 'д',
            'Е' => 'е',
            'Ж' => 'ж',
            'З' => 'з',
            'И' => 'и',
            'Й' => 'й',
            'К' => 'к',
            'Л' => 'л',
            'М' => 'м',
            'Н' => 'н',
            'О' => 'о',
            'П' => 'п',
            'Р' => 'р',
            'С' => 'с',
            'Т' => 'т',
            'У' => 'у',
            'Ф' => 'ф',
            'Х' => 'х',
            'Ц' => 'ц',
            'Ч' => 'ч',
            'Ш' => 'ш',
            'Щ' => 'щ',
            'Ъ' => 'ъ',
            'Ы' => 'ы',
            'Ь' => 'ь',
            'Э' => 'э',
            'Ю' => 'ю',
            'Я' => 'я',
            'Ё' => 'ё',
            _ => c,
        }
    }
}

/// Does `s`, lower-cased, equal the (already lower-case) token `t`?
pub fn eq_folded(s: &str, t: &str) -> (r: bool)
    ensures
        r == (fold_seq(s@) == t@),
{
    let n = s.unicode_len();
    let m = t.unicode_len();
    if n != m {
        proof {
            assert(fold_seq(s@).len() == s@.len());
        }
        return false;
    }
    let mut i: usize = 0;
    while i < n
        invariant
            n == s@.len(),
            n == t@.len(),
            0 <= i <= n,
            forall|j: int| 0 <= j < i ==> fold_char(s@[j]) == t@[j],
        decreases n - i,
    {
        let c = s.get_char(i);
        let d = t.get_char(i);
        if fold_char_exec(c) != d {
            proof {
                assert(fold_seq(s@)[i as int] != t@[i as int]);
            }
            return false;
        }
        i += 1;
    }
    proof {
        assert(fold_seq(s@) =~= t@);
    }
    true
}

/// Exact (case-sensitive) string comparison.
pub fn str_eq(a: &str, b: &str) -> (r: bool)
    ensures
        r == (a@ == b@),
{
    let sa = a.to_owned();
    let sb = b.to_owned();
    sa.eq(&sb)
}

} // verus!
