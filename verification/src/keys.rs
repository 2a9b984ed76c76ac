//! Comparison keys for names and labels: lowercased alphanumeric runs joined
//! by `_`, with or without folding Vietnamese letters to ASCII, and ASCII
//! snake_case keys for field names.
use vstd::prelude::*;
use crate::text::{
    char_is_alphanumeric, char_to_lowercase, chars_of, char_lowercase, is_alnum, is_ascii_alnum,
    is_ascii_digit, is_ascii_lower, owned, string_of, trim, trim_bounds, vec_range,
};

verus! {

// ------------------------------------------------------------------------
// Folding Vietnamese letters.
// ------------------------------------------------------------------------
/// The ASCII letter or digit a lowercase letter folds to: ASCII letters and
/// digits stay, Vietnamese vowels lose their marks, `đ` becomes `d`.
pub open spec fn fold_key(c: char) -> Option<char> {
    if ('a' <= c && c <= 'z') || ('0' <= c && c <= '9') {
        Some(c)
    } else if c == 'à' || c == 'á' || c == 'ả' || c == 'ã' || c == 'ạ' || c == 'ă' || c == 'ằ'
        || c == 'ắ' || c == 'ẳ' || c == 'ẵ' || c == 'ặ' || c == 'â' || c == 'ầ' || c == 'ấ'
        || c == 'ẩ' || c == 'ẫ' || c == 'ậ' {
        Some('a')
    } else if c == 'è' || c == 'é' || c == 'ẻ' || c == 'ẽ' || c == 'ẹ' || c == 'ê' || c == 'ề'
        || c == 'ế' || c == 'ể' || c == 'ễ' || c == 'ệ' {
        Some('e')
    } else if c == 'ì' || c == 'í' || c == 'ỉ' || c == 'ĩ' || c == 'ị' {
        Some('i')
    } else if c == 'ò' || c == 'ó' || c == 'ỏ' || c == 'õ' || c == 'ọ' || c == 'ô' || c == 'ồ'
        || c == 'ố' || c == 'ổ' || c == 'ỗ' || c == 'ộ' || c == 'ơ' || c == 'ờ' || c == 'ớ'
        || c == 'ở' || c == 'ỡ' || c == 'ợ' {
        Some('o')
    } else if c == 'ù' || c == 'ú' || c == 'ủ' || c == 'ũ' || c == 'ụ' || c == 'ư' || c == 'ừ'
        || c == 'ứ' || c == 'ử' || c == 'ữ' || c == 'ự' {
        Some('u')
    } else if c == 'ỳ' || c == 'ý' || c == 'ỷ' || c == 'ỹ' || c == 'ỵ' {
        Some('y')
    } else if c == 'đ' {
        Some('d')
    } else {
        None
    }
}

pub fn fold_key_char(c: char) -> (r: Option<char>)
    ensures
        r == fold_key(c),
{
    match c {
        'a'..='z' | '0'..='9' => Some(c),
        'à' | 'á' | 'ả' | 'ã' | 'ạ' | 'ă' | 'ằ' | 'ắ' | 'ẳ' | 'ẵ' | 'ặ' | 'â' | 'ầ' | 'ấ' | 'ẩ'
        | 'ẫ' | 'ậ' => Some('a'),
        'è' | 'é' | 'ẻ' | 'ẽ' | 'ẹ' | 'ê' | 'ề' | 'ế' | 'ể' | 'ễ' | 'ệ' => Some('e'),
        'ì' | 'í' | 'ỉ' | 'ĩ' | 'ị' => Some('i'),
        'ò' | 'ó' | 'ỏ' | 'õ' | 'ọ' | 'ô' | 'ồ' | 'ố' | 'ổ' | 'ỗ' | 'ộ' | 'ơ' | 'ờ' | 'ớ' | 'ở'
        | 'ỡ' | 'ợ' => Some('o'),
        'ù' | 'ú' | 'ủ' | 'ũ' | 'ụ' | 'ư' | 'ừ' | 'ứ' | 'ử' | 'ữ' | 'ự' => Some('u'),
        'ỳ' | 'ý' | 'ỷ' | 'ỹ' | 'ỵ' => Some('y'),
        'đ' => Some('d'),
        _ => None,
    }
}

// ------------------------------------------------------------------------
// Lowercasing.
// ------------------------------------------------------------------------
/// `s.chars().flat_map(char::to_lowercase)`.
pub open spec fn lower_all(s: Seq<char>) -> Seq<char>
    decreases s.len(),
{
    if s.len() == 0 {
        seq![]
    } else {
        lower_all(s.drop_last()) + char_lowercase(s.last())
    }
}

/// The lowercase of every char, in order.
pub fn lowercase_chars(cs: &Vec<char>) -> (r: Vec<char>)
    ensures
        r@ == lower_all(cs@),
{
    let mut out: Vec<char> = Vec::new();
    let mut i: usize = 0;
    while i < cs.len()
        invariant
            0 <= i <= cs@.len(),
            out@ == lower_all(cs@.take(i as int)),
        decreases cs@.len() - i,
    {
        let lower = char_to_lowercase(cs[i]);
        let mut j: usize = 0;
        while j < lower.len()
            invariant
                0 <= j <= lower@.len(),
                out@ == lower_all(cs@.take(i as int)) + lower@.take(j as int),
            decreases lower@.len() - j,
        {
            out.push(lower[j]);
            proof {
                assert(lower@.take(j + 1) =~= lower@.take(j as int).push(lower@[j as int]));
            }
            j += 1;
        }
        proof {
            assert(cs@.take(i + 1).drop_last() =~= cs@.take(i as int));
            assert(lower@.take(j as int) =~= lower@);
        }
        i += 1;
    }
    proof {
        assert(cs@.take(cs@.len() as int) =~= cs@);
    }
    out
}

// ------------------------------------------------------------------------
// Keys.
// ------------------------------------------------------------------------
/// How a key treats a lowercase char: the char it keeps, or none for a separator.
pub open spec fn key_char(c: char, folded: bool) -> Option<char> {
    if folded {
        if is_ascii_alnum(c) {
            Some(c)
        } else if fold_key(c) is Some {
            fold_key(c)
        } else if is_alnum(c) {
            Some(c)
        } else {
            None
        }
    } else if is_alnum(c) {
        Some(c)
    } else {
        None
    }
}

/// The key of lowercase text, before trailing separators go: kept chars in
/// order, each run of other chars after a kept one giving one `_`. The flag
/// says whether the last thing written was a separator (or nothing yet).
pub open spec fn key_scan(s: Seq<char>, folded: bool) -> (Seq<char>, bool)
    decreases s.len(),
{
    if s.len() == 0 {
        (seq![], true)
    } else {
        let (prev, sep) = key_scan(s.drop_last(), folded);
        match key_char(s.last(), folded) {
            Some(k) => (prev.push(k), false),
            None => if !sep {
                (prev.push('_'), true)
            } else {
                (prev, sep)
            },
        }
    }
}

/// `s` without its trailing `c` characters.
pub open spec fn strip_trailing(s: Seq<char>, c: char) -> Seq<char>
    decreases s.len(),
{
    if s.len() > 0 && s.last() == c {
        strip_trailing(s.drop_last(), c)
    } else {
        s
    }
}

/// The key of a text: trimmed, lowercased, its runs of kept chars joined by `_`.
pub open spec fn text_key(value: Seq<char>, folded: bool) -> Seq<char> {
    strip_trailing(key_scan(lower_all(trim(value)), folded).0, '_')
}

fn key_char_exec(c: char, folded: bool) -> (r: Option<char>)
    ensures
        r == key_char(c, folded),
{
    if folded {
        if ('a' <= c && c <= 'z') || ('A' <= c && c <= 'Z') || ('0' <= c && c <= '9') {
            Some(c)
        } else {
            match fold_key_char(c) {
                Some(a) => Some(a),
                None => if char_is_alphanumeric(c) {
                    Some(c)
                } else {
                    None
                },
            }
        }
    } else if char_is_alphanumeric(c) {
        Some(c)
    } else {
        None
    }
}

/// Drops trailing `c` characters.
pub fn pop_trailing(out: &mut Vec<char>, c: char)
    ensures
        final(out)@ == strip_trailing(old(out)@, c),
{
    while out.len() > 0 && out[out.len() - 1] == c
        invariant
            strip_trailing(out@, c) == strip_trailing(old(out)@, c),
        decreases out@.len(),
    {
        proof {
            assert(out@.last() == c);
        }
        out.pop();
        proof {
            assert(strip_trailing(old(out)@, c) == strip_trailing(out@, c));
        }
    }
}

fn key_of(value: &str, folded: bool) -> (r: String)
    ensures
        r@ == text_key(value@, folded),
{
    let cs = chars_of(value);
    let (a, b) = trim_bounds(&cs);
    let trimmed = vec_range(&cs, a, b);
    let lowered = lowercase_chars(&trimmed);
    let mut out: Vec<char> = Vec::new();
    let mut sep = true;
    let mut i: usize = 0;
    while i < lowered.len()
        invariant
            0 <= i <= lowered@.len(),
            (out@, sep) == key_scan(lowered@.take(i as int), folded),
        decreases lowered@.len() - i,
    {
        proof {
            assert(lowered@.take(i + 1).drop_last() =~= lowered@.take(i as int));
        }
        match key_char_exec(lowered[i], folded) {
            Some(k) => {
                out.push(k);
                sep = false;
            },
            None => {
                if !sep {
                    out.push('_');
                    sep = true;
                }
            },
        }
        i += 1;
    }
    proof {
        assert(lowered@.take(lowered@.len() as int) =~= lowered@);
    }
    pop_trailing(&mut out, '_');
    string_of(&out)
}

/// The key two names are compared by: lowercase alphanumeric runs joined by `_`.
pub fn normalized_text_key(value: &str) -> (r: String)
    ensures
        r@ == text_key(value@, false),
{
    key_of(value, false)
}

/// The same key with Vietnamese letters folded to ASCII.
pub fn normalized_folded_text_key(value: &str) -> (r: String)
    ensures
        r@ == text_key(value@, true),
{
    key_of(value, true)
}

// ------------------------------------------------------------------------
// ASCII snake_case keys.
// ------------------------------------------------------------------------
pub open spec fn is_snake_char(c: char) -> bool {
    is_ascii_lower(c) || is_ascii_digit(c) || c == '_'
}

/// A snake_case key: starts with a lowercase ASCII letter, then lowercase
/// letters, digits and single underscores, not ending in one.
pub open spec fn is_snake_key(s: Seq<char>) -> bool {
    &&& s.len() > 0
    &&& is_ascii_lower(s[0])
    &&& s.last() != '_'
    &&& forall|i: int| 0 <= i < s.len() ==> is_snake_char(#[trigger] s[i])
    &&& forall|i: int| 0 <= i < s.len() - 1 ==> !(#[trigger] s[i] == '_' && s[i + 1] == '_')
}

pub fn is_ascii_snake_key(value: &str) -> (r: bool)
    ensures
        r == is_snake_key(value@),
{
    let cs = chars_of(value);
    let n = cs.len();
    if n == 0 || !('a' <= cs[0] && cs[0] <= 'z') || cs[n - 1] == '_' {
        return false;
    }
    let mut i: usize = 0;
    while i < n
        invariant
            cs@ == value@,
            n == cs@.len(),
            0 <= i <= n,
            forall|k: int| 0 <= k < i ==> is_snake_char(#[trigger] cs@[k]),
            forall|k: int| 0 <= k < i && k < n - 1 ==> !(#[trigger] cs@[k] == '_' && cs@[k + 1] == '_'),
        decreases n - i,
    {
        let c = cs[i];
        if !(('a' <= c && c <= 'z') || ('0' <= c && c <= '9') || c == '_') {
            assert(!is_snake_char(value@[i as int]));
            return false;
        }
        if c == '_' && i + 1 < n && cs[i + 1] == '_' {
            assert(value@[i as int] == '_' && value@[i + 1] == '_');
            return false;
        }
        i += 1;
    }
    true
}

/// The snake_case form of a label: kept as it is when it already is one;
/// otherwise its folded letters and digits, runs of anything else becoming one
/// `_`; `field` when nothing is left, and `field_` before a leading digit.
pub open spec fn snake_key(value: Seq<char>) -> Seq<char> {
    let t = trim(value);
    if is_snake_key(t) {
        t
    } else {
        let k = strip_trailing(fold_scan(lower_all(t)).0, '_');
        if k.len() == 0 {
            "field"@
        } else if !is_ascii_lower(k[0]) {
            "field_"@ + k
        } else {
            k
        }
    }
}

/// Like `key_scan`, keeping only the chars that fold to ASCII.
pub open spec fn fold_scan(s: Seq<char>) -> (Seq<char>, bool)
    decreases s.len(),
{
    if s.len() == 0 {
        (seq![], true)
    } else {
        let (prev, sep) = fold_scan(s.drop_last());
        match fold_key(s.last()) {
            Some(k) => (prev.push(k), false),
            None => if !sep {
                (prev.push('_'), true)
            } else {
                (prev, sep)
            },
        }
    }
}

pub fn normalize_ascii_snake_key(value: &str) -> (r: String)
    ensures
        r@ == snake_key(value@),
{
    let cs = chars_of(value);
    let (a, b) = trim_bounds(&cs);
    let trimmed = vec_range(&cs, a, b);
    let trimmed_text = string_of(&trimmed);
    if is_ascii_snake_key(trimmed_text.as_str()) {
        return trimmed_text;
    }
    let lowered = lowercase_chars(&trimmed);
    let mut out: Vec<char> = Vec::new();
    let mut sep = true;
    let mut i: usize = 0;
    while i < lowered.len()
        invariant
            0 <= i <= lowered@.len(),
            (out@, sep) == fold_scan(lowered@.take(i as int)),
        decreases lowered@.len() - i,
    {
        proof {
            assert(lowered@.take(i + 1).drop_last() =~= lowered@.take(i as int));
        }
        match fold_key_char(lowered[i]) {
            Some(k) => {
                out.push(k);
                sep = false;
            },
            None => {
                if !sep {
                    out.push('_');
                    sep = true;
                }
            },
        }
        i += 1;
    }
    proof {
        assert(lowered@.take(lowered@.len() as int) =~= lowered@);
    }
    pop_trailing(&mut out, '_');
    if out.len() == 0 {
        return owned("field");
    }
    let key = string_of(&out);
    if !('a' <= out[0] && out[0] <= 'z') {
        let mut prefixed = owned("field_");
        crate::text::push_str(&mut prefixed, key.as_str());
        return prefixed;
    }
    key
}

// ------------------------------------------------------------------------
// What a snake key is.
// ------------------------------------------------------------------------
proof fn lemma_fold_key_ascii(c: char)
    ensures
        fold_key(c) matches Some(k) ==> is_ascii_lower(k) || is_ascii_digit(k),
{
}

proof fn lemma_fold_scan_shape(s: Seq<char>)
    ensures
        forall|i: int| 0 <= i < fold_scan(s).0.len() ==> is_snake_char(#[trigger] fold_scan(s).0[i]),
        fold_scan(s).0.len() > 0 ==> fold_scan(s).0[0] != '_',
        forall|i: int|
            0 <= i < fold_scan(s).0.len() - 1 ==> !(#[trigger] fold_scan(s).0[i] == '_'
                && fold_scan(s).0[i + 1] == '_'),
        fold_scan(s).1 <==> (fold_scan(s).0.len() == 0 || fold_scan(s).0.last() == '_'),
    decreases s.len(),
{
    if s.len() > 0 {
        lemma_fold_scan_shape(s.drop_last());
        lemma_fold_key_ascii(s.last());
        let (prev, sep) = fold_scan(s.drop_last());
        let o = fold_scan(s).0;
        assert forall|i: int| 0 <= i < o.len() implies is_snake_char(#[trigger] o[i]) by {
            if i < prev.len() {
                assert(o[i] == prev[i]);
            }
        }
        assert forall|i: int| 0 <= i < o.len() - 1 implies !(#[trigger] o[i] == '_' && o[i + 1] == '_') by {
            if i + 1 < prev.len() {
                assert(o[i] == prev[i] && o[i + 1] == prev[i + 1]);
            } else if i < prev.len() {
                assert(o[i] == prev[i]);
            }
        }
        if o.len() > 0 && prev.len() > 0 {
            assert(o[0] == prev[0]);
        }
    }
}

proof fn lemma_strip_trailing_prefix(s: Seq<char>, c: char)
    ensures
        strip_trailing(s, c).len() <= s.len(),
        strip_trailing(s, c) == s.take(strip_trailing(s, c).len() as int),
        strip_trailing(s, c).len() > 0 ==> strip_trailing(s, c).last() != c,
    decreases s.len(),
{
    if s.len() > 0 && s.last() == c {
        lemma_strip_trailing_prefix(s.drop_last(), c);
        let r = strip_trailing(s.drop_last(), c);
        assert(s.drop_last().take(r.len() as int) =~= s.take(r.len() as int));
    } else {
        assert(s.take(s.len() as int) =~= s);
    }
}

proof fn lemma_snake_key_trimmed(s: Seq<char>)
    requires
        is_snake_key(s),
    ensures
        trim(s) == s,
{
    assert(is_snake_char(s[0]));
    assert(is_snake_char(s[s.len() - 1]));
}

/// Every snake key is well formed: a lowercase ASCII letter first, then
/// lowercase letters, digits and single underscores, none at the end. Taking
/// the snake key of a snake key changes nothing, and a label that is already
/// a snake key once trimmed is kept as it is.
pub proof fn lemma_snake_key_well_formed(value: Seq<char>)
    ensures
        is_snake_key(snake_key(value)),
        snake_key(snake_key(value)) == snake_key(value),
        is_snake_key(trim(value)) ==> snake_key(value) == trim(value),
{
    let t = trim(value);
    if !is_snake_key(t) {
        let o = fold_scan(lower_all(t)).0;
        lemma_fold_scan_shape(lower_all(t));
        lemma_strip_trailing_prefix(o, '_');
        let k = strip_trailing(o, '_');
        assert forall|i: int| 0 <= i < k.len() implies is_snake_char(#[trigger] k[i]) by {
            assert(k[i] == o[i]);
        }
        assert forall|i: int| 0 <= i < k.len() - 1 implies !(#[trigger] k[i] == '_' && k[i + 1] == '_') by {
            assert(k[i] == o[i] && k[i + 1] == o[i + 1]);
        }
        if k.len() > 0 {
            assert(k[0] == o[0]);
        }
        if k.len() == 0 {
            reveal_strlit("field");
            let f = "field"@;
            assert(f.len() == 5 && f[0] == 'f' && f[1] == 'i' && f[2] == 'e' && f[3] == 'l' && f[4] == 'd');
            assert(is_snake_key(f));
        } else if !is_ascii_lower(k[0]) {
            reveal_strlit("field_");
            let f = "field_"@;
            let r = f + k;
            assert(f.len() == 6 && f[0] == 'f' && f[5] == '_');
            assert(is_ascii_digit(k[0]));
            assert forall|i: int| 0 <= i < r.len() implies is_snake_char(#[trigger] r[i]) by {
                if i >= 6 {
                    assert(r[i] == k[i - 6]);
                }
            }
            assert forall|i: int| 0 <= i < r.len() - 1 implies !(#[trigger] r[i] == '_' && r[i + 1] == '_') by {
                if i >= 6 {
                    assert(r[i] == k[i - 6] && r[i + 1] == k[i - 5]);
                } else if i == 5 {
                    assert(r[i + 1] == k[0]);
                }
            }
            assert(r.last() == k.last());
            assert(is_snake_key(r));
        }
    }
    lemma_snake_key_trimmed(snake_key(value));
}

} // verus!
