//! Removal of API keys and bearer tokens from provider error bodies before
//! they are shown or stored.
use vstd::prelude::*;
use crate::text::{
    ascii_lower_seq, char_is_ascii_alnum, char_is_whitespace, chars_of, is_ascii_alnum, is_ws,
    owned, push_char, push_chars, push_str, trim, trim_bounds, string_of_range,
};
use crate::config::to_ascii_lowercase;

verus! {

// ------------------------------------------------------------------------
// Google API keys: "AIza" followed by ASCII letters and digits, 16 chars or more.
// ------------------------------------------------------------------------
/// The end of the run of ASCII letters and digits that starts at `j`.
pub open spec fn alnum_run_end(s: Seq<char>, j: int) -> int
    decreases s.len() - j,
{
    if j < 0 || j >= s.len() || !is_ascii_alnum(s[j]) {
        j
    } else {
        alnum_run_end(s, j + 1)
    }
}

pub proof fn lemma_alnum_run_end(s: Seq<char>, j: int)
    requires
        0 <= j <= s.len(),
    ensures
        j <= alnum_run_end(s, j) <= s.len(),
        forall|k: int| j <= k < alnum_run_end(s, j) ==> is_ascii_alnum(#[trigger] s[k]),
    decreases s.len() - j,
{
    if j < s.len() && is_ascii_alnum(s[j]) {
        lemma_alnum_run_end(s, j + 1);
    }
}

/// Where the API key that starts at `i` ends, if one starts there.
pub open spec fn api_key_end(s: Seq<char>, i: int) -> Option<int> {
    if 0 <= i && i + 4 <= s.len() && s[i] == 'A' && s[i + 1] == 'I' && s[i + 2] == 'z' && s[i
        + 3] == 'a' && alnum_run_end(s, i + 4) - i >= 16 {
        Some(alnum_run_end(s, i + 4))
    } else {
        None
    }
}

/// The text from `i` on with every API key replaced by `[redacted_api_key]`.
pub open spec fn redact_keys_from(s: Seq<char>, i: int) -> Seq<char>
    decreases s.len() - i,
{
    if i < 0 || i >= s.len() {
        Seq::empty()
    } else {
        match api_key_end(s, i) {
            Some(e) => {
                proof {
                    lemma_alnum_run_end(s, i + 4);
                }
                "[redacted_api_key]"@ + redact_keys_from(s, e)
            },
            None => seq![s[i]] + redact_keys_from(s, i + 1),
        }
    }
}

/// Replaces every Google API key in the text by `[redacted_api_key]`.
pub fn redact_google_api_keys(value: &str) -> (r: String)
    ensures
        r@ == redact_keys_from(value@, 0),
{
    let chars = chars_of(value);
    let ghost s = chars@;
    let mut output = String::new();
    let mut index: usize = 0;
    while index < chars.len()
        invariant
            s == chars@,
            0 <= index <= s.len(),
            redact_keys_from(s, 0) == output@ + redact_keys_from(s, index as int),
        decreases s.len() - index,
    {
        if chars.len() - index >= 4 && chars[index] == 'A' && chars[index + 1] == 'I'
            && chars[index + 2] == 'z' && chars[index + 3] == 'a' {
            let mut end = index + 4;
            while end < chars.len() && char_is_ascii_alnum(chars[end])
                invariant
                    s == chars@,
                    index + 4 <= end <= s.len(),
                    alnum_run_end(s, index + 4) == alnum_run_end(s, end as int),
                decreases s.len() - end,
            {
                end += 1;
            }
            if end - index >= 16 {
                push_str(&mut output, "[redacted_api_key]");
                index = end;
                continue;
            }
        }
        push_char(&mut output, chars[index]);
        index += 1;
    }
    output
}

// ------------------------------------------------------------------------
// Bearer tokens: the word after "bearer" (any ASCII case) is replaced.
// ------------------------------------------------------------------------
/// The whitespace-separated words of `s`, as `split_whitespace` yields them.
pub open spec fn words(s: Seq<char>) -> Seq<Seq<char>>
    decreases s.len(),
{
    if s.len() == 0 {
        Seq::empty()
    } else {
        let prev = words(s.drop_last());
        let c = s.last();
        if is_ws(c) {
            prev
        } else if s.len() >= 2 && !is_ws(s[s.len() - 2]) && prev.len() > 0 {
            prev.update(prev.len() - 1, prev.last().push(c))
        } else {
            prev.push(seq![c])
        }
    }
}

/// Words joined by `sep`.
pub open spec fn join_words(ws: Seq<Seq<char>>, sep: Seq<char>) -> Seq<char>
    decreases ws.len(),
{
    if ws.len() == 0 {
        Seq::empty()
    } else if ws.len() == 1 {
        ws[0]
    } else {
        join_words(ws.drop_last(), sep) + sep + ws.last()
    }
}

pub open spec fn eq_ignore_ascii_case(a: Seq<char>, b: Seq<char>) -> bool {
    ascii_lower_seq(a) == ascii_lower_seq(b)
}

/// The words with each word that follows a (kept) "bearer" word replaced by
/// `[redacted_token]`, and whether the last kept word is "bearer".
pub open spec fn redact_token_scan(ws: Seq<Seq<char>>) -> (Seq<Seq<char>>, bool)
    decreases ws.len(),
{
    if ws.len() == 0 {
        (Seq::empty(), false)
    } else {
        let (prev, seen_bearer) = redact_token_scan(ws.drop_last());
        if seen_bearer {
            (prev.push("[redacted_token]"@), false)
        } else {
            (prev.push(ws.last()), eq_ignore_ascii_case(ws.last(), "bearer"@))
        }
    }
}

/// The text with the token after each "Bearer" redacted, words joined by one space.
pub open spec fn redact_bearer(s: Seq<char>) -> Seq<char> {
    join_words(redact_token_scan(words(s)).0, " "@)
}

pub open spec fn views_of(v: Seq<Vec<char>>) -> Seq<Seq<char>> {
    v.map_values(|w: Vec<char>| w@)
}

/// The words of a text, split at whitespace, word by word.
pub fn split_whitespace(cs: &Vec<char>) -> (r: Vec<Vec<char>>)
    ensures
        views_of(r@) == words(cs@),
{
    let mut out: Vec<Vec<char>> = Vec::new();
    let mut i: usize = 0;
    proof {
        assert(views_of(out@) =~= words(cs@.take(0)));
    }
    while i < cs.len()
        invariant
            0 <= i <= cs@.len(),
            views_of(out@) == words(cs@.take(i as int)),
        decreases cs@.len() - i,
    {
        let c = cs[i];
        proof {
            assert(cs@.take(i + 1).drop_last() =~= cs@.take(i as int));
        }
        let ghost before = views_of(out@);
        if char_is_whitespace(c) {
        } else if i >= 1 && !char_is_whitespace(cs[i - 1]) && out.len() > 0 {
            let mut last = out.pop().unwrap();
            last.push(c);
            out.push(last);
            proof {
                assert(views_of(out@) =~= before.update(before.len() - 1, before.last().push(c)));
            }
        } else {
            let mut w: Vec<char> = Vec::new();
            w.push(c);
            out.push(w);
            proof {
                assert(views_of(out@) =~= before.push(seq![c]));
            }
        }
        i += 1;
    }
    proof {
        assert(cs@.take(cs@.len() as int) =~= cs@);
    }
    out
}

fn is_bearer(word: &Vec<char>) -> (r: bool)
    ensures
        r == eq_ignore_ascii_case(word@, "bearer"@),
{
    let lower = to_ascii_lowercase(word);
    let b = chars_of("bearer");
    let bl = to_ascii_lowercase(&b);
    crate::text::chars_eq(&lower, &bl)
}

/// Replaces the token after each "Bearer" by `[redacted_token]`; the words of
/// the result are separated by single spaces.
pub fn redact_bearer_tokens(value: &str) -> (r: String)
    ensures
        r@ == redact_bearer(value@),
{
    let cs = chars_of(value);
    let ws = split_whitespace(&cs);
    let ghost all = views_of(ws@);
    let mut output = String::new();
    let mut seen_bearer = false;
    let mut k: usize = 0;
    while k < ws.len()
        invariant
            all == views_of(ws@),
            all == words(cs@),
            0 <= k <= ws@.len(),
            redact_token_scan(all.take(k as int)).1 == seen_bearer,
            output@ == join_words(redact_token_scan(all.take(k as int)).0, " "@),
            redact_token_scan(all.take(k as int)).0.len() == k,
        decreases ws@.len() - k,
    {
        proof {
            assert(all.take(k + 1).drop_last() =~= all.take(k as int));
            assert(all.take(k + 1).last() == ws@[k as int]@);
        }
        let ghost out_before = output@;
        if k > 0 {
            push_char(&mut output, ' ');
        }
        let ghost piece: Seq<char>;
        if seen_bearer {
            push_str(&mut output, "[redacted_token]");
            seen_bearer = false;
            proof {
                piece = "[redacted_token]"@;
            }
        } else {
            let w = &ws[k];
            push_chars(&mut output, w, 0, w.len());
            proof {
                assert(w@.subrange(0, w@.len() as int) =~= w@);
            }
            seen_bearer = is_bearer(w);
            proof {
                piece = w@;
            }
        }
        proof {
            let prev = redact_token_scan(all.take(k as int)).0;
            let next = redact_token_scan(all.take(k + 1)).0;
            assert(next =~= prev.push(piece));
            assert(next.drop_last() =~= prev);
            if k == 0 {
                assert(next.len() == 1);
                assert(output@ =~= piece);
            } else {
                reveal_strlit(" ");
                assert(output@ =~= out_before + " "@ + piece);
            }
        }
        k += 1;
    }
    proof {
        assert(all.take(ws@.len() as int) =~= all);
    }
    output
}

/// The redacted error body: API keys and bearer tokens removed, trimmed, and a
/// fixed message when nothing is left.
pub open spec fn redacted_error_message(body: Seq<char>) -> Seq<char> {
    let t = trim(redact_bearer(redact_keys_from(body, 0)));
    if t.len() == 0 {
        "provider request failed"@
    } else {
        t
    }
}

/// Removes secrets from a provider error body.
pub fn redact_provider_error_message(body: &str) -> (r: String)
    ensures
        r@ == redacted_error_message(body@),
{
    let keys = redact_google_api_keys(body);
    let bearer = redact_bearer_tokens(keys.as_str());
    let cs = chars_of(bearer.as_str());
    let (a, b) = trim_bounds(&cs);
    if a == b {
        owned("provider request failed")
    } else {
        string_of_range(&cs, a, b)
    }
}

} // verus!
