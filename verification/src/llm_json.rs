//! Text handling around model JSON output: locating the JSON array or object
//! in a reply, escaping raw control characters inside JSON strings, truncating
//! long replies, and adding up token counts.
use vstd::prelude::*;
use crate::ai::{ChatCompletionResponse, StructuredGenerationUsage};
use crate::text::{char_is_control, chars_of, is_control, push_char, push_str, string_of_range};

verus! {

// ------------------------------------------------------------------------
// Locating JSON in a reply.
// ------------------------------------------------------------------------
/// Index of the first `c` in `s`.
pub open spec fn first_index_of(s: Seq<char>, c: char) -> Option<int> {
    if exists|i: int| 0 <= i < s.len() && s[i] == c {
        Some(choose|i: int| 0 <= i < s.len() && s[i] == c && forall|j: int| 0 <= j < i ==> s[j] != c)
    } else {
        None
    }
}

/// Index of the last `c` in `s`.
pub open spec fn last_index_of(s: Seq<char>, c: char) -> Option<int> {
    if exists|i: int| 0 <= i < s.len() && s[i] == c {
        Some(
            choose|i: int|
                0 <= i < s.len() && s[i] == c && forall|j: int| i < j < s.len() ==> s[j] != c,
        )
    } else {
        None
    }
}

fn find_first(cs: &Vec<char>, c: char) -> (r: Option<usize>)
    ensures
        match r {
            Some(i) => i < cs@.len() && cs@[i as int] == c && forall|j: int|
                0 <= j < i ==> cs@[j] != c,
            None => forall|j: int| 0 <= j < cs@.len() ==> cs@[j] != c,
        },
        opt_int(r) == first_index_of(cs@, c),
{
    let mut i: usize = 0;
    while i < cs.len()
        invariant
            0 <= i <= cs@.len(),
            forall|j: int| 0 <= j < i ==> cs@[j] != c,
        decreases cs@.len() - i,
    {
        if cs[i] == c {
            proof {
                let s = cs@;
                let w = choose|k: int|
                    0 <= k < s.len() && s[k] == c && forall|j: int| 0 <= j < k ==> s[j] != c;
                assert(0 <= i < s.len() && s[i as int] == c && forall|j: int|
                    0 <= j < i ==> s[j] != c);
                if w < i {
                } else if w > i {
                }
            }
            return Some(i);
        }
        i += 1;
    }
    None
}

fn find_last(cs: &Vec<char>, c: char) -> (r: Option<usize>)
    ensures
        match r {
            Some(i) => i < cs@.len() && cs@[i as int] == c && forall|j: int|
                i < j < cs@.len() ==> cs@[j] != c,
            None => forall|j: int| 0 <= j < cs@.len() ==> cs@[j] != c,
        },
        opt_int(r) == last_index_of(cs@, c),
{
    let mut i: usize = cs.len();
    while i > 0
        invariant
            0 <= i <= cs@.len(),
            forall|j: int| i <= j < cs@.len() ==> cs@[j] != c,
        decreases i,
    {
        if cs[i - 1] == c {
            proof {
                let s = cs@;
                let w = choose|k: int|
                    0 <= k < s.len() && s[k] == c && forall|j: int| k < j < s.len() ==> s[j] != c;
                assert(0 <= i - 1 < s.len() && s[i - 1] == c && forall|j: int|
                    i - 1 < j < s.len() ==> s[j] != c);
                if w < i - 1 {
                } else if w > i - 1 {
                }
            }
            return Some(i - 1);
        }
        i -= 1;
    }
    None
}

pub open spec fn opt_int(o: Option<usize>) -> Option<int> {
    match o {
        Some(i) => Some(i as int),
        None => None,
    }
}

/// The text from the first `open` to the last `close`, both included, when
/// the first comes before the last.
pub open spec fn enclosed_span(s: Seq<char>, open: char, close: char) -> Option<Seq<char>> {
    match (first_index_of(s, open), last_index_of(s, close)) {
        (Some(a), Some(b)) => if b <= a {
            None
        } else {
            Some(s.subrange(a, b + 1))
        },
        _ => None,
    }
}

fn extract_enclosed(content: &str, open: char, close: char) -> (r: Option<String>)
    ensures
        crate::text::opt_view(r) == enclosed_span(content@, open, close),
{
    let cs = chars_of(content);
    let start = match find_first(&cs, open) {
        Some(i) => i,
        None => return None,
    };
    let end = match find_last(&cs, close) {
        Some(i) => i,
        None => return None,
    };
    if end <= start {
        return None;
    }
    assert(cs@.len() == cs.len());
    Some(string_of_range(&cs, start, end + 1))
}

proof fn lemma_first_index(s: Seq<char>, c: char)
    ensures
        match first_index_of(s, c) {
            Some(i) => 0 <= i < s.len() && s[i] == c && forall|j: int| 0 <= j < i ==> s[j] != c,
            None => forall|j: int| 0 <= j < s.len() ==> s[j] != c,
        },
{
    if exists|i: int| 0 <= i < s.len() && s[i] == c {
        let w = choose|i: int| 0 <= i < s.len() && s[i] == c;
        let m = lemma_min_index(s, c, w);
    }
}

proof fn lemma_min_index(s: Seq<char>, c: char, w: int) -> (m: int)
    requires
        0 <= w < s.len(),
        s[w] == c,
    ensures
        0 <= m <= w,
        s[m] == c,
        forall|j: int| 0 <= j < m ==> s[j] != c,
    decreases w,
{
    if exists|j: int| 0 <= j < w && s[j] == c {
        let v = choose|j: int| 0 <= j < w && s[j] == c;
        lemma_min_index(s, c, v)
    } else {
        w
    }
}

proof fn lemma_max_index(s: Seq<char>, c: char, w: int) -> (m: int)
    requires
        0 <= w < s.len(),
        s[w] == c,
    ensures
        w <= m < s.len(),
        s[m] == c,
        forall|j: int| m < j < s.len() ==> s[j] != c,
    decreases s.len() - w,
{
    if exists|j: int| w < j < s.len() && s[j] == c {
        let v = choose|j: int| w < j < s.len() && s[j] == c;
        lemma_max_index(s, c, v)
    } else {
        w
    }
}

proof fn lemma_last_index(s: Seq<char>, c: char)
    ensures
        match last_index_of(s, c) {
            Some(i) => 0 <= i < s.len() && s[i] == c && forall|j: int| i < j < s.len() ==> s[j] != c,
            None => forall|j: int| 0 <= j < s.len() ==> s[j] != c,
        },
{
    if exists|i: int| 0 <= i < s.len() && s[i] == c {
        let w = choose|i: int| 0 <= i < s.len() && s[i] == c;
        let m = lemma_max_index(s, c, w);
    }
}

/// A span that is found starts at the first opening char and runs to the
/// last closing char.
pub open spec fn span_found_at(s: Seq<char>, open: char, close: char, x: Seq<char>, a: int) -> bool {
    &&& 0 <= a
    &&& a + x.len() <= s.len()
    &&& s.subrange(a, a + x.len()) == x
    &&& x.len() >= 2
    &&& x[0] == open
    &&& x[x.len() - 1] == close
    &&& forall|j: int| 0 <= j < a ==> s[j] != open
    &&& forall|j: int| a + x.len() <= j < s.len() ==> s[j] != close
}

proof fn lemma_enclosed_span_some(s: Seq<char>, open: char, close: char, a: int, b: int)
    requires
        first_index_of(s, open) == Some(a),
        last_index_of(s, close) == Some(b),
        a < b,
    ensures
        span_found_at(s, open, close, s.subrange(a, b + 1), a),
{
    lemma_first_index(s, open);
    lemma_last_index(s, close);
    let x = s.subrange(a, b + 1);
    assert(x[0] == s[a]);
    assert(x[x.len() - 1] == s[b]);
    assert(s.subrange(a, a + x.len()) =~= x);
}

proof fn lemma_enclosed_span_none(s: Seq<char>, open: char, close: char)
    requires
        enclosed_span(s, open, close) is None,
    ensures
        forall|i: int, j: int| 0 <= i < j < s.len() && s[i] == open ==> s[j] != close,
{
    lemma_first_index(s, open);
    lemma_last_index(s, close);
    assert forall|i: int, j: int| 0 <= i < j < s.len() && s[i] == open implies s[j] != close by {
        if s[j] == close {
            let a = first_index_of(s, open)->0;
            let b = last_index_of(s, close)->0;
            assert(a <= i);
            assert(j <= b);
        }
    }
}

/// What a located JSON span is: when there is one, it is a piece of the
/// reply that starts at the first opening char and ends with a closing char
/// after which the reply holds no closing char; there is none exactly when
/// no opening char comes before a closing char.
pub proof fn lemma_enclosed_span_bounds(s: Seq<char>, open: char, close: char)
    ensures
        enclosed_span(s, open, close) is Some ==> exists|a: int|
            #[trigger] span_found_at(s, open, close, enclosed_span(s, open, close)->0, a),
        enclosed_span(s, open, close) is None ==> forall|i: int, j: int|
            0 <= i < j < s.len() && s[i] == open ==> s[j] != close,
{
    if enclosed_span(s, open, close) is None {
        lemma_enclosed_span_none(s, open, close);
    } else {
        lemma_first_index(s, open);
        lemma_last_index(s, close);
        assert(first_index_of(s, open) is Some && last_index_of(s, close) is Some);
        let a = first_index_of(s, open)->0;
        let b = last_index_of(s, close)->0;
        assert(a < b);
        assert(enclosed_span(s, open, close) == Some(s.subrange(a, b + 1)));
        lemma_enclosed_span_some(s, open, close, a, b);
        assert(span_found_at(s, open, close, s.subrange(a, b + 1), a));
        assert(enclosed_span(s, open, close)->0 == s.subrange(a, b + 1));
        assert(span_found_at(s, open, close, enclosed_span(s, open, close)->0, a));
    }
}

/// The JSON array in a model reply: from the first `[` to the last `]`.
pub fn extract_json_array(content: &str) -> (r: Option<String>)
    ensures
        crate::text::opt_view(r) == enclosed_span(content@, '[', ']'),
{
    extract_enclosed(content, '[', ']')
}

/// The JSON object in a model reply: from the first `{` to the last `}`.
pub fn extract_json_object(content: &str) -> (r: Option<String>)
    ensures
        crate::text::opt_view(r) == enclosed_span(content@, '{', '}'),
{
    extract_enclosed(content, '{', '}')
}

// ------------------------------------------------------------------------
// Escaping control characters inside JSON strings.
// ------------------------------------------------------------------------
pub open spec fn hex_digit(n: int) -> char {
    if n < 10 {
        (('0' as int) + n) as char
    } else {
        (('a' as int) + n - 10) as char
    }
}

/// `\u` and four lowercase hex digits of the code point.
pub open spec fn unicode_escape(c: char) -> Seq<char> {
    let v = (c as u32) as int;
    seq![
        '\\',
        'u',
        hex_digit((v / 4096) % 16),
        hex_digit((v / 256) % 16),
        hex_digit((v / 16) % 16),
        hex_digit(v % 16),
    ]
}

/// What one char becomes inside a JSON string.
pub open spec fn escape_in_string(c: char) -> Seq<char> {
    if c == '\n' {
        seq!['\\', 'n']
    } else if c == '\r' {
        seq!['\\', 'r']
    } else if c == '\t' {
        seq!['\\', 't']
    } else if is_control(c) {
        unicode_escape(c)
    } else {
        seq![c]
    }
}

/// The escaped text and the scanner state `(inside a string, after a backslash)`
/// after the chars of `s`. Outside strings and after a backslash chars are
/// kept; inside strings raw control chars are escaped.
pub open spec fn escape_scan(s: Seq<char>) -> (Seq<char>, bool, bool)
    decreases s.len(),
{
    if s.len() == 0 {
        (Seq::empty(), false, false)
    } else {
        let (out, in_string, escaped) = escape_scan(s.drop_last());
        let c = s.last();
        if !in_string {
            (out.push(c), c == '"', false)
        } else if escaped {
            (out.push(c), true, false)
        } else if c == '\\' {
            (out.push(c), true, true)
        } else if c == '"' {
            (out.push(c), false, false)
        } else {
            (out + escape_in_string(c), true, false)
        }
    }
}

fn hex_char(n: u32) -> (r: char)
    requires
        n < 16,
    ensures
        r == hex_digit(n as int),
{
    if n < 10 {
        ((n as u8) + 48u8) as char
    } else {
        ((n as u8) + 87u8) as char
    }
}

/// Escapes raw control characters that appear inside JSON strings.
pub fn escape_control_chars_inside_json_strings(value: &str) -> (r: String)
    ensures
        r@ == escape_scan(value@).0,
{
    let cs = chars_of(value);
    let mut output = String::new();
    let mut in_string = false;
    let mut escaped = false;
    let mut i: usize = 0;
    while i < cs.len()
        invariant
            0 <= i <= cs@.len(),
            escape_scan(cs@.take(i as int)) == (output@, in_string, escaped),
        decreases cs@.len() - i,
    {
        let ch = cs[i];
        let ghost out0 = output@;
        proof {
            assert(cs@.take(i + 1).drop_last() =~= cs@.take(i as int));
            assert(cs@.take(i + 1).last() == ch);
        }
        if !in_string {
            push_char(&mut output, ch);
            if ch == '"' {
                in_string = true;
            }
        } else if escaped {
            push_char(&mut output, ch);
            escaped = false;
        } else if ch == '\\' {
            push_char(&mut output, ch);
            escaped = true;
        } else if ch == '"' {
            push_char(&mut output, ch);
            in_string = false;
        } else if ch == '\n' {
            push_char(&mut output, '\\');
            push_char(&mut output, 'n');
            proof {
                assert(output@ =~= out0 + escape_in_string(ch));
            }
        } else if ch == '\r' {
            push_char(&mut output, '\\');
            push_char(&mut output, 'r');
            proof {
                assert(output@ =~= out0 + escape_in_string(ch));
            }
        } else if ch == '\t' {
            push_char(&mut output, '\\');
            push_char(&mut output, 't');
            proof {
                assert(output@ =~= out0 + escape_in_string(ch));
            }
        } else if char_is_control(ch) {
            let v = ch as u32;
            push_char(&mut output, '\\');
            push_char(&mut output, 'u');
            push_char(&mut output, hex_char((v / 4096) % 16));
            push_char(&mut output, hex_char((v / 256) % 16));
            push_char(&mut output, hex_char((v / 16) % 16));
            push_char(&mut output, hex_char(v % 16));
            proof {
                assert(output@ =~= out0 + unicode_escape(ch));
                assert(escape_in_string(ch) == unicode_escape(ch));
            }
        } else {
            push_char(&mut output, ch);
            proof {
                assert(output@ =~= out0 + escape_in_string(ch));
            }
        }
        i += 1;
    }
    proof {
        assert(cs@.take(cs@.len() as int) =~= cs@);
    }
    output
}

/// One hex digit, scanned inside a string after a plain char, is kept as it is.
proof fn lemma_scan_hex_digit(o: Seq<char>, n: int)
    requires
        0 <= n < 16,
        escape_scan(o) == (o, true, false),
    ensures
        escape_scan(o.push(hex_digit(n))) == (o.push(hex_digit(n)), true, false),
{
    let h = hex_digit(n);
    assert(o.push(h).drop_last() =~= o);
    assert(('0' <= h && h <= '9') || ('a' <= h && h <= 'f'));
    assert(escape_in_string(h) == seq![h]);
    assert(o + seq![h] =~= o.push(h));
}

/// A `\\u` escape, scanned inside a string after a plain char, is kept as it
/// is.
proof fn lemma_scan_unicode_escape(o: Seq<char>, c: char)
    requires
        escape_scan(o) == (o, true, false),
    ensures
        escape_scan(o + unicode_escape(c)) == (o + unicode_escape(c), true, false),
{
    let v = (c as u32) as int;
    let o1 = o.push('\\');
    let o2 = o1.push('u');
    assert(o1.drop_last() =~= o);
    assert(escape_scan(o1) == (o1, true, true));
    assert(o2.drop_last() =~= o1);
    assert(escape_scan(o2) == (o2, true, false));
    let o3 = o2.push(hex_digit((v / 4096) % 16));
    let o4 = o3.push(hex_digit((v / 256) % 16));
    let o5 = o4.push(hex_digit((v / 16) % 16));
    let o6 = o5.push(hex_digit(v % 16));
    lemma_scan_hex_digit(o2, (v / 4096) % 16);
    lemma_scan_hex_digit(o3, (v / 256) % 16);
    lemma_scan_hex_digit(o4, (v / 16) % 16);
    lemma_scan_hex_digit(o5, v % 16);
    assert(o + unicode_escape(c) =~= o6);
}

/// Escaping what was already escaped changes nothing, and ends in the same
/// scanner state.
proof fn lemma_escape_scan_fixpoint(s: Seq<char>)
    ensures
        escape_scan(escape_scan(s).0) == escape_scan(s),
    decreases s.len(),
{
    if s.len() > 0 {
        let d = s.drop_last();
        lemma_escape_scan_fixpoint(d);
        let (o, in_string, escaped) = escape_scan(d);
        let c = s.last();
        if !in_string || escaped || c == '\\' || c == '"' {
            assert(o.push(c).drop_last() =~= o);
        } else if c == '\n' || c == '\r' || c == '\t' {
            let e = if c == '\n' { 'n' } else if c == '\r' { 'r' } else { 't' };
            let o1 = o.push('\\');
            assert(o1.drop_last() =~= o);
            assert(escape_scan(o1) == (o1, true, true));
            assert(o1.push(e).drop_last() =~= o1);
            assert(escape_scan(o1.push(e)) == (o1.push(e), true, false));
            assert(o + escape_in_string(c) =~= o1.push(e));
            assert(escape_scan(s) == (o1.push(e), true, false));
        } else if is_control(c) {
            lemma_scan_unicode_escape(o, c);
            assert(escape_in_string(c) == unicode_escape(c));
            assert(escape_scan(s) == (o + unicode_escape(c), true, false));
        } else {
            assert(escape_in_string(c) == seq![c]);
            assert(o + escape_in_string(c) =~= o.push(c));
            assert(o.push(c).drop_last() =~= o);
            assert(escape_scan(s) == (o.push(c), true, false));
        }
    }
}

proof fn lemma_escape_scan_no_quote(s: Seq<char>)
    requires
        !s.contains('"'),
    ensures
        escape_scan(s) == (s, false, false),
    decreases s.len(),
{
    if s.len() > 0 {
        let d = s.drop_last();
        assert(!d.contains('"')) by {
            if d.contains('"') {
                let k = choose|k: int| 0 <= k < d.len() && d[k] == '"';
                assert(s[k] == '"');
            }
        }
        lemma_escape_scan_no_quote(d);
        assert(s[s.len() - 1] != '"');
        assert(d.push(s.last()) =~= s);
    }
}

/// Escaping control characters inside JSON strings is idempotent: escaping
/// its own result again gives that result back. Text with no `"` has no
/// strings and comes back unchanged.
pub proof fn lemma_escape_idempotent(value: Seq<char>)
    ensures
        escape_scan(escape_scan(value).0).0 == escape_scan(value).0,
        !value.contains('"') ==> escape_scan(value).0 == value,
{
    lemma_escape_scan_fixpoint(value);
    if !value.contains('"') {
        lemma_escape_scan_no_quote(value);
    }
}

// ------------------------------------------------------------------------
// Truncation and usage totals.
// ------------------------------------------------------------------------
/// The first `max_chars` chars, marked when something was cut.
pub open spec fn truncated(s: Seq<char>, max_chars: int) -> Seq<char> {
    if s.len() > max_chars {
        s.take(max_chars) + "\n...[truncated]"@
    } else {
        s
    }
}

/// Keeps at most `max_chars` chars and marks a cut.
pub fn truncate_chars(value: &str, max_chars: usize) -> (r: String)
    ensures
        r@ == truncated(value@, max_chars as int),
{
    let cs = chars_of(value);
    if cs.len() > max_chars {
        let mut out = string_of_range(&cs, 0, max_chars);
        push_str(&mut out, "\n...[truncated]");
        out
    } else {
        let out = string_of_range(&cs, 0, cs.len());
        proof {
            assert(cs@.subrange(0, cs@.len() as int) =~= cs@);
        }
        out
    }
}

/// The sum of two optional token counts, saturating at `u32::MAX`.
pub open spec fn sum_tokens(left: Option<u32>, right: Option<u32>) -> Option<u32> {
    match (left, right) {
        (Some(l), Some(r)) => Some(
            if l + r > u32::MAX {
                u32::MAX
            } else {
                (l + r) as u32
            },
        ),
        (Some(l), None) => Some(l),
        (None, Some(r)) => Some(r),
        (None, None) => None,
    }
}

pub fn sum_optional_tokens(left: Option<u32>, right: Option<u32>) -> (r: Option<u32>)
    ensures
        r == sum_tokens(left, right),
{
    match (left, right) {
        (Some(l), Some(r)) => Some(l.saturating_add(r)),
        (Some(l), None) => Some(l),
        (None, Some(r)) => Some(r),
        (None, None) => None,
    }
}

/// Adds the usage of another call into `target`.
pub fn merge_usage(target: &mut StructuredGenerationUsage, source: &StructuredGenerationUsage)
    ensures
        final(target).input_tokens == sum_tokens(old(target).input_tokens, source.input_tokens),
        final(target).output_tokens == sum_tokens(old(target).output_tokens, source.output_tokens),
        final(target).total_tokens == sum_tokens(old(target).total_tokens, source.total_tokens),
{
    target.input_tokens = sum_optional_tokens(target.input_tokens, source.input_tokens);
    target.output_tokens = sum_optional_tokens(target.output_tokens, source.output_tokens);
    target.total_tokens = sum_optional_tokens(target.total_tokens, source.total_tokens);
}

/// The content of the first choice of a chat reply, or the empty string.
pub fn response_message_content(response: &ChatCompletionResponse) -> (r: String)
    ensures
        response.choices@.len() > 0 ==> r@ == response.choices@[0].message.content@,
        response.choices@.len() == 0 ==> r@.len() == 0,
{
    if response.choices.len() > 0 {
        response.choices[0].message.content.clone()
    } else {
        String::new()
    }
}

} // verus!
