//! Character-level text rules shared by the Racing library: decimal
//! rendering, JSON string quoting and the `{"error": ..}` envelope.

use vstd::prelude::*;
use vstd::string::*;

verus! {

/// Appends one character to an owned string (`String::push`).
#[verifier::external_body]
pub(crate) fn push_char(text: &mut String, c: char)
    ensures
        final(text)@ == old(text)@.push(c),
{
    text.push(c);
}

/// Decimal digits of a natural number, most significant first.
pub open spec fn decimal(n: nat) -> Seq<char>
    decreases n,
{
    if n < 10 {
        seq![digit_char(n)]
    } else {
        decimal(n / 10).push(digit_char(n % 10))
    }
}

/// The ASCII character of one decimal digit.
pub open spec fn digit_char(d: nat) -> char {
    ((d + 48) as u8) as char
}

/// Appends the decimal representation of `n` to `out`.
pub fn push_decimal(out: &mut String, n: u64)
    ensures
        final(out)@ == old(out)@ + decimal(n as nat),
    decreases n,
{
    if n >= 10 {
        push_decimal(out, n / 10);
    }
    let d: u8 = (n % 10) as u8;
    push_char(out, (48u8 + d) as char);
    proof {
        assert(decimal(n as nat) == if n < 10 {
            seq![digit_char(n as nat)]
        } else {
            decimal((n / 10) as nat).push(digit_char((n % 10) as nat))
        });
    }
}

/// The decimal rendering of `n` as an owned string.
pub fn decimal_string(n: u64) -> (out: String)
    ensures
        out@ == decimal(n as nat),
{
    let mut out = String::new();
    push_decimal(&mut out, n);
    assert(out@ =~= decimal(n as nat));
    out
}

/// Collects the characters of a string slice.
pub fn chars_of(text: &str) -> (out: Vec<char>)
    ensures
        out@ == text@,
{
    let mut out: Vec<char> = Vec::new();
    for c in it: text.chars()
        invariant
            out@ == it.seq().take(it.index() as int),
    {
        out.push(c);
    }
    out
}

/// Lower-case hexadecimal digit of a nibble.
pub open spec fn hex_digit(d: nat) -> char {
    if d < 10 {
        ((d + 48) as u8) as char
    } else {
        ((d + 87) as u8) as char
    }
}

/// How JSON writes one character inside a string literal: the quote, the
/// backslash and the control characters are escaped, everything else is
/// written as it is.
pub open spec fn json_escape_char(c: char) -> Seq<char> {
    if c == '"' {
        seq!['\\', '"']
    } else if c == '\\' {
        seq!['\\', '\\']
    } else if c == '\x08' {
        seq!['\\', 'b']
    } else if c == '\t' {
        seq!['\\', 't']
    } else if c == '\n' {
        seq!['\\', 'n']
    } else if c == '\x0c' {
        seq!['\\', 'f']
    } else if c == '\r' {
        seq!['\\', 'r']
    } else if (c as u32) < 0x20 {
        seq!['\\', 'u', '0', '0', hex_digit((c as u32 / 16) as nat), hex_digit((c as u32 % 16) as nat)]
    } else {
        seq![c]
    }
}

/// The escaped body of a JSON string literal.
pub open spec fn json_escaped(s: Seq<char>) -> Seq<char>
    decreases s.len(),
{
    if s.len() == 0 {
        Seq::empty()
    } else {
        json_escaped(s.drop_last()) + json_escape_char(s.last())
    }
}

/// A complete JSON string literal, quotes included.
pub open spec fn json_quoted(s: Seq<char>) -> Seq<char> {
    seq!['"'] + json_escaped(s) + seq!['"']
}

/// The error envelope `{"error":"<message>"}`.
pub open spec fn json_error_text(message: Seq<char>) -> Seq<char> {
    "{\"error\":"@ + json_quoted(message) + "}"@
}

/// Quotes text as a JSON string literal with `serde_json::to_string`.
///
/// The contract claims what serde_json's compact formatter writes for a
/// `str`: a quote, each character escaped as `json_escape_char` says (the
/// crate's `ESCAPE` table and `write_char_escape`), and a closing quote.
/// Serialising a `str` into the crate's in-memory writer cannot fail.
#[verifier::external_body]
fn json_quote(text: &str) -> (out: String)
    ensures
        out@ == json_quoted(text@),
{
    serde_json::to_string(text).unwrap_or_default()
}

/// Renders the error envelope `{"error":"<message>"}` that every JSON entry
/// point of the simulator returns on failure.
pub fn json_error(message: &str) -> (out: String)
    ensures
        out@ == json_error_text(message@),
{
    let mut out = String::from_str("{\"error\":");
    let quoted = json_quote(message);
    out.append(quoted.as_str());
    out.append("}");
    out
}

/// Unicode `White_Space` (the property `char::is_whitespace` tests).
pub open spec fn white_space(c: char) -> bool {
    let u = c as u32;
    ||| 0x09 <= u <= 0x0d
    ||| u == 0x20
    ||| u == 0x85
    ||| u == 0xa0
    ||| u == 0x1680
    ||| 0x2000 <= u <= 0x200a
    ||| u == 0x2028
    ||| u == 0x2029
    ||| u == 0x202f
    ||| u == 0x205f
    ||| u == 0x3000
}

/// Whether `c` has the Unicode `White_Space` property.
pub fn is_white_space(c: char) -> (b: bool)
    ensures
        b == white_space(c),
{
    let u: u32 = c as u32;
    (0x09 <= u && u <= 0x0d) || u == 0x20 || u == 0x85 || u == 0xa0 || u == 0x1680 || (0x2000
        <= u && u <= 0x200a) || u == 0x2028 || u == 0x2029 || u == 0x202f || u == 0x205f || u
        == 0x3000
}

/// Leading white space removed (`str::trim_start`).
pub open spec fn trim_start(s: Seq<char>) -> Seq<char>
    decreases s.len(),
{
    if s.len() > 0 && white_space(s[0]) {
        trim_start(s.drop_first())
    } else {
        s
    }
}

/// Trailing white space removed (`str::trim_end`).
pub open spec fn trim_end(s: Seq<char>) -> Seq<char>
    decreases s.len(),
{
    if s.len() > 0 && white_space(s.last()) {
        trim_end(s.drop_last())
    } else {
        s
    }
}

/// Leading and trailing white space removed (`str::trim`).
pub open spec fn trimmed(s: Seq<char>) -> Seq<char> {
    trim_end(trim_start(s))
}

proof fn lemma_trim_start_skip(s: Seq<char>, i: int)
    requires
        0 <= i <= s.len(),
        forall|k: int| 0 <= k < i ==> white_space(#[trigger] s[k]),
    ensures
        trim_start(s) == trim_start(s.subrange(i, s.len() as int)),
    decreases i,
{
    if i > 0 {
        assert(s.drop_first() =~= s.subrange(1, s.len() as int));
        let t = s.subrange(1, s.len() as int);
        assert forall|k: int| 0 <= k < i - 1 implies white_space(#[trigger] t[k]) by {
            assert(t[k] == s[k + 1]);
        }
        lemma_trim_start_skip(t, i - 1);
        assert(t.subrange(i - 1, t.len() as int) =~= s.subrange(i, s.len() as int));
    } else {
        assert(s.subrange(0, s.len() as int) =~= s);
    }
}

proof fn lemma_trim_end_skip(s: Seq<char>, j: int)
    requires
        0 <= j <= s.len(),
        forall|k: int| j <= k < s.len() ==> white_space(#[trigger] s[k]),
    ensures
        trim_end(s) == trim_end(s.subrange(0, j)),
    decreases s.len() - j,
{
    if j < s.len() {
        let t = s.drop_last();
        assert forall|k: int| j <= k < t.len() implies white_space(#[trigger] t[k]) by {
            assert(t[k] == s[k]);
        }
        lemma_trim_end_skip(t, j);
        assert(t.subrange(0, j) =~= s.subrange(0, j));
    } else {
        assert(s.subrange(0, j) =~= s);
    }
}

/// Builds a string from the characters `chars[from..to]`.
pub fn string_from_chars(chars: &Vec<char>, from: usize, to: usize) -> (out: String)
    requires
        from <= to <= chars.len(),
    ensures
        out@ == chars@.subrange(from as int, to as int),
{
    let mut out = String::new();
    let mut i = from;
    while i < to
        invariant
            from <= i <= to <= chars.len(),
            out@ == chars@.subrange(from as int, i as int),
        decreases to - i,
    {
        push_char(&mut out, chars[i]);
        i = i + 1;
        assert(out@ =~= chars@.subrange(from as int, i as int));
    }
    out
}

/// `text.trim()` as an owned string.
pub fn trim_text(text: &str) -> (out: String)
    ensures
        out@ == trimmed(text@),
{
    let chars = chars_of(text);
    let n = chars.len();
    let mut i: usize = 0;
    while i < n && is_white_space(chars[i])
        invariant
            0 <= i <= n == chars@.len(),
            forall|k: int| 0 <= k < i ==> white_space(#[trigger] chars@[k]),
        decreases n - i,
    {
        i = i + 1;
    }
    proof {
        lemma_trim_start_skip(chars@, i as int);
        let t = chars@.subrange(i as int, n as int);
        if t.len() > 0 {
            assert(t[0] == chars@[i as int]);
        }
    }
    let mut j: usize = n;
    while j > i && is_white_space(chars[j - 1])
        invariant
            i <= j <= n == chars@.len(),
            forall|k: int| j <= k < n ==> white_space(#[trigger] chars@[k]),
        decreases j,
    {
        j = j - 1;
    }
    proof {
        let t = chars@.subrange(i as int, n as int);
        assert forall|k: int| (j - i) <= k < t.len() implies white_space(#[trigger] t[k]) by {
            assert(t[k] == chars@[k + i]);
        }
        lemma_trim_end_skip(t, (j - i) as int);
        let u = t.subrange(0, (j - i) as int);
        assert(u =~= chars@.subrange(i as int, j as int));
        if u.len() > 0 {
            assert(u.last() == chars@[j - 1]);
        }
    }
    string_from_chars(&chars, i, j)
}

/// Whether two texts are equal character by character.
pub fn same_text(a: &str, b: &str) -> (r: bool)
    ensures
        r == (a@ == b@),
{
    let x = String::from_str(a);
    let y = String::from_str(b);
    x == y
}

/// `Debug` rendering of a list of laps, e.g. `[3, 7]`.
pub open spec fn debug_u16_list(s: Seq<u16>) -> Seq<char> {
    "["@ + debug_u16_items(s) + "]"@
}

pub open spec fn debug_u16_items(s: Seq<u16>) -> Seq<char>
    decreases s.len(),
{
    if s.len() == 0 {
        Seq::empty()
    } else if s.len() == 1 {
        decimal(s[0] as nat)
    } else {
        debug_u16_items(s.drop_last()) + ", "@ + decimal(s.last() as nat)
    }
}

/// Appends the `Debug` rendering of a list of laps.
pub fn push_u16_list(out: &mut String, items: &Vec<u16>)
    ensures
        final(out)@ == old(out)@ + debug_u16_list(items@),
{
    out.append("[");
    let mut i: usize = 0;
    while i < items.len()
        invariant
            0 <= i <= items.len(),
            out@ == old(out)@ + "["@ + debug_u16_items(items@.subrange(0, i as int)),
        decreases items.len() - i,
    {
        if i > 0 {
            out.append(", ");
        }
        push_decimal(out, items[i] as u64);
        proof {
            let p = items@.subrange(0, i + 1);
            assert(p.drop_last() =~= items@.subrange(0, i as int));
            assert(p.last() == items@[i as int]);
        }
        i = i + 1;
    }
    assert(items@.subrange(0, items@.len() as int) =~= items@);
    out.append("]");
}

/// What `format!("{:?}", s)` writes for a string: the quoted text with std's
/// debug escapes (`char::escape_debug`).
pub uninterp spec fn debug_text(s: Seq<char>) -> Seq<char>;

/// Renders a string with its `Debug` formatting (`format!("{:?}", ..)`).
///
/// The contract only names the result as a function of the text: std's
/// escaping rules rest on Unicode tables that are not restated here.
#[verifier::external_body]
pub(crate) fn debug_quote(text: &str) -> (out: String)
    ensures
        out@ == debug_text(text@),
{
    format!("{:?}", text)
}

/// Index of the first occurrence of `c` in `s`, or `s.len()`.
pub open spec fn first_index_of(s: Seq<char>, c: char) -> int
    decreases s.len(),
{
    if s.len() == 0 {
        0
    } else if s.last() != c && first_index_of(s.drop_last(), c) == s.len() - 1 {
        s.len() as int
    } else {
        first_index_of(s.drop_last(), c)
    }
}

proof fn lemma_first_index_of(s: Seq<char>, c: char)
    ensures
        0 <= first_index_of(s, c) <= s.len(),
        first_index_of(s, c) < s.len() ==> s[first_index_of(s, c)] == c,
        forall|k: int| 0 <= k < first_index_of(s, c) ==> #[trigger] s[k] != c,
    decreases s.len(),
{
    if s.len() > 0 {
        lemma_first_index_of(s.drop_last(), c);
        let p = first_index_of(s.drop_last(), c);
        if p < s.len() - 1 {
            assert(s.drop_last()[p] == s[p]);
            assert forall|k: int| 0 <= k < p implies #[trigger] s[k] != c by {
                assert(s.drop_last()[k] == s[k]);
            }
        } else {
            assert forall|k: int| 0 <= k < s.len() - 1 implies #[trigger] s[k] != c by {
                assert(s.drop_last()[k] == s[k]);
            }
        }
    }
}

/// Position of the first `c` in the characters, or their number.
pub fn find_char(chars: &Vec<char>, c: char) -> (i: usize)
    ensures
        i == first_index_of(chars@, c),
{
    let mut i: usize = 0;
    while i < chars.len() && chars[i] != c
        invariant
            0 <= i <= chars.len(),
            forall|k: int| 0 <= k < i ==> #[trigger] chars@[k] != c,
        decreases chars.len() - i,
    {
        i = i + 1;
    }
    proof {
        lemma_first_index_of(chars@, c);
        let f = first_index_of(chars@, c);
        if f < i {
            assert(chars@[f] == c);
        }
        if i < f {
            assert(chars@[i as int] != c);
        }
    }
    i
}

/// `s` ends with `suffix`.
pub open spec fn has_suffix(s: Seq<char>, suffix: Seq<char>) -> bool {
    s.len() >= suffix.len() && s.subrange(s.len() - suffix.len(), s.len() as int) == suffix
}

/// `s` starts with `prefix`.
pub open spec fn has_prefix(s: Seq<char>, prefix: Seq<char>) -> bool {
    s.len() >= prefix.len() && s.subrange(0, prefix.len() as int) == prefix
}

/// Whether `chars[from..to]` ends with `suffix`.
pub fn ends_with_text(chars: &Vec<char>, from: usize, to: usize, suffix: &str) -> (r: bool)
    requires
        from <= to <= chars.len(),
    ensures
        r == has_suffix(chars@.subrange(from as int, to as int), suffix@),
{
    let suf = chars_of(suffix);
    let n = suf.len();
    if to - from < n {
        return false;
    }
    let start = to - n;
    let mut i: usize = 0;
    let ghost s = chars@.subrange(from as int, to as int);
    while i < n
        invariant
            0 <= i <= n == suf@.len(),
            suf@ == suffix@,
            from <= start,
            start + n == to <= chars.len(),
            s == chars@.subrange(from as int, to as int),
            forall|k: int| 0 <= k < i ==> chars@[start + k] == suf@[k],
        decreases n - i,
    {
        if chars[start + i] != suf[i] {
            proof {
                assert(s.subrange(s.len() - n, s.len() as int)[i as int] == chars@[start + i]);
            }
            return false;
        }
        i = i + 1;
    }
    assert(s.subrange(s.len() - n, s.len() as int) =~= suf@);
    true
}

/// Whether `chars[from..to]` starts with `prefix`.
pub fn starts_with_text(chars: &Vec<char>, from: usize, to: usize, prefix: &str) -> (r: bool)
    requires
        from <= to <= chars.len(),
    ensures
        r == has_prefix(chars@.subrange(from as int, to as int), prefix@),
{
    let pre = chars_of(prefix);
    let n = pre.len();
    if to - from < n {
        return false;
    }
    let mut i: usize = 0;
    let ghost s = chars@.subrange(from as int, to as int);
    while i < n
        invariant
            0 <= i <= n == pre@.len(),
            pre@ == prefix@,
            from + n <= to <= chars.len(),
            s == chars@.subrange(from as int, to as int),
            forall|k: int| 0 <= k < i ==> chars@[from + k] == pre@[k],
        decreases n - i,
    {
        if chars[from + i] != pre[i] {
            proof {
                assert(s.subrange(0, n as int)[i as int] == chars@[from + i]);
            }
            return false;
        }
        i = i + 1;
    }
    assert(s.subrange(0, n as int) =~= pre@);
    true
}

/// `s` with every trailing copy of `suffix` removed (`trim_end_matches`).
pub open spec fn trim_end_all(s: Seq<char>, suffix: Seq<char>) -> Seq<char>
    decreases s.len(),
{
    if suffix.len() > 0 && has_suffix(s, suffix) {
        trim_end_all(s.subrange(0, s.len() - suffix.len()), suffix)
    } else {
        s
    }
}

/// End index of `chars[from..to]` with every trailing `suffix` removed.
pub fn trim_end_matches_at(chars: &Vec<char>, from: usize, to: usize, suffix: &str) -> (end: usize)
    requires
        from <= to <= chars.len(),
    ensures
        from <= end <= to,
        chars@.subrange(from as int, end as int) == trim_end_all(chars@.subrange(from as int, to as int), suffix@),
{
    let n = suffix.unicode_len();
    let mut end = to;
    while n > 0 && ends_with_text(chars, from, end, suffix)
        invariant
            from <= end <= to <= chars.len(),
            n == suffix@.len(),
            trim_end_all(chars@.subrange(from as int, to as int), suffix@) == trim_end_all(chars@.subrange(from as int, end as int), suffix@),
        decreases end,
    {
        proof {
            let s = chars@.subrange(from as int, end as int);
            assert(s.subrange(0, s.len() - n) =~= chars@.subrange(from as int, end - n));
        }
        end = end - n;
    }
    end
}

/// Whether two character sequences are equal.
pub fn same_chars(a: &Vec<char>, b: &Vec<char>) -> (r: bool)
    ensures
        r == (a@ == b@),
{
    if a.len() != b.len() {
        return false;
    }
    let mut i: usize = 0;
    while i < a.len()
        invariant
            0 <= i <= a.len() == b.len(),
            forall|k: int| 0 <= k < i ==> a@[k] == b@[k],
        decreases a.len() - i,
    {
        if a[i] != b[i] {
            return false;
        }
        i = i + 1;
    }
    assert(a@ =~= b@);
    true
}

/// Lexicographic order of texts by code point (the byte order of their
/// UTF-8 encodings).
pub open spec fn text_less(a: Seq<char>, b: Seq<char>) -> bool
    decreases a.len(),
{
    if a.len() == 0 {
        b.len() > 0
    } else if b.len() == 0 {
        false
    } else if a[0] != b[0] {
        (a[0] as u32) < (b[0] as u32)
    } else {
        text_less(a.drop_first(), b.drop_first())
    }
}

/// No text sorts before itself.
pub proof fn lemma_text_less_irreflexive(a: Seq<char>)
    ensures
        !text_less(a, a),
    decreases a.len(),
{
    if a.len() > 0 {
        lemma_text_less_irreflexive(a.drop_first());
    }
}

/// Text order is transitive.
pub proof fn lemma_text_less_transitive(a: Seq<char>, b: Seq<char>, c: Seq<char>)
    requires
        text_less(a, b),
        text_less(b, c),
    ensures
        text_less(a, c),
    decreases a.len(),
{
    if a.len() > 0 && b.len() > 0 && c.len() > 0 {
        if a[0] == b[0] && b[0] == c[0] {
            lemma_text_less_transitive(a.drop_first(), b.drop_first(), c.drop_first());
        }
    }
}

/// Of two different texts, one sorts before the other.
pub proof fn lemma_text_less_total(a: Seq<char>, b: Seq<char>)
    requires
        a != b,
    ensures
        text_less(a, b) || text_less(b, a),
    decreases a.len(),
{
    if a.len() == 0 {
        if b.len() == 0 {
            assert(a =~= b);
        }
    } else if b.len() == 0 {
    } else if a[0] != b[0] {
        vstd::utf8::char_u32_cast(a[0], a[0] as u32);
        vstd::utf8::char_u32_cast(b[0], b[0] as u32);
        assert((a[0] as u32) != (b[0] as u32));
    } else {
        let a1 = a.drop_first();
        let b1 = b.drop_first();
        if a1 =~= b1 {
            assert forall|i: int| 0 <= i < a.len() implies a[i] == b[i] by {
                if i > 0 {
                    assert(a[i] == a1[i - 1]);
                    assert(b[i] == b1[i - 1]);
                }
            }
            assert(a =~= b);
        } else {
            lemma_text_less_total(a1, b1);
        }
    }
}

/// Lexicographic comparison of two texts.
pub fn text_lt(a: &str, b: &str) -> (r: bool)
    ensures
        r == text_less(a@, b@),
{
    let x = chars_of(a);
    let y = chars_of(b);
    let mut i: usize = 0;
    assert(x@.subrange(0, x@.len() as int) =~= x@);
    assert(y@.subrange(0, y@.len() as int) =~= y@);
    while i < x.len() && i < y.len() && x[i] == y[i]
        invariant
            0 <= i <= x.len(),
            i <= y.len(),
            text_less(x@, y@) == text_less(x@.subrange(i as int, x@.len() as int), y@.subrange(i as int, y@.len() as int)),
        decreases x.len() - i,
    {
        proof {
            let a1 = x@.subrange(i as int, x@.len() as int);
            let b1 = y@.subrange(i as int, y@.len() as int);
            assert(a1.drop_first() =~= x@.subrange(i + 1, x@.len() as int));
            assert(b1.drop_first() =~= y@.subrange(i + 1, y@.len() as int));
        }
        i = i + 1;
    }
    proof {
        assert(x@.subrange(0, x@.len() as int) =~= x@);
        assert(y@.subrange(0, y@.len() as int) =~= y@);
    }
    if i == x.len() {
        i < y.len()
    } else if i == y.len() {
        false
    } else {
        proof {
            let a1 = x@.subrange(i as int, x@.len() as int);
            let b1 = y@.subrange(i as int, y@.len() as int);
            assert(a1[0] == x@[i as int]);
            assert(b1[0] == y@[i as int]);
        }
        (x[i] as u32) < (y[i] as u32)
    }
}

} // verus!
