//! Character-level string helpers shared by the panels.
//!
//! Strings are reasoned about through their view, the sequence of their
//! characters.

use vstd::prelude::*;
use vstd::utf8::{encode_utf8, decode_utf8, is_char_boundary, encode_utf8_decode_utf8, encode_utf8_valid_utf8, valid_utf8};

verus! {

/// Decimal digits of a natural number, most significant first.
pub open spec fn decimal(n: nat) -> Seq<char>
    decreases n,
{
    if n < 10 {
        seq![digit_char(n)]
    } else {
        decimal(n / 10).push(digit_char(n % 10))
    }
}

/// The character of a decimal digit.
pub open spec fn digit_char(d: nat) -> char {
    if d == 0 { '0' }
    else if d == 1 { '1' }
    else if d == 2 { '2' }
    else if d == 3 { '3' }
    else if d == 4 { '4' }
    else if d == 5 { '5' }
    else if d == 6 { '6' }
    else if d == 7 { '7' }
    else if d == 8 { '8' }
    else { '9' }
}

/// Appends one character (`String::push`).
#[verifier::external_body]
pub(crate) fn push_char(s: &mut String, c: char)
    ensures
        final(s)@ == old(s)@.push(c),
{
    s.push(c);
}

fn digit(d: u64) -> (c: char)
    requires
        d < 10,
    ensures
        c == digit_char(d as nat),
{
    if d == 0 { '0' }
    else if d == 1 { '1' }
    else if d == 2 { '2' }
    else if d == 3 { '3' }
    else if d == 4 { '4' }
    else if d == 5 { '5' }
    else if d == 6 { '6' }
    else if d == 7 { '7' }
    else if d == 8 { '8' }
    else { '9' }
}

/// Appends the decimal form of `n` to `s`.
pub fn push_decimal(s: &mut String, n: u64)
    ensures
        final(s)@ == old(s)@ + decimal(n as nat),
    decreases n,
{
    if n < 10 {
        push_char(s, digit(n));
        assert(decimal(n as nat) =~= seq![digit_char(n as nat)]);
    } else {
        push_decimal(s, n / 10);
        push_char(s, digit(n % 10));
        assert(old(s)@ + decimal(n as nat) =~= old(s)@ + decimal((n / 10) as nat) + seq![digit_char((n % 10) as nat)]);
    }
}

/// The decimal form of `n`.
pub fn u64_to_string(n: u64) -> (s: String)
    ensures
        s@ == decimal(n as nat),
{
    let mut s = String::new();
    push_decimal(&mut s, n);
    assert(s@ =~= decimal(n as nat));
    s
}

/// The characters of a string slice, in order.
pub fn chars_of(s: &str) -> (v: Vec<char>)
    ensures
        v@ == s@,
{
    let mut v: Vec<char> = Vec::new();
    let n = s.unicode_len();
    let mut i: usize = 0;
    while i < n
        invariant
            n == s@.len(),
            i <= n,
            v@ == s@.subrange(0, i as int),
        decreases n - i,
    {
        v.push(s.get_char(i));
        i = i + 1;
        assert(v@ =~= s@.subrange(0, i as int));
    }
    assert(v@ =~= s@);
    v
}

/// A string made of the characters `v[from..to]`.
pub fn string_from_chars(v: &Vec<char>, from: usize, to: usize) -> (s: String)
    requires
        from <= to <= v@.len(),
    ensures
        s@ == v@.subrange(from as int, to as int),
{
    let mut s = String::new();
    let mut i = from;
    while i < to
        invariant
            from <= i <= to,
            to <= v@.len(),
            s@ == v@.subrange(from as int, i as int),
        decreases to - i,
    {
        push_char(&mut s, v[i]);
        i = i + 1;
        assert(s@ =~= v@.subrange(from as int, i as int));
    }
    s
}

/// A copy of a string slice.
pub fn owned(s: &str) -> (r: String)
    ensures
        r@ == s@,
{
    s.to_owned()
}

/// `a` followed by `b`.
pub fn concat(a: &str, b: &str) -> (r: String)
    ensures
        r@ == a@ + b@,
{
    let mut r = a.to_owned();
    r.append(b);
    r
}

/// Whether two strings hold the same characters.
pub fn same_text(a: &str, b: &str) -> (r: bool)
    ensures
        r == (a@ == b@),
{
    let x = chars_of(a);
    let y = chars_of(b);
    if x.len() != y.len() {
        return false;
    }
    let mut i: usize = 0;
    while i < x.len()
        invariant
            x@ == a@,
            y@ == b@,
            x@.len() == y@.len(),
            i <= x@.len(),
            forall|k: int| 0 <= k < i ==> x@[k] == y@[k],
        decreases x@.len() - i,
    {
        if x[i] != y[i] {
            return false;
        }
        i = i + 1;
    }
    assert(a@ =~= b@);
    true
}

/// The character sequences of a list of lines.
pub open spec fn lines_view(lines: Seq<String>) -> Seq<Seq<char>> {
    lines.map_values(|s: String| s@)
}

/// A copy of a list of lines.
pub fn clone_lines(lines: &Vec<String>) -> (r: Vec<String>)
    ensures
        lines_view(r@) == lines_view(lines@),
        r@.len() == lines@.len(),
{
    let mut r: Vec<String> = Vec::new();
    let mut i: usize = 0;
    while i < lines.len()
        invariant
            i <= lines@.len(),
            r@.len() == i,
            forall|k: int| 0 <= k < i ==> #[trigger] r@[k]@ == lines@[k]@,
        decreases lines@.len() - i,
    {
        r.push(lines[i].clone());
        i = i + 1;
    }
    assert(lines_view(r@) =~= lines_view(lines@));
    r
}

/// Index of the first newline of `s`, or its length when there is none.
pub open spec fn first_newline(s: Seq<char>) -> nat
    decreases s.len(),
{
    if s.len() == 0 {
        0
    } else if s[0] == '\n' {
        0
    } else {
        1 + first_newline(s.skip(1))
    }
}

/// A line without its carriage return, if it ends with one.
pub open spec fn strip_cr(line: Seq<char>) -> Seq<char> {
    if line.len() > 0 && line.last() == '\r' { line.drop_last() } else { line }
}

/// The lines of a text: split at `\n`, a `\r` before it dropped, and no
/// empty line after a final newline (the rules of `str::lines`).
pub open spec fn str_lines(s: Seq<char>) -> Seq<Seq<char>>
    decreases s.len(),
{
    if s.len() == 0 {
        seq![]
    } else {
        let k = first_newline(s);
        if k >= s.len() {
            seq![s]
        } else {
            seq![strip_cr(s.take(k as int))] + str_lines(s.skip((k + 1) as int))
        }
    }
}

pub proof fn lemma_first_newline_bounds(s: Seq<char>)
    ensures
        first_newline(s) <= s.len(),
        first_newline(s) < s.len() ==> s[first_newline(s) as int] == '\n',
        forall|k: int| 0 <= k < first_newline(s) ==> s[k] != '\n',
    decreases s.len(),
{
    if s.len() > 0 && s[0] != '\n' {
        lemma_first_newline_bounds(s.skip(1));
        assert forall|k: int| 0 <= k < first_newline(s) implies s[k] != '\n' by {
            if k > 0 {
                assert(s[k] == s.skip(1)[k - 1]);
            }
        }
    }
}

proof fn lemma_first_newline_is(s: Seq<char>, k: nat)
    requires
        k <= s.len(),
        forall|j: int| 0 <= j < k ==> s[j] != '\n',
        k < s.len() ==> s[k as int] == '\n',
    ensures
        first_newline(s) == k,
    decreases s.len(),
{
    if s.len() > 0 && k > 0 {
        assert(s[0] != '\n');
        assert forall|j: int| 0 <= j < k - 1 implies s.skip(1)[j] != '\n' by {
            assert(s.skip(1)[j] == s[j + 1]);
        }
        lemma_first_newline_is(s.skip(1), (k - 1) as nat);
    }
}

/// The lines of a text, as `str::lines` yields them.
pub fn lines_of(s: &str) -> (r: Vec<String>)
    ensures
        lines_view(r@) == str_lines(s@),
{
    let chars = chars_of(s);
    let n = chars.len();
    let ghost t = s@;
    let mut out: Vec<String> = Vec::new();
    let mut start: usize = 0;
    let mut i: usize = 0;
    assert(t.skip(0) =~= t);
    assert(lines_view(out@) + str_lines(t.skip(0)) =~= str_lines(t));
    while i < n
        invariant
            chars@ == t,
            n == t.len(),
            start <= i <= n,
            forall|j: int| start <= j < i ==> t[j] != '\n',
            lines_view(out@) + str_lines(t.skip(start as int)) == str_lines(t),
        decreases n - i,
    {
        if chars[i] == '\n' {
            let ghost rest = t.skip(start as int);
            proof {
                assert forall|j: int| 0 <= j < i - start implies rest[j] != '\n' by {
                    assert(rest[j] == t[start + j]);
                }
                lemma_first_newline_is(rest, (i - start) as nat);
                assert(rest.skip(i - start + 1) =~= t.skip(i + 1));
                assert(rest.take(i - start) =~= t.subrange(start as int, i as int));
            }
            let end = if i > start && chars[i - 1] == '\r' { i - 1 } else { i };
            let line = string_from_chars(&chars, start, end);
            assert(line@ =~= strip_cr(t.subrange(start as int, i as int)));
            let ghost before = out@;
            out.push(line);
            assert(lines_view(out@) =~= lines_view(before).push(line@));
            start = i + 1;
            assert(lines_view(out@) + str_lines(t.skip(start as int)) =~= str_lines(t));
        }
        i = i + 1;
    }
    if start < n {
        let ghost rest = t.skip(start as int);
        proof {
            assert forall|j: int| 0 <= j < rest.len() implies rest[j] != '\n' by {
                assert(rest[j] == t[start + j]);
            }
            lemma_first_newline_is(rest, rest.len());
        }
        let line = string_from_chars(&chars, start, n);
        assert(line@ =~= rest);
        out.push(line);
        assert(lines_view(out@) =~= str_lines(t));
    } else {
        assert(t.skip(start as int) =~= Seq::<char>::empty());
        assert(lines_view(out@) =~= str_lines(t));
    }
    out
}

/// Whether a character has the Unicode `White_Space` property, which
/// `char::is_whitespace` decides: the controls from tab to carriage return,
/// space, next line, no-break space, ogham space mark, the spaces from en
/// quad to hair space, the line and paragraph separators, narrow no-break
/// space, medium mathematical space and ideographic space.
pub open spec fn unicode_whitespace(c: char) -> bool {
    let n = c as u32;
    ||| 0x9 <= n <= 0xD
    ||| n == 0x20
    ||| n == 0x85
    ||| n == 0xA0
    ||| n == 0x1680
    ||| 0x2000 <= n <= 0x200A
    ||| n == 0x2028
    ||| n == 0x2029
    ||| n == 0x202F
    ||| n == 0x205F
    ||| n == 0x3000
}

/// The number of whitespace characters that open `s`.
pub open spec fn leading_ws(s: Seq<char>) -> nat
    decreases s.len(),
{
    if s.len() > 0 && unicode_whitespace(s[0]) { 1 + leading_ws(s.skip(1)) } else { 0 }
}

/// The number of whitespace characters that close `s`.
pub open spec fn trailing_ws(s: Seq<char>) -> nat
    decreases s.len(),
{
    if s.len() > 0 && unicode_whitespace(s.last()) { 1 + trailing_ws(s.drop_last()) } else { 0 }
}

/// `s` without its leading and trailing whitespace.
pub open spec fn trim_view(s: Seq<char>) -> Seq<char> {
    if leading_ws(s) >= s.len() {
        Seq::empty()
    } else {
        s.subrange(leading_ws(s) as int, s.len() - trailing_ws(s))
    }
}

/// Whether `c` has the Unicode `White_Space` property, as
/// `char::is_whitespace` decides it.
pub(crate) fn is_whitespace(c: char) -> (b: bool)
    ensures
        b == unicode_whitespace(c),
{
    let n = c as u32;
    (0x9 <= n && n <= 0xD) || n == 0x20 || n == 0x85 || n == 0xA0 || n == 0x1680
        || (0x2000 <= n && n <= 0x200A) || n == 0x2028 || n == 0x2029 || n == 0x202F
        || n == 0x205F || n == 0x3000
}

proof fn lemma_leading_ws(s: Seq<char>)
    ensures
        leading_ws(s) <= s.len(),
        forall|k: int| 0 <= k < leading_ws(s) ==> unicode_whitespace(s[k]),
        leading_ws(s) < s.len() ==> !unicode_whitespace(s[leading_ws(s) as int]),
    decreases s.len(),
{
    if s.len() > 0 && unicode_whitespace(s[0]) {
        lemma_leading_ws(s.skip(1));
        assert forall|k: int| 0 <= k < leading_ws(s) implies unicode_whitespace(s[k]) by {
            if k > 0 { assert(s[k] == s.skip(1)[k - 1]); }
        }
    }
}

pub proof fn lemma_leading_ws_is(s: Seq<char>, n: nat)
    requires
        n <= s.len(),
        forall|k: int| 0 <= k < n ==> unicode_whitespace(s[k]),
        n < s.len() ==> !unicode_whitespace(s[n as int]),
    ensures
        leading_ws(s) == n,
    decreases s.len(),
{
    if n > 0 {
        assert forall|k: int| 0 <= k < n - 1 implies unicode_whitespace(s.skip(1)[k]) by {
            assert(s.skip(1)[k] == s[k + 1]);
        }
        lemma_leading_ws_is(s.skip(1), (n - 1) as nat);
    }
}

proof fn lemma_trailing_ws_is(s: Seq<char>, n: nat)
    requires
        n <= s.len(),
        forall|k: int| s.len() - n <= k < s.len() ==> unicode_whitespace(s[k]),
        n < s.len() ==> !unicode_whitespace(s[s.len() - n - 1]),
    ensures
        trailing_ws(s) == n,
    decreases s.len(),
{
    if n > 0 {
        assert forall|k: int| s.drop_last().len() - (n - 1) <= k < s.drop_last().len() implies
            unicode_whitespace(s.drop_last()[k]) by {
            assert(s.drop_last()[k] == s[k]);
        }
        lemma_trailing_ws_is(s.drop_last(), (n - 1) as nat);
    }
}

/// `s` without its leading and trailing whitespace (as `str::trim` does,
/// whitespace being the Unicode `White_Space` property).
pub fn trim(s: &str) -> (r: String)
    ensures
        r@ == trim_view(s@),
{
    let x = chars_of(s);
    let n = x.len();
    let mut a: usize = 0;
    while a < n && is_whitespace(x[a])
        invariant
            x@ == s@,
            n == x@.len(),
            a <= n,
            forall|k: int| 0 <= k < a ==> unicode_whitespace(x@[k]),
        decreases n - a,
    {
        a = a + 1;
    }
    proof { lemma_leading_ws_is(s@, a as nat); }
    if a == n {
        return String::new();
    }
    let mut b: usize = n;
    while b > a && is_whitespace(x[b - 1])
        invariant
            x@ == s@,
            n == x@.len(),
            a < n,
            !unicode_whitespace(x@[a as int]),
            a <= b <= n,
            forall|k: int| b <= k < n ==> unicode_whitespace(x@[k]),
        decreases b,
    {
        b = b - 1;
    }
    proof { lemma_trailing_ws_is(s@, (n - b) as nat); }
    string_from_chars(&x, a, b)
}

/// `s` without its trailing whitespace (as `str::trim_end` does).
pub fn trim_end(s: &str) -> (r: String)
    ensures
        r@ == s@.take(s@.len() - trailing_ws(s@)),
{
    let x = chars_of(s);
    let n = x.len();
    let mut b: usize = n;
    while b > 0 && is_whitespace(x[b - 1])
        invariant
            x@ == s@,
            n == x@.len(),
            b <= n,
            forall|k: int| b <= k < n ==> unicode_whitespace(x@[k]),
        decreases b,
    {
        b = b - 1;
    }
    proof { lemma_trailing_ws_is(s@, (n - b) as nat); }
    let r = string_from_chars(&x, 0, b);
    assert(x@.subrange(0, b as int) =~= s@.take(b as int));
    r
}

/// Whether `s` begins with `p`.
pub fn starts_with(s: &str, p: &str) -> (b: bool)
    ensures
        b == p@.is_prefix_of(s@),
{
    let x = chars_of(s);
    let y = chars_of(p);
    if y.len() > x.len() {
        return false;
    }
    let mut i: usize = 0;
    while i < y.len()
        invariant
            x@ == s@,
            y@ == p@,
            y@.len() <= x@.len(),
            i <= y@.len(),
            forall|k: int| 0 <= k < i ==> x@[k] == y@[k],
        decreases y@.len() - i,
    {
        if x[i] != y[i] {
            return false;
        }
        i = i + 1;
    }
    true
}

/// The characters of `s` from position `k` on.
pub fn chars_from(s: &str, k: usize) -> (r: String)
    requires
        k <= s@.len(),
    ensures
        r@ == s@.skip(k as int),
{
    let x = chars_of(s);
    string_from_chars(&x, k, x.len())
}

/// Position of the first occurrence of `c` in `s`, if any.
pub open spec fn first_index_of(s: Seq<char>, c: char) -> Option<nat>
    decreases s.len(),
{
    if s.len() == 0 {
        None
    } else if s[0] == c {
        Some(0)
    } else {
        match first_index_of(s.skip(1), c) {
            Some(i) => Some(i + 1),
            None => None,
        }
    }
}

pub proof fn lemma_first_index_of(s: Seq<char>, c: char)
    ensures
        match first_index_of(s, c) {
            Some(i) => i < s.len() && s[i as int] == c && forall|k: int| 0 <= k < i ==> s[k] != c,
            None => forall|k: int| 0 <= k < s.len() ==> s[k] != c,
        },
    decreases s.len(),
{
    if s.len() > 0 && s[0] != c {
        lemma_first_index_of(s.skip(1), c);
        match first_index_of(s.skip(1), c) {
            Some(i) => {
                assert forall|k: int| 0 <= k < i + 1 implies s[k] != c by {
                    if k > 0 { assert(s[k] == s.skip(1)[k - 1]); }
                }
            },
            None => {
                assert forall|k: int| 0 <= k < s.len() implies s[k] != c by {
                    if k > 0 { assert(s[k] == s.skip(1)[k - 1]); }
                }
            },
        }
    }
}

/// Position of the first `c` in the characters `v[from..]`, relative to
/// `from`.
pub fn find_char(v: &Vec<char>, from: usize, c: char) -> (r: Option<usize>)
    requires
        from <= v@.len(),
    ensures
        match r {
            Some(i) => first_index_of(v@.skip(from as int), c) == Some(i as nat),
            None => first_index_of(v@.skip(from as int), c) is None,
        },
{
    let ghost t = v@.skip(from as int);
    proof { lemma_first_index_of(t, c); }
    let mut i = from;
    while i < v.len()
        invariant
            from <= i <= v@.len(),
            t == v@.skip(from as int),
            forall|k: int| from <= k < i ==> v@[k] != c,
        decreases v@.len() - i,
    {
        if v[i] == c {
            proof {
                lemma_first_index_of(t, c);
                match first_index_of(t, c) {
                    Some(j) => {
                        assert(t[i - from] == c);
                        if j < i - from {
                            assert(v@[from + j] != c);
                            assert(t[j as int] == v@[from + j]);
                        }
                    },
                    None => {
                        assert(t[i - from] == c);
                    },
                }
            }
            return Some(i - from);
        }
        i = i + 1;
    }
    proof {
        lemma_first_index_of(t, c);
        match first_index_of(t, c) {
            Some(j) => {
                assert(t[j as int] == v@[from + j]);
            },
            None => {},
        }
    }
    None
}

/// `v[..from]`, then `ins`, then `v[to..]`.
pub fn splice_chars(v: &Vec<char>, from: usize, to: usize, ins: &Vec<char>) -> (r: Vec<char>)
    requires
        from <= to <= v@.len(),
    ensures
        r@ == v@.take(from as int) + ins@ + v@.skip(to as int),
{
    let mut r: Vec<char> = Vec::new();
    let mut i: usize = 0;
    while i < from
        invariant
            i <= from <= to <= v@.len(),
            r@ == v@.take(i as int),
        decreases from - i,
    {
        r.push(v[i]);
        i = i + 1;
        assert(r@ =~= v@.take(i as int));
    }
    let mut j: usize = 0;
    while j < ins.len()
        invariant
            from <= to <= v@.len(),
            j <= ins@.len(),
            r@ == v@.take(from as int) + ins@.take(j as int),
        decreases ins@.len() - j,
    {
        r.push(ins[j]);
        j = j + 1;
        assert(r@ =~= v@.take(from as int) + ins@.take(j as int));
    }
    let mut k: usize = to;
    while k < v.len()
        invariant
            from <= to <= k <= v@.len(),
            r@ == v@.take(from as int) + ins@ + v@.subrange(to as int, k as int),
        decreases v@.len() - k,
    {
        r.push(v[k]);
        k = k + 1;
        assert(r@ =~= v@.take(from as int) + ins@ + v@.subrange(to as int, k as int));
    }
    assert(ins@.take(ins@.len() as int) =~= ins@);
    assert(v@.subrange(to as int, v@.len() as int) =~= v@.skip(to as int));
    r
}

/// A string holding the characters of `v`.
pub fn string_of_chars(v: &Vec<char>) -> (s: String)
    ensures
        s@ == v@,
{
    let s = string_from_chars(v, 0, v.len());
    assert(v@.subrange(0, v@.len() as int) =~= v@);
    s
}

/// The lowercase form of a text, as `str::to_lowercase` gives it.
pub uninterp spec fn lowercase(s: Seq<char>) -> Seq<char>;

/// The lowercase form of `s` (`str::to_lowercase`).
#[verifier::external_body]
pub(crate) fn to_lowercase(s: &str) -> (r: String)
    ensures
        r@ == lowercase(s@),
{
    s.to_lowercase()
}

// Byte offsets into UTF-8 text.

/// The number of bytes of `c` in UTF-8.
pub fn char_width(c: char) -> (n: usize)
    ensures
        n == encode_utf8(seq![c]).len(),
        1 <= n <= 4,
{
    proof {
        assert(seq![c].drop_first() =~= Seq::<char>::empty());
        assert(encode_utf8(seq![c]) == vstd::utf8::encode_scalar(c as u32) + encode_utf8(Seq::<char>::empty()));
    }
    let v = c as u32;
    if v < 0x80 {
        1
    } else if v < 0x800 {
        2
    } else if v < 0x10000 {
        3
    } else {
        4
    }
}

/// The UTF-8 encoding of joined texts is the joined encodings.
pub proof fn lemma_encode_concat(a: Seq<char>, b: Seq<char>)
    ensures
        encode_utf8(a + b) == encode_utf8(a) + encode_utf8(b),
    decreases a.len(),
{
    if a.len() == 0 {
        assert(a + b =~= b);
        assert(encode_utf8(a) =~= Seq::<u8>::empty());
        assert(encode_utf8(a) + encode_utf8(b) =~= encode_utf8(b));
    } else {
        assert((a + b).drop_first() =~= a.drop_first() + b);
        assert((a + b)[0] == a[0]);
        lemma_encode_concat(a.drop_first(), b);
        assert(encode_utf8(a + b) =~= encode_utf8(a) + encode_utf8(b));
    }
}

/// The text before and after byte offset `at` of `s`.
fn split_text(s: &str, at: usize) -> (r: (&str, &str))
    requires
        is_char_boundary(encode_utf8(s@), at as int),
    ensures
        r.0@ == decode_utf8(encode_utf8(s@).take(at as int)),
        r.1@ == decode_utf8(encode_utf8(s@).skip(at as int)),
        encode_utf8(r.0@) == encode_utf8(s@).take(at as int),
        encode_utf8(r.1@) == encode_utf8(s@).skip(at as int),
{
    let (a, b) = s.split_at(at);
    proof {
        encode_utf8_decode_utf8(a@);
        encode_utf8_decode_utf8(b@);
        assert(encode_utf8(s@).take(at as int) =~= encode_utf8(s@).subrange(0, at as int));
        assert(encode_utf8(s@).skip(at as int) =~= encode_utf8(s@).subrange(at as int, encode_utf8(s@).len() as int));
    }
    (a, b)
}

/// `s` with `c` inserted at byte offset `at`.
pub fn insert_char_at(s: &str, at: usize, c: char) -> (r: String)
    requires
        is_char_boundary(encode_utf8(s@), at as int),
    ensures
        r@ == decode_utf8(encode_utf8(s@).take(at as int)) + seq![c] + decode_utf8(encode_utf8(s@).skip(at as int)),
        encode_utf8(r@).len() == encode_utf8(s@).len() + encode_utf8(seq![c]).len(),
{
    let (a, b) = split_text(s, at);
    let mut head = owned(a);
    push_char(&mut head, c);
    let r = concat(head.as_str(), b);
    proof {
        lemma_encode_concat(a@, seq![c]);
        lemma_encode_concat(a@ + seq![c], b@);
        encode_utf8_valid_utf8(s@);
        assert(at <= encode_utf8(s@).len());
        assert(encode_utf8(s@) =~= encode_utf8(s@).take(at as int) + encode_utf8(s@).skip(at as int));
    }
    r
}

/// `s` without the character that starts at byte offset `at`.
pub fn remove_char_at(s: &str, at: usize) -> (r: String)
    requires
        is_char_boundary(encode_utf8(s@), at as int),
        at < encode_utf8(s@).len(),
    ensures
        r@ == decode_utf8(encode_utf8(s@).take(at as int)) + decode_utf8(encode_utf8(s@).skip(at as int)).drop_first(),
        encode_utf8(r@).len() >= at,
{
    let (a, b) = split_text(s, at);
    proof {
        encode_utf8_decode_utf8(b@);
        if b@.len() == 0 {
            assert(encode_utf8(b@) =~= Seq::<u8>::empty());
        }
    }
    let rest = chars_from(b, 1);
    let r = concat(a, rest.as_str());
    proof {
        lemma_encode_concat(a@, rest@);
    }
    r
}

/// The nearest character boundary at or before byte offset `i`.
pub open spec fn boundary_at_or_before(bytes: Seq<u8>, i: int) -> int
    decreases i,
{
    if i <= 0 {
        0
    } else if is_char_boundary(bytes, i) {
        i
    } else {
        boundary_at_or_before(bytes, i - 1)
    }
}

proof fn lemma_boundary_at_or_before(bytes: Seq<u8>, i: int)
    requires
        vstd::utf8::valid_utf8(bytes),
    ensures
        0 <= boundary_at_or_before(bytes, i),
        i >= 0 ==> boundary_at_or_before(bytes, i) <= i,
        is_char_boundary(bytes, boundary_at_or_before(bytes, i)),
    decreases i,
{
    if i > 0 && !is_char_boundary(bytes, i) {
        lemma_boundary_at_or_before(bytes, i - 1);
    }
}

/// The nearest character boundary of `s` at or before byte offset `i`.
pub fn back_to_boundary(s: &str, i: usize) -> (r: usize)
    ensures
        r == boundary_at_or_before(encode_utf8(s@), i as int),
        r <= i,
        is_char_boundary(encode_utf8(s@), r as int),
{
    proof {
        encode_utf8_valid_utf8(s@);
        lemma_boundary_at_or_before(encode_utf8(s@), i as int);
    }
    let mut j = i;
    while j > 0 && !s.is_char_boundary(j)
        invariant
            j <= i,
            boundary_at_or_before(encode_utf8(s@), j as int) == boundary_at_or_before(encode_utf8(s@), i as int),
        decreases j,
    {
        j = j - 1;
    }
    j
}

/// The nearest character boundary at or after byte offset `i` (the end
/// when there is none before it).
pub open spec fn boundary_at_or_after(bytes: Seq<u8>, i: int) -> int
    decreases bytes.len() - i,
{
    if i >= bytes.len() {
        bytes.len() as int
    } else if is_char_boundary(bytes, i) {
        i
    } else {
        boundary_at_or_after(bytes, i + 1)
    }
}

/// The nearest character boundary of `s` at or after byte offset `i`.
pub fn forward_to_boundary(s: &str, i: usize) -> (r: usize)
    requires
        i <= encode_utf8(s@).len(),
    ensures
        r == boundary_at_or_after(encode_utf8(s@), i as int),
{
    let n = s.as_bytes().len();
    let mut j = i;
    while j < n && !s.is_char_boundary(j)
        invariant
            i <= j <= n,
            n == encode_utf8(s@).len(),
            boundary_at_or_after(encode_utf8(s@), j as int) == boundary_at_or_after(encode_utf8(s@), i as int),
        decreases n - j,
    {
        j = j + 1;
    }
    j
}

/// The index of the last byte `x` of `b`, if any.
pub open spec fn last_byte_index(b: Seq<u8>, x: u8) -> Option<nat>
    decreases b.len(),
{
    if b.len() == 0 {
        None
    } else if b.last() == x {
        Some((b.len() - 1) as nat)
    } else {
        last_byte_index(b.drop_last(), x)
    }
}

/// The index of the first byte `x` of `b`, if any.
pub open spec fn first_byte_index(b: Seq<u8>, x: u8) -> Option<nat>
    decreases b.len(),
{
    if b.len() == 0 {
        None
    } else if b[0] == x {
        Some(0)
    } else {
        match first_byte_index(b.drop_first(), x) {
            Some(i) => Some(i + 1),
            None => None,
        }
    }
}

/// The index of the last byte `x` before offset `end`.
pub fn rfind_byte(b: &[u8], end: usize, x: u8) -> (r: Option<usize>)
    requires
        end <= b@.len(),
    ensures
        r == (match last_byte_index(b@.take(end as int), x) { Some(i) => Some(i as usize), None => None::<usize> }),
{
    let mut j = end;
    while j > 0
        invariant
            j <= end <= b@.len(),
            last_byte_index(b@.take(end as int), x) == last_byte_index(b@.take(j as int), x),
        decreases j,
    {
        assert(b@.take(j as int).drop_last() =~= b@.take(j - 1));
        if b[j - 1] == x {
            return Some(j - 1);
        }
        j = j - 1;
    }
    None
}

/// The offset, from `start`, of the first byte `x` at or after `start`.
pub fn find_byte_from(b: &[u8], start: usize, x: u8) -> (r: Option<usize>)
    requires
        start <= b@.len(),
    ensures
        r == (match first_byte_index(b@.skip(start as int), x) { Some(i) => Some(i as usize), None => None::<usize> }),
{
    let mut j = start;
    while j < b.len()
        invariant
            start <= j <= b@.len(),
            first_byte_index(b@.skip(start as int), x) == (match first_byte_index(b@.skip(j as int), x) {
                Some(i) => Some((i + (j - start)) as nat),
                None => None::<nat>,
            }),
        decreases b@.len() - j,
    {
        assert(b@.skip(j as int).drop_first() =~= b@.skip(j + 1));
        if b[j] == x {
            return Some(j - start);
        }
        j = j + 1;
    }
    None
}

proof fn lemma_boundary_in_prefix(b: Seq<u8>, i: int, j: int)
    requires
        valid_utf8(b),
        0 <= i <= j <= b.len(),
        is_char_boundary(b, i),
        is_char_boundary(b, j),
    ensures
        valid_utf8(b.subrange(0, j)),
        is_char_boundary(b.subrange(0, j), i),
{
    vstd::utf8::valid_utf8_split(b, j);
    let p = b.subrange(0, j);
    if i == j {
        vstd::utf8::is_char_boundary_start_end_of_seq(p);
    } else if i > 0 {
        vstd::utf8::is_char_boundary_iff_not_is_continuation_byte(b, i);
        vstd::utf8::is_char_boundary_iff_not_is_continuation_byte(p, i);
    }
}

/// The text of `s` between byte offsets `from` and `to`.
pub fn byte_slice(s: &str, from: usize, to: usize) -> (r: String)
    requires
        from <= to <= encode_utf8(s@).len(),
        is_char_boundary(encode_utf8(s@), from as int),
        is_char_boundary(encode_utf8(s@), to as int),
    ensures
        r@ == decode_utf8(encode_utf8(s@).subrange(from as int, to as int)),
{
    proof {
        encode_utf8_valid_utf8(s@);
        lemma_boundary_in_prefix(encode_utf8(s@), from as int, to as int);
    }
    let (a, _b) = s.split_at(to);
    assert(encode_utf8(a@) =~= encode_utf8(s@).subrange(0, to as int));
    let (_c, d) = a.split_at(from);
    proof {
        encode_utf8_decode_utf8(d@);
        assert(encode_utf8(d@) =~= encode_utf8(s@).subrange(from as int, to as int));
    }
    owned(d)
}

} // verus!
