//! Text helpers shared by the modules: decimal rendering, string equality,
//! Unicode whitespace trimming, ASCII case folding and padding.
use vstd::prelude::*;

verus! {

/// The ASCII digit for a value below ten.
pub open spec fn digit_char(d: nat) -> char {
    if d == 0 {
        '0'
    } else if d == 1 {
        '1'
    } else if d == 2 {
        '2'
    } else if d == 3 {
        '3'
    } else if d == 4 {
        '4'
    } else if d == 5 {
        '5'
    } else if d == 6 {
        '6'
    } else if d == 7 {
        '7'
    } else if d == 8 {
        '8'
    } else {
        '9'
    }
}

/// The decimal digits of a natural number, without leading zeros.
pub open spec fn decimal(n: nat) -> Seq<char>
    decreases n,
{
    if n < 10 {
        seq![digit_char(n)]
    } else {
        decimal(n / 10).push(digit_char(n % 10))
    }
}

/// The decimal rendering of an integer, with a leading `-` when negative.
pub open spec fn signed_decimal(v: int) -> Seq<char> {
    if v < 0 {
        seq!['-'] + decimal((-v) as nat)
    } else {
        decimal(v as nat)
    }
}

/// A run of `n` zeros.
pub open spec fn zeros(n: int) -> Seq<char> {
    Seq::new(if n < 0 { 0nat } else { n as nat }, |i: int| '0')
}

/// The rendering of `v` zero-padded to `width` characters, the sign first.
pub open spec fn zero_padded(v: int, width: int) -> Seq<char> {
    let digits = decimal(if v < 0 { (-v) as nat } else { v as nat });
    let sign: Seq<char> = if v < 0 { seq!['-'] } else { seq![] };
    sign + zeros(width - sign.len() - digits.len()) + digits
}

/// Every decimal rendering has at least one digit.
pub proof fn lemma_decimal_nonempty(n: nat)
    ensures
        decimal(n).len() >= 1,
    decreases n,
{
    if n >= 10 {
        lemma_decimal_nonempty(n / 10);
    }
}

fn digit_text(d: u64) -> (s: &'static str)
    requires
        d < 10,
    ensures
        s@ == seq![digit_char(d as nat)],
{
    proof {
        reveal_strlit("0");
        reveal_strlit("1");
        reveal_strlit("2");
        reveal_strlit("3");
        reveal_strlit("4");
        reveal_strlit("5");
        reveal_strlit("6");
        reveal_strlit("7");
        reveal_strlit("8");
        reveal_strlit("9");
    }
    if d == 0 {
        "0"
    } else if d == 1 {
        "1"
    } else if d == 2 {
        "2"
    } else if d == 3 {
        "3"
    } else if d == 4 {
        "4"
    } else if d == 5 {
        "5"
    } else if d == 6 {
        "6"
    } else if d == 7 {
        "7"
    } else if d == 8 {
        "8"
    } else {
        "9"
    }
}

/// Renders an unsigned number in decimal.
pub fn decimal_text(n: u64) -> (s: String)
    ensures
        s@ == decimal(n as nat),
    decreases n,
{
    if n < 10 {
        String::from_str(digit_text(n))
    } else {
        let mut s = decimal_text(n / 10);
        s.append(digit_text(n % 10));
        s
    }
}

/// Renders a signed number in decimal.
pub fn signed_decimal_text(v: i64) -> (s: String)
    ensures
        s@ == signed_decimal(v as int),
{
    if v < 0 {
        let magnitude: i128 = 0i128 - (v as i128);
        let m: u64 = magnitude as u64;
        let digits = decimal_text(m);
        let mut s = String::from_str("-");
        proof {
            reveal_strlit("-");
        }
        s.append(digits.as_str());
        s
    } else {
        decimal_text(v as u64)
    }
}

/// Renders a signed number zero-padded to `width` characters, as `{:0width$}` does.
pub fn zero_padded_text(v: i64, width: u64) -> (s: String)
    ensures
        s@ == zero_padded(v as int, width as int),
{
    let negative = v < 0;
    let magnitude: u64 = if negative {
        ((0i128 - (v as i128)) as u64)
    } else {
        v as u64
    };
    let digits = decimal_text(magnitude);
    let digit_count = digits.as_str().unicode_len();
    let mut s = String::new();
    let mut used: u64 = 0;
    if negative {
        s.append("-");
        used = 1;
        proof {
            reveal_strlit("-");
        }
    }
    let ghost sign: Seq<char> = if negative { seq!['-'] } else { seq![] };
    let target: i128 = width as i128 - used as i128 - digit_count as i128;
    let mut k: i128 = 0;
    proof {
        reveal_strlit("0");
        assert(s@ == sign + zeros(0));
    }
    while k < target
        invariant
            0 <= k,
            k <= target || k == 0,
            s@ == sign + zeros(k as int),
        decreases target - k,
    {
        proof {
            reveal_strlit("0");
        }
        s.append("0");
        k = k + 1;
        assert(s@ =~= sign + zeros(k as int));
    }
    proof {
        assert(zeros(k as int) =~= zeros(width as int - sign.len() - digits@.len()));
    }
    s.append(digits.as_str());
    s
}

/// Equality of two string slices by their characters.
pub fn text_eq(a: &str, b: &str) -> (r: bool)
    ensures
        r == (a@ == b@),
{
    let x = String::from_str(a);
    let y = String::from_str(b);
    x == y
}

/// Unicode `White_Space` code points: the characters that `str::trim` removes.
pub open spec fn is_unicode_whitespace(c: char) -> bool {
    ||| ('\u{9}' <= c && c <= '\u{d}')
    ||| c == ' '
    ||| c == '\u{85}'
    ||| c == '\u{a0}'
    ||| c == '\u{1680}'
    ||| ('\u{2000}' <= c && c <= '\u{200a}')
    ||| c == '\u{2028}'
    ||| c == '\u{2029}'
    ||| c == '\u{202f}'
    ||| c == '\u{205f}'
    ||| c == '\u{3000}'
}

/// Whether `c` is a Unicode whitespace character.
pub fn is_whitespace_char(c: char) -> (r: bool)
    ensures
        r == is_unicode_whitespace(c),
{
    ('\u{9}' <= c && c <= '\u{d}') || c == ' ' || c == '\u{85}' || c == '\u{a0}' || c
        == '\u{1680}' || ('\u{2000}' <= c && c <= '\u{200a}') || c == '\u{2028}' || c
        == '\u{2029}' || c == '\u{202f}' || c == '\u{205f}' || c == '\u{3000}'
}

/// The index of the first non-whitespace character (the length when there is none).
pub open spec fn trim_start_index(s: Seq<char>) -> int
    decreases s.len(),
{
    if s.len() == 0 || !is_unicode_whitespace(s[0]) {
        0
    } else {
        1 + trim_start_index(s.drop_first())
    }
}

/// One past the index of the last non-whitespace character (zero when there is none).
pub open spec fn trim_end_index(s: Seq<char>) -> int
    decreases s.len(),
{
    if s.len() == 0 || !is_unicode_whitespace(s.last()) {
        s.len() as int
    } else {
        trim_end_index(s.drop_last())
    }
}

/// `s` without leading and trailing Unicode whitespace.
pub open spec fn trimmed(s: Seq<char>) -> Seq<char> {
    let start = trim_start_index(s);
    let end = trim_end_index(s);
    if start >= end {
        Seq::empty()
    } else {
        s.subrange(start, end)
    }
}

proof fn lemma_trim_start_bounds(s: Seq<char>)
    ensures
        0 <= trim_start_index(s) <= s.len(),
        forall|i: int| 0 <= i < trim_start_index(s) ==> is_unicode_whitespace(#[trigger] s[i]),
        trim_start_index(s) < s.len() ==> !is_unicode_whitespace(s[trim_start_index(s)]),
    decreases s.len(),
{
    if s.len() > 0 && is_unicode_whitespace(s[0]) {
        lemma_trim_start_bounds(s.drop_first());
        assert forall|i: int| 0 <= i < trim_start_index(s) implies is_unicode_whitespace(
            #[trigger] s[i],
        ) by {
            if i > 0 {
                assert(s[i] == s.drop_first()[i - 1]);
            }
        }
    }
}

proof fn lemma_trim_end_bounds(s: Seq<char>)
    ensures
        0 <= trim_end_index(s) <= s.len(),
        forall|i: int| trim_end_index(s) <= i < s.len() ==> is_unicode_whitespace(#[trigger] s[i]),
        trim_end_index(s) > 0 ==> !is_unicode_whitespace(s[trim_end_index(s) - 1]),
    decreases s.len(),
{
    if s.len() > 0 && is_unicode_whitespace(s.last()) {
        lemma_trim_end_bounds(s.drop_last());
        assert forall|i: int| trim_end_index(s) <= i < s.len() implies is_unicode_whitespace(
            #[trigger] s[i],
        ) by {
            if i < s.len() - 1 {
                assert(s[i] == s.drop_last()[i]);
            }
        }
    }
}

proof fn lemma_trim_start_from_scan(s: Seq<char>, k: int)
    requires
        0 <= k <= s.len(),
        forall|i: int| 0 <= i < k ==> is_unicode_whitespace(#[trigger] s[i]),
        k == s.len() || !is_unicode_whitespace(s[k]),
    ensures
        trim_start_index(s) == k,
    decreases s.len(),
{
    if k > 0 {
        assert(is_unicode_whitespace(s[0]));
        let t = s.drop_first();
        assert forall|i: int| 0 <= i < k - 1 implies is_unicode_whitespace(#[trigger] t[i]) by {
            assert(t[i] == s[i + 1]);
        }
        if k < s.len() {
            assert(t[k - 1] == s[k]);
        }
        lemma_trim_start_from_scan(t, k - 1);
    }
}

proof fn lemma_trim_end_from_scan(s: Seq<char>, k: int)
    requires
        0 <= k <= s.len(),
        forall|i: int| k <= i < s.len() ==> is_unicode_whitespace(#[trigger] s[i]),
        k == 0 || !is_unicode_whitespace(s[k - 1]),
    ensures
        trim_end_index(s) == k,
    decreases s.len(),
{
    if k < s.len() {
        assert(is_unicode_whitespace(s[s.len() - 1]));
        let t = s.drop_last();
        assert forall|i: int| k <= i < t.len() implies is_unicode_whitespace(#[trigger] t[i]) by {
            assert(t[i] == s[i]);
        }
        if k > 0 {
            assert(t[k - 1] == s[k - 1]);
        }
        lemma_trim_end_from_scan(t, k);
    }
}

/// A non-empty trimmed text neither begins nor ends with whitespace.
pub proof fn lemma_trimmed_edges(s: Seq<char>)
    ensures
        trimmed(s).len() > 0 ==> {
            &&& !is_unicode_whitespace(trimmed(s)[0])
            &&& !is_unicode_whitespace(trimmed(s).last())
        },
{
    lemma_trim_start_bounds(s);
    lemma_trim_end_bounds(s);
}

/// `s` with leading and trailing Unicode whitespace removed, as `str::trim` does.
pub fn trim_text(s: &str) -> (r: String)
    ensures
        r@ == trimmed(s@),
{
    let n = s.unicode_len();
    let mut start: usize = 0;
    while start < n && is_whitespace_char(s.get_char(start))
        invariant
            n == s@.len(),
            start <= n,
            forall|i: int| 0 <= i < start ==> is_unicode_whitespace(#[trigger] s@[i]),
        decreases n - start,
    {
        start = start + 1;
    }
    proof {
        lemma_trim_start_from_scan(s@, start as int);
        lemma_trim_start_bounds(s@);
        lemma_trim_end_bounds(s@);
    }
    if start == n {
        proof {
            assert(trimmed(s@) =~= Seq::<char>::empty());
        }
        return String::new();
    }
    let mut end: usize = n;
    while end > start && is_whitespace_char(s.get_char(end - 1))
        invariant
            n == s@.len(),
            start < end <= n,
            forall|i: int| end <= i < n ==> is_unicode_whitespace(#[trigger] s@[i]),
            start == n || !is_unicode_whitespace(s@[start as int]),
        decreases end,
    {
        end = end - 1;
    }
    proof {
        lemma_trim_end_from_scan(s@, end as int);
    }
    String::from_str(s.substring_char(start, end))
}

/// ASCII lower-casing of one character; other characters are unchanged.
pub open spec fn ascii_lower(c: char) -> char {
    if 'A' <= c && c <= 'Z' {
        ((c as u32) + 32) as char
    } else {
        c
    }
}

/// Whether two texts are equal when ASCII letters are compared without case.
pub open spec fn eq_ignore_ascii_case(a: Seq<char>, b: Seq<char>) -> bool {
    a.len() == b.len() && forall|i: int| 0 <= i < a.len() ==> ascii_lower(#[trigger] a[i])
        == ascii_lower(b[i])
}

fn ascii_lower_char(c: char) -> (r: u32)
    ensures
        r == ascii_lower(c) as u32,
{
    let u = c as u32;
    if 'A' <= c && c <= 'Z' {
        u + 32
    } else {
        u
    }
}

/// Case-insensitive ASCII comparison of two texts.
pub fn text_eq_ignore_ascii_case(a: &str, b: &str) -> (r: bool)
    ensures
        r == eq_ignore_ascii_case(a@, b@),
{
    let n = a.unicode_len();
    let m = b.unicode_len();
    if n != m {
        return false;
    }
    let mut i: usize = 0;
    while i < n
        invariant
            n == a@.len(),
            m == b@.len(),
            n == m,
            i <= n,
            forall|j: int| 0 <= j < i ==> ascii_lower(#[trigger] a@[j]) == ascii_lower(b@[j]),
        decreases n - i,
    {
        let x = ascii_lower_char(a.get_char(i));
        let y = ascii_lower_char(b.get_char(i));
        if x != y {
            proof {
                if ascii_lower(a@[i as int]) == ascii_lower(b@[i as int]) {
                    assert(x == y);
                }
            }
            return false;
        }
        proof {
            vstd::utf8::char_u32_cast(ascii_lower(a@[i as int]), x);
            vstd::utf8::char_u32_cast(ascii_lower(b@[i as int]), y);
        }
        i = i + 1;
    }
    true
}

/// A run of `n` spaces.
pub open spec fn spaces(n: int) -> Seq<char> {
    Seq::new(if n < 0 { 0nat } else { n as nat }, |i: int| ' ')
}

/// `s` left-aligned in a field of `width` characters, as `{:<width$}` does.
pub open spec fn pad_right(s: Seq<char>, width: int) -> Seq<char> {
    s + spaces(width - s.len())
}

/// Left-aligns `s` in a field of `width` characters.
pub fn pad_right_text(s: &str, width: usize) -> (r: String)
    ensures
        r@ == pad_right(s@, width as int),
{
    let n = s.unicode_len();
    let mut r = String::from_str(s);
    let mut k: usize = n;
    proof {
        reveal_strlit(" ");
        assert(r@ =~= s@ + spaces(0));
    }
    while k < width
        invariant
            n == s@.len(),
            n <= k,
            k <= width || k == n,
            r@ == s@ + spaces(k - n),
        decreases width - k,
    {
        proof {
            reveal_strlit(" ");
        }
        r.append(" ");
        k = k + 1;
        assert(r@ =~= s@ + spaces(k - n));
    }
    proof {
        assert(spaces(k - n) =~= spaces(width - n));
    }
    r
}

/// Each newline written as the two characters `\` and `n`.
pub open spec fn escape_newlines(s: Seq<char>) -> Seq<char>
    decreases s.len(),
{
    if s.len() == 0 {
        Seq::empty()
    } else if s.last() == '\n' {
        escape_newlines(s.drop_last()) + seq!['\\', 'n']
    } else {
        escape_newlines(s.drop_last()).push(s.last())
    }
}

/// Escaping leaves no newline, keeps a text without newlines as it is, and writes
/// one character more for each newline.
pub proof fn lemma_escape_newlines(s: Seq<char>)
    ensures
        !escape_newlines(s).contains('\n'),
        !s.contains('\n') ==> escape_newlines(s) == s,
        escape_newlines(s).len() == s.len() + s.filter(|c: char| c == '\n').len(),
    decreases s.len(),
{
    reveal(Seq::filter);
    if s.len() > 0 {
        let rest = s.drop_last();
        lemma_escape_newlines(rest);
        let e = escape_newlines(s);
        let er = escape_newlines(rest);
        assert forall|k: int| 0 <= k < e.len() implies e[k] != '\n' by {
            if k < er.len() {
                assert(e[k] == er[k]);
                assert(er.contains(er[k]) ==> er[k] != '\n');
            }
        }
        if !s.contains('\n') {
            assert forall|k: int| 0 <= k < rest.len() implies rest[k] != '\n' by {
                assert(s[k] == rest[k]);
            }
            assert(s[s.len() - 1] == s.last());
            assert(rest.push(s.last()) =~= s);
        }
    } else {
        assert(escape_newlines(s) =~= Seq::<char>::empty());
    }
}


/// Replaces every newline by `\n` written out, as `str::replace('\n', "\\n")` does.
pub fn escape_newlines_text(s: &str) -> (r: String)
    ensures
        r@ == escape_newlines(s@),
{
    let n = s.unicode_len();
    let mut r = String::new();
    let mut i: usize = 0;
    proof {
        reveal_strlit("\\n");
        assert(s@.subrange(0, 0) =~= Seq::<char>::empty());
    }
    while i < n
        invariant
            n == s@.len(),
            i <= n,
            r@ == escape_newlines(s@.subrange(0, i as int)),
        decreases n - i,
    {
        let c = s.get_char(i);
        let ghost prefix = s@.subrange(0, i as int + 1);
        assert(prefix.drop_last() =~= s@.subrange(0, i as int));
        assert(prefix.last() == c);
        if c == '\n' {
            proof {
                reveal_strlit("\\n");
            }
            r.append("\\n");
            assert(escape_newlines(prefix) == escape_newlines(prefix.drop_last()) + seq!['\\', 'n']);
        } else {
            r.append(s.substring_char(i, i + 1));
            assert(escape_newlines(prefix) == escape_newlines(prefix.drop_last()).push(c));
            assert(s@.subrange(i as int, i + 1) =~= seq![c]);
        }
        i = i + 1;
    }
    proof {
        assert(s@.subrange(0, n as int) =~= s@);
    }
    r
}

} // verus!
