//! Character-level text handling: whitespace, trimming, decimal numbers,
//! substring search and byte-wise ordering, each with its mathematical model
//! over `Seq<char>` or `Seq<u8>`.
use vstd::prelude::*;

verus! {

/// Whether `c` carries the Unicode `White_Space` property.
pub open spec fn is_space(c: char) -> bool {
    let n = c as u32;
    ||| 0x09 <= n <= 0x0D
    ||| n == 0x20
    ||| n == 0x85
    ||| n == 0xA0
    ||| n == 0x1680
    ||| 0x2000 <= n <= 0x200A
    ||| n == 0x2028
    ||| n == 0x2029
    ||| n == 0x202F
    ||| n == 0x205F
    ||| n == 0x3000
}

/// Number of whitespace characters at the front of `s`.
pub open spec fn leading_spaces(s: Seq<char>) -> nat
    decreases s.len(),
{
    if s.len() > 0 && is_space(s[0]) {
        1 + leading_spaces(s.drop_first())
    } else {
        0
    }
}

/// Number of whitespace characters at the back of `s`.
pub open spec fn trailing_spaces(s: Seq<char>) -> nat
    decreases s.len(),
{
    if s.len() > 0 && is_space(s.last()) {
        1 + trailing_spaces(s.drop_last())
    } else {
        0
    }
}

/// `s` without its leading whitespace.
pub open spec fn trim_start(s: Seq<char>) -> Seq<char> {
    s.subrange(leading_spaces(s) as int, s.len() as int)
}

/// `s` without its trailing whitespace.
pub open spec fn trim_end(s: Seq<char>) -> Seq<char> {
    s.subrange(0, s.len() - trailing_spaces(s))
}

/// `s` without leading and trailing whitespace.
pub open spec fn trim(s: Seq<char>) -> Seq<char> {
    trim_end(trim_start(s))
}

/// Index of the first occurrence of `c` in `s`, or `s.len()` when there is none.
pub open spec fn position(s: Seq<char>, c: char) -> nat
    decreases s.len(),
{
    if s.len() == 0 || s[0] == c {
        0
    } else {
        1 + position(s.drop_first(), c)
    }
}

/// Whether `c` is one of the ASCII digits `0` to `9`.
pub open spec fn is_digit(c: char) -> bool {
    0x30 <= c as u32 <= 0x39
}

/// The number that the ASCII digit `c` stands for.
pub open spec fn digit_value(c: char) -> nat {
    (c as u32 - 0x30) as nat
}

/// Whether every character of `s` is an ASCII digit.
pub open spec fn all_digits(s: Seq<char>) -> bool {
    forall|i: int| 0 <= i < s.len() ==> is_digit(#[trigger] s[i])
}

/// The value of `s` read as a base-ten numeral, most significant digit first.
pub open spec fn digits_value(s: Seq<char>) -> nat
    decreases s.len(),
{
    if s.len() == 0 {
        0
    } else {
        digits_value(s.drop_last()) * 10 + digit_value(s.last())
    }
}

/// Reading of `s` as an unsigned decimal number no larger than `max`: an
/// optional `+`, followed by one or more digits and nothing else.
pub open spec fn parse_unsigned(s: Seq<char>, max: nat) -> Option<nat> {
    let body = if s.len() > 0 && s[0] == '+' {
        s.drop_first()
    } else {
        s
    };
    if body.len() > 0 && all_digits(body) && digits_value(body) <= max {
        Some(digits_value(body))
    } else {
        None
    }
}

/// Reading of `s` as a signed decimal number within `min..=max`: an optional
/// `+` or `-`, followed by one or more digits and nothing else.
pub open spec fn parse_signed(s: Seq<char>, min: int, max: int) -> Option<int> {
    let negative = s.len() > 0 && s[0] == '-';
    let body = if s.len() > 0 && (s[0] == '+' || s[0] == '-') {
        s.drop_first()
    } else {
        s
    };
    let value = if negative {
        -(digits_value(body) as int)
    } else {
        digits_value(body) as int
    };
    if body.len() > 0 && all_digits(body) && min <= value <= max {
        Some(value)
    } else {
        None
    }
}

/// Whether `needle` stands in `hay` starting at index `i`.
pub open spec fn occurs_at(hay: Seq<char>, needle: Seq<char>, i: int) -> bool {
    &&& 0 <= i
    &&& i + needle.len() <= hay.len()
    &&& hay.subrange(i, i + needle.len()) == needle
}

/// Whether `needle` is a contiguous part of `hay`.
pub open spec fn contains_seq(hay: Seq<char>, needle: Seq<char>) -> bool {
    exists|i: int| occurs_at(hay, needle, i)
}

/// The single character that writes the digit `d`.
pub open spec fn digit_char(d: nat) -> char
    recommends
        d < 10,
{
    ((0x30 + d) as u8) as char
}

/// The base-ten numeral of `n`, without sign or leading zeros.
pub open spec fn decimal(n: nat) -> Seq<char>
    decreases n,
{
    if n < 10 {
        seq![digit_char(n)]
    } else {
        decimal(n / 10).push(digit_char(n % 10))
    }
}

/// Lexicographic "less than or equal" on byte strings.
pub open spec fn lex_le(a: Seq<u8>, b: Seq<u8>) -> bool
    decreases a.len(),
{
    if a.len() == 0 {
        true
    } else if b.len() == 0 {
        false
    } else if a[0] != b[0] {
        a[0] < b[0]
    } else {
        lex_le(a.drop_first(), b.drop_first())
    }
}

/// Number of characters at the front of `s` that are no whitespace.
pub open spec fn word_len(s: Seq<char>) -> nat
    decreases s.len(),
{
    if s.len() > 0 && !is_space(s[0]) {
        1 + word_len(s.drop_first())
    } else {
        0
    }
}

/// The field with index `n` of `s`, counting from 0, where fields are the
/// maximal runs of characters that are no whitespace. `None` when `s` has no
/// more than `n` fields.
pub open spec fn nth_field(s: Seq<char>, n: nat) -> Option<Seq<char>>
    decreases n,
{
    let t = trim_start(s);
    if t.len() == 0 {
        None
    } else if n == 0 {
        Some(t.subrange(0, word_len(t) as int))
    } else {
        nth_field(t.subrange(word_len(t) as int, t.len() as int), (n - 1) as nat)
    }
}

// ---------------------------------------------------------------------------
// Facts that tie the recursive models to positions in a sequence.
// ---------------------------------------------------------------------------

/// `leading_spaces` is the index of the first character that is no whitespace.
pub proof fn lemma_leading_spaces(s: Seq<char>, k: int)
    requires
        0 <= k <= s.len(),
        forall|i: int| 0 <= i < k ==> is_space(#[trigger] s[i]),
        k == s.len() || !is_space(s[k]),
    ensures
        leading_spaces(s) == k,
    decreases k,
{
    if k > 0 {
        let t = s.drop_first();
        lemma_leading_spaces(t, k - 1);
    }
}

/// `trailing_spaces` counts back to the last character that is no whitespace.
pub proof fn lemma_trailing_spaces(s: Seq<char>, k: int)
    requires
        0 <= k <= s.len(),
        forall|i: int| s.len() - k <= i < s.len() ==> is_space(#[trigger] s[i]),
        k == s.len() || !is_space(s[s.len() - k - 1]),
    ensures
        trailing_spaces(s) == k,
    decreases k,
{
    if k > 0 {
        let t = s.drop_last();
        lemma_trailing_spaces(t, k - 1);
    }
}

/// `word_len` is the index of the first whitespace character.
pub proof fn lemma_word_len(s: Seq<char>, k: int)
    requires
        0 <= k <= s.len(),
        forall|i: int| 0 <= i < k ==> !is_space(#[trigger] s[i]),
        k == s.len() || is_space(s[k]),
    ensures
        word_len(s) == k,
    decreases k,
{
    if k > 0 {
        let t = s.drop_first();
        lemma_word_len(t, k - 1);
    }
}

/// `position` is the least index that holds `c`.
pub proof fn lemma_position(s: Seq<char>, c: char, k: int)
    requires
        0 <= k <= s.len(),
        forall|i: int| 0 <= i < k ==> #[trigger] s[i] != c,
        k == s.len() || s[k] == c,
    ensures
        position(s, c) == k,
    decreases k,
{
    if k > 0 {
        let t = s.drop_first();
        lemma_position(t, c, k - 1);
    }
}

/// What `position` returns: nothing before it equals `c`, and it holds `c`
/// unless it is the length.
pub proof fn lemma_position_bounds(s: Seq<char>, c: char)
    ensures
        position(s, c) <= s.len(),
        forall|i: int| 0 <= i < position(s, c) ==> #[trigger] s[i] != c,
        position(s, c) < s.len() ==> s[position(s, c) as int] == c,
        position(s, c) == s.len() <==> !s.contains(c),
    decreases s.len(),
{
    if s.len() > 0 && s[0] != c {
        let t = s.drop_first();
        lemma_position_bounds(t, c);
        assert forall|i: int| 0 <= i < position(s, c) implies #[trigger] s[i] != c by {
            if i > 0 {
                assert(s[i] == t[i - 1]);
            }
        }
    }
}

/// Appending digits never lowers the value of a numeral.
pub proof fn lemma_digits_value_prefix(s: Seq<char>, k: int)
    requires
        0 <= k <= s.len(),
    ensures
        digits_value(s.subrange(0, k)) <= digits_value(s),
    decreases s.len() - k,
{
    if k == s.len() {
        assert(s.subrange(0, k) == s);
    } else {
        lemma_digits_value_prefix(s.drop_last(), k);
        assert(s.drop_last().subrange(0, k) == s.subrange(0, k));
    }
}

/// The numeral of a number is made of digits, at least one, and reads as
/// that number.
pub proof fn lemma_decimal(n: nat)
    ensures
        decimal(n).len() > 0,
        all_digits(decimal(n)),
        digits_value(decimal(n)) == n,
    decreases n,
{
    let d = digit_char(n % 10);
    if n >= 10 {
        lemma_decimal(n / 10);
        let head = decimal(n / 10);
        assert(head.push(d).drop_last() == head);
    } else {
        assert(decimal(n).drop_last() == Seq::<char>::empty());
        assert(digits_value(Seq::<char>::empty()) == 0);
    }
}

// ---------------------------------------------------------------------------
// Executable functions.
// ---------------------------------------------------------------------------

/// The characters of `s`, in order.
pub fn to_chars(s: &str) -> (v: Vec<char>)
    ensures
        v@ == s@,
{
    let mut v: Vec<char> = Vec::new();
    let chars = s.chars();
    for c in it: chars
        invariant
            v@ == s@.subrange(0, it.index() as int),
            it.seq() == s@,
    {
        v.push(c);
    }
    v
}

/// Tells whether `c` is Unicode whitespace.
pub fn is_space_char(c: char) -> (b: bool)
    ensures
        b == is_space(c),
{
    let n: u32 = c as u32;
    (0x09 <= n && n <= 0x0D) || n == 0x20 || n == 0x85 || n == 0xA0 || n == 0x1680 || (0x2000 <= n
        && n <= 0x200A) || n == 0x2028 || n == 0x2029 || n == 0x202F || n == 0x205F || n == 0x3000
}

/// Bounds `(a, b)` of the part of `v[lo..hi]` that is left after trimming
/// whitespace at both ends.
pub fn trim_range(v: &Vec<char>, lo: usize, hi: usize) -> (r: (usize, usize))
    requires
        lo <= hi <= v.len(),
    ensures
        lo <= r.0 <= r.1 <= hi,
        v@.subrange(r.0 as int, r.1 as int) == trim(v@.subrange(lo as int, hi as int)),
{
    let ghost whole = v@.subrange(lo as int, hi as int);
    let mut a: usize = lo;
    while a < hi && is_space_char(v[a])
        invariant
            lo <= a <= hi <= v.len(),
            forall|i: int| lo <= i < a ==> is_space(#[trigger] v@[i]),
        decreases hi - a,
    {
        a += 1;
    }
    let mut b: usize = hi;
    while b > a && is_space_char(v[b - 1])
        invariant
            a <= b <= hi <= v.len(),
            forall|i: int| b <= i < hi ==> is_space(#[trigger] v@[i]),
        decreases b,
    {
        b -= 1;
    }
    proof {
        lemma_leading_spaces(whole, a - lo);
        let rest = trim_start(whole);
        lemma_trailing_spaces(rest, hi - b);
    }
    (a, b)
}

/// Index of the first `c` in `v[lo..hi]`, or `hi` when there is none.
pub fn find_char(v: &Vec<char>, lo: usize, hi: usize, c: char) -> (k: usize)
    requires
        lo <= hi <= v.len(),
    ensures
        lo <= k <= hi,
        k - lo == position(v@.subrange(lo as int, hi as int), c),
        forall|i: int| lo <= i < k ==> #[trigger] v@[i] != c,
        k < hi ==> v@[k as int] == c,
{
    let mut k: usize = lo;
    while k < hi && v[k] != c
        invariant
            lo <= k <= hi <= v.len(),
            forall|i: int| lo <= i < k ==> #[trigger] v@[i] != c,
        decreases hi - k,
    {
        k += 1;
    }
    proof {
        let whole = v@.subrange(lo as int, hi as int);
        lemma_position(whole, c, k - lo);
    }
    k
}

/// The value of the digits `v[lo..hi]` when they form a numeral no larger
/// than `max`.
fn parse_digits(v: &Vec<char>, lo: usize, hi: usize, max: u64) -> (r: Option<u64>)
    requires
        lo <= hi <= v.len(),
    ensures
        ({
            let body = v@.subrange(lo as int, hi as int);
            r == if body.len() > 0 && all_digits(body) && digits_value(body) <= max {
                Some(digits_value(body) as u64)
            } else {
                None
            }
        }),
{
    let ghost body = v@.subrange(lo as int, hi as int);
    if lo == hi {
        return None;
    }
    let mut acc: u64 = 0;
    let mut i: usize = lo;
    while i < hi
        invariant
            lo <= i <= hi <= v.len(),
            body == v@.subrange(lo as int, hi as int),
            all_digits(body.subrange(0, i - lo)),
            acc == digits_value(body.subrange(0, i - lo)),
            acc <= max,
        decreases hi - i,
    {
        let c: char = v[i];
        let n: u32 = c as u32;
        let ghost before = body.subrange(0, i - lo);
        let ghost after = body.subrange(0, i - lo + 1);
        proof {
            assert(after.drop_last() == before);
            assert(after.last() == c);
        }
        if n < 0x30 || n > 0x39 {
            return None;
        }
        let d: u64 = (n - 0x30) as u64;
        if d > max || acc > (max - d) / 10 {
            proof {
                assert(acc * 10 + d > max) by (nonlinear_arith)
                    requires
                        d > max || acc > (max - d) / 10,
                        acc >= 0,
                        d >= 0,
                        max >= 0,
                ;
                lemma_digits_value_prefix(body, i - lo + 1);
            }
            return None;
        }
        proof {
            assert(acc * 10 + d <= max) by (nonlinear_arith)
                requires
                    acc <= (max - d) / 10,
                    d <= max,
            ;
        }
        acc = acc * 10 + d;
        i += 1;
    }
    proof {
        assert(body.subrange(0, hi - lo) == body);
    }
    Some(acc)
}

/// Reads `v[lo..hi]` as an unsigned decimal number no larger than `max`.
pub fn parse_unsigned_range(v: &Vec<char>, lo: usize, hi: usize, max: u64) -> (r: Option<u64>)
    requires
        lo <= hi <= v.len(),
    ensures
        r.is_some() == parse_unsigned(v@.subrange(lo as int, hi as int), max as nat).is_some(),
        r.is_some() ==> r.unwrap() == parse_unsigned(
            v@.subrange(lo as int, hi as int),
            max as nat,
        ).unwrap(),
{
    let ghost whole = v@.subrange(lo as int, hi as int);
    if lo < hi && v[lo] == '+' {
        proof {
            assert(whole.drop_first() == v@.subrange(lo + 1, hi as int));
        }
        parse_digits(v, lo + 1, hi, max)
    } else {
        parse_digits(v, lo, hi, max)
    }
}

/// Reads `v[lo..hi]` as a signed decimal number that fits in an `i32`.
pub fn parse_i32_range(v: &Vec<char>, lo: usize, hi: usize) -> (r: Option<i32>)
    requires
        lo <= hi <= v.len(),
    ensures
        r.is_some() == parse_signed(
            v@.subrange(lo as int, hi as int),
            i32::MIN as int,
            i32::MAX as int,
        ).is_some(),
        r.is_some() ==> r.unwrap() == parse_signed(
            v@.subrange(lo as int, hi as int),
            i32::MIN as int,
            i32::MAX as int,
        ).unwrap(),
{
    let ghost whole = v@.subrange(lo as int, hi as int);
    if lo < hi && v[lo] == '-' {
        proof {
            assert(whole.drop_first() == v@.subrange(lo + 1, hi as int));
        }
        match parse_digits(v, lo + 1, hi, 0x8000_0000) {
            Some(m) => {
                if m == 0x8000_0000 {
                    Some(i32::MIN)
                } else {
                    Some(-(m as i32))
                }
            },
            None => None,
        }
    } else if lo < hi && v[lo] == '+' {
        proof {
            assert(whole.drop_first() == v@.subrange(lo + 1, hi as int));
        }
        match parse_digits(v, lo + 1, hi, 0x7FFF_FFFF) {
            Some(m) => Some(m as i32),
            None => None,
        }
    } else {
        match parse_digits(v, lo, hi, 0x7FFF_FFFF) {
            Some(m) => Some(m as i32),
            None => None,
        }
    }
}

/// Tells whether `needle` is a contiguous part of `hay`.
pub fn contains_chars(hay: &Vec<char>, needle: &Vec<char>) -> (b: bool)
    ensures
        b == contains_seq(hay@, needle@),
{
    let n: usize = needle.len();
    let h: usize = hay.len();
    if n > h {
        proof {
            assert forall|i: int| !occurs_at(hay@, needle@, i) by {}
        }
        return false;
    }
    let mut i: usize = 0;
    while i <= h - n
        invariant
            n == needle.len(),
            h == hay.len(),
            n <= h,
            i <= h - n + 1,
            forall|k: int| 0 <= k < i ==> !occurs_at(hay@, needle@, k),
        decreases h - n + 1 - i,
    {
        let mut j: usize = 0;
        while j < n && hay[i + j] == needle[j]
            invariant
                n == needle.len(),
                h == hay.len(),
                i + n <= h,
                j <= n,
                forall|k: int| 0 <= k < j ==> hay@[i + k] == needle@[k],
            decreases n - j,
        {
            j += 1;
        }
        if j == n {
            proof {
                assert(hay@.subrange(i as int, i + n) =~= needle@);
                assert(occurs_at(hay@, needle@, i as int));
            }
            return true;
        }
        i += 1;
    }
    proof {
        assert forall|k: int| !occurs_at(hay@, needle@, k) by {}
    }
    false
}

/// Bounds of the field with index `n` of `v`, where fields are separated by
/// runs of whitespace.
pub fn field_range(v: &Vec<char>, n: usize) -> (r: Option<(usize, usize)>)
    ensures
        r.is_some() == nth_field(v@, n as nat).is_some(),
        r.is_some() ==> r.unwrap().0 <= r.unwrap().1 <= v.len() && v@.subrange(
            r.unwrap().0 as int,
            r.unwrap().1 as int,
        ) == nth_field(v@, n as nat).unwrap(),
{
    let len: usize = v.len();
    let mut pos: usize = 0;
    let mut k: usize = 0;
    proof {
        assert(v@.subrange(0, len as int) == v@);
    }
    loop
        invariant
            len == v.len(),
            pos <= len,
            k <= n,
            nth_field(v@, n as nat) == nth_field(v@.subrange(pos as int, len as int), (n - k) as nat),
        decreases n - k,
    {
        let ghost rest = v@.subrange(pos as int, len as int);
        let mut a: usize = pos;
        while a < len && is_space_char(v[a])
            invariant
                pos <= a <= len,
                len == v.len(),
                forall|i: int| pos <= i < a ==> is_space(#[trigger] v@[i]),
            decreases len - a,
        {
            a += 1;
        }
        let mut b: usize = a;
        while b < len && !is_space_char(v[b])
            invariant
                a <= b <= len,
                len == v.len(),
                forall|i: int| a <= i < b ==> !is_space(#[trigger] v@[i]),
            decreases len - b,
        {
            b += 1;
        }
        proof {
            lemma_leading_spaces(rest, a - pos);
            let t = trim_start(rest);
            lemma_word_len(t, b - a);
            assert(t.subrange(b - a, t.len() as int) == v@.subrange(b as int, len as int));
        }
        if a == len {
            return None;
        }
        if k == n {
            return Some((a, b));
        }
        pos = b;
        k += 1;
    }
}

/// The one-character text that writes the digit `d`.
fn digit_str(d: u64) -> (s: &'static str)
    requires
        d < 10,
    ensures
        s@ == seq![digit_char(d as nat)],
{
    proof {
        reveal_strlit("0");
        reveal_strlit("1");
        reveal_strlit("2");
        reveal_strlit("3");
        reveal_strlit("4");
        reveal_strlit("5");
        reveal_strlit("6");
        reveal_strlit("7");
        reveal_strlit("8");
        reveal_strlit("9");
    }
    let s: &'static str = if d == 0 {
        "0"
    } else if d == 1 {
        "1"
    } else if d == 2 {
        "2"
    } else if d == 3 {
        "3"
    } else if d == 4 {
        "4"
    } else if d == 5 {
        "5"
    } else if d == 6 {
        "6"
    } else if d == 7 {
        "7"
    } else if d == 8 {
        "8"
    } else {
        "9"
    };
    s
}

/// Appends the base-ten numeral of `n` to `out`.
pub fn push_decimal(n: u64, out: &mut String)
    ensures
        final(out)@ == old(out)@ + decimal(n as nat),
    decreases n,
{
    if n >= 10 {
        push_decimal(n / 10, out);
    }
    out.append(digit_str(n % 10));
}

/// The base-ten numeral of `n`.
pub fn decimal_string(n: u64) -> (s: String)
    ensures
        s@ == decimal(n as nat),
{
    let mut s = String::new();
    push_decimal(n, &mut s);
    s
}

} // verus!
