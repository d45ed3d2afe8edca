//! Readers for the text formats that the kernel exposes under `/sys` and
//! `/proc`: single numbers, CPU lists, cache sizes and `key : value` tables.
//! Each reader takes the text of a file and returns plain values.
use crate::text::{
    all_digits, decimal, digits_value, find_char, is_digit, is_space, lemma_decimal,
    lemma_leading_spaces, lemma_position, lemma_position_bounds, lemma_trailing_spaces,
    parse_unsigned, parse_unsigned_range, position, to_chars, trim, trim_range,
};
use vstd::prelude::*;

verus! {

/// Cache size in KB above which an L3 cache counts as a stacked 3D V-Cache.
pub const VCACHE_THRESHOLD_KB: u64 = 65536;

/// The pieces of `s` between occurrences of `sep`; a text without `sep` is
/// one piece.
pub open spec fn split(s: Seq<char>, sep: char) -> Seq<Seq<char>>
    decreases s.len(),
{
    let k = position(s, sep) as int;
    if k >= s.len() {
        seq![s]
    } else {
        seq![s.subrange(0, k)] + split(s.subrange(k + 1, s.len() as int), sep)
    }
}

/// The ascending run `a, a + 1, ..., b`; empty when `a > b`.
pub open spec fn range_seq(a: nat, b: nat) -> Seq<usize> {
    Seq::new(
        if a <= b {
            (b - a + 1) as nat
        } else {
            0
        },
        |k: int| (a + k) as usize,
    )
}

/// What one token of a CPU list stands for. After trimming, a token with a
/// dash is the inclusive range between the number before its first dash and
/// the number made of all the text behind it; another non-empty token is a
/// single number; an empty token stands for nothing. `None` for any other
/// token: one whose number is malformed, or one with a second dash.
pub open spec fn cpu_token(t: Seq<char>) -> Option<Seq<usize>> {
    let p = trim(t);
    let k = position(p, '-') as int;
    if k < p.len() {
        match (
            parse_unsigned(p.subrange(0, k), usize::MAX as nat),
            parse_unsigned(p.subrange(k + 1, p.len() as int), usize::MAX as nat),
        ) {
            (Some(a), Some(b)) => Some(range_seq(a, b)),
            _ => None,
        }
    } else if p.len() > 0 {
        match parse_unsigned(p, usize::MAX as nat) {
            Some(a) => Some(seq![a as usize]),
            None => None,
        }
    } else {
        Some(Seq::empty())
    }
}

/// The CPU ids of a sequence of tokens, in token order; `None` as soon as one
/// token is malformed.
pub open spec fn cpu_tokens(ts: Seq<Seq<char>>) -> Option<Seq<usize>>
    decreases ts.len(),
{
    if ts.len() == 0 {
        Some(Seq::empty())
    } else {
        match (cpu_tokens(ts.drop_last()), cpu_token(ts.last())) {
            (Some(a), Some(b)) => Some(a + b),
            _ => None,
        }
    }
}

/// The CPU ids that a comma-separated CPU list such as `0-7,16-23` names.
pub open spec fn cpu_list(s: Seq<char>) -> Option<Seq<usize>> {
    cpu_tokens(split(s, ','))
}

/// The number that a sysfs attribute holds: the trimmed text read as an
/// unsigned decimal no larger than `max`.
pub open spec fn sysfs_value(s: Seq<char>, max: nat) -> Option<nat> {
    parse_unsigned(trim(s), max)
}

/// A parsed number, or zero where there is none.
pub open spec fn value_or_zero(v: Option<nat>) -> nat {
    match v {
        Some(n) => n,
        None => 0,
    }
}

/// The size in KB that a cache size attribute states. A trailing `K` or `k`
/// marks KB, a trailing `M` or `m` marks MB, no suffix means KB. Text that is
/// no number, or a size that does not fit in 64 bits, counts as zero.
pub open spec fn cache_size_kb(s: Seq<char>) -> nat {
    let t = trim(s);
    if t.len() > 0 && (t.last() == 'K' || t.last() == 'k') {
        value_or_zero(parse_unsigned(t.drop_last(), u64::MAX as nat))
    } else if t.len() > 0 && (t.last() == 'M' || t.last() == 'm') {
        let mb = value_or_zero(parse_unsigned(t.drop_last(), u64::MAX as nat));
        if mb * 1024 <= u64::MAX {
            mb * 1024
        } else {
            0
        }
    } else {
        value_or_zero(parse_unsigned(t, u64::MAX as nat))
    }
}

/// Key and value of a `key : value` line, both trimmed; `None` for a line
/// without a colon.
pub open spec fn line_entry(line: Seq<char>) -> Option<(Seq<char>, Seq<char>)> {
    let k = position(line, ':') as int;
    if k < line.len() {
        Some((trim(line.subrange(0, k)), trim(line.subrange(k + 1, line.len() as int))))
    } else {
        None
    }
}

/// The value that the last of `lines` with key `key` holds.
pub open spec fn lookup_lines(lines: Seq<Seq<char>>, key: Seq<char>) -> Option<Seq<char>>
    decreases lines.len(),
{
    if lines.len() == 0 {
        None
    } else {
        match line_entry(lines.last()) {
            Some((k, v)) => if k == key {
                Some(v)
            } else {
                lookup_lines(lines.drop_last(), key)
            },
            None => lookup_lines(lines.drop_last(), key),
        }
    }
}

/// The value of `key` in a `key : value` table with one entry per line,
/// where a later entry replaces an earlier one of the same key.
pub open spec fn table_value(content: Seq<char>, key: Seq<char>) -> Option<Seq<char>> {
    lookup_lines(split(content, '\n'), key)
}

/// The node number in a directory name of the form `node<N>`.
pub open spec fn node_number(name: Seq<char>) -> Option<nat> {
    if name.len() >= 4 && name.subrange(0, 4) == seq!['n', 'o', 'd', 'e'] {
        parse_unsigned(name.subrange(4, name.len() as int), usize::MAX as nat)
    } else {
        None
    }
}

// ---------------------------------------------------------------------------
// Facts about splitting.
// ---------------------------------------------------------------------------

/// One step of `split` on a tail of `s`: the piece that starts at `pos` ends
/// at the next separator `j`, and the remaining pieces are those of the text
/// behind it.
pub proof fn lemma_split_step(s: Seq<char>, sep: char, pos: int, j: int)
    requires
        0 <= pos <= j <= s.len(),
        forall|i: int| pos <= i < j ==> #[trigger] s[i] != sep,
        j == s.len() || s[j] == sep,
    ensures
        j == s.len() ==> split(s.subrange(pos, s.len() as int), sep) == seq![s.subrange(pos, j)],
        j < s.len() ==> split(s.subrange(pos, s.len() as int), sep) == seq![s.subrange(pos, j)]
            + split(s.subrange(j + 1, s.len() as int), sep),
{
    let tail = s.subrange(pos, s.len() as int);
    lemma_position(tail, sep, j - pos);
    if j < s.len() {
        assert(tail.subrange(0, j - pos) == s.subrange(pos, j));
        assert(tail.subrange(j - pos + 1, tail.len() as int) == s.subrange(
            j + 1,
            s.len() as int,
        ));
    }
}

/// A malformed token makes the whole list malformed, whatever follows it.
pub proof fn lemma_cpu_tokens_fail(done: Seq<Seq<char>>, more: Seq<Seq<char>>)
    requires
        cpu_tokens(done) is None,
    ensures
        cpu_tokens(done + more) is None,
    decreases more.len(),
{
    if more.len() > 0 {
        lemma_cpu_tokens_fail(done, more.drop_last());
        assert((done + more).drop_last() == done + more.drop_last());
    }
}

/// Text that neither starts nor ends with whitespace is its own trimmed form.
pub proof fn lemma_trim_identity(s: Seq<char>)
    requires
        s.len() > 0 ==> !is_space(s[0]) && !is_space(s.last()),
    ensures
        trim(s) == s,
{
    lemma_leading_spaces(s, 0);
    lemma_trailing_spaces(s, 0);
}

/// Splitting distributes over joining with the separator.
pub proof fn lemma_split_join(s1: Seq<char>, s2: Seq<char>, sep: char)
    ensures
        split(s1 + seq![sep] + s2, sep) == split(s1, sep) + split(s2, sep),
    decreases s1.len(),
{
    let full = s1 + seq![sep] + s2;
    let k = position(s1, sep) as int;
    lemma_position_bounds(s1, sep);
    lemma_position(full, sep, k);
    assert(full.subrange(0, k) == s1.subrange(0, k));
    if k < s1.len() {
        let tail = s1.subrange(k + 1, s1.len() as int);
        assert(full.subrange(k + 1, full.len() as int) == tail + seq![sep] + s2);
        lemma_split_join(tail, s2, sep);
    } else {
        assert(full.subrange(k + 1, full.len() as int) == s2);
        assert(s1.subrange(0, k) == s1);
    }
}

/// The ids of two runs of tokens, one after the other, are the ids of the
/// first followed by those of the second.
pub proof fn lemma_cpu_tokens_concat(a: Seq<Seq<char>>, b: Seq<Seq<char>>)
    ensures
        cpu_tokens(a + b) == match (cpu_tokens(a), cpu_tokens(b)) {
            (Some(x), Some(y)) => Some(x + y),
            _ => None,
        },
    decreases b.len(),
{
    if b.len() > 0 {
        lemma_cpu_tokens_concat(a, b.drop_last());
        assert((a + b).drop_last() == a + b.drop_last());
    }
}

/// A range written as two numerals around a dash reads as the inclusive
/// ascending run from the first number to the second (the empty run when the
/// first is larger).
pub proof fn lemma_cpu_list_range(x: Seq<char>, y: Seq<char>)
    requires
        x.len() > 0,
        y.len() > 0,
        all_digits(x),
        all_digits(y),
        digits_value(x) <= usize::MAX,
        digits_value(y) <= usize::MAX,
    ensures
        cpu_list(x + seq!['-'] + y) == Some(range_seq(digits_value(x), digits_value(y))),
{
    let s = x + seq!['-'] + y;
    lemma_position(s, ',', s.len() as int);
    assert(seq![s].drop_last() == Seq::<Seq<char>>::empty());
    lemma_trim_identity(s);
    lemma_position(s, '-', x.len() as int);
    assert(s.subrange(x.len() as int + 1, s.len() as int) == y);
    assert(s.subrange(0, x.len() as int) == x);
    assert(cpu_tokens(Seq::<Seq<char>>::empty()) == Some(Seq::<usize>::empty()));
}

/// A token with a second dash is malformed.
pub proof fn lemma_cpu_token_second_dash(t: Seq<char>)
    requires
        position(trim(t), '-') < trim(t).len(),
        trim(t).subrange(position(trim(t), '-') as int + 1, trim(t).len() as int).contains('-'),
    ensures
        cpu_token(t) is None,
{
    let p = trim(t);
    let rest = p.subrange(position(p, '-') as int + 1, p.len() as int);
    let j = choose|j: int| 0 <= j < rest.len() && rest[j] == '-';
    if rest[0] == '+' {
        assert(rest.drop_first()[j - 1] == '-');
        assert(!is_digit(rest.drop_first()[j - 1]));
    } else {
        assert(!is_digit(rest[j]));
    }
}

/// One malformed token makes the whole list malformed, wherever it stands.
pub proof fn lemma_cpu_tokens_malformed(ts: Seq<Seq<char>>, i: int)
    requires
        0 <= i < ts.len(),
        cpu_token(ts[i]) is None,
    ensures
        cpu_tokens(ts) is None,
    decreases ts.len(),
{
    if i < ts.len() - 1 {
        lemma_cpu_tokens_malformed(ts.drop_last(), i);
    }
}

/// A CPU list with a malformed token between two of its commas reads as
/// `None`, whatever its other tokens are.
pub proof fn lemma_cpu_list_malformed(s: Seq<char>, i: int)
    requires
        0 <= i < split(s, ',').len(),
        cpu_token(split(s, ',')[i]) is None,
    ensures
        cpu_list(s) is None,
{
    lemma_cpu_tokens_malformed(split(s, ','), i);
}

/// Two numbers written in decimal around a dash read as the inclusive
/// ascending run from the first to the second.
pub proof fn lemma_cpu_list_numbers(a: usize, b: usize)
    ensures
        cpu_list(decimal(a as nat) + seq!['-'] + decimal(b as nat)) == Some(
            range_seq(a as nat, b as nat),
        ),
{
    lemma_decimal(a as nat);
    lemma_decimal(b as nat);
    lemma_cpu_list_range(decimal(a as nat), decimal(b as nat));
}

/// A list made of two lists joined by a comma reads as the ids of the first
/// followed by the ids of the second, and is malformed exactly when one of
/// the two is.
pub proof fn lemma_cpu_list_concat(s1: Seq<char>, s2: Seq<char>)
    ensures
        cpu_list(s1 + seq![','] + s2) == match (cpu_list(s1), cpu_list(s2)) {
            (Some(a), Some(b)) => Some(a + b),
            _ => None,
        },
{
    lemma_split_join(s1, s2, ',');
    lemma_cpu_tokens_concat(split(s1, ','), split(s2, ','));
}

/// A numeral reads as that many KB with no suffix or with a `K` suffix in
/// either case, and as 1024 times as many with an `M` suffix in either case.
pub proof fn lemma_cache_size_units(x: Seq<char>, suffix: char)
    requires
        x.len() > 0,
        all_digits(x),
        digits_value(x) <= u64::MAX,
    ensures
        cache_size_kb(x) == digits_value(x),
        suffix == 'K' || suffix == 'k' ==> cache_size_kb(x.push(suffix)) == digits_value(x),
        (suffix == 'M' || suffix == 'm') && digits_value(x) * 1024 <= u64::MAX ==> cache_size_kb(
            x.push(suffix),
        ) == digits_value(x) * 1024,
{
    lemma_trim_identity(x);
    let t = x.push(suffix);
    assert(t.drop_last() == x);
    if suffix == 'K' || suffix == 'k' || suffix == 'M' || suffix == 'm' {
        lemma_trim_identity(t);
    }
}

// ---------------------------------------------------------------------------
// Executable readers.
// ---------------------------------------------------------------------------

/// Reads the number in a sysfs attribute: surrounding whitespace is dropped,
/// the rest must be an unsigned decimal no larger than `max`.
pub fn parse_sysfs_value(content: &str, max: u64) -> (r: Option<u64>)
    ensures
        r.is_some() == sysfs_value(content@, max as nat).is_some(),
        r.is_some() ==> r.unwrap() == sysfs_value(content@, max as nat).unwrap(),
{
    let v = to_chars(content);
    let (a, b) = trim_range(&v, 0, v.len());
    proof {
        assert(v@.subrange(0, v.len() as int) == v@);
    }
    parse_unsigned_range(&v, a, b, max)
}

/// Appends to `acc` the CPU ids that the token `v[lo..hi]` names. Returns
/// `false`, with `acc` in an unspecified state, when the token is malformed.
fn push_cpu_token(v: &Vec<char>, lo: usize, hi: usize, acc: &mut Vec<usize>) -> (ok: bool)
    requires
        lo <= hi <= v.len(),
    ensures
        ok == cpu_token(v@.subrange(lo as int, hi as int)).is_some(),
        ok ==> final(acc)@ == old(acc)@ + cpu_token(v@.subrange(lo as int, hi as int)).unwrap(),
{
    let ghost base = acc@;
    let (a, b) = trim_range(v, lo, hi);
    let ghost p = v@.subrange(a as int, b as int);
    let k = find_char(v, a, b, '-');
    if k < b {
        proof {
            assert(p.subrange(k - a + 1, p.len() as int) == v@.subrange(k + 1, b as int));
            assert(p.subrange(0, k - a) == v@.subrange(a as int, k as int));
        }
        let first = parse_unsigned_range(v, a, k, usize::MAX as u64);
        let second = parse_unsigned_range(v, k + 1, b, usize::MAX as u64);
        match (first, second) {
            (Some(start), Some(end)) => {
                if start <= end {
                    let mut i: u64 = start;
                    while i < end
                        invariant
                            start <= i <= end <= usize::MAX,
                            acc@ == base + range_seq(start as nat, i as nat).drop_last(),
                        decreases end - i,
                    {
                        acc.push(i as usize);
                        i += 1;
                    }
                    acc.push(end as usize);
                }
                true
            },
            _ => false,
        }
    } else if a < b {
        match parse_unsigned_range(v, a, b, usize::MAX as u64) {
            Some(n) => {
                acc.push(n as usize);
                true
            },
            None => false,
        }
    } else {
        true
    }
}

/// Reads a CPU list such as `0-7,16-23`: comma-separated tokens, each a
/// single id or an inclusive `start-end` range, expanded in ascending order
/// and concatenated in input order. One malformed token makes the whole list
/// `None`.
pub fn parse_cpu_list(s: &str) -> (r: Option<Vec<usize>>)
    ensures
        r.is_some() == cpu_list(s@).is_some(),
        r.is_some() ==> r.unwrap()@ == cpu_list(s@).unwrap(),
{
    let v = to_chars(s);
    let n: usize = v.len();
    let mut acc: Vec<usize> = Vec::new();
    let mut pos: usize = 0;
    let ghost mut done: Seq<Seq<char>> = Seq::empty();
    proof {
        assert(v@.subrange(0, n as int) == v@);
    }
    loop
        invariant
            n == v.len(),
            v@ == s@,
            pos <= n,
            split(v@, ',') == done + split(v@.subrange(pos as int, n as int), ','),
            cpu_tokens(done) == Some(acc@),
        decreases n - pos,
    {
        let j = find_char(&v, pos, n, ',');
        let ghost token = v@.subrange(pos as int, j as int);
        proof {
            lemma_split_step(v@, ',', pos as int, j as int);
            assert(done.push(token).drop_last() == done);
        }
        let ok = push_cpu_token(&v, pos, j, &mut acc);
        if !ok {
            proof {
                let rest = if j < n {
                    split(v@.subrange(j + 1, n as int), ',')
                } else {
                    Seq::empty()
                };
                lemma_cpu_tokens_fail(done.push(token), rest);
                assert(done + (seq![token] + rest) == done.push(token) + rest);
            }
            return None;
        }
        if j == n {
            proof {
                assert(done + seq![token] == done.push(token));
            }
            return Some(acc);
        }
        proof {
            done = done.push(token);
        }
        pos = j + 1;
    }
}

/// Reads a cache size such as `32768K` or `32M` and returns it in KB. The
/// suffix is matched without regard to case; text without a suffix is taken
/// as KB. Text that is no number yields 0, and so does a size that 64 bits
/// cannot hold.
pub fn parse_cache_size(s: &str) -> (kb: u64)
    ensures
        kb == cache_size_kb(s@),
{
    let v = to_chars(s);
    let (a, b) = trim_range(&v, 0, v.len());
    proof {
        assert(v@.subrange(0, v.len() as int) == v@);
    }
    let ghost t = v@.subrange(a as int, b as int);
    if a < b && (v[b - 1] == 'K' || v[b - 1] == 'k') {
        proof {
            assert(t.drop_last() == v@.subrange(a as int, b - 1));
        }
        match parse_unsigned_range(&v, a, b - 1, u64::MAX) {
            Some(n) => n,
            None => 0,
        }
    } else if a < b && (v[b - 1] == 'M' || v[b - 1] == 'm') {
        proof {
            assert(t.drop_last() == v@.subrange(a as int, b - 1));
        }
        match parse_unsigned_range(&v, a, b - 1, u64::MAX) {
            Some(n) => {
                if n <= u64::MAX / 1024 {
                    n * 1024
                } else {
                    0
                }
            },
            None => 0,
        }
    } else {
        match parse_unsigned_range(&v, a, b, u64::MAX) {
            Some(n) => n,
            None => 0,
        }
    }
}

/// Tells whether `v[lo..hi]` spells `key`.
fn range_equals(v: &Vec<char>, lo: usize, hi: usize, key: &Vec<char>) -> (b: bool)
    requires
        lo <= hi <= v.len(),
    ensures
        b == (v@.subrange(lo as int, hi as int) == key@),
{
    if hi - lo != key.len() {
        return false;
    }
    let mut i: usize = 0;
    while i < key.len()
        invariant
            lo <= hi <= v.len(),
            hi - lo == key.len(),
            i <= key.len(),
            forall|k: int| 0 <= k < i ==> v@[lo + k] == key@[k],
        decreases key.len() - i,
    {
        if v[lo + i] != key[i] {
            return false;
        }
        i += 1;
    }
    proof {
        assert(v@.subrange(lo as int, hi as int) =~= key@);
    }
    true
}

/// Looks up `key` in a `key : value` table such as `/proc/cpuinfo`: one entry
/// per line, key and value trimmed, lines without a colon skipped. Where a
/// key occurs on several lines, the last one counts.
pub fn table_field(content: &str, key: &str) -> (r: Option<String>)
    ensures
        r.is_some() == table_value(content@, key@).is_some(),
        r.is_some() ==> r.unwrap()@ == table_value(content@, key@).unwrap(),
{
    let v = to_chars(content);
    let wanted = to_chars(key);
    let n: usize = v.len();
    let mut found: Option<(usize, usize)> = None;
    let mut pos: usize = 0;
    let ghost mut done: Seq<Seq<char>> = Seq::empty();
    proof {
        assert(v@.subrange(0, n as int) == v@);
    }
    loop
        invariant_except_break
            pos <= n,
            split(v@, '\n') == done + split(v@.subrange(pos as int, n as int), '\n'),
        invariant
            n == v.len(),
            v@ == content@,
            wanted@ == key@,
            found.is_some() == lookup_lines(done, key@).is_some(),
            found.is_some() ==> found.unwrap().0 <= found.unwrap().1 <= n && v@.subrange(
                found.unwrap().0 as int,
                found.unwrap().1 as int,
            ) == lookup_lines(done, key@).unwrap(),
        ensures
            split(v@, '\n') == done,
        decreases n - pos,
    {
        let j = find_char(&v, pos, n, '\n');
        let ghost line = v@.subrange(pos as int, j as int);
        proof {
            lemma_split_step(v@, '\n', pos as int, j as int);
            assert(done.push(line).drop_last() == done);
        }
        let k = find_char(&v, pos, j, ':');
        if k < j {
            let (ka, kb) = trim_range(&v, pos, k);
            let (va, vb) = trim_range(&v, k + 1, j);
            proof {
                assert(line.subrange(0, k - pos) == v@.subrange(pos as int, k as int));
                assert(line.subrange(k - pos + 1, line.len() as int) == v@.subrange(
                    k + 1,
                    j as int,
                ));
            }
            if range_equals(&v, ka, kb, &wanted) {
                found = Some((va, vb));
            }
        }
        proof {
            done = done.push(line);
        }
        if j == n {
            break;
        }
        pos = j + 1;
    }
    match found {
        Some((a, b)) => Some(String::from_str(content.substring_char(a, b))),
        None => None,
    }
}

/// Reads the node number from a directory name of the form `node<N>`.
pub fn parse_node_name(name: &str) -> (r: Option<usize>)
    ensures
        r.is_some() == node_number(name@).is_some(),
        r.is_some() ==> r.unwrap() == node_number(name@).unwrap(),
{
    let v = to_chars(name);
    if v.len() >= 4 && v[0] == 'n' && v[1] == 'o' && v[2] == 'd' && v[3] == 'e' {
        proof {
            assert(v@.subrange(0, 4) =~= seq!['n', 'o', 'd', 'e']);
        }
        match parse_unsigned_range(&v, 4, v.len(), usize::MAX as u64) {
            Some(n) => Some(n as usize),
            None => None,
        }
    } else {
        None
    }
}

} // verus!
