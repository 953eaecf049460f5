//! Character-level helpers shared by the renderers and parsers:
//! whitespace trimming, line splitting and number formatting.
use vstd::prelude::*;
use vstd::string::*;

verus! {

/// Rust's `char::is_whitespace`: the Unicode `White_Space` property.
pub open spec fn is_ws(c: char) -> bool {
    ||| ('\t' <= c && c <= '\r')
    ||| c == ' '
    ||| c == '\u{85}'
    ||| c == '\u{a0}'
    ||| c == '\u{1680}'
    ||| ('\u{2000}' <= c && c <= '\u{200a}')
    ||| c == '\u{2028}'
    ||| c == '\u{2029}'
    ||| c == '\u{202f}'
    ||| c == '\u{205f}'
    ||| c == '\u{3000}'
}

/// `s` without its leading whitespace.
pub open spec fn trim_start(s: Seq<char>) -> Seq<char>
    decreases s.len(),
{
    if s.len() > 0 && is_ws(s[0]) {
        trim_start(s.drop_first())
    } else {
        s
    }
}

/// `s` without its trailing whitespace.
pub open spec fn trim_end(s: Seq<char>) -> Seq<char>
    decreases s.len(),
{
    if s.len() > 0 && is_ws(s.last()) {
        trim_end(s.drop_last())
    } else {
        s
    }
}

/// `str::trim`: `s` without leading and trailing whitespace.
pub open spec fn trim(s: Seq<char>) -> Seq<char> {
    trim_end(trim_start(s))
}

/// The character of a decimal digit.
pub open spec fn digit_char(d: nat) -> char {
    if d == 0 { '0' } else if d == 1 { '1' } else if d == 2 { '2' } else if d == 3 { '3' }
    else if d == 4 { '4' } else if d == 5 { '5' } else if d == 6 { '6' } else if d == 7 { '7' }
    else if d == 8 { '8' } else if d == 9 { '9' } else if d == 10 { 'a' } else if d == 11 { 'b' }
    else if d == 12 { 'c' } else if d == 13 { 'd' } else if d == 14 { 'e' } else { 'f' }
}

/// The digits of `n` in base `b` (2..=16), most significant first, without
/// leading zeros; `0` is written as a single `'0'`.
pub open spec fn digits(n: nat, b: nat) -> Seq<char>
    decreases n,
{
    if b < 2 || n < b {
        seq![digit_char(n)]
    } else {
        proof {
            assert(n / b < n) by (nonlinear_arith)
                requires
                    b >= 2,
                    n >= b,
            ;
        }
        digits(n / b, b).push(digit_char(n % b))
    }
}

/// Decimal text of `n` (as `{}` formats it).
pub open spec fn dec(n: nat) -> Seq<char> {
    digits(n, 10)
}

/// Octal text of `n` (as `{:o}` formats it).
pub open spec fn oct(n: nat) -> Seq<char> {
    digits(n, 8)
}

/// Two lower-case hex digits of a byte (as `{:02x}` formats it).
pub open spec fn hex_byte(b: u8) -> Seq<char> {
    seq![digit_char((b / 16) as nat), digit_char((b % 16) as nat)]
}

/// Lower-case hex text of a byte sequence.
pub open spec fn hex(bytes: Seq<u8>) -> Seq<char>
    decreases bytes.len(),
{
    if bytes.len() == 0 {
        Seq::empty()
    } else {
        hex(bytes.drop_last()) + hex_byte(bytes.last())
    }
}

/// A one-character string holding the digit `d`.
fn digit_str(d: u64) -> (res: &'static str)
    requires
        d < 16,
    ensures
        res@ == seq![digit_char(d as nat)],
{
    proof {
        reveal_strlit("0"); reveal_strlit("1"); reveal_strlit("2"); reveal_strlit("3");
        reveal_strlit("4"); reveal_strlit("5"); reveal_strlit("6"); reveal_strlit("7");
        reveal_strlit("8"); reveal_strlit("9"); reveal_strlit("a"); reveal_strlit("b");
        reveal_strlit("c"); reveal_strlit("d"); reveal_strlit("e"); reveal_strlit("f");
    }
    match d {
        0 => "0", 1 => "1", 2 => "2", 3 => "3", 4 => "4", 5 => "5", 6 => "6", 7 => "7",
        8 => "8", 9 => "9", 10 => "a", 11 => "b", 12 => "c", 13 => "d", 14 => "e", _ => "f",
    }
}

/// Append the base-`b` digits of `n` to `s`.
pub fn push_digits(s: &mut String, n: u64, b: u64)
    requires
        2 <= b <= 16,
    ensures
        final(s)@ == old(s)@ + digits(n as nat, b as nat),
    decreases n,
{
    if n < b {
        s.append(digit_str(n));
    } else {
        assert(n / b < n) by (nonlinear_arith)
            requires
                b >= 2,
                n >= b,
        ;
        push_digits(s, n / b, b);
        s.append(digit_str(n % b));
    }
}

/// Append the decimal text of `n` to `s`.
pub fn push_dec(s: &mut String, n: u64)
    ensures
        final(s)@ == old(s)@ + dec(n as nat),
{
    push_digits(s, n, 10);
}

/// Append the octal text of `n` to `s`.
pub fn push_oct(s: &mut String, n: u64)
    ensures
        final(s)@ == old(s)@ + oct(n as nat),
{
    push_digits(s, n, 8);
}

/// Append the lower-case hex text of `bytes` to `s`.
pub fn push_hex(s: &mut String, bytes: &[u8])
    ensures
        final(s)@ == old(s)@ + hex(bytes@),
{
    let mut i: usize = 0;
    while i < bytes.len()
        invariant
            i <= bytes.len(),
            s@ == old(s)@ + hex(bytes@.subrange(0, i as int)),
        decreases bytes.len() - i,
    {
        let b = bytes[i];
        s.append(digit_str((b / 16) as u64));
        s.append(digit_str((b % 16) as u64));
        assert(bytes@.subrange(0, i + 1).drop_last() == bytes@.subrange(0, i as int));
        i += 1;
    }
    assert(bytes@.subrange(0, bytes.len() as int) == bytes@);
}

/// `char::is_whitespace`.
pub fn is_whitespace(c: char) -> (res: bool)
    ensures
        res == is_ws(c),
{
    ('\t' <= c && c <= '\r') || c == ' ' || c == '\u{85}' || c == '\u{a0}' || c == '\u{1680}'
        || ('\u{2000}' <= c && c <= '\u{200a}') || c == '\u{2028}' || c == '\u{2029}'
        || c == '\u{202f}' || c == '\u{205f}' || c == '\u{3000}'
}

/// The characters of `s`.
pub fn chars_of(s: &str) -> (res: Vec<char>)
    ensures
        res@ == s@,
{
    let n = s.unicode_len();
    let mut res: Vec<char> = Vec::new();
    let mut i: usize = 0;
    while i < n
        invariant
            n == s@.len(),
            i <= n,
            res@ == s@.subrange(0, i as int),
        decreases n - i,
    {
        res.push(s.get_char(i));
        i += 1;
    }
    res
}

/// The bounds of `trim(cs[lo..hi])` inside `cs`.
pub fn trim_bounds(cs: &Vec<char>, lo: usize, hi: usize) -> (res: (usize, usize))
    requires
        lo <= hi <= cs@.len(),
    ensures
        lo <= res.0 <= res.1 <= hi,
        cs@.subrange(res.0 as int, res.1 as int) == trim(cs@.subrange(lo as int, hi as int)),
{
    let mut a = lo;
    while a < hi && is_whitespace(cs[a])
        invariant
            lo <= a <= hi <= cs@.len(),
            trim_start(cs@.subrange(lo as int, hi as int)) == trim_start(cs@.subrange(a as int, hi as int)),
        decreases hi - a,
    {
        assert(cs@.subrange(a as int, hi as int).drop_first() == cs@.subrange(a + 1, hi as int));
        a += 1;
    }
    assert(trim_start(cs@.subrange(a as int, hi as int)) == cs@.subrange(a as int, hi as int));
    let mut b = hi;
    while b > a && is_whitespace(cs[b - 1])
        invariant
            lo <= a <= b <= hi <= cs@.len(),
            trim(cs@.subrange(lo as int, hi as int)) == trim_end(cs@.subrange(a as int, b as int)),
        decreases b - a,
    {
        assert(cs@.subrange(a as int, b as int).drop_last() == cs@.subrange(a as int, b - 1));
        b -= 1;
    }
    (a, b)
}

/// The views of a list of strings.
pub open spec fn strs(v: Seq<String>) -> Seq<Seq<char>> {
    v.map_values(|s: String| s@)
}

/// `items` joined with `sep` between neighbours (`[T]::join`).
pub open spec fn join(items: Seq<Seq<char>>, sep: Seq<char>) -> Seq<char>
    decreases items.len(),
{
    if items.len() == 0 {
        Seq::empty()
    } else if items.len() == 1 {
        items[0]
    } else {
        join(items.drop_last(), sep) + sep + items.last()
    }
}

/// The first index at or after `i` where `c` occurs in `s`.
pub open spec fn char_index_from(s: Seq<char>, c: char, i: int) -> Option<int>
    decreases s.len() - i,
{
    if i < 0 || i >= s.len() {
        None
    } else if s[i] == c {
        Some(i)
    } else {
        char_index_from(s, c, i + 1)
    }
}

/// A line without the `'\r'` of a `"\r\n"` line ending.
pub open spec fn strip_cr(line: Seq<char>) -> Seq<char> {
    if line.len() > 0 && line.last() == '\r' {
        line.drop_last()
    } else {
        line
    }
}

/// `str::lines`: the lines of `s`, split at `"\n"` or `"\r\n"`; a final
/// line ending does not start an empty line.
pub open spec fn lines(s: Seq<char>) -> Seq<Seq<char>>
    decreases s.len(),
{
    if s.len() == 0 {
        Seq::empty()
    } else {
        match char_index_from(s, '\n', 0) {
            Some(i) => {
                proof {
                    lemma_char_index_from_bounds(s, '\n', 0);
                }
                seq![strip_cr(s.subrange(0, i))] + lines(s.subrange(i + 1, s.len() as int))
            },
            None => seq![s],
        }
    }
}

/// Where `char_index_from` can land.
pub proof fn lemma_char_index_from_bounds(s: Seq<char>, c: char, i: int)
    ensures
        char_index_from(s, c, i) matches Some(k) ==> 0 <= i <= k < s.len() && s[k] == c,
    decreases s.len() - i,
{
    if !(i < 0 || i >= s.len()) && s[i] != c {
        lemma_char_index_from_bounds(s, c, i + 1);
    }
}

/// `char_index_from` finds the first occurrence.
pub proof fn lemma_char_index_from_first(s: Seq<char>, c: char, i: int, k: int)
    requires
        0 <= i <= k < s.len(),
        s[k] == c,
        forall|j: int| i <= j < k ==> s[j] != c,
    ensures
        char_index_from(s, c, i) == Some(k),
    decreases k - i,
{
    if i < k {
        lemma_char_index_from_first(s, c, i + 1, k);
    }
}

/// `char_index_from` finds nothing where `c` does not occur.
pub proof fn lemma_char_index_from_none(s: Seq<char>, c: char, i: int)
    requires
        0 <= i,
        forall|j: int| i <= j < s.len() ==> s[j] != c,
    ensures
        char_index_from(s, c, i) is None,
    decreases s.len() - i,
{
    if i < s.len() {
        lemma_char_index_from_none(s, c, i + 1);
    }
}

/// The character bounds of the lines of `cs[lo..]`, as `lines` gives them.
pub fn line_bounds(cs: &Vec<char>) -> (res: Vec<(usize, usize)>)
    ensures
        forall|k: int| 0 <= k < res@.len() ==> #[trigger] res@[k].0 <= res@[k].1 <= cs@.len(),
        res@.map_values(|b: (usize, usize)| cs@.subrange(b.0 as int, b.1 as int)) == lines(cs@),
{
    let n = cs.len();
    let mut res: Vec<(usize, usize)> = Vec::new();
    let mut start: usize = 0;
    assert(cs@.subrange(0, n as int) == cs@);
    assert(res@.map_values(|b: (usize, usize)| cs@.subrange(b.0 as int, b.1 as int)) + lines(cs@)
        == lines(cs@));
    while start < n
        invariant
            n == cs@.len(),
            start <= n,
            forall|k: int| 0 <= k < res@.len() ==> #[trigger] res@[k].0 <= res@[k].1 <= cs@.len(),
            lines(cs@) == res@.map_values(|b: (usize, usize)| cs@.subrange(b.0 as int, b.1 as int))
                + lines(cs@.subrange(start as int, n as int)),
        decreases n - start,
    {
        let ghost rest = cs@.subrange(start as int, n as int);
        let mut j = start;
        while j < n && cs[j] != '\n'
            invariant
                n == cs@.len(),
                start <= j <= n,
                rest == cs@.subrange(start as int, n as int),
                forall|k: int| 0 <= k < j - start ==> rest[k] != '\n',
            decreases n - j,
        {
            j += 1;
        }
        let ghost old_res = res@;
        if j < n {
            proof {
                lemma_char_index_from_first(rest, '\n', 0, j - start);
            }
            let end = if j > start && cs[j - 1] == '\r' { j - 1 } else { j };
            res.push((start, end));
            proof {
                assert(strip_cr(rest.subrange(0, j - start)) == cs@.subrange(start as int, end as int));
                assert(rest.subrange(j - start + 1, rest.len() as int) == cs@.subrange(j + 1, n as int));
                assert(res@.map_values(|b: (usize, usize)| cs@.subrange(b.0 as int, b.1 as int))
                    == old_res.map_values(|b: (usize, usize)| cs@.subrange(b.0 as int, b.1 as int)).push(
                    cs@.subrange(start as int, end as int)));
            }
            start = j + 1;
        } else {
            proof {
                lemma_char_index_from_none(rest, '\n', 0);
            }
            res.push((start, n));
            proof {
                assert(res@.map_values(|b: (usize, usize)| cs@.subrange(b.0 as int, b.1 as int))
                    == old_res.map_values(|b: (usize, usize)| cs@.subrange(b.0 as int, b.1 as int)).push(
                    cs@.subrange(start as int, n as int)));
                assert(cs@.subrange(n as int, n as int).len() == 0);
            }
            start = n;
        }
    }
    assert(lines(cs@.subrange(n as int, n as int)) == Seq::<Seq<char>>::empty());
    res
}

/// The texts `f(x)` of the items `x` of `s`, concatenated in order.
pub open spec fn flat_map<A>(s: Seq<A>, f: spec_fn(A) -> Seq<char>) -> Seq<char>
    decreases s.len(),
{
    if s.len() == 0 {
        Seq::empty()
    } else {
        flat_map(s.drop_last(), f) + f(s.last())
    }
}

/// One more item of a concatenation.
pub proof fn lemma_flat_map_step<A>(s: Seq<A>, f: spec_fn(A) -> Seq<char>, i: int)
    requires
        0 <= i < s.len(),
    ensures
        flat_map(s.subrange(0, i + 1), f) == flat_map(s.subrange(0, i), f) + f(s[i]),
{
    assert(s.subrange(0, i + 1).drop_last() == s.subrange(0, i));
}

/// The concatenation of a single text.
pub proof fn lemma_flat_map_single<A>(x: A, f: spec_fn(A) -> Seq<char>)
    ensures
        flat_map(seq![x], f) == f(x),
{
    let s = seq![x];
    assert(s.drop_last() == Seq::<A>::empty());
    assert(flat_map(Seq::<A>::empty(), f) == Seq::<char>::empty());
    assert(Seq::<char>::empty() + f(x) == f(x));
}

/// `s` without a leading `'/'`.
pub open spec fn strip_slash(s: Seq<char>) -> Seq<char> {
    if s.len() > 0 && s[0] == '/' {
        s.drop_first()
    } else {
        s
    }
}

/// `s` starts with a `'/'`.
pub fn starts_with_slash(s: &str) -> (res: bool)
    ensures
        res == (s@.len() > 0 && s@[0] == '/'),
{
    s.unicode_len() > 0 && s.get_char(0) == '/'
}

/// Append `s` without a leading `'/'` to `out`.
pub fn push_without_slash(out: &mut String, s: &str)
    ensures
        final(out)@ == old(out)@ + strip_slash(s@),
{
    if starts_with_slash(s) {
        let n = s.unicode_len();
        out.append(s.substring_char(1, n));
        assert(s@.subrange(1, n as int) == s@.drop_first());
    } else {
        out.append(s);
    }
}

} // verus!
