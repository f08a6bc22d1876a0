//! Character-level text handling shared by the colour and `uevent` parsers:
//! Unicode whitespace trimming, splitting, line iteration and hexadecimal
//! number parsing, each stated over `Seq<char>`.
use vstd::prelude::*;

verus! {

/// The Unicode `White_Space` property, which `char::is_whitespace` tests.
pub open spec fn is_white_space(c: char) -> bool {
    let u = c as u32;
    ||| u == 0x20
    ||| 0x09 <= u <= 0x0d
    ||| u == 0x85
    ||| u == 0xa0
    ||| u == 0x1680
    ||| 0x2000 <= u <= 0x200a
    ||| u == 0x2028
    ||| u == 0x2029
    ||| u == 0x202f
    ||| u == 0x205f
    ||| u == 0x3000
}

pub fn white_space(c: char) -> (b: bool)
    ensures
        b == is_white_space(c),
{
    let u = c as u32;
    u == 0x20 || (0x09 <= u && u <= 0x0d) || u == 0x85 || u == 0xa0 || u == 0x1680 || (0x2000 <= u
        && u <= 0x200a) || u == 0x2028 || u == 0x2029 || u == 0x202f || u == 0x205f || u == 0x3000
}

/// `s` with its leading whitespace removed.
pub open spec fn trim_start(s: Seq<char>) -> Seq<char>
    decreases s.len(),
{
    if s.len() > 0 && is_white_space(s[0]) {
        trim_start(s.drop_first())
    } else {
        s
    }
}

/// `s` with its trailing whitespace removed.
pub open spec fn trim_end(s: Seq<char>) -> Seq<char>
    decreases s.len(),
{
    if s.len() > 0 && is_white_space(s.last()) {
        trim_end(s.drop_last())
    } else {
        s
    }
}

/// `str::trim`: whitespace removed from both ends.
pub open spec fn trim(s: Seq<char>) -> Seq<char> {
    trim_end(trim_start(s))
}

/// `String::push` appends one character: the string's characters grow by
/// exactly that one at the end.
pub assume_specification[ String::push ](s: &mut String, ch: char)
    ensures
        final(s)@ == old(s)@.push(ch),
;

/// The characters of a string slice.
pub fn chars_of(s: &str) -> (v: Vec<char>)
    ensures
        v@ == s@,
{
    let n = s.unicode_len();
    let mut v: Vec<char> = Vec::new();
    let mut i: usize = 0;
    while i < n
        invariant
            n == s@.len(),
            i <= n,
            v@ == s@.take(i as int),
        decreases n - i,
    {
        v.push(s.get_char(i));
        i = i + 1;
        assert(v@ =~= s@.take(i as int));
    }
    assert(s@.take(n as int) =~= s@);
    v
}

/// A `String` holding exactly the characters `s`.
pub fn string_of(s: &[char]) -> (r: String)
    ensures
        r@ == s@,
{
    let mut r = String::new();
    let mut i: usize = 0;
    while i < s.len()
        invariant
            i <= s.len(),
            r@ == s@.take(i as int),
        decreases s.len() - i,
    {
        r.push(s[i]);
        i = i + 1;
        assert(r@ =~= s@.take(i as int));
    }
    assert(s@.take(s.len() as int) =~= s@);
    r
}

/// Bounds `(lo, hi)` with `s[lo..hi] == trim(s)`.
pub fn trim_bounds(s: &[char]) -> (r: (usize, usize))
    ensures
        r.0 <= r.1 <= s.len(),
        s@.subrange(r.0 as int, r.1 as int) == trim(s@),
{
    let n = s.len();
    let mut i: usize = 0;
    assert(s@.subrange(0, n as int) =~= s@);
    while i < n && white_space(s[i])
        invariant
            n == s.len(),
            i <= n,
            trim_start(s@) == trim_start(s@.subrange(i as int, n as int)),
        decreases n - i,
    {
        assert(s@.subrange(i as int, n as int).drop_first() =~= s@.subrange(
            i + 1,
            n as int,
        ));
        i = i + 1;
    }
    let mut j: usize = n;
    while j > i && white_space(s[j - 1])
        invariant
            n == s.len(),
            i <= j <= n,
            trim_start(s@) == s@.subrange(i as int, n as int),
            trim_end(trim_start(s@)) == trim_end(s@.subrange(i as int, j as int)),
        decreases j - i,
    {
        assert(s@.subrange(i as int, j as int).drop_last() =~= s@.subrange(
            i as int,
            j - 1,
        ));
        j = j - 1;
    }
    (i, j)
}

/// The value of a hexadecimal digit, upper or lower case.
pub open spec fn hex_digit_value(c: char) -> Option<nat> {
    let u = c as u32;
    if 0x30 <= u <= 0x39 {
        Some((u - 0x30) as nat)
    } else if 0x61 <= u <= 0x66 {
        Some((u - 0x61 + 10) as nat)
    } else if 0x41 <= u <= 0x46 {
        Some((u - 0x41 + 10) as nat)
    } else {
        None
    }
}

pub fn hex_digit(c: char) -> (r: Option<u32>)
    ensures
        match hex_digit_value(c) {
            Some(d) => r == Some(d as u32),
            None => r is None,
        },
{
    let u = c as u32;
    if 0x30 <= u && u <= 0x39 {
        Some(u - 0x30)
    } else if 0x61 <= u && u <= 0x66 {
        Some(u - 0x61 + 10)
    } else if 0x41 <= u && u <= 0x46 {
        Some(u - 0x41 + 10)
    } else {
        None
    }
}

/// The character of hex digit `d`, upper or lower case.
pub open spec fn hex_digit_char(d: int, upper: bool) -> char {
    if d < 10 {
        (0x30 + d) as char
    } else if upper {
        (0x41 + d - 10) as char
    } else {
        (0x61 + d - 10) as char
    }
}

pub proof fn lemma_hex_digit_char(d: int, upper: bool)
    requires
        0 <= d < 16,
    ensures
        hex_digit_value(hex_digit_char(d, upper)) == Some(d as nat),
        !is_white_space(hex_digit_char(d, upper)),
        hex_digit_char(d, upper) != '#',
        hex_digit_char(d, upper) != '+',
        hex_digit_char(d, upper) != ':',
        (hex_digit_char(d, upper) as u32) < 0x80,
{
}

/// The number written by a run of hexadecimal digits (`Some(0)` for no digit).
pub open spec fn hex_digits_value(s: Seq<char>) -> Option<nat>
    decreases s.len(),
{
    if s.len() == 0 {
        Some(0)
    } else {
        match (hex_digits_value(s.drop_last()), hex_digit_value(s.last())) {
            (Some(v), Some(d)) => Some(v * 16 + d),
            _ => None,
        }
    }
}

/// `from_str_radix(s, 16)` for an unsigned integer type whose largest value is
/// `max`: an optional `+`, then at least one hexadecimal digit, and a value
/// that fits.
pub open spec fn parse_unsigned_hex(s: Seq<char>, max: nat) -> Option<nat> {
    let digits = if s.len() > 0 && s[0] == '+' {
        s.drop_first()
    } else {
        s
    };
    if digits.len() == 0 {
        None
    } else {
        match hex_digits_value(digits) {
            Some(v) => if v <= max {
                Some(v)
            } else {
                None
            },
            None => None,
        }
    }
}

/// Parses `s[lo..hi]` as `parse_unsigned_hex` does with the bound `max`.
pub fn parse_hex(s: &[char], lo: usize, hi: usize, max: u32) -> (r: Option<u32>)
    requires
        lo <= hi <= s.len(),
    ensures
        match parse_unsigned_hex(s@.subrange(lo as int, hi as int), max as nat) {
            Some(v) => r == Some(v as u32),
            None => r is None,
        },
{
    let ghost t = s@.subrange(lo as int, hi as int);
    let start = if lo < hi && s[lo] == '+' {
        lo + 1
    } else {
        lo
    };
    let ghost digits = s@.subrange(start as int, hi as int);
    assert(digits =~= (if t.len() > 0 && t[0] == '+' {
        t.drop_first()
    } else {
        t
    }));
    if start == hi {
        return None;
    }
    let cap: u64 = 0x1_0000_0000;
    let mut acc: u64 = 0;
    let mut valid = true;
    let mut k = start;
    let ghost mut value: nat = 0;
    assert(s@.subrange(start as int, start as int) =~= Seq::<char>::empty());
    while k < hi
        invariant
            start <= k <= hi <= s.len(),
            cap == 0x1_0000_0000,
            valid ==> hex_digits_value(s@.subrange(start as int, k as int)) == Some(value),
            valid ==> acc == (if value < cap {
                value
            } else {
                cap as nat
            }),
            !valid ==> hex_digits_value(s@.subrange(start as int, k as int)) is None,
            acc <= cap,
        decreases hi - k,
    {
        let ghost prefix = s@.subrange(start as int, k + 1);
        assert(prefix.drop_last() =~= s@.subrange(start as int, k as int));
        assert(prefix.last() == s@[k as int]);
        match hex_digit(s[k]) {
            Some(d) => {
                if valid {
                    proof {
                        value = value * 16 + d as nat;
                    }
                    if acc < cap {
                        let t = acc * 16 + d as u64;
                        acc = if t < cap {
                            t
                        } else {
                            cap
                        };
                    }
                }
            },
            None => {
                valid = false;
            },
        }
        k = k + 1;
    }
    if !valid || acc > max as u64 {
        None
    } else {
        Some(acc as u32)
    }
}

/// `split(sep)`: the pieces of `s` between the copies of `sep`, from the left.
pub open spec fn split_on(s: Seq<char>, sep: char) -> Seq<Seq<char>>
    decreases s.len(),
{
    if s.len() == 0 {
        seq![Seq::<char>::empty()]
    } else {
        let p = split_on(s.drop_last(), sep);
        if s.last() == sep {
            p.push(Seq::<char>::empty())
        } else {
            p.update(p.len() - 1, p.last().push(s.last()))
        }
    }
}

pub proof fn lemma_split_on_nonempty(s: Seq<char>, sep: char)
    ensures
        split_on(s, sep).len() >= 1,
    decreases s.len(),
{
    if s.len() > 0 {
        lemma_split_on_nonempty(s.drop_last(), sep);
    }
}

pub fn split_chars(s: &[char], sep: char) -> (r: Vec<Vec<char>>)
    ensures
        r.deep_view() == split_on(s@, sep),
{
    let mut done: Vec<Vec<char>> = Vec::new();
    let mut cur: Vec<char> = Vec::new();
    let mut i: usize = 0;
    assert(s@.take(0) =~= Seq::<char>::empty());
    assert(done.deep_view().push(cur@) =~= split_on(s@.take(0), sep));
    while i < s.len()
        invariant
            i <= s.len(),
            done.deep_view().push(cur@) =~= split_on(s@.take(i as int), sep),
        decreases s.len() - i,
    {
        let ghost before = done.deep_view();
        let ghost t = s@.take(i + 1);
        assert(t.drop_last() =~= s@.take(i as int));
        assert(t.last() == s@[i as int]);
        let c = s[i];
        if c == sep {
            assert(cur.deep_view() =~= cur@);
            let finished = cur;
            done.push(finished);
            cur = Vec::new();
            assert(done.deep_view() =~= before.push(finished@));
        } else {
            cur.push(c);
            assert(done.deep_view() =~= before);
        }
        i = i + 1;
        assert(done.deep_view().push(cur@) =~= split_on(s@.take(i as int), sep));
    }
    assert(s@.take(s.len() as int) =~= s@);
    let ghost before = done.deep_view();
    assert(cur.deep_view() =~= cur@);
    done.push(cur);
    assert(done.deep_view() =~= before.push(cur@));
    done
}

/// `s` with one trailing carriage return removed.
pub open spec fn strip_cr(s: Seq<char>) -> Seq<char> {
    if s.len() > 0 && s.last() == '\r' {
        s.drop_last()
    } else {
        s
    }
}

/// Line `k` among the pieces of a text split at `'\n'`: a piece that a newline
/// ended also loses one trailing `'\r'`.
pub open spec fn line_of_piece(pieces: Seq<Seq<char>>, k: int) -> Seq<char> {
    if k < pieces.len() - 1 {
        strip_cr(pieces[k])
    } else {
        pieces[k]
    }
}

/// `str::lines`: the lines of `s`, without their `"\n"` or `"\r\n"` endings; a
/// final newline does not start another line.
pub open spec fn lines(s: Seq<char>) -> Seq<Seq<char>> {
    let pieces = split_on(s, '\n');
    let n = if pieces.last().len() == 0 {
        pieces.len() - 1
    } else {
        pieces.len() as int
    };
    Seq::new(n as nat, |k: int| line_of_piece(pieces, k))
}

/// What follows `prefix` in the first of `lines` that starts with it.
pub open spec fn find_prefixed(lines: Seq<Seq<char>>, prefix: Seq<char>) -> Option<Seq<char>>
    decreases lines.len(),
{
    if lines.len() == 0 {
        None
    } else if prefix.len() <= lines[0].len() && lines[0].take(prefix.len() as int) == prefix {
        Some(lines[0].skip(prefix.len() as int))
    } else {
        find_prefixed(lines.drop_first(), prefix)
    }
}

/// `s.lines().find_map(|l| l.strip_prefix(prefix))`, as characters.
pub fn find_line_with_prefix(s: &[char], prefix: &[char]) -> (r: Option<Vec<char>>)
    ensures
        match find_prefixed(lines(s@), prefix@) {
            Some(rest) => r matches Some(v) && v@ == rest,
            None => r is None,
        },
{
    let pieces = split_chars(s, '\n');
    proof {
        lemma_split_on_nonempty(s@, '\n');
    }
    let ghost all = lines(s@);
    let np = pieces.len();
    let n = if pieces[np - 1].len() == 0 {
        np - 1
    } else {
        np
    };
    assert(all.len() == n);
    let mut k: usize = 0;
    assert(all.skip(0) =~= all);
    while k < n
        invariant
            n <= np == pieces.deep_view().len(),
            pieces.deep_view() == split_on(s@, '\n'),
            all == lines(s@),
            all.len() == n,
            k <= n,
            find_prefixed(all, prefix@) == find_prefixed(all.skip(k as int), prefix@),
        decreases n - k,
    {
        let piece = &pieces[k];
        let ghost pv = pieces.deep_view()[k as int];
        assert(piece@ == pv);
        let end = if k + 1 < np && piece.len() > 0 && piece[piece.len() - 1] == '\r' {
            piece.len() - 1
        } else {
            piece.len()
        };
        let ghost line = all[k as int];
        assert(line == line_of_piece(split_on(s@, '\n'), k as int));
        assert(line =~= piece@.take(end as int));
        assert(all.skip(k as int)[0] == line);
        assert(all.skip(k as int).drop_first() =~= all.skip(k + 1));
        if prefix.len() <= end {
            let mut same = true;
            let mut j: usize = 0;
            while j < prefix.len()
                invariant
                    prefix.len() <= end <= piece.len(),
                    j <= prefix.len(),
                    same == (forall|m: int| 0 <= m < j ==> piece@[m] == prefix@[m]),
                decreases prefix.len() - j,
            {
                if piece[j] != prefix[j] {
                    same = false;
                }
                j = j + 1;
            }
            assert(same ==> line.take(prefix.len() as int) =~= prefix@);
            assert(line.take(prefix.len() as int) =~= prefix@ ==> forall|m: int|
                0 <= m < prefix.len() ==> piece@[m] == #[trigger] prefix@[m]) by {
                if line.take(prefix.len() as int) =~= prefix@ {
                    assert forall|m: int| 0 <= m < prefix.len() implies piece@[m] == #[trigger] prefix@[m] by {
                        assert(line.take(prefix.len() as int)[m] == prefix@[m]);
                    }
                }
            }
            if same {
                let mut rest: Vec<char> = Vec::new();
                let mut m = prefix.len();
                while m < end
                    invariant
                        prefix.len() <= m <= end <= piece.len(),
                        rest@ =~= piece@.subrange(prefix.len() as int, m as int),
                    decreases end - m,
                {
                    rest.push(piece[m]);
                    m = m + 1;
                }
                assert(rest@ =~= line.skip(prefix.len() as int));
                return Some(rest);
            }
        }
        k = k + 1;
    }
    None
}

/// `16^n`.
pub open spec fn pow16(n: nat) -> nat
    decreases n,
{
    if n == 0 {
        1
    } else {
        16 * pow16((n - 1) as nat)
    }
}

/// The last `n` hexadecimal digits of `v`, most significant first.
pub open spec fn hex_digits(v: nat, n: nat, upper: bool) -> Seq<char>
    decreases n,
{
    if n == 0 {
        Seq::<char>::empty()
    } else {
        hex_digits(v / 16, (n - 1) as nat, upper).push(hex_digit_char((v % 16) as int, upper))
    }
}

/// Reading `n` written digits of `v` gives `v` modulo `16^n`; every digit is
/// a plain hex digit.
pub proof fn lemma_hex_digits(v: nat, n: nat, upper: bool)
    ensures
        hex_digits(v, n, upper).len() == n,
        hex_digits_value(hex_digits(v, n, upper)) == Some(v % pow16(n)),
        pow16(n) > 0,
        forall|i: int|
            0 <= i < n ==> {
                let c = #[trigger] hex_digits(v, n, upper)[i];
                &&& !is_white_space(c)
                &&& c != ':'
                &&& c != '+'
                &&& hex_digit_value(c) is Some
            },
    decreases n,
{
    if n > 0 {
        let t = hex_digits(v / 16, (n - 1) as nat, upper);
        let s = hex_digits(v, n, upper);
        lemma_hex_digits(v / 16, (n - 1) as nat, upper);
        lemma_hex_digit_char((v % 16) as int, upper);
        assert(s.drop_last() =~= t);
        vstd::arithmetic::div_mod::lemma_mod_breakdown(v as int, 16, pow16((n - 1) as nat) as int);
        assert forall|i: int| 0 <= i < n implies {
            let c = #[trigger] s[i];
            &&& !is_white_space(c)
            &&& c != ':'
            &&& c != '+'
            &&& hex_digit_value(c) is Some
        } by {
            if i < n - 1 {
                assert(s[i] == t[i]);
            }
        }
    }
}

/// A text without `sep` is a single piece.
pub proof fn lemma_split_on_single(s: Seq<char>, sep: char)
    requires
        forall|i: int| 0 <= i < s.len() ==> s[i] != sep,
    ensures
        split_on(s, sep) == seq![s],
    decreases s.len(),
{
    if s.len() > 0 {
        assert forall|i: int| 0 <= i < s.drop_last().len() implies s.drop_last()[i] != sep by {
            assert(s.drop_last()[i] == s[i]);
        }
        lemma_split_on_single(s.drop_last(), sep);
        assert(s.drop_last().push(s.last()) =~= s);
        assert(s[s.len() - 1] != sep);
        assert(split_on(s, sep) =~= seq![s]);
    } else {
        assert(s =~= Seq::<char>::empty());
    }
}

/// Splitting at a separator splits the two sides on their own.
pub proof fn lemma_split_on_concat(s: Seq<char>, t: Seq<char>, sep: char)
    ensures
        split_on(s + seq![sep] + t, sep) == split_on(s, sep) + split_on(t, sep),
    decreases t.len(),
{
    let whole = s + seq![sep] + t;
    if t.len() == 0 {
        assert(whole.drop_last() =~= s);
        assert(split_on(whole, sep) =~= split_on(s, sep) + split_on(t, sep));
    } else {
        let t1 = t.drop_last();
        lemma_split_on_concat(s, t1, sep);
        lemma_split_on_nonempty(t1, sep);
        lemma_split_on_nonempty(s, sep);
        assert(whole.drop_last() =~= s + seq![sep] + t1);
        assert(whole.last() == t.last());
        assert(split_on(whole, sep) =~= split_on(s, sep) + split_on(t, sep));
    }
}

/// A text that starts and ends with non-whitespace is its own trim.
pub proof fn lemma_trim_unchanged(s: Seq<char>)
    requires
        s.len() > 0,
        !is_white_space(s[0]),
        !is_white_space(s.last()),
    ensures
        trim(s) == s,
{
}

} // verus!
