//! Character-sequence toolkit: searching, splitting, joining and the
//! decimal / hexadecimal number syntax used by serial URIs.

use vstd::prelude::*;

verus! {

// ---------------------------------------------------------------------------
// Searching
// ---------------------------------------------------------------------------

/// Index of the first occurrence of `c` in `s`, if any.
pub open spec fn first_index_of(s: Seq<char>, c: char) -> Option<int>
    decreases s.len(),
{
    if s.len() == 0 {
        None
    } else if s[0] == c {
        Some(0)
    } else {
        match first_index_of(s.drop_first(), c) {
            Some(i) => Some(i + 1),
            None => None,
        }
    }
}

/// `s` holds no occurrence of `c`.
pub open spec fn lacks(s: Seq<char>, c: char) -> bool {
    forall|i: int| 0 <= i < s.len() ==> s[i] != c
}

/// `i` is the position of the first `c` in `s`.
pub open spec fn is_first_index(s: Seq<char>, c: char, i: int) -> bool {
    &&& 0 <= i < s.len()
    &&& s[i] == c
    &&& lacks(s.take(i), c)
}

/// What `first_index_of` returns, stated without recursion.
pub proof fn lemma_first_index_of(s: Seq<char>, c: char)
    ensures
        match first_index_of(s, c) {
            Some(i) => is_first_index(s, c, i),
            None => lacks(s, c),
        },
    decreases s.len(),
{
    if s.len() > 0 && s[0] != c {
        lemma_first_index_of(s.drop_first(), c);
        match first_index_of(s.drop_first(), c) {
            Some(i) => {
                assert forall|j: int| 0 <= j < i + 1 implies #[trigger] s.take(i + 1)[j] != c by {
                    if j > 0 {
                        assert(s.take(i + 1)[j] == s.drop_first().take(i)[j - 1]);
                    }
                }
            },
            None => {
                assert forall|j: int| 0 <= j < s.len() implies s[j] != c by {
                    if j > 0 {
                        assert(s[j] == s.drop_first()[j - 1]);
                    }
                }
            },
        }
    }
}

/// The first occurrence is unique: any position that satisfies the
/// characterization is the one `first_index_of` finds.
pub proof fn lemma_first_index_unique(s: Seq<char>, c: char, i: int)
    requires
        is_first_index(s, c, i),
    ensures
        first_index_of(s, c) == Some(i),
{
    lemma_first_index_of(s, c);
    match first_index_of(s, c) {
        Some(k) => {
            if k < i {
                assert(s.take(i)[k] == s[k]);
            } else if i < k {
                assert(s.take(k)[i] == s[i]);
            }
        },
        None => {},
    }
}

/// Searching a sequence without `c` finds nothing.
pub proof fn lemma_first_index_none(s: Seq<char>, c: char)
    requires
        lacks(s, c),
    ensures
        first_index_of(s, c) is None,
{
    lemma_first_index_of(s, c);
    if let Some(i) = first_index_of(s, c) {
        assert(s[i] == c);
    }
}

/// In `a + [c] + b` with no `c` in `a`, the first `c` sits right after `a`.
pub proof fn lemma_first_index_after(a: Seq<char>, c: char, b: Seq<char>)
    requires
        lacks(a, c),
    ensures
        first_index_of(a + seq![c] + b, c) == Some(a.len() as int),
{
    let s = a + seq![c] + b;
    assert(s.take(a.len() as int) =~= a);
    lemma_first_index_unique(s, c, a.len() as int);
}

// ---------------------------------------------------------------------------
// Splitting and joining
// ---------------------------------------------------------------------------

/// Splits `s` at the first `c`: the part before it and the part after it.
pub open spec fn split_once(s: Seq<char>, c: char) -> Option<(Seq<char>, Seq<char>)> {
    match first_index_of(s, c) {
        Some(i) => Some((s.take(i), s.skip(i + 1))),
        None => None,
    }
}

/// The pieces of `s` between occurrences of `sep`, in order; an empty `s`
/// gives one empty piece, and `n` separators give `n + 1` pieces.
pub open spec fn split_on(s: Seq<char>, sep: char) -> Seq<Seq<char>>
    decreases s.len(),
{
    match first_index_of(s, sep) {
        Some(i) => {
            if 0 <= i < s.len() {
                seq![s.take(i)] + split_on(s.skip(i + 1), sep)
            } else {
                seq![s]
            }
        },
        None => seq![s],
    }
}

/// The parts joined with `sep` between each two neighbours.
pub open spec fn join(parts: Seq<Seq<char>>, sep: char) -> Seq<char>
    decreases parts.len(),
{
    if parts.len() == 0 {
        seq![]
    } else if parts.len() == 1 {
        parts[0]
    } else {
        parts[0] + seq![sep] + join(parts.drop_first(), sep)
    }
}

/// Every part lacks `c`.
pub open spec fn all_lack(parts: Seq<Seq<char>>, c: char) -> bool {
    forall|i: int| 0 <= i < parts.len() ==> lacks(#[trigger] parts[i], c)
}

/// Splitting undoes joining when no part holds the separator.
pub proof fn lemma_split_join(parts: Seq<Seq<char>>, sep: char)
    requires
        parts.len() > 0,
        all_lack(parts, sep),
    ensures
        split_on(join(parts, sep), sep) == parts,
    decreases parts.len(),
{
    if parts.len() == 1 {
        lemma_first_index_none(parts[0], sep);
        assert(split_on(join(parts, sep), sep) =~= parts);
    } else {
        let rest = parts.drop_first();
        assert(all_lack(rest, sep)) by {
            assert forall|i: int| 0 <= i < rest.len() implies lacks(#[trigger] rest[i], sep) by {
                assert(rest[i] == parts[i + 1]);
            }
        }
        lemma_split_join(rest, sep);
        let s = join(parts, sep);
        assert(lacks(parts[0], sep));
        lemma_first_index_after(parts[0], sep, join(rest, sep));
        let k = parts[0].len() as int;
        assert(s.take(k) =~= parts[0]);
        assert(s.skip(k + 1) =~= join(rest, sep));
        assert(split_on(s, sep) =~= seq![parts[0]] + split_on(join(rest, sep), sep));
        assert(split_on(s, sep) =~= parts);
    }
}

/// No piece of a split holds the separator.
pub proof fn lemma_split_lacks(s: Seq<char>, sep: char)
    ensures
        all_lack(split_on(s, sep), sep),
    decreases s.len(),
{
    lemma_first_index_of(s, sep);
    match first_index_of(s, sep) {
        Some(i) => {
            lemma_split_lacks(s.skip(i + 1), sep);
            let pieces = split_on(s, sep);
            let tail = split_on(s.skip(i + 1), sep);
            assert(pieces =~= seq![s.take(i)] + tail);
            assert forall|k: int| 0 <= k < pieces.len() implies lacks(#[trigger] pieces[k], sep) by {
                if k > 0 {
                    assert(pieces[k] == tail[k - 1]);
                }
            }
        },
        None => {},
    }
}

// ---------------------------------------------------------------------------
// Executable string helpers
// ---------------------------------------------------------------------------

/// Appends one character to a `String` (`String::push`).
#[verifier::external_body]
pub fn push_char(s: &mut String, c: char)
    ensures
        final(s)@ == old(s)@.push(c),
{
    s.push(c);
}

/// Position of the first `c` in `s[from..to]`, counted from the start of `s`.
pub fn find_char(s: &str, from: usize, to: usize, c: char) -> (res: Option<usize>)
    requires
        from <= to <= s@.len(),
    ensures
        match first_index_of(s@.subrange(from as int, to as int), c) {
            Some(i) => res == Some((i + from) as usize),
            None => res is None,
        },
{
    let ghost sub = s@.subrange(from as int, to as int);
    let mut i = from;
    while i < to
        invariant
            from <= i <= to <= s@.len(),
            sub == s@.subrange(from as int, to as int),
            lacks(sub.take(i - from), c),
        decreases to - i,
    {
        if s.get_char(i) == c {
            proof {
                assert(sub[i - from] == s@[i as int]);
                lemma_first_index_unique(sub, c, i - from);
            }
            return Some(i);
        }
        proof {
            assert forall|j: int| 0 <= j < i + 1 - from implies #[trigger] sub.take(i + 1 - from)[j] != c by {
                if j < i - from {
                    assert(sub.take(i + 1 - from)[j] == sub.take(i - from)[j]);
                }
            }
        }
        i = i + 1;
    }
    proof {
        assert(sub.take(to - from) =~= sub);
        lemma_first_index_none(sub, c);
    }
    None
}

/// Character-wise equality of two string slices.
pub fn str_equals(a: &str, b: &str) -> (res: bool)
    ensures
        res == (a@ == b@),
{
    let n = a.unicode_len();
    if n != b.unicode_len() {
        return false;
    }
    let mut i: usize = 0;
    while i < n
        invariant
            i <= n,
            n == a@.len(),
            n == b@.len(),
            forall|j: int| 0 <= j < i ==> a@[j] == b@[j],
        decreases n - i,
    {
        if a.get_char(i) != b.get_char(i) {
            return false;
        }
        i = i + 1;
    }
    assert(a@ =~= b@);
    true
}

/// A `String` holding the characters of `s`.
pub fn string_of(s: &str) -> (res: String)
    ensures
        res@ == s@,
{
    String::from_str(s)
}

/// `a` followed by `b`, as a new `String`.
pub fn concat2(a: &str, b: &str) -> (res: String)
    ensures
        res@ == a@ + b@,
{
    let mut out = String::from_str(a);
    out.append(b);
    out
}

/// `a`, `b` and `c` in a row, as a new `String`.
pub fn concat3(a: &str, b: &str, c: &str) -> (res: String)
    ensures
        res@ == a@ + b@ + c@,
{
    let mut out = String::from_str(a);
    out.append(b);
    out.append(c);
    out
}

/// Joins the parts with `sep` between neighbours (`[String]::join`).
pub fn join_strings(parts: &Vec<String>, sep: char) -> (res: String)
    ensures
        res@ == join(parts@.map_values(|p: String| p@), sep),
{
    let ghost views = parts@.map_values(|p: String| p@);
    let n = parts.len();
    if n == 0 {
        return String::new();
    }
    // Built from the back so that each step matches the front recursion of `join`.
    let mut out = string_of(parts[n - 1].as_str());
    let mut k = n - 1;
    assert(views.skip(k as int) =~= seq![views[k as int]]);
    while k > 0
        invariant
            0 <= k < n,
            n == parts@.len(),
            views == parts@.map_values(|p: String| p@),
            out@ == join(views.skip(k as int), sep),
        decreases k,
    {
        let mut front = string_of(parts[k - 1].as_str());
        push_char(&mut front, sep);
        front.append(out.as_str());
        proof {
            let tail = views.skip(k as int);
            let longer = views.skip(k - 1);
            assert(longer.drop_first() =~= tail);
            assert(longer[0] == views[k - 1]);
            assert(longer.len() >= 2);
        }
        out = front;
        k = k - 1;
    }
    assert(views.skip(0) =~= views);
    out
}

// ---------------------------------------------------------------------------
// Numbers
// ---------------------------------------------------------------------------

/// Value of `c` as a digit in base `radix` (digits `0-9`, then letters of
/// either case), if it is one.
pub open spec fn digit_value(c: char, radix: nat) -> Option<nat> {
    let v: int = if '0' <= c && c <= '9' {
        c as int - '0' as int
    } else if 'a' <= c && c <= 'z' {
        c as int - 'a' as int + 10
    } else if 'A' <= c && c <= 'Z' {
        c as int - 'A' as int + 10
    } else {
        99
    };
    if v < radix {
        Some(v as nat)
    } else {
        None
    }
}

/// Value of a string of digits in base `radix` (`None` when a character is
/// not a digit); the empty string has value 0.
pub open spec fn digits_value(s: Seq<char>, radix: nat) -> Option<nat>
    decreases s.len(),
{
    if s.len() == 0 {
        Some(0)
    } else {
        match (digits_value(s.drop_last(), radix), digit_value(s.last(), radix)) {
            (Some(v), Some(d)) => Some(v * radix + d),
            _ => None,
        }
    }
}

/// Unsigned integer syntax of `from_str_radix`: an optional `+`, then at
/// least one digit; the value must not exceed `max`.
pub open spec fn unsigned_from_str(s: Seq<char>, radix: nat, max: nat) -> Option<nat> {
    let digits = if s.len() >= 2 && s[0] == '+' {
        s.drop_first()
    } else {
        s
    };
    if digits.len() == 0 {
        None
    } else {
        match digits_value(digits, radix) {
            Some(v) => if v <= max {
                Some(v)
            } else {
                None
            },
            None => None,
        }
    }
}

/// A digit's value grows with each appended digit.
proof fn lemma_digits_prefix(s: Seq<char>, radix: nat, k: int)
    requires
        0 <= k <= s.len(),
        radix >= 1,
        digits_value(s, radix) is Some,
    ensures
        digits_value(s.take(k), radix) is Some,
        digits_value(s.take(k), radix)->0 <= digits_value(s, radix)->0,
    decreases s.len() - k,
{
    if k == s.len() {
        assert(s.take(k) =~= s);
    } else {
        let p = s.take(k + 1);
        lemma_digits_prefix(s, radix, k + 1);
        assert(p.drop_last() =~= s.take(k));
        let v = digits_value(p.drop_last(), radix)->0;
        let d = digit_value(p.last(), radix)->0;
        assert(v <= v * radix + d) by (nonlinear_arith)
            requires
                radix >= 1,
        ;
    }
}

/// A character that is no digit spoils the whole string.
proof fn lemma_digits_bad_char(s: Seq<char>, radix: nat, k: int)
    requires
        0 <= k < s.len(),
        digit_value(s[k], radix) is None,
    ensures
        digits_value(s, radix) is None,
    decreases s.len(),
{
    if k < s.len() - 1 {
        assert(s.drop_last()[k] == s[k]);
        lemma_digits_bad_char(s.drop_last(), radix, k);
    }
}

/// Parses an unsigned number in base `radix` (10 or 16) that must not
/// exceed `max` (`from_str_radix` for `u32` and `u16`).
#[verifier::spinoff_prover]
#[verifier::rlimit(40)]
pub fn parse_unsigned(s: &str, radix: u32, max: u32) -> (res: Option<u32>)
    requires
        radix == 10 || radix == 16,
    ensures
        match unsigned_from_str(s@, radix as nat, max as nat) {
            Some(v) => res == Some(v as u32),
            None => res is None,
        },
{
    let n = s.unicode_len();
    let start: usize = if n >= 2 && s.get_char(0) == '+' {
        1
    } else {
        0
    };
    let ghost digits = s@.skip(start as int);
    assert(digits =~= (if s@.len() >= 2 && s@[0] == '+' {
        s@.drop_first()
    } else {
        s@
    }));
    if start == n {
        return None;
    }
    let mut acc: u64 = 0;
    let mut i: usize = start;
    assert(digits.take(0) =~= seq![]);
    while i < n
        invariant
            start <= i <= n,
            n == s@.len(),
            start < n,
            radix == 10 || radix == 16,
            digits == s@.skip(start as int),
            digits == (if s@.len() >= 2 && s@[0] == '+' {
                s@.drop_first()
            } else {
                s@
            }),
            digits_value(digits.take(i - start), radix as nat) == Some(acc as nat),
            acc <= max,
        decreases n - i,
    {
        let c = s.get_char(i);
        let d: u64 = if '0' <= c && c <= '9' {
            (c as u64) - ('0' as u64)
        } else if 'a' <= c && c <= 'z' {
            (c as u64) - ('a' as u64) + 10
        } else if 'A' <= c && c <= 'Z' {
            (c as u64) - ('A' as u64) + 10
        } else {
            99
        };
        assert(digits[i - start] == c);
        if d >= radix as u64 {
            assert(digit_value(c, radix as nat) is None);
            proof {
                lemma_digits_bad_char(digits, radix as nat, i - start);
            }
            return None;
        }
        assert(digit_value(c, radix as nat) == Some(d as nat));
        assert(acc * (radix as u64) <= 16 * 0xffff_ffffu64) by (nonlinear_arith)
            requires
                acc <= 0xffff_ffffu64,
                radix <= 16,
        ;
        let next = acc * (radix as u64) + d;
        let ghost p = digits.take(i + 1 - start);
        assert(p.drop_last() =~= digits.take(i - start));
        assert(p.last() == c);
        if next > max as u64 {
            proof {
                if digits_value(digits, radix as nat) is Some {
                    lemma_digits_prefix(digits, radix as nat, i + 1 - start);
                }
            }
            return None;
        }
        acc = next;
        i = i + 1;
    }
    assert(digits.take(n - start) =~= digits);
    Some(acc as u32)
}

/// The character for a digit value below 16 (lowercase letters).
pub open spec fn digit_char(d: nat) -> char {
    if d == 0 { '0' }
    else if d == 1 { '1' }
    else if d == 2 { '2' }
    else if d == 3 { '3' }
    else if d == 4 { '4' }
    else if d == 5 { '5' }
    else if d == 6 { '6' }
    else if d == 7 { '7' }
    else if d == 8 { '8' }
    else if d == 9 { '9' }
    else if d == 10 { 'a' }
    else if d == 11 { 'b' }
    else if d == 12 { 'c' }
    else if d == 13 { 'd' }
    else if d == 14 { 'e' }
    else { 'f' }
}

/// Decimal notation of `n`, without leading zeros (`{}`).
pub open spec fn decimal(n: nat) -> Seq<char>
    decreases n,
{
    if n < 10 {
        seq![digit_char(n)]
    } else {
        decimal(n / 10).push(digit_char(n % 10))
    }
}

/// The last `width` hexadecimal digits of `n`, zero-padded (`{:0width$x}`
/// for values below `16^width`).
pub open spec fn hex_padded(n: nat, width: nat) -> Seq<char>
    decreases width,
{
    if width == 0 {
        seq![]
    } else {
        hex_padded(n / 16, (width - 1) as nat).push(digit_char(n % 16))
    }
}

/// `16^k`.
pub open spec fn pow16(k: nat) -> nat
    decreases k,
{
    if k == 0 {
        1
    } else {
        16 * pow16((k - 1) as nat)
    }
}

fn digit_char_exec(d: u32) -> (c: char)
    requires
        d < 16,
    ensures
        c == digit_char(d as nat),
{
    if d == 0 { '0' }
    else if d == 1 { '1' }
    else if d == 2 { '2' }
    else if d == 3 { '3' }
    else if d == 4 { '4' }
    else if d == 5 { '5' }
    else if d == 6 { '6' }
    else if d == 7 { '7' }
    else if d == 8 { '8' }
    else if d == 9 { '9' }
    else if d == 10 { 'a' }
    else if d == 11 { 'b' }
    else if d == 12 { 'c' }
    else if d == 13 { 'd' }
    else if d == 14 { 'e' }
    else { 'f' }
}

/// Appends the decimal notation of `n`.
pub fn push_decimal(out: &mut String, n: u32)
    ensures
        final(out)@ == old(out)@ + decimal(n as nat),
    decreases n,
{
    if n >= 10 {
        push_decimal(out, n / 10);
    }
    push_char(out, digit_char_exec(n % 10));
    proof {
        if n >= 10 {
            assert(old(out)@ + decimal(n as nat) =~= old(out)@ + decimal((n / 10) as nat) + seq![
                digit_char((n % 10) as nat),
            ]);
        } else {
            assert(old(out)@ + decimal(n as nat) =~= old(out)@.push(digit_char((n % 10) as nat)));
        }
    }
}

/// Appends the last `width` hexadecimal digits of `n`, zero-padded.
pub fn push_hex_padded(out: &mut String, n: u32, width: u32)
    ensures
        final(out)@ == old(out)@ + hex_padded(n as nat, width as nat),
    decreases width,
{
    if width > 0 {
        push_hex_padded(out, n / 16, width - 1);
        push_char(out, digit_char_exec(n % 16));
        assert(old(out)@ + hex_padded(n as nat, width as nat) =~= old(out)@ + hex_padded(
            (n / 16) as nat,
            (width - 1) as nat,
        ) + seq![digit_char((n % 16) as nat)]);
    } else {
        assert(old(out)@ + hex_padded(n as nat, width as nat) =~= old(out)@);
    }
}

/// A digit character reads back as its value.
pub proof fn lemma_digit_char_value(d: nat, radix: nat)
    requires
        d < radix <= 16,
    ensures
        digit_value(digit_char(d), radix) == Some(d),
        digit_char(d) != '+',
        digit_char(d) != '&',
        digit_char(d) != '?',
        digit_char(d) != '=',
{
}

/// Decimal notation reads back as the number it was written from.
pub proof fn lemma_decimal_value(n: nat)
    ensures
        digits_value(decimal(n), 10) == Some(n),
        decimal(n).len() >= 1,
        lacks(decimal(n), '+'),
        lacks(decimal(n), '&'),
    decreases n,
{
    if n < 10 {
        lemma_digit_char_value(n, 10);
        let s = decimal(n);
        assert(s.drop_last() =~= seq![]);
        assert(digits_value(s.drop_last(), 10) == Some(0nat));
        assert(s.last() == digit_char(n));
        assert(digits_value(s, 10) == Some(0 * 10 + n));
    } else {
        lemma_decimal_value(n / 10);
        lemma_digit_char_value(n % 10, 10);
        let s = decimal(n);
        assert(s.drop_last() =~= decimal(n / 10));
        assert(s.last() == digit_char(n % 10));
        assert(n == (n / 10) * 10 + n % 10);
        assert(digits_value(s, 10) == Some((n / 10) * 10 + n % 10));
        assert forall|i: int| 0 <= i < s.len() implies s[i] != '+' && s[i] != '&' by {
            if i < s.len() - 1 {
                assert(s[i] == decimal(n / 10)[i]);
            }
        }
    }
}

/// Padded hexadecimal notation reads back as the number it was written from.
pub proof fn lemma_hex_padded_value(n: nat, width: nat)
    requires
        n < pow16(width),
    ensures
        digits_value(hex_padded(n, width), 16) == Some(n),
        hex_padded(n, width).len() == width,
        lacks(hex_padded(n, width), '+'),
        lacks(hex_padded(n, width), '&'),
    decreases width,
{
    if width > 0 {
        assert(n / 16 < pow16((width - 1) as nat));
        lemma_hex_padded_value(n / 16, (width - 1) as nat);
        lemma_digit_char_value(n % 16, 16);
        let s = hex_padded(n, width);
        assert(s.drop_last() =~= hex_padded(n / 16, (width - 1) as nat));
        assert(n == (n / 16) * 16 + n % 16);
        assert forall|i: int| 0 <= i < s.len() implies s[i] != '+' && s[i] != '&' by {
            if i < s.len() - 1 {
                assert(s[i] == hex_padded(n / 16, (width - 1) as nat)[i]);
            }
        }
    }
}

/// The character for a hexadecimal digit value below 16, with lowercase
/// (`{:x}`) or uppercase (`{:X}`) letters.
pub open spec fn hex_digit(d: nat, upper: bool) -> char {
    if upper && d >= 10 {
        if d == 10 { 'A' }
        else if d == 11 { 'B' }
        else if d == 12 { 'C' }
        else if d == 13 { 'D' }
        else if d == 14 { 'E' }
        else { 'F' }
    } else {
        digit_char(d)
    }
}

/// Hexadecimal notation of `n` without leading zeros: `{:x}`, or `{:X}`
/// when `upper`.
pub open spec fn hex(n: nat, upper: bool) -> Seq<char>
    decreases n,
{
    if n < 16 {
        seq![hex_digit(n, upper)]
    } else {
        hex(n / 16, upper).push(hex_digit(n % 16, upper))
    }
}

/// A hexadecimal digit of either case reads back as its value, and is
/// neither a sign nor an `x`.
proof fn lemma_hex_digit_value(d: nat, upper: bool)
    requires
        d < 16,
    ensures
        digit_value(hex_digit(d, upper), 16) == Some(d),
        hex_digit(d, upper) != '+',
        hex_digit(d, upper) != 'x',
        hex_digit(d, upper) != 'X',
{
}

/// Unpadded hexadecimal notation reads back as the number it was written
/// from, and holds neither a sign nor an `x`.
pub proof fn lemma_hex_value(n: nat, upper: bool)
    ensures
        digits_value(hex(n, upper), 16) == Some(n),
        hex(n, upper).len() >= 1,
        lacks(hex(n, upper), '+'),
        lacks(hex(n, upper), 'x'),
        lacks(hex(n, upper), 'X'),
    decreases n,
{
    let s = hex(n, upper);
    if n < 16 {
        lemma_hex_digit_value(n, upper);
        assert(s.drop_last() =~= seq![]);
        assert(digits_value(s.drop_last(), 16) == Some(0nat));
        assert(digits_value(s, 16) == Some(0 * 16 + n));
    } else {
        lemma_hex_value(n / 16, upper);
        lemma_hex_digit_value(n % 16, upper);
        assert(s.drop_last() =~= hex(n / 16, upper));
        assert(n == (n / 16) * 16 + n % 16);
        assert(digits_value(s, 16) == Some((n / 16) * 16 + n % 16));
        assert forall|i: int| 0 <= i < s.len() implies s[i] != '+' && s[i] != 'x' && s[i] != 'X' by {
            if i < s.len() - 1 {
                assert(s[i] == hex(n / 16, upper)[i]);
            }
        }
    }
}

/// Padded hexadecimal notation holds no `x`.
pub proof fn lemma_hex_padded_lacks_x(n: nat, width: nat)
    ensures
        lacks(hex_padded(n, width), 'x'),
        lacks(hex_padded(n, width), 'X'),
    decreases width,
{
    if width > 0 {
        lemma_hex_padded_lacks_x(n / 16, (width - 1) as nat);
        let s = hex_padded(n, width);
        assert forall|i: int| 0 <= i < s.len() implies s[i] != 'x' && s[i] != 'X' by {
            if i < s.len() - 1 {
                assert(s[i] == hex_padded(n / 16, (width - 1) as nat)[i]);
            }
        }
    }
}

} // verus!
