//! Verified text helpers: decimal rendering, decimal parsing, trimming and
//! whitespace splitting, all specified over sequences of characters.

use vstd::prelude::*;
use vstd::string::StrSliceExecFns;
use vstd::string::StringExecFns;

verus! {

/// ASCII whitespace: space, tab, line feed, form feed, carriage return.
pub open spec fn is_space(c: char) -> bool {
    c == ' ' || c == '\t' || c == '\n' || c == '\u{c}' || c == '\r'
}

/// Runtime test for [`is_space`].
pub fn is_space_char(c: char) -> (r: bool)
    ensures
        r == is_space(c),
{
    c == ' ' || c == '\t' || c == '\n' || c == '\u{c}' || c == '\r'
}

/// A decimal digit.
pub open spec fn is_digit(c: char) -> bool {
    '0' <= c && c <= '9'
}

/// The numeric value of a decimal digit.
pub open spec fn digit_val(c: char) -> int {
    c as int - '0' as int
}

/// The digit character for a value below ten.
pub open spec fn digit_char(d: int) -> char {
    if d == 0 {
        '0'
    } else if d == 1 {
        '1'
    } else if d == 2 {
        '2'
    } else if d == 3 {
        '3'
    } else if d == 4 {
        '4'
    } else if d == 5 {
        '5'
    } else if d == 6 {
        '6'
    } else if d == 7 {
        '7'
    } else if d == 8 {
        '8'
    } else {
        '9'
    }
}

/// The decimal digits of a natural number, most significant first.
pub open spec fn dec_digits(n: nat) -> Seq<char>
    decreases n,
{
    if n < 10 {
        seq![digit_char(n as int)]
    } else {
        dec_digits(n / 10) + seq![digit_char((n % 10) as int)]
    }
}

/// The decimal text of an integer: a minus sign for a negative one,
/// then the digits of its magnitude.
pub open spec fn dec_int(v: int) -> Seq<char> {
    if v < 0 {
        seq!['-'] + dec_digits((-v) as nat)
    } else {
        dec_digits(v as nat)
    }
}

/// One digit as a string slice.
fn digit_str(d: u64) -> (r: &'static str)
    requires
        d < 10,
    ensures
        r@ =~= seq![digit_char(d as int)],
{
    proof {
        reveal_strlit("0");
        reveal_strlit("1");
        reveal_strlit("2");
        reveal_strlit("3");
        reveal_strlit("4");
        reveal_strlit("5");
        reveal_strlit("6");
        reveal_strlit("7");
        reveal_strlit("8");
        reveal_strlit("9");
    }
    if d == 0 {
        "0"
    } else if d == 1 {
        "1"
    } else if d == 2 {
        "2"
    } else if d == 3 {
        "3"
    } else if d == 4 {
        "4"
    } else if d == 5 {
        "5"
    } else if d == 6 {
        "6"
    } else if d == 7 {
        "7"
    } else if d == 8 {
        "8"
    } else {
        "9"
    }
}

/// Renders a natural number in decimal.
pub fn u64_string(n: u64) -> (r: String)
    ensures
        r@ == dec_digits(n as nat),
    decreases n,
{
    if n < 10 {
        digit_str(n).to_owned()
    } else {
        let mut r = u64_string(n / 10);
        r.append(digit_str(n % 10));
        assert(r@ =~= dec_digits(n as nat));
        r
    }
}

/// Renders an integer in decimal, with a minus sign when it is negative.
pub fn i64_string(v: i64) -> (r: String)
    ensures
        r@ == dec_int(v as int),
{
    proof {
        reveal_strlit("-");
    }
    if v < 0 {
        let mag: u64 = if v == i64::MIN {
            9223372036854775808u64
        } else {
            (-v) as u64
        };
        let mut r = "-".to_owned();
        r.append(u64_string(mag).as_str());
        assert(r@ =~= dec_int(v as int));
        r
    } else {
        u64_string(v as u64)
    }
}

/// Every character of the sequence is a decimal digit.
pub open spec fn all_digits(s: Seq<char>) -> bool {
    forall|i: int| 0 <= i < s.len() ==> is_digit(#[trigger] s[i])
}

/// The value of a sequence of decimal digits, read most significant first.
pub open spec fn digits_val(s: Seq<char>) -> nat
    decreases s.len(),
{
    if s.len() == 0 {
        0
    } else {
        (digits_val(s.drop_last()) * 10 + digit_val(s.last())) as nat
    }
}

/// The sequence with one leading plus sign removed.
pub open spec fn unsigned_body(s: Seq<char>) -> Seq<char> {
    if s.len() > 0 && s[0] == '+' {
        s.subrange(1, s.len() as int)
    } else {
        s
    }
}

/// The text is an optional plus sign, then digits whose value fits in a `u64`.
pub open spec fn is_u64_text(s: Seq<char>) -> bool {
    let b = unsigned_body(s);
    b.len() > 0 && all_digits(b) && digits_val(b) <= u64::MAX
}

/// The value of an unsigned decimal text.
pub open spec fn u64_text_val(s: Seq<char>) -> nat {
    digits_val(unsigned_body(s))
}

/// The sequence with one leading plus or minus sign removed.
pub open spec fn signed_body(s: Seq<char>) -> Seq<char> {
    if s.len() > 0 && (s[0] == '+' || s[0] == '-') {
        s.subrange(1, s.len() as int)
    } else {
        s
    }
}

/// The value of a signed decimal text.
pub open spec fn signed_val(s: Seq<char>) -> int {
    if s.len() > 0 && s[0] == '-' {
        -(digits_val(signed_body(s)) as int)
    } else {
        digits_val(signed_body(s)) as int
    }
}

/// The text is an optional sign, then digits, and its value fits in an `i64`.
pub open spec fn is_i64_text(s: Seq<char>) -> bool {
    let b = signed_body(s);
    b.len() > 0 && all_digits(b) && i64::MIN <= signed_val(s) <= i64::MAX
}

/// The value of a digit sequence only grows as digits are appended.
proof fn lemma_digits_val_prefix(s: Seq<char>, i: int)
    requires
        0 <= i <= s.len(),
        all_digits(s),
    ensures
        digits_val(s.subrange(0, i)) <= digits_val(s),
    decreases s.len() - i,
{
    if i == s.len() {
        assert(s.subrange(0, i) =~= s);
    } else {
        assert(s.subrange(0, i + 1).drop_last() =~= s.subrange(0, i));
        assert(digits_val(s.subrange(0, i)) <= digits_val(s.subrange(0, i + 1)));
        lemma_digits_val_prefix(s, i + 1);
    }
}

/// Reads a run of decimal digits from `from` to the end of the text.
fn parse_digits(s: &str, from: usize) -> (r: Option<u64>)
    requires
        from as int <= s@.len(),
    ensures
        ({
            let b = s@.subrange(from as int, s@.len() as int);
            match r {
                Some(v) => b.len() > 0 && all_digits(b) && digits_val(b) <= u64::MAX && v
                    == digits_val(b),
                None => !(b.len() > 0 && all_digits(b) && digits_val(b) <= u64::MAX),
            }
        }),
{
    let ghost b = s@.subrange(from as int, s@.len() as int);
    let n = s.unicode_len();
    if from == n {
        return None;
    }
    let mut acc: u64 = 0;
    let mut i: usize = from;
    while i < n
        invariant
            from <= i <= n,
            n == s@.len(),
            b == s@.subrange(from as int, n as int),
            all_digits(s@.subrange(from as int, i as int)),
            acc == digits_val(s@.subrange(from as int, i as int)),
        decreases n - i,
    {
        let c = s.get_char(i);
        proof {
            assert(s@.subrange(from as int, i as int + 1).drop_last() =~= s@.subrange(
                from as int,
                i as int,
            ));
            assert(s@.subrange(from as int, i as int + 1).last() == s@[i as int]);
        }
        if !('0' <= c && c <= '9') {
            proof {
                assert(b[i - from] == s@[i as int]);
                assert(!all_digits(b));
            }
            return None;
        }
        let d = (c as u32 - '0' as u32) as u64;
        if acc > (u64::MAX - d) / 10 {
            proof {
                assert(acc * 10 + d > u64::MAX) by (nonlinear_arith)
                    requires
                        acc > (u64::MAX - d) / 10,
                        d <= u64::MAX,
                ;
                if all_digits(b) {
                    assert(b.subrange(0, i - from + 1) =~= s@.subrange(
                        from as int,
                        i as int + 1,
                    ));
                    lemma_digits_val_prefix(b, i - from + 1);
                }
            }
            return None;
        }
        proof {
            assert(acc * 10 + d <= u64::MAX) by (nonlinear_arith)
                requires
                    acc <= (u64::MAX - d) / 10,
                    d <= u64::MAX,
            ;
        }
        acc = acc * 10 + d;
        i = i + 1;
    }
    proof {
        assert(s@.subrange(from as int, i as int) =~= b);
    }
    Some(acc)
}

/// Parses an unsigned decimal text, as an optional plus sign and digits.
pub fn parse_u64(s: &str) -> (r: Option<u64>)
    ensures
        r is Some <==> is_u64_text(s@),
        r matches Some(v) ==> v as nat == u64_text_val(s@),
{
    let n = s.unicode_len();
    if n == 0 {
        return None;
    }
    let from: usize = if s.get_char(0) == '+' {
        1
    } else {
        0
    };
    proof {
        assert(unsigned_body(s@) =~= s@.subrange(from as int, s@.len() as int));
    }
    parse_digits(s, from)
}

/// Parses an unsigned decimal text whose value must fit in a `u8`.
pub fn parse_u8(s: &str) -> (r: Option<u8>)
    ensures
        r is Some <==> is_u64_text(s@) && u64_text_val(s@) <= u8::MAX,
        r matches Some(v) ==> v as nat == u64_text_val(s@),
{
    match parse_u64(s) {
        Some(v) => if v <= 255 {
            Some(v as u8)
        } else {
            None
        },
        None => None,
    }
}

/// Parses a signed decimal text, as an optional sign and digits.
pub fn parse_i64(s: &str) -> (r: Option<i64>)
    ensures
        r is Some <==> is_i64_text(s@),
        r matches Some(v) ==> v as int == signed_val(s@),
{
    let n = s.unicode_len();
    if n == 0 {
        return None;
    }
    let first = s.get_char(0);
    let negative = first == '-';
    let from: usize = if first == '+' || first == '-' {
        1
    } else {
        0
    };
    proof {
        assert(signed_body(s@) =~= s@.subrange(from as int, s@.len() as int));
    }
    match parse_digits(s, from) {
        Some(mag) => {
            if negative {
                if mag <= 9223372036854775808u64 {
                    if mag == 9223372036854775808u64 {
                        Some(i64::MIN)
                    } else {
                        Some(-(mag as i64))
                    }
                } else {
                    None
                }
            } else {
                if mag <= 9223372036854775807u64 {
                    Some(mag as i64)
                } else {
                    None
                }
            }
        },
        None => None,
    }
}

/// The sequence with its leading whitespace removed.
pub open spec fn trim_start(s: Seq<char>) -> Seq<char>
    decreases s.len(),
{
    if s.len() > 0 && is_space(s[0]) {
        trim_start(s.drop_first())
    } else {
        s
    }
}

/// The sequence with its trailing whitespace removed.
pub open spec fn trim_end(s: Seq<char>) -> Seq<char>
    decreases s.len(),
{
    if s.len() > 0 && is_space(s.last()) {
        trim_end(s.drop_last())
    } else {
        s
    }
}

/// The sequence with leading and trailing whitespace removed.
pub open spec fn trimmed(s: Seq<char>) -> Seq<char> {
    trim_end(trim_start(s))
}

/// Removes leading and trailing whitespace.
pub fn trim(s: &str) -> (r: &str)
    ensures
        r@ == trimmed(s@),
{
    let n = s.unicode_len();
    proof {
        assert(s@.subrange(0, n as int) =~= s@);
    }
    let mut lo: usize = 0;
    while lo < n && is_space_char(s.get_char(lo))
        invariant
            lo <= n,
            n == s@.len(),
            trim_start(s@) == trim_start(s@.subrange(lo as int, n as int)),
        decreases n - lo,
    {
        proof {
            assert(s@.subrange(lo as int, n as int).drop_first() =~= s@.subrange(
                lo as int + 1,
                n as int,
            ));
        }
        lo = lo + 1;
    }
    proof {
        if lo == n {
            assert(s@.subrange(lo as int, n as int) =~= Seq::<char>::empty());
        }
        assert(trim_start(s@) == s@.subrange(lo as int, n as int));
    }
    let mut hi: usize = n;
    while hi > lo && is_space_char(s.get_char(hi - 1))
        invariant
            lo <= hi <= n,
            n == s@.len(),
            trim_start(s@) == s@.subrange(lo as int, n as int),
            trim_end(s@.subrange(lo as int, n as int)) == trim_end(
                s@.subrange(lo as int, hi as int),
            ),
        decreases hi,
    {
        proof {
            assert(s@.subrange(lo as int, hi as int).drop_last() =~= s@.subrange(
                lo as int,
                hi as int - 1,
            ));
        }
        hi = hi - 1;
    }
    proof {
        if hi == lo {
            assert(s@.subrange(lo as int, hi as int) =~= Seq::<char>::empty());
        }
        assert(trim_end(s@.subrange(lo as int, hi as int)) == s@.subrange(lo as int, hi as int));
    }
    s.substring_char(lo, hi)
}

/// Whether the text begins with the given prefix.
pub fn starts_with(s: &str, prefix: &str) -> (r: bool)
    ensures
        r == (prefix@.len() <= s@.len() && s@.subrange(0, prefix@.len() as int) == prefix@),
{
    let n = s.unicode_len();
    let p = prefix.unicode_len();
    if p > n {
        return false;
    }
    let mut i: usize = 0;
    while i < p
        invariant
            i <= p <= n,
            n == s@.len(),
            p == prefix@.len(),
            forall|k: int| 0 <= k < i ==> s@[k] == prefix@[k],
        decreases p - i,
    {
        if s.get_char(i) != prefix.get_char(i) {
            proof {
                assert(s@.subrange(0, p as int)[i as int] == s@[i as int]);
            }
            return false;
        }
        i = i + 1;
    }
    proof {
        assert(s@.subrange(0, p as int) =~= prefix@);
    }
    true
}

/// The index of the first whitespace character, or the length if none.
pub open spec fn first_space(s: Seq<char>) -> nat
    decreases s.len(),
{
    if s.len() == 0 {
        0
    } else if is_space(s[0]) {
        0
    } else {
        1 + first_space(s.drop_first())
    }
}

/// The first whitespace position never lies past the end.
proof fn lemma_first_space_le(s: Seq<char>)
    ensures
        first_space(s) <= s.len(),
    decreases s.len(),
{
    if s.len() > 0 && !is_space(s[0]) {
        lemma_first_space_le(s.drop_first());
    }
}

/// The maximal whitespace-separated tokens of the text, in order.
pub open spec fn split_ws(s: Seq<char>) -> Seq<Seq<char>>
    decreases s.len(),
    via split_ws_decreases
{
    if s.len() == 0 {
        Seq::empty()
    } else if is_space(s[0]) {
        split_ws(s.drop_first())
    } else {
        let i = first_space(s) as int;
        seq![s.subrange(0, i)] + split_ws(s.subrange(i, s.len() as int))
    }
}

#[via_fn]
proof fn split_ws_decreases(s: Seq<char>) {
    if s.len() > 0 && !is_space(s[0]) {
        lemma_first_space_le(s);
    }
}

/// `first_space` finds the position before which no whitespace stands.
proof fn lemma_first_space_at(s: Seq<char>, i: int)
    requires
        0 <= i <= s.len(),
        forall|k: int| 0 <= k < i ==> !is_space(#[trigger] s[k]),
        i == s.len() || is_space(s[i]),
    ensures
        first_space(s) == i,
    decreases i,
{
    if i > 0 {
        lemma_first_space_at(s.drop_first(), i - 1);
    }
}

/// Splits the text at whitespace, dropping the separators.
pub fn split_whitespace(s: &str) -> (r: Vec<String>)
    ensures
        r.deep_view() == split_ws(s@),
{
    let n = s.unicode_len();
    let mut out: Vec<String> = Vec::new();
    let mut cur: usize = 0;
    proof {
        assert(s@.subrange(0, n as int) =~= s@);
        assert(out.deep_view() =~= Seq::<Seq<char>>::empty());
    }
    while cur < n
        invariant
            cur <= n,
            n == s@.len(),
            split_ws(s@) == out.deep_view() + split_ws(s@.subrange(cur as int, n as int)),
        decreases n - cur,
    {
        let ghost rest = s@.subrange(cur as int, n as int);
        if is_space_char(s.get_char(cur)) {
            proof {
                assert(rest.drop_first() =~= s@.subrange(cur as int + 1, n as int));
            }
            cur = cur + 1;
        } else {
            let mut j: usize = cur + 1;
            while j < n && !is_space_char(s.get_char(j))
                invariant
                    cur < j <= n,
                    n == s@.len(),
                    forall|k: int| cur < k < j ==> !is_space(#[trigger] s@[k]),
                decreases n - j,
            {
                j = j + 1;
            }
            let token = s.substring_char(cur, j).to_owned();
            proof {
                assert(forall|k: int| 0 <= k < j - cur ==> rest[k] == s@[cur + k]);
                lemma_first_space_at(rest, j - cur);
                assert(rest.subrange(0, j - cur) =~= s@.subrange(cur as int, j as int));
                assert(rest.subrange(j - cur, rest.len() as int) =~= s@.subrange(
                    j as int,
                    n as int,
                ));
                assert(split_ws(rest) == seq![token@] + split_ws(s@.subrange(j as int, n as int)));
            }
            let ghost before = out.deep_view();
            out.push(token);
            proof {
                assert(out.deep_view() =~= before.push(token@));
                assert(before.push(token@) + split_ws(s@.subrange(j as int, n as int)) =~= before
                    + split_ws(rest));
            }
            cur = j;
        }
    }
    proof {
        assert(s@.subrange(cur as int, n as int) =~= Seq::<char>::empty());
        assert(out.deep_view() + Seq::<Seq<char>>::empty() =~= out.deep_view());
    }
    out
}

/// The index of the first line feed, or the length if none.
pub open spec fn first_nl(s: Seq<char>) -> nat
    decreases s.len(),
{
    if s.len() == 0 {
        0
    } else if s[0] == '\n' {
        0
    } else {
        1 + first_nl(s.drop_first())
    }
}

/// A line with one carriage return before its line feed removed.
pub open spec fn strip_cr(line: Seq<char>) -> Seq<char> {
    if line.len() > 0 && line.last() == '\r' {
        line.drop_last()
    } else {
        line
    }
}

/// The first line-feed position never lies past the end.
proof fn lemma_first_nl_le(s: Seq<char>)
    ensures
        first_nl(s) <= s.len(),
    decreases s.len(),
{
    if s.len() > 0 && s[0] != '\n' {
        lemma_first_nl_le(s.drop_first());
    }
}

/// The lines of the text: split at line feeds, each line stripped of one
/// trailing carriage return; a final line feed ends the last line.
pub open spec fn split_lines(s: Seq<char>) -> Seq<Seq<char>>
    decreases s.len(),
    via split_lines_decreases
{
    if s.len() == 0 {
        Seq::empty()
    } else {
        let i = first_nl(s) as int;
        if i == s.len() {
            seq![s]
        } else {
            seq![strip_cr(s.subrange(0, i))] + split_lines(s.subrange(i + 1, s.len() as int))
        }
    }
}

#[via_fn]
proof fn split_lines_decreases(s: Seq<char>) {
    if s.len() > 0 {
        lemma_first_nl_le(s);
    }
}

/// `first_nl` finds the position before which no line feed stands.
proof fn lemma_first_nl_at(s: Seq<char>, i: int)
    requires
        0 <= i <= s.len(),
        forall|k: int| 0 <= k < i ==> #[trigger] s[k] != '\n',
        i == s.len() || s[i] == '\n',
    ensures
        first_nl(s) == i,
    decreases i,
{
    if i > 0 {
        lemma_first_nl_at(s.drop_first(), i - 1);
    }
}

/// Splits the text into its lines.
pub fn lines_of(s: &str) -> (r: Vec<String>)
    ensures
        r.deep_view() == split_lines(s@),
{
    let n = s.unicode_len();
    let mut out: Vec<String> = Vec::new();
    let mut cur: usize = 0;
    proof {
        assert(s@.subrange(0, n as int) =~= s@);
        assert(out.deep_view() =~= Seq::<Seq<char>>::empty());
    }
    while cur < n
        invariant
            cur <= n,
            n == s@.len(),
            split_lines(s@) == out.deep_view() + split_lines(s@.subrange(cur as int, n as int)),
        decreases n - cur,
    {
        let ghost rest = s@.subrange(cur as int, n as int);
        let mut j: usize = cur;
        while j < n && s.get_char(j) != '\n'
            invariant
                cur <= j <= n,
                n == s@.len(),
                forall|k: int| cur <= k < j ==> #[trigger] s@[k] != '\n',
            decreases n - j,
        {
            j = j + 1;
        }
        proof {
            assert(forall|k: int| 0 <= k < j - cur ==> rest[k] == s@[cur + k]);
            lemma_first_nl_at(rest, j - cur);
        }
        let ghost before = out.deep_view();
        if j == n {
            let line = s.substring_char(cur, n).to_owned();
            proof {
                assert(line@ =~= rest);
                assert(split_lines(rest) == seq![line@]);
            }
            out.push(line);
            proof {
                assert(out.deep_view() =~= before.push(line@));
                assert(before.push(line@) + Seq::<Seq<char>>::empty() =~= before + split_lines(
                    rest,
                ));
                assert(s@.subrange(n as int, n as int) =~= Seq::<char>::empty());
            }
            cur = n;
        } else {
            let line = if j > cur && s.get_char(j - 1) == '\r' {
                s.substring_char(cur, j - 1)
            } else {
                s.substring_char(cur, j)
            }.to_owned();
            proof {
                assert(rest.subrange(0, j - cur) =~= s@.subrange(cur as int, j as int));
                if j > cur && s@[j - 1] == '\r' {
                    assert(s@.subrange(cur as int, j as int).drop_last() =~= s@.subrange(
                        cur as int,
                        j as int - 1,
                    ));
                }
                assert(line@ =~= strip_cr(rest.subrange(0, j - cur)));
                assert(rest.subrange(j - cur + 1, rest.len() as int) =~= s@.subrange(
                    j as int + 1,
                    n as int,
                ));
                assert(split_lines(rest) == seq![line@] + split_lines(
                    s@.subrange(j as int + 1, n as int),
                ));
            }
            out.push(line);
            proof {
                assert(out.deep_view() =~= before.push(line@));
                assert(before.push(line@) + split_lines(s@.subrange(j as int + 1, n as int))
                    =~= before + split_lines(rest));
            }
            cur = j + 1;
        }
    }
    proof {
        assert(s@.subrange(cur as int, n as int) =~= Seq::<char>::empty());
        assert(out.deep_view() + Seq::<Seq<char>>::empty() =~= out.deep_view());
    }
    out
}

/// Division rounded to the nearest integer, halves rounding up.
pub open spec fn rounded_div(a: int, b: int) -> int {
    (2 * a + b) / (2 * b)
}

/// The share of `part` in `whole`, as a percentage rounded to the nearest
/// whole number.
pub fn rounded_percent(part: u64, whole: u64) -> (r: u64)
    requires
        whole > 0,
        part <= whole,
    ensures
        r as int == rounded_div(part as int * 100, whole as int),
        r <= 100,
{
    let p = part as u128;
    let w = whole as u128;
    let q = (200 * p + w) / (2 * w);
    proof {
        assert(q <= 100 && q == rounded_div(part as int * 100, whole as int))
            by (nonlinear_arith)
            requires
                p == part as int,
                w == whole as int,
                q == (200 * p + w) / (2 * w),
                0 < w <= u64::MAX,
                0 <= p <= w,
        ;
    }
    q as u64
}

/// The lesser value subtracted from the greater, and zero otherwise.
pub open spec fn sat_sub(a: int, b: int) -> int {
    if a >= b {
        a - b
    } else {
        0
    }
}

/// The share of `part` in `whole`, as a percentage rounded down.
pub fn floor_percent(part: u64, whole: u64) -> (r: u64)
    requires
        whole > 0,
        part <= whole,
    ensures
        r as int == (part as int * 100) / (whole as int),
        r <= 100,
{
    let p = part as u128;
    let w = whole as u128;
    let q = (100 * p) / w;
    proof {
        assert(q <= 100 && q == (part as int * 100) / (whole as int)) by (nonlinear_arith)
            requires
                p == part as int,
                w == whole as int,
                q as int == (100 * (p as int)) / (w as int),
                0 < w,
                0 <= p <= w,
        ;
    }
    q as u64
}

} // verus!
