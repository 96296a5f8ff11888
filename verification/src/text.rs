//! Character-level text handling: decimal numerals, the zero-padded
//! timestamps that posts and comments are stored with, and the small string
//! transformations that the pages apply to user-written text.
use vstd::prelude::*;

verus! {

/// `String::push` appends one character: the text afterwards is the text
/// before with `ch` at its end.
pub assume_specification[ String::push ](s: &mut String, ch: char)
    ensures
        final(s)@ == old(s)@.push(ch),
;

/// The characters of `s`, in order.
pub fn chars_of(s: &str) -> (v: Vec<char>)
    ensures
        v@ == s@,
{
    let mut v: Vec<char> = Vec::new();
    for c in it: s.chars()
        invariant
            v@ == it.seq().take(it.index() as int),
            it.seq() == s@,
    {
        v.push(c);
    }
    v
}

/// A `String` holding the characters of `v`.
pub fn string_of(v: &Vec<char>) -> (s: String)
    ensures
        s@ == v@,
{
    let mut s = String::new();
    let mut i: usize = 0;
    while i < v.len()
        invariant
            i <= v.len(),
            s@ == v@.take(i as int),
        decreases v.len() - i,
    {
        s.push(v[i]);
        i = i + 1;
        assert(s@ =~= v@.take(i as int));
    }
    assert(v@.take(v.len() as int) =~= v@);
    s
}

// ---------------------------------------------------------------------------
// Decimal numerals
// ---------------------------------------------------------------------------

/// `10` raised to the power `k`.
pub open spec fn pow10(k: nat) -> nat
    decreases k,
{
    if k == 0 {
        1
    } else {
        10 * pow10((k - 1) as nat)
    }
}

/// The character of a decimal digit `d < 10`.
pub open spec fn digit_char(d: nat) -> char {
    ((48 + d) as u8) as char
}

/// Whether `c` is one of the ASCII digits `'0'..='9'`.
pub open spec fn is_digit(c: char) -> bool {
    48 <= (c as u32) <= 57
}

/// The value of an ASCII digit.
pub open spec fn digit_value(c: char) -> nat {
    ((c as u32) - 48) as nat
}

/// Every character of `s` is an ASCII digit.
pub open spec fn all_digits(s: Seq<char>) -> bool {
    forall|i: int| 0 <= i < s.len() ==> is_digit(#[trigger] s[i])
}

/// The number that a string of digits denotes (most significant digit first).
pub open spec fn digits_value(s: Seq<char>) -> nat
    decreases s.len(),
{
    if s.len() == 0 {
        0
    } else {
        digit_value(s[0]) * pow10((s.len() - 1) as nat) + digits_value(s.drop_first())
    }
}

/// The shortest decimal numeral of `n`, as `u64::to_string` writes it.
pub open spec fn decimal(n: nat) -> Seq<char>
    decreases n,
{
    if n < 10 {
        seq![digit_char(n)]
    } else {
        decimal(n / 10).push(digit_char(n % 10))
    }
}

proof fn lemma_digit_char(d: nat)
    requires
        d < 10,
    ensures
        is_digit(digit_char(d)),
        digit_value(digit_char(d)) == d,
{
    let b: u8 = (48 + d) as u8;
    assert(b as nat == 48 + d);
    assert((b as char) as u32 == b as u32);
}

proof fn lemma_pow10_positive(k: nat)
    ensures
        pow10(k) >= 1,
    decreases k,
{
    if k > 0 {
        lemma_pow10_positive((k - 1) as nat);
    }
}

/// Appending a digit multiplies the value by ten and adds the digit.
proof fn lemma_digits_value_push(s: Seq<char>, c: char)
    ensures
        digits_value(s.push(c)) == 10 * digits_value(s) + digit_value(c),
    decreases s.len(),
{
    let sc = s.push(c);
    if s.len() == 0 {
        assert(sc.drop_first() =~= Seq::<char>::empty());
        assert(sc[0] == c);
        assert(pow10(0) == 1);
        assert(digits_value(sc) == digit_value(c) * pow10(0) + digits_value(sc.drop_first()));
    } else {
        let t = s.drop_first();
        assert(sc.drop_first() =~= t.push(c));
        assert(sc[0] == s[0]);
        lemma_digits_value_push(t, c);
        let p = pow10((s.len() - 1) as nat);
        let a = digit_value(s[0]);
        assert(pow10(s.len() as nat) == 10 * p);
        assert(digits_value(sc) == a * pow10((sc.len() - 1) as nat) + digits_value(t.push(c)));
        assert(a * (10 * p) == 10 * (a * p)) by (nonlinear_arith);
    }
}

/// A string of digits denotes less than `10` to the power of its length.
proof fn lemma_digits_value_bound(s: Seq<char>)
    requires
        all_digits(s),
    ensures
        digits_value(s) < pow10(s.len()),
    decreases s.len(),
{
    if s.len() > 0 {
        let t = s.drop_first();
        assert(all_digits(t)) by {
            assert forall|i: int| 0 <= i < t.len() implies is_digit(#[trigger] t[i]) by {
                assert(t[i] == s[i + 1]);
            }
        }
        lemma_digits_value_bound(t);
        assert(is_digit(s[0]));
        let p = pow10((s.len() - 1) as nat);
        let a = digit_value(s[0]);
        assert(a <= 9);
        assert(a * p <= 9 * p) by (nonlinear_arith)
            requires
                a <= 9,
        ;
    }
}

proof fn lemma_all_digits_drop_first(s: Seq<char>)
    requires
        all_digits(s),
        s.len() > 0,
    ensures
        all_digits(s.drop_first()),
{
    let t = s.drop_first();
    assert forall|i: int| 0 <= i < t.len() implies is_digit(#[trigger] t[i]) by {
        assert(t[i] == s[i + 1]);
    }
}

/// The numeral of `n` consists of digits and denotes `n`.
pub proof fn lemma_decimal_value(n: nat)
    ensures
        decimal(n).len() >= 1,
        all_digits(decimal(n)),
        digits_value(decimal(n)) == n,
    decreases n,
{
    if n < 10 {
        lemma_digit_char(n);
        let s = decimal(n);
        assert(s.drop_first() =~= Seq::<char>::empty());
        assert(pow10(0) == 1);
        assert(digits_value(s) == digit_value(s[0]) * pow10(0) + digits_value(s.drop_first()));
    } else {
        lemma_decimal_value(n / 10);
        lemma_digit_char(n % 10);
        lemma_digits_value_push(decimal(n / 10), digit_char(n % 10));
        let s = decimal(n);
        assert forall|i: int| 0 <= i < s.len() implies is_digit(#[trigger] s[i]) by {
            if i < s.len() - 1 {
                assert(s[i] == decimal(n / 10)[i]);
            }
        }
    }
}

/// The numeral of a number below `10^k` has at most `k` digits.
proof fn lemma_decimal_len(n: nat, k: nat)
    requires
        k >= 1,
        n < pow10(k),
    ensures
        decimal(n).len() <= k,
    decreases n,
{
    if n >= 10 {
        assert(k >= 2) by {
            if k == 1 {
                assert(pow10(1) == 10 * pow10(0));
            }
        }
        let p = pow10((k - 1) as nat);
        assert(n / 10 < p) by (nonlinear_arith)
            requires
                n < 10 * p,
        ;
        lemma_decimal_len(n / 10, (k - 1) as nat);
    }
}

proof fn lemma_pow10_20()
    ensures
        pow10(20) == 100_000_000_000_000_000_000nat,
{
    reveal_with_fuel(pow10, 21);
}

/// Every `u64` has a numeral of at most twenty digits, as long as that of
/// `u64::MAX`.
pub proof fn lemma_decimal_len_u64(n: nat)
    requires
        n <= u64::MAX,
    ensures
        1 <= decimal(n).len() <= 20,
        decimal(u64::MAX as nat).len() == 20,
{
    lemma_pow10_20();
    lemma_decimal_len(n, 20);
    lemma_decimal_value(n);
    lemma_decimal_len(u64::MAX as nat, 20);
    lemma_decimal_value(u64::MAX as nat);
    let s = decimal(u64::MAX as nat);
    if s.len() < 20 {
        lemma_digits_value_bound(s);
        lemma_pow10_monotone(s.len(), 19);
        reveal_with_fuel(pow10, 20);
        assert(false);
    }
}

proof fn lemma_pow10_monotone(a: nat, b: nat)
    requires
        a <= b,
    ensures
        pow10(a) <= pow10(b),
    decreases b,
{
    if a < b {
        lemma_pow10_monotone(a, (b - 1) as nat);
        lemma_pow10_positive((b - 1) as nat);
    }
}

fn push_decimal(s: &mut String, n: u64)
    ensures
        final(s)@ == old(s)@ + decimal(n as nat),
    decreases n,
{
    if n >= 10 {
        push_decimal(s, n / 10);
    }
    let d: u8 = (n % 10) as u8;
    s.push((48u8 + d) as char);
    proof {
        if n < 10 {
            assert(decimal(n as nat) =~= seq![digit_char(n as nat)]);
        }
    }
}

/// The decimal numeral of `n`, as `n.to_string()` gives it.
pub fn u64_to_decimal(n: u64) -> (s: String)
    ensures
        s@ == decimal(n as nat),
{
    let mut s = String::new();
    push_decimal(&mut s, n);
    assert(s@ =~= decimal(n as nat));
    s
}

// ---------------------------------------------------------------------------
// Zero-padded timestamps
// ---------------------------------------------------------------------------

/// `k` zero digits.
pub open spec fn zeros(k: nat) -> Seq<char> {
    Seq::new(k, |i: int| '0')
}

/// The width of every stored timestamp: the number of digits of `u64::MAX`.
pub open spec fn padded_width() -> nat {
    decimal(u64::MAX as nat).len()
}

/// The numeral of `n` with zeros in front, to the width of `u64::MAX`'s numeral.
pub open spec fn padded_decimal(n: nat) -> Seq<char> {
    zeros((padded_width() - decimal(n).len()) as nat) + decimal(n)
}

/// Lexicographic order of character strings (what SQLite's text ordering is
/// on ASCII text).
pub open spec fn lex_less(a: Seq<char>, b: Seq<char>) -> bool
    decreases a.len(),
{
    if a.len() == 0 {
        b.len() > 0
    } else if b.len() == 0 {
        false
    } else if a[0] != b[0] {
        (a[0] as u32) < (b[0] as u32)
    } else {
        lex_less(a.drop_first(), b.drop_first())
    }
}

/// The number that a stored timestamp denotes: `Some` exactly when the text
/// is a non-empty run of ASCII digits whose value fits in a `u64`.
pub open spec fn parse_decimal(s: Seq<char>) -> Option<u64> {
    if s.len() > 0 && all_digits(s) && digits_value(s) <= u64::MAX {
        Some(digits_value(s) as u64)
    } else {
        None
    }
}

proof fn lemma_zeros_prefix_value(k: nat, t: Seq<char>)
    ensures
        digits_value(zeros(k) + t) == digits_value(t),
    decreases k,
{
    if k > 0 {
        let s = zeros(k) + t;
        assert(s.drop_first() =~= zeros((k - 1) as nat) + t);
        assert(s[0] == '0');
        assert(digit_value('0') == 0);
        lemma_zeros_prefix_value((k - 1) as nat, t);
        assert(0 * pow10((s.len() - 1) as nat) == 0);
    }
}

/// Facts about a padded timestamp: it always has the full width, consists of
/// digits only, and denotes the number it was made from.
pub proof fn lemma_padded_decimal(n: nat)
    requires
        n <= u64::MAX,
    ensures
        padded_width() == 20,
        padded_decimal(n).len() == 20,
        all_digits(padded_decimal(n)),
        digits_value(padded_decimal(n)) == n,
{
    lemma_decimal_len_u64(n);
    lemma_decimal_value(n);
    let k = (20 - decimal(n).len()) as nat;
    lemma_zeros_prefix_value(k, decimal(n));
    let s = padded_decimal(n);
    assert forall|i: int| 0 <= i < s.len() implies is_digit(#[trigger] s[i]) by {
        if i >= k {
            assert(s[i] == decimal(n)[i - k]);
        } else {
            assert(s[i] == '0');
        }
    }
}

/// For digit strings of the same length, the lexicographic order is the order
/// of the numbers they denote.
pub proof fn lemma_lex_less_digits(a: Seq<char>, b: Seq<char>)
    requires
        a.len() == b.len(),
        all_digits(a),
        all_digits(b),
    ensures
        lex_less(a, b) <==> digits_value(a) < digits_value(b),
    decreases a.len(),
{
    if a.len() > 0 {
        let ta = a.drop_first();
        let tb = b.drop_first();
        lemma_all_digits_drop_first(a);
        lemma_all_digits_drop_first(b);
        lemma_digits_value_bound(ta);
        lemma_digits_value_bound(tb);
        let p = pow10((a.len() - 1) as nat);
        let x = digit_value(a[0]);
        let y = digit_value(b[0]);
        assert(is_digit(a[0]) && is_digit(b[0]));
        if a[0] == b[0] {
            lemma_lex_less_digits(ta, tb);
        } else if (a[0] as u32) < (b[0] as u32) {
            assert(x + 1 <= y);
            assert(x * p + p <= y * p) by (nonlinear_arith)
                requires
                    x + 1 <= y,
            ;
        } else {
            assert((a[0] as u32) != (b[0] as u32)) by {
                vstd::utf8::char_u32_cast(a[0], a[0] as u32);
                vstd::utf8::char_u32_cast(b[0], b[0] as u32);
            }
            assert(y + 1 <= x);
            assert(y * p + p <= x * p) by (nonlinear_arith)
                requires
                    y + 1 <= x,
            ;
        }
    }
}

/// Stored timestamps sort as text in the order of the times they stand for,
/// and distinct times give distinct texts.
pub proof fn lemma_padded_order(a: u64, b: u64)
    ensures
        lex_less(padded_decimal(a as nat), padded_decimal(b as nat)) <==> a < b,
        padded_decimal(a as nat) == padded_decimal(b as nat) <==> a == b,
{
    lemma_padded_decimal(a as nat);
    lemma_padded_decimal(b as nat);
    lemma_lex_less_digits(padded_decimal(a as nat), padded_decimal(b as nat));
}

/// Reading a stored timestamp back gives the number it was written from.
pub proof fn lemma_parse_padded(n: u64)
    ensures
        parse_decimal(padded_decimal(n as nat)) == Some(n),
{
    lemma_padded_decimal(n as nat);
}

/// The timestamp `secs` in the stored form: its decimal numeral, padded with
/// zeros in front to the length of `u64::MAX`'s numeral.
pub fn pad_seconds(secs: u64) -> (s: String)
    ensures
        s@ == padded_decimal(secs as nat),
        s@.len() == 20,
{
    let digits = u64_to_decimal(secs);
    let max_digits = u64_to_decimal(u64::MAX);
    proof {
        lemma_padded_decimal(secs as nat);
    }
    let digits_len = digits.as_str().unicode_len();
    let width = max_digits.as_str().unicode_len();
    let padding = width - digits_len;
    let mut date = String::new();
    let mut i: usize = 0;
    while i < padding
        invariant
            i <= padding,
            date@ == zeros(i as nat),
        decreases padding - i,
    {
        date.push('0');
        i = i + 1;
        assert(date@ =~= zeros(i as nat));
    }
    date.append(digits.as_str());
    date
}

proof fn lemma_digits_value_take(s: Seq<char>, i: int)
    requires
        0 <= i <= s.len(),
        all_digits(s),
    ensures
        digits_value(s.take(i)) <= digits_value(s),
    decreases s.len() - i,
{
    if i < s.len() {
        lemma_digits_value_take(s, i + 1);
        assert(s.take(i + 1) =~= s.take(i).push(s[i]));
        lemma_digits_value_push(s.take(i), s[i]);
    } else {
        assert(s.take(i) =~= s);
    }
}

/// Reads a run of ASCII digits as a `u64`; `None` where the text is empty,
/// holds anything but digits, or denotes more than `u64::MAX`.
pub fn parse_u64_decimal(text: &str) -> (r: Option<u64>)
    ensures
        r == parse_decimal(text@),
{
    let chars = chars_of(text);
    let n = chars.len();
    if n == 0 {
        return None;
    }
    let mut acc: u64 = 0;
    let mut i: usize = 0;
    while i < n
        invariant
            n == chars@.len(),
            chars@ == text@,
            i <= n,
            all_digits(chars@.take(i as int)),
            acc as nat == digits_value(chars@.take(i as int)),
        decreases n - i,
    {
        let c = chars[i];
        let code = c as u32;
        if code < 48 || code > 57 {
            assert(!all_digits(chars@)) by {
                assert(!is_digit(chars@[i as int]));
            }
            return None;
        }
        let d = (code - 48) as u64;
        proof {
            assert(chars@.take(i + 1) =~= chars@.take(i as int).push(c));
            lemma_digits_value_push(chars@.take(i as int), c);
            assert(all_digits(chars@.take(i + 1))) by {
                let t = chars@.take(i + 1);
                assert forall|j: int| 0 <= j < t.len() implies is_digit(#[trigger] t[j]) by {
                    if j < i {
                        assert(t[j] == chars@.take(i as int)[j]);
                    }
                }
            }
        }
        if acc > (u64::MAX - d) / 10 {
            proof {
                assert(10 * acc + d > u64::MAX) by (nonlinear_arith)
                    requires
                        acc > (u64::MAX - d) / 10,
                        d <= 9,
                ;
                if all_digits(chars@) {
                    lemma_digits_value_take(chars@, i + 1);
                }
            }
            return None;
        }
        acc = acc * 10 + d;
        i = i + 1;
    }
    assert(chars@.take(n as int) =~= chars@);
    Some(acc)
}

// ---------------------------------------------------------------------------
// Trimming, line breaks and previews of user-written text
// ---------------------------------------------------------------------------

/// The Unicode `White_Space` property (the whitespace that `str::trim`
/// removes): U+0009..=U+000D, U+0020, U+0085, U+00A0, U+1680,
/// U+2000..=U+200A, U+2028, U+2029, U+202F, U+205F and U+3000.
pub open spec fn is_white_space(c: char) -> bool {
    let u = c as u32;
    ||| 9 <= u <= 13
    ||| u == 32
    ||| u == 0x85
    ||| u == 0xA0
    ||| u == 0x1680
    ||| 0x2000 <= u <= 0x200A
    ||| u == 0x2028
    ||| u == 0x2029
    ||| u == 0x202F
    ||| u == 0x205F
    ||| u == 0x3000
}

/// `s` without its leading white space.
pub open spec fn trim_start(s: Seq<char>) -> Seq<char>
    decreases s.len(),
{
    if s.len() > 0 && is_white_space(s[0]) {
        trim_start(s.drop_first())
    } else {
        s
    }
}

/// `s` without its trailing white space.
pub open spec fn trim_end(s: Seq<char>) -> Seq<char>
    decreases s.len(),
{
    if s.len() > 0 && is_white_space(s.last()) {
        trim_end(s.drop_last())
    } else {
        s
    }
}

/// `s` without leading and trailing white space.
pub open spec fn trim(s: Seq<char>) -> Seq<char> {
    trim_end(trim_start(s))
}

fn is_white_space_char(c: char) -> (b: bool)
    ensures
        b == is_white_space(c),
{
    let u = c as u32;
    (9 <= u && u <= 13) || u == 32 || u == 0x85 || u == 0xA0 || u == 0x1680 || (0x2000 <= u && u
        <= 0x200A) || u == 0x2028 || u == 0x2029 || u == 0x202F || u == 0x205F || u == 0x3000
}

/// The characters `v[from..to]` as a `String`.
fn string_of_range(v: &Vec<char>, from: usize, to: usize) -> (s: String)
    requires
        from <= to <= v.len(),
    ensures
        s@ == v@.subrange(from as int, to as int),
{
    let mut s = String::new();
    let mut k: usize = from;
    while k < to
        invariant
            from <= k <= to <= v.len(),
            s@ == v@.subrange(from as int, k as int),
        decreases to - k,
    {
        s.push(v[k]);
        k = k + 1;
        assert(s@ =~= v@.subrange(from as int, k as int));
    }
    s
}

/// The text with leading and trailing white space removed, as an owned
/// `String` (what `text.trim().to_string()` gives).
pub fn trimmed(text: &str) -> (s: String)
    ensures
        s@ == trim(text@),
{
    let v = chars_of(text);
    let n = v.len();
    let mut i: usize = 0;
    assert(v@.skip(0) =~= v@);
    while i < n && is_white_space_char(v[i])
        invariant
            n == v@.len(),
            i <= n,
            trim_start(v@) == trim_start(v@.skip(i as int)),
        decreases n - i,
    {
        assert(v@.skip(i as int).drop_first() =~= v@.skip(i + 1));
        i = i + 1;
    }
    assert(trim_start(v@) == v@.skip(i as int)) by {
        if i == n {
            assert(v@.skip(i as int).len() == 0);
        } else {
            assert(v@.skip(i as int)[0] == v@[i as int]);
        }
    }
    let mut j: usize = n;
    while j > i && is_white_space_char(v[j - 1])
        invariant
            n == v@.len(),
            i <= j <= n,
            trim_end(v@.subrange(i as int, n as int)) == trim_end(v@.subrange(i as int, j as int)),
        decreases j - i,
    {
        assert(v@.subrange(i as int, j as int).drop_last() =~= v@.subrange(i as int, j - 1));
        j = j - 1;
    }
    assert(v@.skip(i as int) =~= v@.subrange(i as int, n as int));
    assert(trim_end(v@.subrange(i as int, j as int)) == v@.subrange(i as int, j as int)) by {
        if j > i {
            assert(v@.subrange(i as int, j as int).last() == v@[j - 1]);
        }
    }
    string_of_range(&v, i, j)
}

/// The HTML line break that stands for a newline on the pages.
pub open spec fn line_break_tag() -> Seq<char> {
    seq!['<', 'b', 'r', ' ', '/', '>']
}

/// `s` with every `'\n'` replaced by the line break tag.
pub open spec fn replace_newlines(s: Seq<char>) -> Seq<char>
    decreases s.len(),
{
    if s.len() == 0 {
        Seq::empty()
    } else if s.last() == '\n' {
        replace_newlines(s.drop_last()) + line_break_tag()
    } else {
        replace_newlines(s.drop_last()).push(s.last())
    }
}

fn line_break_chars() -> (v: Vec<char>)
    ensures
        v@ == line_break_tag(),
{
    let v = vec!['<', 'b', 'r', ' ', '/', '>'];
    assert(v@ =~= line_break_tag());
    v
}

fn append_chars(out: &mut Vec<char>, more: &Vec<char>)
    ensures
        final(out)@ == old(out)@ + more@,
{
    let ghost start = out@;
    let mut k: usize = 0;
    while k < more.len()
        invariant
            k <= more.len(),
            out@ == start + more@.take(k as int),
        decreases more.len() - k,
    {
        out.push(more[k]);
        k = k + 1;
        assert(out@ =~= start + more@.take(k as int));
    }
    assert(more@.take(more.len() as int) =~= more@);
}

/// The text with each newline turned into a `<br />` tag, for showing a post
/// body as HTML.
pub fn newlines_to_breaks(text: &str) -> (s: String)
    ensures
        s@ == replace_newlines(text@),
        !text@.contains('\n') ==> s@ == text@,
{
    proof {
        lemma_no_newline_unchanged(text@);
    }
    let v = chars_of(text);
    let br = line_break_chars();
    let mut out: Vec<char> = Vec::new();
    let mut i: usize = 0;
    while i < v.len()
        invariant
            i <= v.len(),
            br@ == line_break_tag(),
            out@ == replace_newlines(v@.take(i as int)),
        decreases v.len() - i,
    {
        let c = v[i];
        assert(v@.take(i + 1).drop_last() =~= v@.take(i as int));
        if c == '\n' {
            append_chars(&mut out, &br);
        } else {
            out.push(c);
        }
        i = i + 1;
    }
    assert(v@.take(v.len() as int) =~= v@);
    string_of(&out)
}

/// The pieces of `s` between newlines (always at least one piece).
pub open spec fn split_pieces(s: Seq<char>) -> Seq<Seq<char>>
    decreases s.len(),
{
    if s.len() == 0 {
        seq![Seq::empty()]
    } else {
        let p = split_pieces(s.drop_last());
        if s.last() == '\n' {
            p.push(Seq::empty())
        } else {
            p.update(p.len() - 1, p.last().push(s.last()))
        }
    }
}

/// A line without the carriage return of a `"\r\n"` ending.
pub open spec fn strip_cr(l: Seq<char>) -> Seq<char> {
    if l.len() > 0 && l.last() == '\r' {
        l.drop_last()
    } else {
        l
    }
}

/// The lines of `s` as `str::lines` yields them: split at `'\n'`, a `'\r'`
/// before a `'\n'` dropped, and no empty line after a final newline.
pub open spec fn text_lines(s: Seq<char>) -> Seq<Seq<char>> {
    let p = split_pieces(s);
    let ended = p.drop_last().map_values(|l: Seq<char>| strip_cr(l));
    if p.last().len() == 0 {
        ended
    } else {
        ended.push(p.last())
    }
}

/// The first `n` of the lines (all of them where there are no more than `n`).
pub open spec fn first_lines(ls: Seq<Seq<char>>, n: nat) -> Seq<Seq<char>> {
    if ls.len() <= n {
        ls
    } else {
        ls.take(n as int)
    }
}

/// The lines joined with `sep` between neighbours.
pub open spec fn join_lines(ls: Seq<Seq<char>>, sep: Seq<char>) -> Seq<char>
    decreases ls.len(),
{
    if ls.len() == 0 {
        Seq::empty()
    } else if ls.len() == 1 {
        ls[0]
    } else {
        join_lines(ls.drop_last(), sep) + sep + ls.last()
    }
}

proof fn lemma_split_pieces_len(s: Seq<char>)
    ensures
        split_pieces(s).len() >= 1,
    decreases s.len(),
{
    if s.len() > 0 {
        lemma_split_pieces_len(s.drop_last());
    }
}

/// The number of bytes of the UTF-8 encoding of a character.
pub open spec fn char_utf8_width(c: char) -> nat {
    let u = c as u32;
    if u <= 0x7F {
        1
    } else if u <= 0x7FF {
        2
    } else if u <= 0xFFFF {
        3
    } else {
        4
    }
}

/// The number of bytes of the UTF-8 encoding of `s` (what `str::len` counts).
pub open spec fn utf8_len(s: Seq<char>) -> nat {
    vstd::utf8::encode_utf8(s).len()
}

proof fn lemma_encode_utf8_append(a: Seq<char>, b: Seq<char>)
    ensures
        vstd::utf8::encode_utf8(a + b) == vstd::utf8::encode_utf8(a) + vstd::utf8::encode_utf8(b),
    decreases a.len(),
{
    if a.len() == 0 {
        assert(a + b =~= b);
        assert(vstd::utf8::encode_utf8(a) =~= Seq::<u8>::empty());
        assert(vstd::utf8::encode_utf8(a) + vstd::utf8::encode_utf8(b) =~= vstd::utf8::encode_utf8(
            b,
        ));
    } else {
        assert((a + b).drop_first() =~= a.drop_first() + b);
        assert((a + b)[0] == a[0]);
        lemma_encode_utf8_append(a.drop_first(), b);
        assert(vstd::utf8::encode_utf8(a + b) =~= vstd::utf8::encode_utf8(a) + vstd::utf8::encode_utf8(
            b,
        ));
    }
}

proof fn lemma_utf8_len_push(s: Seq<char>, c: char)
    ensures
        utf8_len(s.push(c)) == utf8_len(s) + char_utf8_width(c),
        1 <= char_utf8_width(c) <= 4,
{
    lemma_encode_utf8_append(s, seq![c]);
    assert(s.push(c) =~= s + seq![c]);
    assert(seq![c].drop_first() =~= Seq::<char>::empty());
    vstd::utf8::char_is_scalar(c);
    assert(seq![c][0] == c);
    assert(vstd::utf8::encode_utf8(Seq::<char>::empty()) =~= Seq::<u8>::empty());
    assert(vstd::utf8::encode_utf8(seq![c]) =~= vstd::utf8::encode_scalar(c as u32));
}

proof fn lemma_utf8_len_take_increasing(s: Seq<char>, k1: int, k2: int)
    requires
        0 <= k1 <= k2 <= s.len(),
    ensures
        utf8_len(s.take(k1)) + (k2 - k1) <= utf8_len(s.take(k2)),
    decreases k2 - k1,
{
    if k1 < k2 {
        lemma_utf8_len_take_increasing(s, k1, k2 - 1);
        assert(s.take(k2) =~= s.take(k2 - 1).push(s[k2 - 1]));
        lemma_utf8_len_push(s.take(k2 - 1), s[k2 - 1]);
    }
}

/// The prefix of `s` whose UTF-8 encoding is exactly `n` bytes long, if a
/// character boundary falls there.
pub open spec fn byte_prefix(s: Seq<char>, n: nat) -> Option<Seq<char>> {
    if exists|k: int| 0 <= k <= s.len() && utf8_len(#[trigger] s.take(k)) == n {
        Some(s.take(choose|k: int| 0 <= k <= s.len() && utf8_len(#[trigger] s.take(k)) == n))
    } else {
        None
    }
}

/// The longest preview of a post body, in bytes.
pub const PREVIEW_MAX_BYTES: usize = 500;

/// The number of lines that a preview keeps.
pub const PREVIEW_MAX_LINES: usize = 4;

/// The preview of a post body shown in the list of posts: its first four
/// lines joined with line break tags, cut after 500 bytes, with `"..."` added
/// when the preview is shorter in bytes than the whole body. `None` where the
/// cut at 500 bytes would fall inside a character.
pub open spec fn preview(s: Seq<char>) -> Option<Seq<char>> {
    let joined = join_lines(first_lines(text_lines(s), PREVIEW_MAX_LINES as nat), line_break_tag());
    let cut = if utf8_len(joined) <= PREVIEW_MAX_BYTES {
        Some(joined)
    } else {
        byte_prefix(joined, PREVIEW_MAX_BYTES as nat)
    };
    match cut {
        None => None,
        Some(c) => Some(
            if utf8_len(c) < utf8_len(s) {
                c + seq!['.', '.', '.']
            } else {
                c
            },
        ),
    }
}

fn strip_cr_chars(l: &Vec<char>) -> (r: Vec<char>)
    ensures
        r@ == strip_cr(l@),
{
    let n = l.len();
    if n > 0 && l[n - 1] == '\r' {
        let mut r: Vec<char> = Vec::new();
        let mut k: usize = 0;
        while k < n - 1
            invariant
                n == l.len(),
                n > 0,
                k <= n - 1,
                r@ == l@.take(k as int),
            decreases n - 1 - k,
        {
            r.push(l[k]);
            k = k + 1;
            assert(r@ =~= l@.take(k as int));
        }
        assert(r@ =~= l@.drop_last());
        r
    } else {
        l.clone()
    }
}

proof fn lemma_first_lines_push_short(ls: Seq<Seq<char>>, x: Seq<char>, k: nat)
    requires
        ls.len() < k,
    ensures
        first_lines(ls.push(x), k) == ls.push(x),
        first_lines(ls, k) == ls,
{
}

proof fn lemma_first_lines_push_long(ls: Seq<Seq<char>>, x: Seq<char>, k: nat)
    requires
        k <= ls.len(),
    ensures
        first_lines(ls.push(x), k) == first_lines(ls, k),
{
    if k < ls.len() {
        assert(ls.push(x).take(k as int) =~= ls.take(k as int));
    } else {
        assert(ls.push(x).take(k as int) =~= ls);
    }
}

/// The first four lines of `v`, joined with line break tags.
fn first_lines_joined(v: &Vec<char>) -> (out: Vec<char>)
    ensures
        out@ == join_lines(first_lines(text_lines(v@), PREVIEW_MAX_LINES as nat), line_break_tag()),
{
    let br = line_break_chars();
    let mut out: Vec<char> = Vec::new();
    let mut cur: Vec<char> = Vec::new();
    let mut count: usize = 0;
    let mut i: usize = 0;
    proof {
        assert(v@.take(0) =~= Seq::<char>::empty());
        assert(split_pieces(Seq::<char>::empty()).drop_last() =~= Seq::<Seq<char>>::empty());
    }
    while i < v.len()
        invariant
            i <= v.len(),
            br@ == line_break_tag(),
            split_pieces(v@.take(i as int)).len() >= 1,
            cur@ == split_pieces(v@.take(i as int)).last(),
            count as int == if split_pieces(v@.take(i as int)).len() - 1 < 4 {
                split_pieces(v@.take(i as int)).len() - 1
            } else {
                4
            },
            out@ == join_lines(
                first_lines(
                    split_pieces(v@.take(i as int)).drop_last().map_values(
                        |l: Seq<char>| strip_cr(l),
                    ),
                    4,
                ),
                line_break_tag(),
            ),
        decreases v.len() - i,
    {
        let c = v[i];
        let ghost pre = v@.take(i as int);
        let ghost p = split_pieces(pre);
        let ghost done = p.drop_last().map_values(|l: Seq<char>| strip_cr(l));
        proof {
            assert(v@.take(i + 1).drop_last() =~= pre);
            assert(v@.take(i + 1).last() == c);
        }
        if c == '\n' {
            let line = strip_cr_chars(&cur);
            proof {
                let p2 = split_pieces(v@.take(i + 1));
                assert(p2 == p.push(Seq::<char>::empty()));
                assert(p2.drop_last() =~= p);
                assert(p.drop_last().push(p.last()) =~= p);
                let done2 = p2.drop_last().map_values(|l: Seq<char>| strip_cr(l));
                assert(done2 =~= done.push(strip_cr(p.last())));
                if count < 4 {
                    lemma_first_lines_push_short(done, strip_cr(p.last()), 4);
                } else {
                    lemma_first_lines_push_long(done, strip_cr(p.last()), 4);
                }
            }
            if count < 4 {
                if count > 0 {
                    append_chars(&mut out, &br);
                }
                append_chars(&mut out, &line);
                proof {
                    let x = strip_cr(p.last());
                    if count == 0 {
                        assert(done.len() == 0);
                        assert(done.push(x).len() == 1);
                        assert(out@ =~= done.push(x)[0]);
                    } else {
                        assert(done.push(x).drop_last() =~= done);
                    }
                }
                count = count + 1;
            }
            cur = Vec::new();
        } else {
            cur.push(c);
            proof {
                let p2 = split_pieces(v@.take(i + 1));
                assert(p2.drop_last() =~= p.drop_last());
            }
        }
        i = i + 1;
        proof {
            lemma_split_pieces_len(v@.take(i as int));
        }
    }
    proof {
        assert(v@.take(v.len() as int) =~= v@);
    }
    let ghost p = split_pieces(v@);
    let ghost done = p.drop_last().map_values(|l: Seq<char>| strip_cr(l));
    if cur.len() > 0 && count < 4 {
        if count > 0 {
            append_chars(&mut out, &br);
        }
        append_chars(&mut out, &cur);
        proof {
            lemma_first_lines_push_short(done, p.last(), 4);
            if count == 0 {
                assert(out@ =~= done.push(p.last())[0]);
            } else {
                assert(done.push(p.last()).drop_last() =~= done);
            }
        }
    } else {
        proof {
            if cur.len() > 0 {
                lemma_first_lines_push_long(done, p.last(), 4);
            }
        }
    }
    out
}

/// The number of bytes of the UTF-8 encoding of `c`.
fn char_width(c: char) -> (w: usize)
    ensures
        w == char_utf8_width(c),
{
    let u = c as u32;
    if u <= 0x7F {
        1
    } else if u <= 0x7FF {
        2
    } else if u <= 0xFFFF {
        3
    } else {
        4
    }
}

/// Whether the UTF-8 encoding of `v` is longer than `bound` bytes.
fn utf8_len_exceeds(v: &Vec<char>, bound: usize) -> (b: bool)
    requires
        bound <= PREVIEW_MAX_BYTES,
    ensures
        b == (utf8_len(v@) > bound),
{
    let mut sum: usize = 0;
    let mut k: usize = 0;
    while k < v.len()
        invariant
            k <= v.len(),
            bound <= PREVIEW_MAX_BYTES,
            sum <= bound,
            sum as nat == utf8_len(v@.take(k as int)),
        decreases v.len() - k,
    {
        proof {
            assert(v@.take(k + 1) =~= v@.take(k as int).push(v@[k as int]));
            lemma_utf8_len_push(v@.take(k as int), v@[k as int]);
        }
        let w = char_width(v[k]);
        if sum + w > bound {
            proof {
                lemma_utf8_len_take_increasing(v@, k + 1, v@.len() as int);
                assert(v@.take(v@.len() as int) =~= v@);
            }
            return true;
        }
        sum = sum + w;
        k = k + 1;
    }
    assert(v@.take(v@.len() as int) =~= v@);
    false
}

/// The preview of a post body shown in the list of posts (see [`preview`]);
/// `None` exactly where the 500-byte cut falls inside a character.
pub fn content_preview(full_content: &str) -> (r: Option<String>)
    ensures
        r matches Some(s) ==> preview(full_content@) == Some(s@),
        r is None <==> preview(full_content@) is None,
{
    let v = chars_of(full_content);
    let joined = first_lines_joined(&v);
    let ghost j = joined@;
    // Walk the joined lines until the byte count would pass the limit.
    let mut acc: usize = 0;
    let mut k: usize = 0;
    while k < joined.len() && acc + char_width(joined[k]) <= PREVIEW_MAX_BYTES
        invariant
            k <= joined.len(),
            j == joined@,
            acc as nat == utf8_len(j.take(k as int)),
            acc <= PREVIEW_MAX_BYTES,
        decreases joined.len() - k,
    {
        proof {
            assert(j.take(k + 1) =~= j.take(k as int).push(j[k as int]));
            lemma_utf8_len_push(j.take(k as int), j[k as int]);
        }
        acc = acc + char_width(joined[k]);
        k = k + 1;
    }
    let cut_len: usize;
    if k == joined.len() {
        // The whole joined text fits.
        proof {
            assert(j.take(k as int) =~= j);
        }
        cut_len = k;
    } else if acc == PREVIEW_MAX_BYTES {
        proof {
            assert(j.take(k + 1) =~= j.take(k as int).push(j[k as int]));
            lemma_utf8_len_push(j.take(k as int), j[k as int]);
            lemma_utf8_len_take_increasing(j, k + 1, j.len() as int);
            assert(j.take(j.len() as int) =~= j);
            assert(utf8_len(j) > PREVIEW_MAX_BYTES);
            let w = choose|w: int| 0 <= w <= j.len() && utf8_len(#[trigger] j.take(w)) == 500;
            assert(0 <= k <= j.len() && utf8_len(j.take(k as int)) == 500);
            assert(w == k) by {
                if w < k {
                    lemma_utf8_len_take_increasing(j, w, k as int);
                } else if w > k {
                    lemma_utf8_len_take_increasing(j, k as int, w);
                }
            }
            assert(byte_prefix(j, 500) == Some(j.take(k as int)));
        }
        cut_len = k;
    } else {
        proof {
            assert(j.take(k + 1) =~= j.take(k as int).push(j[k as int]));
            lemma_utf8_len_push(j.take(k as int), j[k as int]);
            lemma_utf8_len_take_increasing(j, k + 1, j.len() as int);
            assert(j.take(j.len() as int) =~= j);
            assert forall|w: int| 0 <= w <= j.len() implies utf8_len(#[trigger] j.take(w))
                != 500 by {
                if w <= k {
                    lemma_utf8_len_take_increasing(j, w, k as int);
                } else {
                    lemma_utf8_len_take_increasing(j, k + 1, w);
                }
            }
        }
        return None;
    }
    let mut content: Vec<char> = Vec::new();
    let mut m: usize = 0;
    while m < cut_len
        invariant
            m <= cut_len <= joined.len(),
            content@ == joined@.take(m as int),
        decreases cut_len - m,
    {
        content.push(joined[m]);
        m = m + 1;
        assert(content@ =~= joined@.take(m as int));
    }
    let ghost c = content@;
    proof {
        assert(c == j.take(k as int));
        if k == joined.len() {
            assert(c =~= j);
            assert(utf8_len(j) <= 500);
        }
        assert(acc as nat == utf8_len(c));
    }
    if utf8_len_exceeds(&v, acc) {
        content.push('.');
        content.push('.');
        content.push('.');
        assert(content@ =~= c + seq!['.', '.', '.']);
    }
    Some(string_of(&content))
}

/// A preview is never longer than 500 bytes plus the three dots that mark a
/// shortened body.
pub proof fn lemma_preview_bounded(s: Seq<char>)
    ensures
        preview(s) matches Some(p) ==> utf8_len(p) <= PREVIEW_MAX_BYTES + 3,
{
    let joined = join_lines(first_lines(text_lines(s), PREVIEW_MAX_LINES as nat), line_break_tag());
    let cut = if utf8_len(joined) <= PREVIEW_MAX_BYTES {
        Some(joined)
    } else {
        byte_prefix(joined, PREVIEW_MAX_BYTES as nat)
    };
    if cut is Some {
        let c = cut.unwrap();
        assert(utf8_len(c) <= 500);
        let dots = seq!['.', '.', '.'];
        lemma_utf8_len_push(Seq::<char>::empty(), '.');
        lemma_utf8_len_push(seq!['.'], '.');
        lemma_utf8_len_push(seq!['.', '.'], '.');
        assert(Seq::<char>::empty().push('.') =~= seq!['.']);
        assert(seq!['.'].push('.') =~= seq!['.', '.']);
        assert(seq!['.', '.'].push('.') =~= dots);
        assert(vstd::utf8::encode_utf8(Seq::<char>::empty()) =~= Seq::<u8>::empty());
        lemma_encode_utf8_append(c, dots);
    }
}


proof fn lemma_trim_start_index(s: Seq<char>) -> (i: int)
    ensures
        0 <= i <= s.len(),
        trim_start(s) == s.skip(i),
        forall|k: int| 0 <= k < i ==> is_white_space(#[trigger] s[k]),
        i < s.len() ==> !is_white_space(s[i]),
    decreases s.len(),
{
    if s.len() > 0 && is_white_space(s[0]) {
        let rest = s.drop_first();
        let i = lemma_trim_start_index(rest);
        assert forall|k: int| 0 <= k < i + 1 implies is_white_space(#[trigger] s[k]) by {
            if k > 0 {
                assert(s[k] == rest[k - 1]);
            }
        }
        assert(rest.skip(i) =~= s.skip(i + 1));
        if i + 1 < s.len() {
            assert(s[i + 1] == rest[i]);
        }
        i + 1
    } else {
        assert(s.skip(0) =~= s);
        0
    }
}

proof fn lemma_trim_end_index(s: Seq<char>) -> (j: int)
    ensures
        0 <= j <= s.len(),
        trim_end(s) == s.take(j),
        forall|k: int| j <= k < s.len() ==> is_white_space(#[trigger] s[k]),
        j > 0 ==> !is_white_space(s[j - 1]),
    decreases s.len(),
{
    if s.len() > 0 && is_white_space(s.last()) {
        let rest = s.drop_last();
        let j = lemma_trim_end_index(rest);
        assert forall|k: int| j <= k < s.len() implies is_white_space(#[trigger] s[k]) by {
            if k < s.len() - 1 {
                assert(s[k] == rest[k]);
            }
        }
        assert(rest.take(j) =~= s.take(j));
        if j > 0 {
            assert(s[j - 1] == rest[j - 1]);
        }
        j
    } else {
        assert(s.take(s.len() as int) =~= s);
        s.len() as int
    }
}

/// Trimming removes white space and nothing else: the trimmed text is a
/// stretch of the text, everything cut off before and after it is white
/// space (U+0009..U+000D, U+0020, U+0085, U+00A0, U+1680, U+2000..U+200A,
/// U+2028, U+2029, U+202F, U+205F, U+3000), and the stretch neither starts
/// nor ends with white space. So a text that does not start or end with
/// white space comes back whole.
pub proof fn lemma_trim_removes_only_white_space(s: Seq<char>)
    ensures
        ({
            let ws = |c: char|
                {
                    let u = c as u32;
                    (u >= 9 && u <= 13) || u == 0x20 || u == 0x85 || u == 0xA0 || u == 0x1680 || (
                    u >= 0x2000 && u <= 0x200A) || u == 0x2028 || u == 0x2029 || u == 0x202F || u
                        == 0x205F || u == 0x3000
                };
            &&& exists|i: int, j: int|
                0 <= i <= j <= s.len() && #[trigger] s.subrange(i, j) == trim(s) && (forall|k: int|
                    0 <= k < i ==> ws(#[trigger] s[k])) && (forall|k: int|
                    j <= k < s.len() ==> ws(#[trigger] s[k])) && (i < j ==> !ws(s[i]) && !ws(
                    s[j - 1],
                ))
            &&& (s.len() == 0 || (!ws(s[0]) && !ws(s.last()))) ==> trim(s) == s
        }),
{
    let i = lemma_trim_start_index(s);
    let rest = s.skip(i);
    let j0 = lemma_trim_end_index(rest);
    let j = i + j0;
    assert(rest.take(j0) =~= s.subrange(i, j));
    assert forall|k: int| j <= k < s.len() implies is_white_space(#[trigger] s[k]) by {
        assert(s[k] == rest[k - i]);
    }
    if i < j {
        assert(s[j - 1] == rest[j0 - 1]);
    }
    if s.len() > 0 && !is_white_space(s[0]) && !is_white_space(s.last()) {
        assert(i == 0);
        if j < s.len() {
            assert(is_white_space(s[s.len() - 1]));
        }
        assert(s.subrange(0, s.len() as int) =~= s);
    }
    if s.len() == 0 {
        assert(s.subrange(0, 0) =~= s);
    }
}

/// Line breaks replace each `'\n'` and only it: the empty text stays empty,
/// and a character added at the end adds `<br />` if it is a newline and
/// itself otherwise; a text without newlines comes back unchanged.
pub proof fn lemma_line_breaks_replace_only_newlines(s: Seq<char>, c: char)
    ensures
        replace_newlines(Seq::empty()) == Seq::<char>::empty(),
        replace_newlines(s.push(c)) == replace_newlines(s) + if c == '\n' {
            seq!['<', 'b', 'r', ' ', '/', '>']
        } else {
            seq![c]
        },
        !s.contains('\n') ==> replace_newlines(s) == s,
{
    assert(s.push(c).drop_last() =~= s);
    assert(replace_newlines(s).push(c) =~= replace_newlines(s) + seq![c]);
    lemma_no_newline_unchanged(s);
}

proof fn lemma_no_newline_unchanged(s: Seq<char>)
    ensures
        !s.contains('\n') ==> replace_newlines(s) == s,
    decreases s.len(),
{
    if s.len() > 0 && !s.contains('\n') {
        let dl = s.drop_last();
        assert(!dl.contains('\n')) by {
            if dl.contains('\n') {
                let k = choose|k: int| 0 <= k < dl.len() && dl[k] == '\n';
                assert(s[k] == '\n');
            }
        }
        lemma_no_newline_unchanged(dl);
        assert(s.last() != '\n') by {
            assert(s[s.len() - 1] == s.last());
        }
        assert(dl.push(s.last()) =~= s);
    }
}

/// The line breaks of two texts put together are the line breaks of each,
/// put together.
pub proof fn lemma_line_breaks_of_joined_text(a: Seq<char>, b: Seq<char>)
    ensures
        replace_newlines(a + b) == replace_newlines(a) + replace_newlines(b),
    decreases b.len(),
{
    if b.len() == 0 {
        assert(a + b =~= a);
        assert(replace_newlines(a) + replace_newlines(b) =~= replace_newlines(a));
    } else {
        let bl = b.drop_last();
        lemma_line_breaks_of_joined_text(a, bl);
        assert((a + b).drop_last() =~= a + bl);
        assert((a + b).last() == b.last());
        if b.last() == '\n' {
            assert(replace_newlines(a) + replace_newlines(bl) + line_break_tag() =~= replace_newlines(
                a,
            ) + (replace_newlines(bl) + line_break_tag()));
        } else {
            assert((replace_newlines(a) + replace_newlines(bl)).push(b.last()) =~= replace_newlines(
                a,
            ) + replace_newlines(bl).push(b.last()));
        }
    }
}


proof fn lemma_split_pieces_one_line(a: Seq<char>)
    requires
        !a.contains('\n'),
    ensures
        split_pieces(a) == seq![a],
    decreases a.len(),
{
    if a.len() > 0 {
        let dl = a.drop_last();
        assert(!dl.contains('\n')) by {
            if dl.contains('\n') {
                let k = choose|k: int| 0 <= k < dl.len() && dl[k] == '\n';
                assert(a[k] == '\n');
            }
        }
        lemma_split_pieces_one_line(dl);
        assert(a[a.len() - 1] == a.last());
        assert(dl.push(a.last()) =~= a);
        assert(seq![dl].update(0, dl.push(a.last())) =~= seq![a]);
    } else {
        assert(a =~= Seq::<char>::empty());
    }
}

proof fn lemma_split_pieces_after_line(a: Seq<char>, b: Seq<char>)
    requires
        !a.contains('\n'),
    ensures
        split_pieces(a + seq!['\n'] + b) == seq![a] + split_pieces(b),
    decreases b.len(),
{
    let x = a + seq!['\n'] + b;
    if b.len() == 0 {
        assert(x =~= a.push('\n'));
        assert(x.drop_last() =~= a);
        lemma_split_pieces_one_line(a);
        assert(seq![a].push(Seq::<char>::empty()) =~= seq![a] + seq![Seq::<char>::empty()]);
    } else {
        let bl = b.drop_last();
        lemma_split_pieces_after_line(a, bl);
        lemma_split_pieces_len(bl);
        assert(x.drop_last() =~= a + seq!['\n'] + bl);
        assert(x.last() == b.last());
        let q = split_pieces(bl);
        if b.last() == '\n' {
            assert((seq![a] + q).push(Seq::<char>::empty()) =~= seq![a] + q.push(
                Seq::<char>::empty(),
            ));
        } else {
            assert((seq![a] + q).update(q.len() as int, (seq![a] + q).last().push(b.last()))
                =~= seq![a] + q.update(q.len() - 1, q.last().push(b.last())));
        }
    }
}

/// How a text falls into lines: a text without newlines is one line (none
/// when it is empty), and a line ended by `'\n'` comes first, without the
/// `'\r'` of a `"\r\n"` ending, before the lines of the rest.
pub proof fn lemma_text_lines_split_at_newlines(a: Seq<char>, b: Seq<char>)
    requires
        !a.contains('\n'),
    ensures
        text_lines(a) == if a.len() == 0 {
            Seq::<Seq<char>>::empty()
        } else {
            seq![a]
        },
        text_lines(a + seq!['\n'] + b) == seq![
            if a.len() > 0 && a.last() == '\r' {
                a.drop_last()
            } else {
                a
            },
        ] + text_lines(b),
{
    lemma_split_pieces_one_line(a);
    assert(seq![a].drop_last().map_values(|l: Seq<char>| strip_cr(l)) =~= Seq::<Seq<char>>::empty());
    if a.len() > 0 {
        assert(Seq::<Seq<char>>::empty().push(a) =~= seq![a]);
    }
    lemma_split_pieces_after_line(a, b);
    lemma_split_pieces_len(b);
    let q = split_pieces(b);
    let f = |l: Seq<char>| strip_cr(l);
    assert((seq![a] + q).drop_last() =~= seq![a] + q.drop_last());
    assert((seq![a] + q.drop_last()).map_values(f) =~= seq![strip_cr(a)] + q.drop_last().map_values(
        f,
    ));
    assert((seq![a] + q).last() == q.last());
    assert((seq![strip_cr(a)] + q.drop_last().map_values(f)).push(q.last()) =~= seq![strip_cr(a)]
        + q.drop_last().map_values(f).push(q.last()));
}

/// A body of one line that fits in 500 bytes is its own preview, whole.
pub proof fn lemma_short_line_is_its_own_preview(a: Seq<char>)
    requires
        !a.contains('\n'),
        utf8_len(a) <= 500,
    ensures
        preview(a) == Some(a),
{
    lemma_text_lines_split_at_newlines(a, Seq::empty());
    if a.len() == 0 {
        assert(vstd::utf8::encode_utf8(a) =~= Seq::<u8>::empty());
    }
}

} // verus!
