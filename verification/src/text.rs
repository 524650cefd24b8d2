//! Text building blocks: decimal numbers, indentation and Unix paths.

use vstd::prelude::*;

verus! {

/// The character of the decimal digit `d`.
pub open spec fn digit_char(d: int) -> char {
    if d == 0 { '0' }
    else if d == 1 { '1' }
    else if d == 2 { '2' }
    else if d == 3 { '3' }
    else if d == 4 { '4' }
    else if d == 5 { '5' }
    else if d == 6 { '6' }
    else if d == 7 { '7' }
    else if d == 8 { '8' }
    else { '9' }
}

/// The decimal notation of `n`, most significant digit first, without
/// leading zeros.
pub open spec fn decimal(n: nat) -> Seq<char>
    decreases n,
{
    if n < 10 {
        seq![digit_char(n as int)]
    } else {
        decimal(n / 10).push(digit_char((n % 10) as int))
    }
}

/// The notation of the integer `i` as Rust's `Display` writes it.
pub open spec fn signed_decimal(i: int) -> Seq<char> {
    if i < 0 {
        seq!['-'] + decimal((-i) as nat)
    } else {
        decimal(i as nat)
    }
}

/// The value of the decimal digit `c`; -1 when `c` is not a digit.
pub open spec fn digit_value(c: char) -> int {
    if c == '0' { 0 }
    else if c == '1' { 1 }
    else if c == '2' { 2 }
    else if c == '3' { 3 }
    else if c == '4' { 4 }
    else if c == '5' { 5 }
    else if c == '6' { 6 }
    else if c == '7' { 7 }
    else if c == '8' { 8 }
    else if c == '9' { 9 }
    else { -1 }
}

/// Whether `c` is a decimal digit.
pub open spec fn is_digit(c: char) -> bool {
    digit_value(c) >= 0
}

/// The number that the decimal digits `s` write, most significant first.
pub open spec fn decimal_value(s: Seq<char>) -> int
    decreases s.len(),
{
    if s.len() == 0 {
        0
    } else {
        decimal_value(s.drop_last()) * 10 + digit_value(s.last())
    }
}

/// What reading `s` as a decimal integer gives, as Rust's integer parsing
/// reads it: an optional sign, then one digit or more; nothing when `s`
/// has another form.
pub open spec fn parse_decimal(s: Seq<char>) -> Option<int> {
    let signed = s.len() > 0 && (s[0] == '-' || s[0] == '+');
    let digits = if signed { s.drop_first() } else { s };
    if digits.len() > 0 && forall|i: int| 0 <= i < digits.len() ==> is_digit(#[trigger] digits[i]) {
        Some(if signed && s[0] == '-' { -decimal_value(digits) } else { decimal_value(digits) })
    } else {
        None
    }
}

proof fn lemma_decimal_reads_back(n: nat)
    ensures
        decimal(n).len() > 0,
        forall|i: int| 0 <= i < decimal(n).len() ==> is_digit(#[trigger] decimal(n)[i]),
        decimal_value(decimal(n)) == n,
    decreases n,
{
    if n >= 10 {
        lemma_decimal_reads_back(n / 10);
        let s = decimal(n);
        assert(s.drop_last() =~= decimal(n / 10));
        assert(forall|i: int| 0 <= i < s.len() - 1 ==> s[i] == decimal(n / 10)[i]);
        assert(n == (n / 10) * 10 + n % 10);
        assert(s.last() == digit_char((n % 10) as int));
        assert(digit_value(digit_char((n % 10) as int)) == n % 10);
        assert(decimal_value(s) == decimal_value(decimal(n / 10)) * 10 + n % 10);
        assert(decimal_value(decimal(n / 10)) == n / 10);
    } else {
        let s = decimal(n);
        assert(s.drop_last() =~= Seq::<char>::empty());
        assert(decimal_value(Seq::<char>::empty()) == 0);
        assert(decimal_value(s) == decimal_value(s.drop_last()) * 10 + digit_value(s.last()));
        assert(digit_value(digit_char(n as int)) == n);
    }
}

/// Decimal notation reads back: parsing the notation of any integer gives
/// that integer.
pub proof fn signed_decimal_parses_back(i: int)
    ensures
        parse_decimal(signed_decimal(i)) == Some(i),
{
    if i < 0 {
        let m = (-i) as nat;
        lemma_decimal_reads_back(m);
        assert((seq!['-'] + decimal(m)).drop_first() =~= decimal(m));
    } else {
        lemma_decimal_reads_back(i as nat);
        assert(is_digit(decimal(i as nat)[0]));
    }
}

fn digit_str(d: u64) -> (s: &'static str)
    requires
        d < 10,
    ensures
        s@ == seq![digit_char(d as int)],
{
    if d == 0 {
        proof { reveal_strlit("0"); }
        "0"
    } else if d == 1 {
        proof { reveal_strlit("1"); }
        "1"
    } else if d == 2 {
        proof { reveal_strlit("2"); }
        "2"
    } else if d == 3 {
        proof { reveal_strlit("3"); }
        "3"
    } else if d == 4 {
        proof { reveal_strlit("4"); }
        "4"
    } else if d == 5 {
        proof { reveal_strlit("5"); }
        "5"
    } else if d == 6 {
        proof { reveal_strlit("6"); }
        "6"
    } else if d == 7 {
        proof { reveal_strlit("7"); }
        "7"
    } else if d == 8 {
        proof { reveal_strlit("8"); }
        "8"
    } else {
        proof { reveal_strlit("9"); }
        "9"
    }
}

/// Writes `n` in decimal.
pub fn format_unsigned(n: u64) -> (s: String)
    ensures
        s@ == decimal(n as nat),
    decreases n,
{
    if n < 10 {
        String::from_str(digit_str(n))
    } else {
        let mut s = format_unsigned(n / 10);
        s.append(digit_str(n % 10));
        s
    }
}

/// Writes `i` in decimal, with a leading `-` when it is negative.
pub fn format_signed(i: i32) -> (s: String)
    ensures
        s@ == signed_decimal(i as int),
{
    if i < 0 {
        let magnitude: u64 = (0i64 - (i as i64)) as u64;
        let digits = format_unsigned(magnitude);
        proof { reveal_strlit("-"); }
        let mut s = String::from_str("-");
        s.append(digits.as_str());
        s
    } else {
        format_unsigned(i as u64)
    }
}

/// Joins two texts.
pub fn text_join(a: &str, b: &str) -> (joined: String)
    ensures
        joined@ == a@ + b@,
{
    let mut joined = String::from_str(a);
    joined.append(b);
    joined
}

/// `n` tab characters.
pub open spec fn tab_run(n: nat) -> Seq<char> {
    Seq::new(n, |i: int| '\t')
}

/// A run of `n` tabs, the indentation of nested report lines.
pub fn tabs(n: usize) -> (s: String)
    ensures
        s@ == tab_run(n as nat),
{
    let mut s = String::new();
    let mut i: usize = 0;
    while i < n
        invariant
            i <= n,
            s@ == tab_run(i as nat),
        decreases n - i,
    {
        proof { reveal_strlit("\t"); }
        s.append("\t");
        i = i + 1;
        assert(s@ =~= tab_run(i as nat));
    }
    s
}

/// Whether a Unix path is absolute, that is starts at the root.
pub open spec fn is_absolute(path: Seq<char>) -> bool {
    path.len() > 0 && path[0] == '/'
}

/// What extending the Unix path `base` with `part` gives: an absolute
/// `part` replaces `base`; otherwise `part` is appended, with a `/` in
/// between unless `base` is empty or already ends with one.
pub open spec fn path_push(base: Seq<char>, part: Seq<char>) -> Seq<char> {
    if is_absolute(part) {
        part
    } else if base.len() == 0 || base.last() == '/' {
        base + part
    } else {
        base + seq!['/'] + part
    }
}

/// Extends the Unix path `base` with `part`, as a path buffer's `push`
/// does.
pub fn push_path(base: &str, part: &str) -> (joined: String)
    ensures
        joined@ == path_push(base@, part@),
{
    proof { reveal_strlit("/"); }
    let part_len = part.unicode_len();
    if part_len > 0 && part.get_char(0) == '/' {
        return String::from_str(part);
    }
    let base_len = base.unicode_len();
    let mut joined = String::from_str(base);
    if base_len > 0 && base.get_char(base_len - 1) != '/' {
        joined.append("/");
    }
    joined.append(part);
    joined
}

} // verus!
