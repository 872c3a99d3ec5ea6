use vstd::prelude::*;

verus! {

/// An ASCII decimal digit.
pub open spec fn spec_is_digit(c: char) -> bool {
    48 <= c as u32 <= 57
}

/// A character of a numeric lexeme: a digit or the decimal point.
pub open spec fn spec_is_num_char(c: char) -> bool {
    spec_is_digit(c) || c == '.'
}

/// An ASCII character.
pub open spec fn spec_is_ascii_char(c: char) -> bool {
    c as u32 <= 0x7F
}

/// An ASCII letter or digit.
pub open spec fn spec_is_alnum(c: char) -> bool {
    spec_is_digit(c) || (65 <= c as u32 <= 90) || (97 <= c as u32 <= 122)
}

/// A whitespace character: the Unicode `White_Space` code points.
pub open spec fn spec_is_ws(c: char) -> bool {
    let u = c as u32;
    (0x09 <= u <= 0x0D) || u == 0x20 || u == 0x85 || u == 0xA0 || u == 0x1680 || (0x2000 <= u
        <= 0x200A) || u == 0x2028 || u == 0x2029 || u == 0x202F || u == 0x205F || u == 0x3000
}

/// Decide `spec_is_digit`.
pub fn is_digit(c: char) -> (b: bool)
    ensures
        b == spec_is_digit(c),
{
    let u = c as u32;
    48 <= u && u <= 57
}

/// Decide `spec_is_num_char`.
pub fn is_num_char(c: char) -> (b: bool)
    ensures
        b == spec_is_num_char(c),
{
    is_digit(c) || c == '.'
}

/// Decide `spec_is_ascii_char`.
pub fn is_ascii_char(c: char) -> (b: bool)
    ensures
        b == spec_is_ascii_char(c),
{
    c as u32 <= 0x7F
}

/// Decide `spec_is_alnum`.
pub fn is_alnum(c: char) -> (b: bool)
    ensures
        b == spec_is_alnum(c),
{
    let u = c as u32;
    is_digit(c) || (65 <= u && u <= 90) || (97 <= u && u <= 122)
}

/// Decide `spec_is_ws`.
pub fn is_ws(c: char) -> (b: bool)
    ensures
        b == spec_is_ws(c),
{
    let u = c as u32;
    (0x09 <= u && u <= 0x0D) || u == 0x20 || u == 0x85 || u == 0xA0 || u == 0x1680 || (0x2000 <= u
        && u <= 0x200A) || u == 0x2028 || u == 0x2029 || u == 0x202F || u == 0x205F || u == 0x3000
}

/// Relies on `str::chars`: the characters of a string slice, in order,
/// as its view presents them.
#[verifier::external_body]
pub fn chars_vec(s: &str) -> (r: Vec<char>)
    ensures
        r@ == s@,
{
    s.chars().collect()
}

/// Relies on `String::push`: appends exactly the one character.
#[verifier::external_body]
pub fn push_char(s: &mut String, c: char)
    ensures
        final(s)@ == old(s)@.push(c),
{
    s.push(c)
}

/// The characters `s[from..to]`, collected into a `String`.
pub fn chars_to_string(s: &Vec<char>, from: usize, to: usize) -> (r: String)
    requires
        from <= to <= s@.len(),
    ensures
        r@ == s@.subrange(from as int, to as int),
{
    let mut out = String::new();
    let mut j: usize = from;
    while j < to
        invariant
            from <= j <= to <= s@.len(),
            out@ == s@.subrange(from as int, j as int),
        decreases to - j,
    {
        push_char(&mut out, s[j]);
        j = j + 1;
        assert(out@ =~= s@.subrange(from as int, j as int));
    }
    out
}

/// The decimal digit character for `d`.
pub open spec fn spec_digit_char(d: int) -> char {
    if d == 0 {
        '0'
    } else if d == 1 {
        '1'
    } else if d == 2 {
        '2'
    } else if d == 3 {
        '3'
    } else if d == 4 {
        '4'
    } else if d == 5 {
        '5'
    } else if d == 6 {
        '6'
    } else if d == 7 {
        '7'
    } else if d == 8 {
        '8'
    } else {
        '9'
    }
}

/// The decimal rendering of a nonnegative integer, without sign or
/// leading zeros (a single `0` for zero).
pub open spec fn spec_u32_dec(n: int) -> Seq<char>
    decreases n,
{
    if n < 10 {
        seq![spec_digit_char(n)]
    } else {
        spec_u32_dec(n / 10) + seq![spec_digit_char(n % 10)]
    }
}

/// The decimal rendering of a signed integer: a `-` sign for a negative
/// value, then the digits of its magnitude.
pub open spec fn spec_i32_dec(n: int) -> Seq<char> {
    if n < 0 {
        seq!['-'] + spec_u32_dec(-n)
    } else {
        spec_u32_dec(n)
    }
}

fn digit_char(d: u32) -> (c: char)
    requires
        d < 10,
    ensures
        c == spec_digit_char(d as int),
{
    match d {
        0 => '0',
        1 => '1',
        2 => '2',
        3 => '3',
        4 => '4',
        5 => '5',
        6 => '6',
        7 => '7',
        8 => '8',
        _ => '9',
    }
}

fn push_u32_dec(out: &mut String, n: u32)
    ensures
        final(out)@ == old(out)@ + spec_u32_dec(n as int),
    decreases n,
{
    if n < 10 {
        push_char(out, digit_char(n));
        assert(out@ =~= old(out)@ + spec_u32_dec(n as int));
    } else {
        push_u32_dec(out, n / 10);
        push_char(out, digit_char(n % 10));
        assert(out@ =~= old(out)@ + spec_u32_dec(n as int));
    }
}

/// The decimal rendering of a `u32`.
pub fn u32_to_string(n: u32) -> (r: String)
    ensures
        r@ == spec_u32_dec(n as int),
{
    let mut out = String::new();
    push_u32_dec(&mut out, n);
    assert(out@ =~= spec_u32_dec(n as int));
    out
}

/// The decimal rendering of an `i32`.
pub fn i32_to_string(n: i32) -> (r: String)
    ensures
        r@ == spec_i32_dec(n as int),
{
    let mut out = String::new();
    if n < 0 {
        push_char(&mut out, '-');
        let m: u32 = (-(n as i64)) as u32;
        push_u32_dec(&mut out, m);
        assert(out@ =~= spec_i32_dec(n as int));
    } else {
        push_u32_dec(&mut out, n as u32);
        assert(out@ =~= spec_i32_dec(n as int));
    }
    out
}

} // verus!
