//! Text helpers: decimal rendering, exact comparison, joining and port parsing.

use vstd::prelude::*;
use vstd::string::*;

verus! {

/// The character of a decimal digit.
pub open spec fn digit_char(d: nat) -> char {
    if d == 0 {
        '0'
    } else if d == 1 {
        '1'
    } else if d == 2 {
        '2'
    } else if d == 3 {
        '3'
    } else if d == 4 {
        '4'
    } else if d == 5 {
        '5'
    } else if d == 6 {
        '6'
    } else if d == 7 {
        '7'
    } else if d == 8 {
        '8'
    } else {
        '9'
    }
}

/// The decimal digits of `n`, most significant first, without leading zeros.
pub open spec fn decimal_of(n: nat) -> Seq<char>
    decreases n,
{
    if n < 10 {
        seq![digit_char(n)]
    } else {
        decimal_of(n / 10) + seq![digit_char(n % 10)]
    }
}

fn digit_str(d: u16) -> (r: &'static str)
    requires
        d < 10,
    ensures
        r@ == seq![digit_char(d as nat)],
{
    if d == 0 {
        proof { reveal_strlit("0"); }
        "0"
    } else if d == 1 {
        proof { reveal_strlit("1"); }
        "1"
    } else if d == 2 {
        proof { reveal_strlit("2"); }
        "2"
    } else if d == 3 {
        proof { reveal_strlit("3"); }
        "3"
    } else if d == 4 {
        proof { reveal_strlit("4"); }
        "4"
    } else if d == 5 {
        proof { reveal_strlit("5"); }
        "5"
    } else if d == 6 {
        proof { reveal_strlit("6"); }
        "6"
    } else if d == 7 {
        proof { reveal_strlit("7"); }
        "7"
    } else if d == 8 {
        proof { reveal_strlit("8"); }
        "8"
    } else {
        proof { reveal_strlit("9"); }
        "9"
    }
}

/// Renders `n` in decimal.
pub fn decimal(n: u16) -> (r: String)
    ensures
        r@ == decimal_of(n as nat),
    decreases n,
{
    if n < 10 {
        String::from_str(digit_str(n))
    } else {
        let mut s = decimal(n / 10);
        s.append(digit_str(n % 10));
        s
    }
}

/// Whether `c` is an ASCII decimal digit.
pub open spec fn is_digit(c: char) -> bool {
    '0' <= c && c <= '9'
}

/// The numeric value of a digit run, most significant first.
pub open spec fn digits_value(s: Seq<char>) -> nat
    decreases s.len(),
{
    if s.len() == 0 {
        0
    } else {
        digits_value(s.drop_last()) * 10 + ((s.last() as u32) - ('0' as u32)) as nat
    }
}

/// The digit run of a port text: what follows an optional leading `+`.
pub open spec fn port_digits(s: Seq<char>) -> Seq<char> {
    if s.len() > 0 && s[0] == '+' {
        s.drop_first()
    } else {
        s
    }
}

/// Whether `s` is the text of an unsigned 16-bit integer: an optional `+`,
/// then one or more decimal digits whose value is at most 65535.
pub open spec fn is_port_text(s: Seq<char>) -> bool {
    let d = port_digits(s);
    &&& d.len() > 0
    &&& forall|i: int| 0 <= i < d.len() ==> is_digit(#[trigger] d[i])
    &&& digits_value(d) <= 65535
}

const CAP: u32 = 70000;

proof fn lemma_capped_step(a: nat, d: nat)
    requires
        d < 10,
    ensures
        (if a < 70000 { a } else { 70000 }) * 10 + d >= 70000 <==> a * 10 + d >= 70000,
        a < 70000 && a * 10 + d < 70000 ==> (if a < 70000 { a } else { 70000 }) * 10 + d == a * 10 + d,
{
}

/// Parses a port number the way an unsigned 16-bit integer is read from text.
pub fn parse_port(text: &str) -> (r: Option<u16>)
    ensures
        r.is_some() <==> is_port_text(text@),
        r matches Some(n) ==> n as nat == digits_value(port_digits(text@)),
{
    let len = text.unicode_len();
    let mut start: usize = 0;
    if len > 0 && text.get_char(0) == '+' {
        start = 1;
    }
    let ghost d = port_digits(text@);
    assert(d =~= text@.subrange(start as int, len as int));
    if start == len {
        return None;
    }
    let mut value: u32 = 0;
    let mut i: usize = start;
    while i < len
        invariant
            start <= i <= len,
            len == text@.len(),
            d =~= text@.subrange(start as int, len as int),
            d == port_digits(text@),
            forall|k: int| 0 <= k < i - start ==> is_digit(#[trigger] d[k]),
            value as nat == if digits_value(d.take(i - start)) < 70000 {
                digits_value(d.take(i - start))
            } else {
                70000
            },
        decreases len - i,
    {
        let c = text.get_char(i);
        if !('0' <= c && c <= '9') {
            assert(d[i - start] == c);
            assert(!is_digit(d[i - start]));
            assert(d == port_digits(text@));
            assert(!is_port_text(text@));
            return None;
        }
        let ghost before = d.take(i - start);
        assert(d.take(i - start + 1).drop_last() =~= before);
        let digit: u32 = (c as u32) - ('0' as u32);
        proof {
            lemma_capped_step(digits_value(before), digit as nat);
        }
        value = value * 10 + digit;
        if value >= CAP {
            value = CAP;
        }
        i = i + 1;
    }
    assert(d.take(len - start) =~= d);
    if value > 65535 {
        None
    } else {
        Some(value as u16)
    }
}

/// Whether two texts hold the same characters.
pub fn same_text(a: &str, b: &str) -> (r: bool)
    ensures
        r == (a@ == b@),
{
    let n = a.unicode_len();
    if n != b.unicode_len() {
        return false;
    }
    let mut i: usize = 0;
    while i < n
        invariant
            n == a@.len(),
            n == b@.len(),
            i <= n,
            forall|k: int| 0 <= k < i ==> a@[k] == b@[k],
        decreases n - i,
    {
        if a.get_char(i) != b.get_char(i) {
            return false;
        }
        i = i + 1;
    }
    assert(a@ =~= b@);
    true
}

/// A request path with its leading `/` removed, if it has one.
pub open spec fn strip_slash(p: Seq<char>) -> Seq<char> {
    if p.len() > 0 && p[0] == '/' {
        p.drop_first()
    } else {
        p
    }
}

/// Removes the leading `/` of a request path.
pub fn stripped_path(path: &str) -> (r: String)
    ensures
        r@ == strip_slash(path@),
{
    let n = path.unicode_len();
    if n > 0 && path.get_char(0) == '/' {
        let rest = path.substring_char(1, n);
        assert(rest@ =~= path@.drop_first());
        String::from_str(rest)
    } else {
        String::from_str(path)
    }
}

/// The texts held by a sequence of strings.
pub open spec fn texts(v: Seq<String>) -> Seq<Seq<char>> {
    v.map_values(|s: String| s@)
}

/// The texts joined into one, with a newline between each two.
pub open spec fn joined(parts: Seq<Seq<char>>) -> Seq<char>
    decreases parts.len(),
{
    if parts.len() == 0 {
        Seq::empty()
    } else if parts.len() == 1 {
        parts[0]
    } else {
        joined(parts.drop_last()) + seq!['\n'] + parts.last()
    }
}

/// Joins the texts with newline separators.
pub fn join_lines(parts: &Vec<String>) -> (r: String)
    ensures
        r@ == joined(texts(parts@)),
{
    let mut out = String::new();
    let mut i: usize = 0;
    while i < parts.len()
        invariant
            i <= parts@.len(),
            out@ == joined(texts(parts@.take(i as int))),
        decreases parts@.len() - i,
    {
        let ghost prev = texts(parts@.take(i as int));
        let ghost next = texts(parts@.take(i as int + 1));
        assert(next.drop_last() =~= prev);
        assert(next.last() == parts@[i as int]@);
        if i > 0 {
            proof { reveal_strlit("\n"); }
            out.append("\n");
        } else {
            assert(out@ =~= Seq::<char>::empty());
        }
        out.append(parts[i].as_str());
        i = i + 1;
    }
    assert(parts@.take(parts@.len() as int) =~= parts@);
    out
}

} // verus!
