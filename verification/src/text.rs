//! Numbers and addresses as text.

use vstd::prelude::*;

verus! {

/// `String::push` appends one character.
pub assume_specification[ String::push ](s: &mut String, ch: char)
    ensures
        final(s)@ == old(s)@.push(ch),
;

/// `String::pop` removes the last character and returns it, or returns `None`
/// if there is none.
pub assume_specification[ String::pop ](s: &mut String) -> (last: Option<char>)
    ensures
        old(s)@.len() == 0 ==> last is None && final(s)@ == old(s)@,
        old(s)@.len() > 0 ==> last == Some(old(s)@.last()) && final(s)@ == old(s)@.drop_last(),
;

pub open spec fn digit(d: int) -> char {
    (48 + d) as char
}

/// A number in decimal, without leading zeros.
pub open spec fn decimal(n: nat) -> Seq<char>
    decreases n,
{
    if n < 10 {
        seq![digit(n as int)]
    } else {
        decimal(n / 10).push(digit((n % 10) as int))
    }
}

/// The byte at position `i` of an address, counted from the most significant.
pub open spec fn octet(ip: u32, i: int) -> nat {
    if i == 0 {
        (ip / 0x100_0000) as nat
    } else if i == 1 {
        (ip / 0x1_0000 % 0x100) as nat
    } else if i == 2 {
        (ip / 0x100 % 0x100) as nat
    } else {
        (ip % 0x100) as nat
    }
}

/// An address in dotted decimal.
pub open spec fn dotted(ip: u32) -> Seq<char> {
    decimal(octet(ip, 0)).push('.') + decimal(octet(ip, 1)).push('.') + decimal(
        octet(ip, 2),
    ).push('.') + decimal(octet(ip, 3))
}

/// The address that a text stands for in dotted decimal: four octets without
/// leading zeros, and nothing before, between or behind them but the dots.
pub open spec fn address_of(s: Seq<char>) -> Option<u32> {
    if exists|ip: u32| s == #[trigger] dotted(ip) {
        Some(choose|ip: u32| s == #[trigger] dotted(ip))
    } else {
        None
    }
}

/// Appends a number in decimal.
pub fn push_decimal(s: &mut String, n: u128)
    ensures
        final(s)@ == old(s)@ + decimal(n as nat),
    decreases n,
{
    if n >= 10 {
        push_decimal(s, n / 10);
    }
    let ghost before = s@;
    let d: u8 = (n % 10) as u8;
    s.push((48 + d) as char);
    assert(s@ == before.push(digit((n % 10) as int)));
    assert(s@ == old(s)@ + decimal(n as nat));
}

/// A number in decimal.
pub fn decimal_text(n: u128) -> (s: String)
    ensures
        s@ == decimal(n as nat),
{
    let mut s = String::new();
    push_decimal(&mut s, n);
    s
}

/// An address in dotted decimal.
pub fn dotted_text(ip: u32) -> (s: String)
    ensures
        s@ == dotted(ip),
{
    let mut s = String::new();
    push_decimal(&mut s, (ip / 0x100_0000) as u128);
    s.push('.');
    push_decimal(&mut s, (ip / 0x1_0000 % 0x100) as u128);
    s.push('.');
    push_decimal(&mut s, (ip / 0x100 % 0x100) as u128);
    s.push('.');
    push_decimal(&mut s, (ip % 0x100) as u128);
    assert(s@ == dotted(ip));
    s
}

/// How far a reading of dotted decimal has come: the finished octets as one
/// number, how many dots were read, and the octet that is being read.
struct Scan {
    value: int,
    dots: int,
    octet: int,
}

spec fn scan_step(at: Option<Scan>, c: char) -> Option<Scan> {
    match at {
        None => None,
        Some(at) => if '0' <= c <= '9' {
            let octet = at.octet * 10 + (c as int - 48);
            if octet > 255 {
                None
            } else {
                Some(Scan { octet, ..at })
            }
        } else if c == '.' && at.dots < 3 {
            Some(Scan { value: at.value * 256 + at.octet, dots: at.dots + 1, octet: 0 })
        } else {
            None
        },
    }
}

spec fn scan(at: Option<Scan>, s: Seq<char>) -> Option<Scan>
    decreases s.len(),
{
    if s.len() == 0 {
        at
    } else {
        scan_step(scan(at, s.drop_last()), s.last())
    }
}

spec fn scan_start() -> Option<Scan> {
    Some(Scan { value: 0, dots: 0, octet: 0 })
}

proof fn lemma_scan_concat(at: Option<Scan>, a: Seq<char>, b: Seq<char>)
    ensures
        scan(at, a + b) == scan(scan(at, a), b),
    decreases b.len(),
{
    if b.len() == 0 {
        assert(a + b =~= a);
    } else {
        assert((a + b).drop_last() =~= a + b.drop_last());
        lemma_scan_concat(at, a, b.drop_last());
    }
}

proof fn lemma_scan_decimal(value: int, dots: int, n: nat)
    requires
        n <= 255,
    ensures
        scan(Some(Scan { value, dots, octet: 0 }), decimal(n)) == Some(
            Scan { value, dots, octet: n as int },
        ),
    decreases n,
{
    let start = Some(Scan { value, dots, octet: 0 });
    if n < 10 {
        assert(decimal(n).drop_last() =~= Seq::<char>::empty());
        assert(scan(start, decimal(n).drop_last()) == start);
    } else {
        lemma_scan_decimal(value, dots, n / 10);
        assert(decimal(n).drop_last() =~= decimal(n / 10));
    }
}

proof fn lemma_scan_octet(value: int, dots: int, n: nat)
    requires
        n <= 255,
        dots < 3,
    ensures
        scan(Some(Scan { value, dots, octet: 0 }), decimal(n).push('.')) == Some(
            Scan { value: value * 256 + n, dots: dots + 1, octet: 0 },
        ),
{
    lemma_scan_decimal(value, dots, n);
    assert(decimal(n).push('.').drop_last() =~= decimal(n));
}

proof fn lemma_scan_dotted(ip: u32)
    ensures
        scan(scan_start(), dotted(ip)) == Some(
            Scan { value: (ip / 256) as int, dots: 3, octet: (ip % 256) as int },
        ),
{
    let a = decimal(octet(ip, 0)).push('.');
    let b = decimal(octet(ip, 1)).push('.');
    let c = decimal(octet(ip, 2)).push('.');
    let d = decimal(octet(ip, 3));
    lemma_scan_concat(scan_start(), a + b + c, d);
    lemma_scan_concat(scan_start(), a + b, c);
    lemma_scan_concat(scan_start(), a, b);
    let v0 = octet(ip, 0) as int;
    let v1 = v0 * 256 + octet(ip, 1);
    let v2 = v1 * 256 + octet(ip, 2);
    lemma_scan_octet(0, 0, octet(ip, 0));
    lemma_scan_octet(v0, 1, octet(ip, 1));
    lemma_scan_octet(v1, 2, octet(ip, 2));
    lemma_scan_decimal(v2, 3, octet(ip, 3));
    assert(v2 == ip / 256);
}

/// Two addresses that read the same are the same.
pub proof fn law_dotted_is_injective(a: u32, b: u32)
    requires
        dotted(a) == dotted(b),
    ensures
        a == b,
{
    lemma_scan_dotted(a);
    lemma_scan_dotted(b);
}

/// Reading an address gives back what was written, and only what is written so
/// is read.
pub proof fn law_reading_undoes_writing(ip: u32, s: Seq<char>)
    ensures
        address_of(dotted(ip)) == Some(ip),
        address_of(s) == Some(ip) <==> s == dotted(ip),
{
    let read = choose|other: u32| dotted(ip) == #[trigger] dotted(other);
    law_dotted_is_injective(ip, read);
    if address_of(s) == Some(ip) {
        assert(s == dotted(ip));
    }
}

/// Reads an address in dotted decimal.
pub fn parse_ipv4(s: &str) -> (ip: Option<u32>)
    ensures
        ip == address_of(s@),
{
    let n: usize = s.unicode_len();
    let mut i: usize = 0;
    let mut value: u32 = 0;
    let mut dots: u32 = 0;
    let mut octet: u32 = 0;
    let mut readable = true;
    while i < n
        invariant
            n == s@.len(),
            i <= n,
            readable ==> {
                &&& scan(scan_start(), s@.take(i as int)) == Some(
                    Scan { value: value as int, dots: dots as int, octet: octet as int },
                )
                &&& octet <= 255
                &&& dots <= 3
                &&& dots == 0 ==> value == 0
                &&& dots == 1 ==> value < 0x100
                &&& dots == 2 ==> value < 0x1_0000
                &&& dots == 3 ==> value < 0x100_0000
            },
            !readable ==> scan(scan_start(), s@.take(i as int)) is None,
        decreases n - i,
    {
        let c = s.get_char(i);
        assert(s@.take(i + 1).drop_last() =~= s@.take(i as int));
        if readable {
            if '0' <= c && c <= '9' {
                octet = octet * 10 + (c as u32 - 48);
                if octet > 255 {
                    readable = false;
                }
            } else if c == '.' && dots < 3 {
                value = value * 256 + octet;
                dots = dots + 1;
                octet = 0;
            } else {
                readable = false;
            }
        }
        i = i + 1;
    }
    assert(s@.take(n as int) =~= s@);
    if readable && dots == 3 {
        let ip: u32 = value * 256 + octet;
        if dotted_text(ip) == s.to_owned() {
            proof {
                law_reading_undoes_writing(ip, s@);
            }
            return Some(ip);
        }
    }
    proof {
        assert forall|other: u32| s@ != #[trigger] dotted(other) by {
            lemma_scan_dotted(other);
        }
    }
    None
}

/// The number that some decimal digits stand for.
pub open spec fn number_in(s: Seq<char>) -> int
    decreases s.len(),
{
    if s.len() == 0 {
        0
    } else {
        number_in(s.drop_last()) * 10 + (s.last() as int - '0' as int)
    }
}

/// Digits and nothing else, the first of them no zero but where it stands alone.
pub open spec fn is_numeral(s: Seq<char>) -> bool {
    &&& s.len() > 0
    &&& forall|i: int| 0 <= i < s.len() ==> '0' <= #[trigger] s[i] <= '9'
    &&& s.len() > 1 ==> s[0] != '0'
}

/// A number in decimal is made of digits, without leading zeros, and they stand
/// for that number.
pub proof fn law_decimals_read_back(n: nat)
    ensures
        is_numeral(decimal(n)),
        number_in(decimal(n)) == n,
        decimal(n)[0] == '0' ==> n == 0,
    decreases n,
{
    if n < 10 {
        assert(decimal(n).drop_last() =~= Seq::<char>::empty());
        assert(number_in(decimal(n).drop_last()) == 0);
    } else {
        law_decimals_read_back(n / 10);
        assert(decimal(n).drop_last() =~= decimal(n / 10));
        assert(decimal(n)[0] == decimal(n / 10)[0]);
    }
}

proof fn lemma_numerals_are_not_negative(s: Seq<char>)
    requires
        forall|i: int| 0 <= i < s.len() ==> '0' <= #[trigger] s[i] <= '9',
    ensures
        number_in(s) >= 0,
        s.len() > 0 && s[0] != '0' ==> number_in(s) >= 1,
    decreases s.len(),
{
    if s.len() > 0 {
        let front = s.drop_last();
        assert(forall|i: int| 0 <= i < front.len() ==> front[i] == #[trigger] s[i]);
        lemma_numerals_are_not_negative(front);
        assert('0' <= s[s.len() - 1] <= '9');
        if front.len() > 0 {
            assert(front[0] == s[0]);
        }
    }
}

/// There is no other way to write a number without leading zeros.
pub proof fn law_numerals_are_decimals(s: Seq<char>)
    requires
        is_numeral(s),
    ensures
        number_in(s) >= 0,
        s == decimal(number_in(s) as nat),
    decreases s.len(),
{
    lemma_numerals_are_not_negative(s);
    let front = s.drop_last();
    assert('0' <= s[s.len() - 1] <= '9');
    if s.len() == 1 {
        assert(number_in(front) == 0);
        assert(s =~= decimal(number_in(s) as nat));
    } else {
        assert forall|i: int| 0 <= i < front.len() implies '0' <= #[trigger] front[i] <= '9' by {
            assert(front[i] == s[i]);
        }
        assert(front[0] == s[0]);
        lemma_numerals_are_not_negative(front);
        law_numerals_are_decimals(front);
        assert(s =~= front.push(s.last()));
        assert(number_in(s) / 10 == number_in(front));
        assert(s =~= decimal(number_in(s) as nat));
    }
}

/// The bytes of a number of four bytes, the most significant first.
pub proof fn lemma_octets(a: u8, b: u8, c: u8, d: u8)
    ensures
        ({
            let n = a * 0x100_0000 + b * 0x1_0000 + c * 0x100 + d;
            &&& 0 <= n <= u32::MAX
            &&& n / 0x100_0000 == a
            &&& n / 0x1_0000 % 0x100 == b
            &&& n / 0x100 % 0x100 == c
            &&& n % 0x100 == d
        }),
{
}

/// An address is written as its four bytes in decimal, the most significant one
/// first, with dots between them.
pub proof fn law_an_address_reads_as_its_bytes(a: u8, b: u8, c: u8, d: u8)
    ensures
        dotted((a * 0x100_0000 + b * 0x1_0000 + c * 0x100 + d) as u32) == decimal(a as nat)
            + seq!['.'] + decimal(b as nat) + seq!['.'] + decimal(c as nat) + seq!['.'] + decimal(
            d as nat,
        ),
{
    lemma_octets(a, b, c, d);
    let ip = (a * 0x100_0000 + b * 0x1_0000 + c * 0x100 + d) as u32;
    assert(octet(ip, 0) == a);
    assert(octet(ip, 1) == b);
    assert(octet(ip, 2) == c);
    assert(octet(ip, 3) == d);
    assert(dotted(ip) =~= decimal(a as nat) + seq!['.'] + decimal(b as nat) + seq!['.'] + decimal(
        c as nat,
    ) + seq!['.'] + decimal(d as nat));
}

/// A text of four numbers of a byte each, in decimal and with dots between
/// them, is read as the address of these bytes.
pub proof fn law_four_bytes_are_an_address(a: u8, b: u8, c: u8, d: u8)
    ensures
        address_of(
            decimal(a as nat) + seq!['.'] + decimal(b as nat) + seq!['.'] + decimal(c as nat)
                + seq!['.'] + decimal(d as nat),
        ) == Some((a * 0x100_0000 + b * 0x1_0000 + c * 0x100 + d) as u32),
{
    let ip = (a * 0x100_0000 + b * 0x1_0000 + c * 0x100 + d) as u32;
    law_an_address_reads_as_its_bytes(a, b, c, d);
    law_reading_undoes_writing(ip, dotted(ip));
}

/// Nothing else is read as an address: a text that is one is four numbers of a
/// byte each.
pub proof fn law_an_address_is_four_bytes(s: Seq<char>)
    requires
        address_of(s) is Some,
    ensures
        exists|a: u8, b: u8, c: u8, d: u8|
            s == #[trigger] decimal(a as nat) + seq!['.'] + #[trigger] decimal(b as nat) + seq!['.']
                + #[trigger] decimal(c as nat) + seq!['.'] + #[trigger] decimal(d as nat),
{
    let ip = address_of(s).unwrap();
    law_reading_undoes_writing(ip, s);
    let a = (ip / 0x100_0000) as u8;
    let b = (ip / 0x1_0000 % 0x100) as u8;
    let c = (ip / 0x100 % 0x100) as u8;
    let d = (ip % 0x100) as u8;
    law_an_address_reads_as_its_bytes(a, b, c, d);
    assert(s == decimal(a as nat) + seq!['.'] + decimal(b as nat) + seq!['.'] + decimal(c as nat)
        + seq!['.'] + decimal(d as nat));
}

} // verus!
