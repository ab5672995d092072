//! Text helpers: equality, concatenation, decimal numbers and hexadecimal
//! digits, each stated over sequences of characters.

use vstd::prelude::*;
use vstd::string::*;

verus! {

/// Whether two texts hold the same characters.
pub fn same_text(a: &str, b: &str) -> (r: bool)
    ensures
        r == (a@ == b@),
{
    let x = a.to_owned();
    let y = b.to_owned();
    x == y
}

/// Whether `texts` holds a text with the characters of `t`.
pub fn any_text(texts: &Vec<String>, t: &str) -> (r: bool)
    ensures
        r == exists|i: int| 0 <= i < texts@.len() && #[trigger] texts@[i]@ == t@,
{
    let mut i: usize = 0;
    while i < texts.len()
        invariant
            i <= texts@.len(),
            forall|k: int| 0 <= k < i ==> #[trigger] texts@[k]@ != t@,
        decreases texts@.len() - i,
    {
        if same_text(texts[i].as_str(), t) {
            return true;
        }
        i += 1;
    }
    false
}

/// The hexadecimal digit of a number below sixteen, in lower case.
pub open spec fn hex_char(d: int) -> char {
    if d == 0 { '0' } else if d == 1 { '1' } else if d == 2 { '2' } else if d == 3 { '3' }
    else if d == 4 { '4' } else if d == 5 { '5' } else if d == 6 { '6' } else if d == 7 { '7' }
    else if d == 8 { '8' } else if d == 9 { '9' } else if d == 10 { 'a' } else if d == 11 { 'b' }
    else if d == 12 { 'c' } else if d == 13 { 'd' } else if d == 14 { 'e' } else { 'f' }
}

/// A one-character text: the hexadecimal digit of `d`.
pub fn hex_digit(d: u8) -> (r: &'static str)
    requires
        d < 16,
    ensures
        r@ == seq![hex_char(d as int)],
{
    proof {
        reveal_strlit("0");
        reveal_strlit("1");
        reveal_strlit("2");
        reveal_strlit("3");
        reveal_strlit("4");
        reveal_strlit("5");
        reveal_strlit("6");
        reveal_strlit("7");
        reveal_strlit("8");
        reveal_strlit("9");
        reveal_strlit("a");
        reveal_strlit("b");
        reveal_strlit("c");
        reveal_strlit("d");
        reveal_strlit("e");
        reveal_strlit("f");
    }
    let r: &'static str = match d {
        0 => "0",
        1 => "1",
        2 => "2",
        3 => "3",
        4 => "4",
        5 => "5",
        6 => "6",
        7 => "7",
        8 => "8",
        9 => "9",
        10 => "a",
        11 => "b",
        12 => "c",
        13 => "d",
        14 => "e",
        _ => "f",
    };
    assert(r@ =~= seq![hex_char(d as int)]);
    r
}

/// The decimal text of a natural number, without leading zeros.
pub open spec fn nat_text(n: nat) -> Seq<char>
    decreases n,
{
    if n < 10 {
        seq![hex_char(n as int)]
    } else {
        nat_text(n / 10).push(hex_char((n % 10) as int))
    }
}

/// The decimal text of an integer, with a leading `-` where it is negative.
pub open spec fn int_text(n: int) -> Seq<char> {
    if n < 0 {
        seq!['-'] + nat_text((-n) as nat)
    } else {
        nat_text(n as nat)
    }
}

/// Appends the decimal text of `n`.
pub fn push_nat(out: &mut String, n: u64)
    ensures
        final(out)@ == old(out)@ + nat_text(n as nat),
    decreases n,
{
    if n >= 10 {
        push_nat(out, n / 10);
    }
    out.append(hex_digit((n % 10) as u8));
    assert(out@ =~= old(out)@ + nat_text(n as nat));
}

/// Appends the decimal text of `n`.
pub fn push_int(out: &mut String, n: i32)
    ensures
        final(out)@ == old(out)@ + int_text(n as int),
{
    if n < 0 {
        proof {
            reveal_strlit("-");
        }
        out.append("-");
        push_nat(out, (-(n as i64)) as u64);
        assert(out@ =~= old(out)@ + int_text(n as int));
    } else {
        push_nat(out, n as u64);
    }
}

/// The first eight bytes of a digest as sixteen hexadecimal digits.
pub open spec fn hex16(digest: Seq<u8>) -> Seq<char> {
    Seq::new(
        16,
        |i: int|
            if i % 2 == 0 {
                hex_char(digest[i / 2] as int / 16)
            } else {
                hex_char(digest[i / 2] as int % 16)
            },
    )
}

/// First eight bytes of a digest as lower-case hexadecimal: sixteen
/// characters, enough to key a notification without carrying the whole hash in
/// every row.
pub fn hex_prefix(digest: &[u8]) -> (r: String)
    requires
        digest@.len() >= 8,
    ensures
        r@ == hex16(digest@),
{
    let mut out = String::new();
    let mut i: usize = 0;
    assert(out@ =~= hex16(digest@).take(0));
    while i < 8
        invariant
            i <= 8,
            digest@.len() >= 8,
            out@ == hex16(digest@).take(2 * i),
        decreases 8 - i,
    {
        let b: u8 = digest[i];
        out.append(hex_digit(b / 16));
        out.append(hex_digit(b % 16));
        proof {
            let all = hex16(digest@);
            assert((2 * i) / 2 == i && (2 * i + 1) / 2 == i);
            assert(out@ =~= all.take(2 * i).push(all[2 * i]).push(all[2 * i + 1]));
            assert(out@ =~= all.take(2 * (i + 1)));
        }
        i += 1;
    }
    assert(hex16(digest@).take(16) =~= hex16(digest@));
    out
}

/// Whether a text starts with a prefix.
pub open spec fn has_prefix(text: Seq<char>, prefix: Seq<char>) -> bool {
    text.len() >= prefix.len() && text.take(prefix.len() as int) == prefix
}

/// What follows a prefix.
pub open spec fn after_prefix(text: Seq<char>, prefix: Seq<char>) -> Option<Seq<char>> {
    if has_prefix(text, prefix) {
        Some(text.skip(prefix.len() as int))
    } else {
        None
    }
}

/// What follows a prefix, where the text starts with it.
pub fn strip_prefix<'a>(text: &'a str, prefix: &str) -> (r: Option<&'a str>)
    ensures
        r is Some <==> has_prefix(text@, prefix@),
        r is Some ==> Some(r->0@) == after_prefix(text@, prefix@),
{
    let n: usize = prefix.unicode_len();
    let m: usize = text.unicode_len();
    if m < n {
        return None;
    }
    let start = text.substring_char(0, n);
    assert(start@ =~= text@.take(n as int));
    if same_text(start, prefix) {
        let rest = text.substring_char(n, m);
        assert(rest@ =~= text@.skip(n as int));
        Some(rest)
    } else {
        None
    }
}

/// Whether a character is a decimal digit.
pub open spec fn is_digit(c: char) -> bool {
    '0' <= c <= '9'
}

/// The number that a run of decimal digits writes.
pub open spec fn decimal(digits: Seq<char>) -> nat
    decreases digits.len(),
{
    if digits.len() == 0 {
        0
    } else {
        decimal(digits.drop_last()) * 10 + (digits.last() as nat - '0' as nat) as nat
    }
}

/// A number's text without a leading plus sign.
pub open spec fn without_plus(text: Seq<char>) -> Seq<char> {
    if text.len() > 0 && text[0] == '+' {
        text.skip(1)
    } else {
        text
    }
}

/// Whether a text writes a port number: decimal digits, at least one, with a
/// plus sign in front or without, and a value that fits in sixteen bits.
pub open spec fn is_port(text: Seq<char>) -> bool {
    let d = without_plus(text);
    d.len() > 0 && (forall|i: int| 0 <= i < d.len() ==> is_digit(#[trigger] d[i])) && decimal(d)
        <= u16::MAX
}

/// Whether a text writes a port number.
pub fn parses_as_port(text: &str) -> (r: bool)
    ensures
        r == is_port(text@),
{
    let n: usize = text.unicode_len();
    let start: usize = if n > 0 && text.get_char(0) == '+' {
        1
    } else {
        0
    };
    let ghost d = without_plus(text@);
    assert(d =~= text@.skip(start as int));
    if start == n {
        return false;
    }
    let mut value: u32 = 0;
    let mut over: bool = false;
    let mut i: usize = start;
    assert(d.take(0) =~= Seq::<char>::empty());
    while i < n
        invariant
            n == text@.len(),
            start <= i <= n,
            start < n,
            d == without_plus(text@),
            d == text@.skip(start as int),
            value <= 65535,
            forall|k: int| 0 <= k < i - start ==> is_digit(#[trigger] d[k]),
            over ==> decimal(d.take(i - start)) > 65535,
            !over ==> decimal(d.take(i - start)) == value,
        decreases n - i,
    {
        let c: char = text.get_char(i);
        assert(d[i - start] == c);
        if c < '0' || '9' < c {
            assert(!is_digit(d[i - start]));
            return false;
        }
        proof {
            assert(d.take(i + 1 - start).drop_last() =~= d.take(i - start));
            assert(d.take(i + 1 - start).last() == c);
        }
        let digit: u32 = (c as u32) - 48;
        if !over {
            let next: u32 = value * 10 + digit;
            if next > 65535 {
                over = true;
            } else {
                value = next;
            }
        }
        i += 1;
    }
    assert(d.take(i - start) =~= d);
    !over
}

/// A listen address in full: a bare port such as `:9090` stands for that port on
/// every interface.
pub open spec fn full_addr(addr: Seq<char>) -> Seq<char> {
    match after_prefix(addr, ":"@) {
        Some(port) if is_port(port) => "0.0.0.0:"@ + port,
        _ => addr,
    }
}

/// A listen address in full.
pub fn to_full_addr(addr: &str) -> (r: String)
    ensures
        r@ == full_addr(addr@),
{
    match strip_prefix(addr, ":") {
        Some(port) => if parses_as_port(port) {
            join2("0.0.0.0:", port)
        } else {
            addr.to_owned()
        },
        None => addr.to_owned(),
    }
}

/// Writing an address in full twice is writing it in full once.
pub proof fn law_full_addr_is_idempotent(addr: Seq<char>)
    ensures
        full_addr(full_addr(addr)) == full_addr(addr),
{
    reveal_strlit(":");
    reveal_strlit("0.0.0.0:");
    let full = full_addr(addr);
    match after_prefix(addr, ":"@) {
        Some(port) if is_port(port) => {
            assert(full[0] == '0');
            assert(full.take(1)[0] == '0');
            assert(!has_prefix(full, ":"@));
        },
        _ => {},
    }
}

/// Concatenates two texts.
pub fn join2(a: &str, b: &str) -> (r: String)
    ensures
        r@ == a@ + b@,
{
    let mut out = a.to_owned();
    out.append(b);
    out
}

/// Distinct numbers below sixteen have distinct digits, none of them a
/// separator.
pub proof fn lemma_hex_char_injective(a: int, b: int)
    requires
        0 <= a < 16,
        0 <= b < 16,
        hex_char(a) == hex_char(b),
    ensures
        a == b,
{
}

/// A decimal text is a non-empty run of digits, and two decimal texts are equal
/// only for equal numbers.
pub proof fn lemma_nat_text(n: nat)
    ensures
        nat_text(n).len() >= 1,
        forall|i: int| 0 <= i < nat_text(n).len() ==> #[trigger] nat_text(n)[i] != ':' && nat_text(n)[i] != '-',
    decreases n,
{
    if n >= 10 {
        lemma_nat_text(n / 10);
    }
}

pub proof fn lemma_nat_text_injective(a: nat, b: nat)
    requires
        nat_text(a) == nat_text(b),
    ensures
        a == b,
    decreases a,
{
    lemma_nat_text(a / 10);
    lemma_nat_text(b / 10);
    let x = nat_text(a);
    let y = nat_text(b);
    assert(x.last() == y.last());
    if a >= 10 && b >= 10 {
        assert(x.drop_last() =~= nat_text(a / 10));
        assert(y.drop_last() =~= nat_text(b / 10));
        lemma_nat_text_injective(a / 10, b / 10);
        lemma_hex_char_injective((a % 10) as int, (b % 10) as int);
    } else if a < 10 && b < 10 {
        lemma_hex_char_injective(a as int, b as int);
    }
}

pub proof fn lemma_int_text_injective(a: int, b: int)
    requires
        int_text(a) == int_text(b),
    ensures
        a == b,
{
    let x = int_text(a);
    let y = int_text(b);
    if a < 0 {
        lemma_nat_text((-a) as nat);
        assert(x[0] == '-');
    } else {
        lemma_nat_text(a as nat);
    }
    if b < 0 {
        lemma_nat_text((-b) as nat);
        assert(y[0] == '-');
    } else {
        lemma_nat_text(b as nat);
    }
    if a < 0 && b < 0 {
        assert(x.skip(1) =~= nat_text((-a) as nat));
        assert(y.skip(1) =~= nat_text((-b) as nat));
        lemma_nat_text_injective((-a) as nat, (-b) as nat);
    } else if a >= 0 && b >= 0 {
        lemma_nat_text_injective(a as nat, b as nat);
    }
}

/// The number that a decimal text writes is the number it was written for, and it is
/// written without leading zeros.
pub proof fn law_numbers_are_written_in_decimal(n: nat)
    ensures
        decimal(nat_text(n)) == n,
        forall|i: int| 0 <= i < nat_text(n).len() ==> is_digit(#[trigger] nat_text(n)[i]),
        n > 0 ==> nat_text(n)[0] != '0',
        n == 0 ==> nat_text(n) == seq!['0'],
        int_text(n as int) == nat_text(n),
        n > 0 ==> int_text(-(n as int)) == seq!['-'] + nat_text(n),
    decreases n,
{
    let last = hex_char((n % 10) as int);
    assert(is_digit(last) && (last as nat - '0' as nat) == n % 10) by {
        let d = (n % 10) as int;
        assert(0 <= d < 10);
    }
    if n < 10 {
        assert(nat_text(n).drop_last() =~= Seq::<char>::empty());
        assert(decimal(Seq::<char>::empty()) == 0);
        assert(nat_text(n).last() == last);
    } else {
        law_numbers_are_written_in_decimal(n / 10);
        let front = nat_text(n / 10);
        lemma_nat_text(n / 10);
        assert(nat_text(n).drop_last() =~= front);
        assert(nat_text(n).last() == last);
        assert(nat_text(n)[0] == front[0]);
        assert forall|i: int| 0 <= i < nat_text(n).len() implies is_digit(
            #[trigger] nat_text(n)[i],
        ) by {
            if i < front.len() {
                assert(nat_text(n)[i] == front[i]);
            }
        }
    }
}

/// Two hexadecimal digits stand for each of the first eight bytes of a digest, the
/// high one first, so that two digests are written alike exactly where these bytes
/// agree.
pub proof fn law_a_digest_is_written_byte_by_byte(a: Seq<u8>, b: Seq<u8>)
    requires
        a.len() >= 8,
        b.len() >= 8,
    ensures
        hex16(a).len() == 16,
        forall|i: int|
            0 <= i < 8 ==> #[trigger] a[i] == 16 * hex_value(hex16(a)[2 * i]) + hex_value(
                hex16(a)[2 * i + 1],
            ),
        hex16(a) == hex16(b) <==> a.take(8) == b.take(8),
{
    assert forall|i: int| 0 <= i < 8 implies #[trigger] a[i] == 16 * hex_value(hex16(a)[2 * i])
        + hex_value(hex16(a)[2 * i + 1]) && b[i] == 16 * hex_value(hex16(b)[2 * i]) + hex_value(
        hex16(b)[2 * i + 1],
    ) by {
        assert((2 * i) / 2 == i && (2 * i + 1) / 2 == i && (2 * i) % 2 == 0 && (2 * i + 1) % 2
            == 1);
        lemma_hex_value(a[i] as int / 16);
        lemma_hex_value(a[i] as int % 16);
        lemma_hex_value(b[i] as int / 16);
        lemma_hex_value(b[i] as int % 16);
    }
    if hex16(a) == hex16(b) {
        assert forall|i: int| 0 <= i < 8 implies a.take(8)[i] == b.take(8)[i] by {
            assert(a[i] == b[i]);
        }
        assert(a.take(8) =~= b.take(8));
    }
    if a.take(8) == b.take(8) {
        assert forall|i: int| 0 <= i < 16 implies hex16(a)[i] == hex16(b)[i] by {
            assert(a.take(8)[i / 2] == b.take(8)[i / 2]);
        }
        assert(hex16(a) =~= hex16(b));
    }
}

/// The number that a lower-case hexadecimal digit stands for.
pub open spec fn hex_value(c: char) -> int {
    if '0' <= c <= '9' {
        c as int - '0' as int
    } else {
        c as int - 'a' as int + 10
    }
}

proof fn lemma_hex_value(d: int)
    requires
        0 <= d < 16,
    ensures
        hex_value(hex_char(d)) == d,
{
}

/// An address is written in full exactly where it is a colon with a port behind it,
/// and then it gets every interface in front and keeps its port; any other address
/// stays as it is. A port is made of digits, at least one and perhaps a plus sign in
/// front of them, and is at most 65535.
pub proof fn law_bare_ports_are_completed(addr: Seq<char>, port: Seq<char>)
    ensures
        is_port(port) ==> full_addr(seq![':'] + port) == "0.0.0.0:"@ + port,
        !is_port(port) ==> full_addr(seq![':'] + port) == seq![':'] + port,
        addr.len() == 0 || addr[0] != ':' ==> full_addr(addr) == addr,
        is_port(port) ==> port.len() > 0 && decimal(without_plus(port)) < 65536,
        port.len() > 0 && (forall|i: int| 0 <= i < port.len() ==> '0' <= #[trigger] port[i] <= '9')
            && decimal(port) < 65536 ==> is_port(port) && is_port(seq!['+'] + port),
        (exists|i: int| 0 < i < port.len() && !('0' <= #[trigger] port[i] <= '9')) ==> !is_port(
            port,
        ),
        port.len() == 0 ==> !is_port(port),
{
    reveal_strlit(":");
    let bare = seq![':'] + port;
    assert(":"@ =~= seq![':']);
    assert(bare.take(1) =~= ":"@);
    assert(bare.skip(1) =~= port);
    if has_prefix(addr, ":"@) {
        assert(addr.take(1)[0] == ':');
    }
    let plus = seq!['+'] + port;
    assert(plus.skip(1) =~= port);
    assert(without_plus(plus) == port);
    if port.len() > 0 && (forall|i: int|
        0 <= i < port.len() ==> '0' <= #[trigger] port[i] <= '9') {
        assert('0' <= port[0] <= '9');
        assert forall|i: int| 0 <= i < port.len() implies is_digit(#[trigger] port[i]) by {}
    }
    if exists|i: int| 0 < i < port.len() && !('0' <= #[trigger] port[i] <= '9') {
        let i = choose|i: int| 0 < i < port.len() && !('0' <= #[trigger] port[i] <= '9');
        let d = without_plus(port);
        if port[0] == '+' {
            assert(d[i - 1] == port[i]);
        } else {
            assert(d[i] == port[i]);
        }
    }
}

} // verus!
