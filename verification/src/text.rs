//! Text primitives: prefixes, trimming, hexadecimal, decimal numbers and
//! string escaping, each with its meaning as a function on sequences of
//! characters.

use vstd::prelude::*;
use vstd::std_specs::iter::IteratorSpec;

verus! {

/// Appends one character to a string by `String::push` of the standard
/// library. The contract says that the text afterwards is the text before
/// followed by that character.
#[verifier::external_body]
pub(crate) fn push_char(s: &mut String, c: char)
    ensures
        final(s)@ == old(s)@.push(c),
{
    s.push(c);
}

/// The characters of a text, in one pass over it.
pub fn characters(s: &str) -> (r: Vec<char>)
    ensures
        r@ == s@,
{
    let mut rest = s.chars();
    let mut out: Vec<char> = Vec::new();
    assert(out@ + rest.remaining() =~= s@);
    loop
        invariant
            out@ + rest.remaining() == s@,
            rest.decrease() is Some,
        ensures
            out@ == s@,
        decreases rest.decrease()->0,
    {
        match rest.next() {
            Some(c) => {
                out.push(c);
                assert(out@ + rest.remaining() =~= s@);
            },
            None => {
                assert(out@ =~= s@);
                break ;
            },
        }
    }
    out
}

/// `trigger` is an initial segment of `content`.
pub open spec fn has_prefix(content: Seq<char>, trigger: Seq<char>) -> bool {
    trigger.len() <= content.len() && content.subrange(0, trigger.len() as int) =~= trigger
}

/// Tells whether the characters `content` begin with the characters
/// `trigger`.
pub fn begins_with(content: &Vec<char>, trigger: &Vec<char>) -> (r: bool)
    ensures
        r == has_prefix(content@, trigger@),
{
    let n: usize = trigger.len();
    if n > content.len() {
        return false;
    }
    let mut i: usize = 0;
    while i < n
        invariant
            n == trigger@.len(),
            n <= content@.len(),
            i <= n,
            forall|k: int| 0 <= k < i ==> content@[k] == trigger@[k],
        decreases n - i,
    {
        if content[i] != trigger[i] {
            assert(content@.subrange(0, n as int)[i as int] != trigger@[i as int]);
            return false;
        }
        i += 1;
    }
    assert(content@.subrange(0, n as int) =~= trigger@);
    true
}

/// Tells whether `content` begins with `trigger`.
pub fn starts_with(content: &str, trigger: &str) -> (r: bool)
    ensures
        r == has_prefix(content@, trigger@),
{
    begins_with(&characters(content), &characters(trigger))
}

/// The characters with the Unicode property `White_Space`.
pub open spec fn is_space(c: char) -> bool {
    let u = c as u32;
    (9 <= u <= 13) || u == 32 || u == 0x85 || u == 0xA0 || u == 0x1680 || (0x2000 <= u <= 0x200A)
        || u == 0x2028 || u == 0x2029 || u == 0x202F || u == 0x205F || u == 0x3000
}

/// Tells whether `c` is white space.
pub fn space(c: char) -> (r: bool)
    ensures
        r == is_space(c),
{
    let u: u32 = c as u32;
    (9 <= u && u <= 13) || u == 32 || u == 0x85 || u == 0xA0 || u == 0x1680 || (0x2000 <= u && u
        <= 0x200A) || u == 0x2028 || u == 0x2029 || u == 0x202F || u == 0x205F || u == 0x3000
}

/// `s` without its leading white space.
pub open spec fn trim_start(s: Seq<char>) -> Seq<char>
    decreases s.len(),
{
    if s.len() > 0 && is_space(s[0]) {
        trim_start(s.subrange(1, s.len() as int))
    } else {
        s
    }
}

/// `s` without its trailing white space.
pub open spec fn trim_end(s: Seq<char>) -> Seq<char>
    decreases s.len(),
{
    if s.len() > 0 && is_space(s.last()) {
        trim_end(s.drop_last())
    } else {
        s
    }
}

/// `s` without leading and trailing white space.
pub open spec fn trimmed(s: Seq<char>) -> Seq<char> {
    trim_end(trim_start(s))
}

/// What is left of `s` from position `from` on: nothing where `s` is
/// shorter than that.
pub open spec fn rest_from(s: Seq<char>, from: int) -> Seq<char> {
    if 0 <= from <= s.len() {
        s.subrange(from, s.len() as int)
    } else {
        Seq::empty()
    }
}

/// The characters of `s` from position `from` on, without the white space
/// around them, as a text.
pub fn trim_from(s: &Vec<char>, from: usize) -> (r: String)
    ensures
        r@ == trimmed(rest_from(s@, from as int)),
{
    let n: usize = s.len();
    if from > n {
        return String::new();
    }
    let mut a: usize = from;
    let mut go: bool = a < n;
    while go
        invariant
            n == s@.len(),
            from <= a <= n,
            trim_start(s@.subrange(from as int, n as int)) == trim_start(
                s@.subrange(a as int, n as int),
            ),
            go ==> a < n,
            !go ==> (a == n || !is_space(s@[a as int])),
        decreases n - a + (if go { 1int } else { 0int }),
    {
        if space(s[a]) {
            assert(s@.subrange(a as int, n as int).subrange(1, n - a) =~= s@.subrange(
                a + 1,
                n as int,
            ));
            a += 1;
            go = a < n;
        } else {
            go = false;
        }
    }
    let ghost mid = s@.subrange(a as int, n as int);
    assert(trim_start(mid) == mid);
    let mut b: usize = n;
    go = b > a;
    while go
        invariant
            n == s@.len(),
            a <= b <= n,
            mid == s@.subrange(a as int, n as int),
            trim_end(mid) == trim_end(s@.subrange(a as int, b as int)),
            go ==> b > a,
            !go ==> (b == a || !is_space(s@[b - 1])),
        decreases b - a + (if go { 1int } else { 0int }),
    {
        if space(s[b - 1]) {
            assert(s@.subrange(a as int, b as int).drop_last() =~= s@.subrange(a as int, b - 1));
            b -= 1;
            go = b > a;
        } else {
            go = false;
        }
    }
    assert(trim_end(s@.subrange(a as int, b as int)) == s@.subrange(a as int, b as int));
    let mut out = String::new();
    let mut i: usize = a;
    while i < b
        invariant
            a <= i <= b <= s@.len(),
            out@ == s@.subrange(a as int, i as int),
        decreases b - i,
    {
        push_char(&mut out, s[i]);
        assert(out@ =~= s@.subrange(a as int, i + 1));
        i += 1;
    }
    out
}

/// The digit characters of base sixteen, in order of value.
pub open spec fn digit_char(d: int) -> char {
    seq![
        '0',
        '1',
        '2',
        '3',
        '4',
        '5',
        '6',
        '7',
        '8',
        '9',
        'a',
        'b',
        'c',
        'd',
        'e',
        'f',
    ][d]
}

/// The digit character of value `d`.
fn digit(d: u8) -> (c: char)
    requires
        d < 16,
    ensures
        c == digit_char(d as int),
{
    match d {
        0 => '0',
        1 => '1',
        2 => '2',
        3 => '3',
        4 => '4',
        5 => '5',
        6 => '6',
        7 => '7',
        8 => '8',
        9 => '9',
        10 => 'a',
        11 => 'b',
        12 => 'c',
        13 => 'd',
        14 => 'e',
        _ => 'f',
    }
}

/// The value of a lower-case hexadecimal digit, and -1 for any other character.
pub open spec fn hex_value(c: char) -> int {
    let u = c as u32 as int;
    if 48 <= u <= 57 {
        u - 48
    } else if 97 <= u <= 102 {
        u - 87
    } else {
        -1
    }
}

/// `s` is an even number of lower-case hexadecimal digits.
pub open spec fn is_hex(s: Seq<char>) -> bool {
    s.len() % 2 == 0 && forall|i: int| 0 <= i < s.len() ==> hex_value(#[trigger] s[i]) >= 0
}

/// The bytes that the hexadecimal text `s` denotes, two digits to a byte.
pub open spec fn hex_bytes(s: Seq<char>) -> Seq<u8> {
    Seq::new(s.len() / 2, |i: int| (16 * hex_value(s[2 * i]) + hex_value(s[2 * i + 1])) as u8)
}

/// The hexadecimal text of `bytes`, two lower-case digits to a byte.
pub open spec fn hex_text(bytes: Seq<u8>) -> Seq<char> {
    Seq::new(
        2 * bytes.len(),
        |i: int|
            if i % 2 == 0 {
                digit_char(bytes[i / 2] as int / 16)
            } else {
                digit_char(bytes[i / 2] as int % 16)
            },
    )
}

fn hex_digit(c: char) -> (r: Option<u8>)
    ensures
        match r {
            Some(v) => v as int == hex_value(c) && v < 16,
            None => hex_value(c) == -1,
        },
{
    let u: u32 = c as u32;
    if 48 <= u && u <= 57 {
        Some((u - 48) as u8)
    } else if 97 <= u && u <= 102 {
        Some((u - 87) as u8)
    } else {
        None
    }
}

/// Decodes hexadecimal text: the bytes it denotes, or `None` where it is not
/// an even number of lower-case hexadecimal digits.
pub fn hex_decode(s: &str) -> (r: Option<Vec<u8>>)
    ensures
        match r {
            Some(v) => is_hex(s@) && v@ == hex_bytes(s@),
            None => !is_hex(s@),
        },
{
    let cs = characters(s);
    let n: usize = cs.len();
    if n % 2 != 0 {
        return None;
    }
    let mut out: Vec<u8> = Vec::new();
    let mut i: usize = 0;
    while i < n
        invariant
            cs@ == s@,
            n == s@.len(),
            n % 2 == 0,
            i % 2 == 0,
            i <= n,
            out@.len() == i / 2,
            forall|k: int| 0 <= k < i ==> hex_value(#[trigger] s@[k]) >= 0,
            forall|k: int| 0 <= k < i / 2 ==> #[trigger] out@[k] == hex_bytes(s@)[k],
        decreases n - i,
    {
        let hi = hex_digit(cs[i]);
        let lo = hex_digit(cs[i + 1]);
        match (hi, lo) {
            (Some(h), Some(l)) => {
                out.push(16 * h + l);
            },
            _ => {
                assert(hex_value(s@[i as int]) == -1 || hex_value(s@[i + 1]) == -1);
                return None;
            },
        }
        i += 2;
    }
    assert(out@ =~= hex_bytes(s@));
    Some(out)
}

/// Encodes bytes as hexadecimal text.
pub fn hex_encode(bytes: &[u8]) -> (r: String)
    ensures
        r@ == hex_text(bytes@),
{
    let mut out = String::new();
    let mut i: usize = 0;
    while i < bytes.len()
        invariant
            i <= bytes@.len(),
            out@.len() == 2 * i,
            forall|k: int| 0 <= k < 2 * i ==> #[trigger] out@[k] == hex_text(bytes@)[k],
        decreases bytes@.len() - i,
    {
        let b: u8 = bytes[i];
        push_char(&mut out, digit(b / 16));
        push_char(&mut out, digit(b % 16));
        i += 1;
    }
    assert(out@ =~= hex_text(bytes@));
    out
}

/// Hexadecimal text of bytes is well formed and decodes to those bytes.
pub proof fn hex_round_trip(bytes: Seq<u8>)
    ensures
        is_hex(hex_text(bytes)),
        hex_bytes(hex_text(bytes)) == bytes,
{
    let t = hex_text(bytes);
    assert forall|i: int| 0 <= i < t.len() implies hex_value(#[trigger] t[i]) >= 0 by {
        hex_digit_inverse(bytes[i / 2] as int / 16);
        hex_digit_inverse(bytes[i / 2] as int % 16);
    }
    assert forall|k: int| 0 <= k < bytes.len() implies hex_bytes(t)[k] == bytes[k] by {
        hex_digit_inverse(bytes[k] as int / 16);
        hex_digit_inverse(bytes[k] as int % 16);
        assert((2 * k) / 2 == k && (2 * k + 1) / 2 == k);
    }
    assert(hex_bytes(t) =~= bytes);
}

proof fn hex_digit_inverse(d: int)
    requires
        0 <= d < 16,
    ensures
        hex_value(digit_char(d)) == d,
{
    if d == 0 {
    } else if d == 1 {
    } else if d == 2 {
    } else if d == 3 {
    } else if d == 4 {
    } else if d == 5 {
    } else if d == 6 {
    } else if d == 7 {
    } else if d == 8 {
    } else if d == 9 {
    } else if d == 10 {
    } else if d == 11 {
    } else if d == 12 {
    } else if d == 13 {
    } else if d == 14 {
    } else {
    }
}

/// The decimal digits of `n`, most significant first.
pub open spec fn decimal(n: nat) -> Seq<char>
    decreases n,
{
    if n < 10 {
        seq![digit_char(n as int)]
    } else {
        decimal(n / 10).push(digit_char((n % 10) as int))
    }
}

/// Appends the decimal digits of `n` to `out`.
pub fn push_decimal(out: &mut String, n: u64)
    ensures
        final(out)@ == old(out)@ + decimal(n as nat),
    decreases n,
{
    if n >= 10 {
        push_decimal(out, n / 10);
    }
    push_char(out, digit((n % 10) as u8));
    assert(final(out)@ =~= old(out)@ + decimal(n as nat));
}

/// What stands for one character inside a quoted string: a backslash
/// sequence for the quote, the backslash and the control characters, the
/// character itself otherwise.
pub open spec fn escape_char(c: char) -> Seq<char> {
    let u = c as u32 as int;
    if u == 0x22 {
        seq!['\\', '"']
    } else if u == 0x5C {
        seq!['\\', '\\']
    } else if u == 0x0A {
        seq!['\\', 'n']
    } else if u == 0x0D {
        seq!['\\', 'r']
    } else if u == 0x09 {
        seq!['\\', 't']
    } else if u == 0x08 {
        seq!['\\', 'b']
    } else if u == 0x0C {
        seq!['\\', 'f']
    } else if u < 0x20 {
        seq!['\\', 'u', '0', '0', digit_char(u / 16), digit_char(u % 16)]
    } else {
        seq![c]
    }
}

/// `s` with each character replaced by what stands for it in a quoted string.
pub open spec fn escaped(s: Seq<char>) -> Seq<char>
    decreases s.len(),
{
    if s.len() == 0 {
        Seq::empty()
    } else {
        escaped(s.drop_last()) + escape_char(s.last())
    }
}

/// `s` as a quoted string: escaped, between double quotes.
pub open spec fn quoted(s: Seq<char>) -> Seq<char> {
    seq!['"'] + escaped(s) + seq!['"']
}

fn push_escaped_char(out: &mut String, c: char)
    ensures
        final(out)@ == old(out)@ + escape_char(c),
{
    let u: u32 = c as u32;
    if u == 0x22 {
        push_char(out, '\\');
        push_char(out, '"');
    } else if u == 0x5C {
        push_char(out, '\\');
        push_char(out, '\\');
    } else if u == 0x0A {
        push_char(out, '\\');
        push_char(out, 'n');
    } else if u == 0x0D {
        push_char(out, '\\');
        push_char(out, 'r');
    } else if u == 0x09 {
        push_char(out, '\\');
        push_char(out, 't');
    } else if u == 0x08 {
        push_char(out, '\\');
        push_char(out, 'b');
    } else if u == 0x0C {
        push_char(out, '\\');
        push_char(out, 'f');
    } else if u < 0x20 {
        push_char(out, '\\');
        push_char(out, 'u');
        push_char(out, '0');
        push_char(out, '0');
        push_char(out, digit((u / 16) as u8));
        push_char(out, digit((u % 16) as u8));
    } else {
        push_char(out, c);
    }
    assert(final(out)@ =~= old(out)@ + escape_char(c));
}

/// Appends `s` to `out` as a quoted string.
pub fn push_quoted(out: &mut String, s: &str)
    ensures
        final(out)@ == old(out)@ + quoted(s@),
{
    push_char(out, '"');
    let cs = characters(s);
    let n: usize = cs.len();
    let mut i: usize = 0;
    while i < n
        invariant
            cs@ == s@,
            n == s@.len(),
            i <= n,
            out@ == old(out)@ + seq!['"'] + escaped(s@.subrange(0, i as int)),
        decreases n - i,
    {
        push_escaped_char(out, cs[i]);
        proof {
            let t = s@.subrange(0, i + 1);
            assert(t.drop_last() =~= s@.subrange(0, i as int));
            assert(out@ =~= old(out)@ + seq!['"'] + escaped(t));
        }
        i += 1;
    }
    assert(s@.subrange(0, n as int) =~= s@);
    push_char(out, '"');
    assert(out@ =~= old(out)@ + quoted(s@));
}

/// Escaping goes character by character from the front as well.
pub proof fn escaped_front(c: char, s: Seq<char>)
    ensures
        escaped(seq![c] + s) == escape_char(c) + escaped(s),
    decreases s.len(),
{
    let t = seq![c] + s;
    if s.len() == 0 {
        assert(t.drop_last() =~= s);
        assert(escaped(s) =~= Seq::<char>::empty());
        assert(t.last() == c);
        assert(escaped(t) == escaped(t.drop_last()) + escape_char(t.last()));
        assert(escaped(t) =~= escape_char(c) + escaped(s));
    } else {
        assert(t.drop_last() =~= seq![c] + s.drop_last());
        escaped_front(c, s.drop_last());
        assert(t.last() == s.last());
        assert(escaped(t) == escaped(t.drop_last()) + escape_char(t.last()));
        assert(escaped(s) == escaped(s.drop_last()) + escape_char(s.last()));
        assert(escaped(t) =~= escape_char(c) + escaped(s));
    }
}

/// What stands for a character tells which character it was, whatever
/// follows it.
pub proof fn escape_char_decides(c: char, x: Seq<char>, d: char, y: Seq<char>)
    requires
        escape_char(c) + x == escape_char(d) + y,
    ensures
        c == d,
        x == y,
{
    let a = escape_char(c);
    let b = escape_char(d);
    let l = a + x;
    let r = b + y;
    assert(l[0] == a[0] && r[0] == b[0]);
    if a[0] == '\\' {
        assert(a.len() >= 2 && b.len() >= 2);
        assert(l[1] == a[1] && r[1] == b[1]);
        if a[1] == 'u' {
            assert(a.len() == 6 && b.len() == 6);
            assert(l[4] == a[4] && r[4] == b[4]);
            assert(l[5] == a[5] && r[5] == b[5]);
            let u = c as u32 as int;
            let v = d as u32 as int;
            hex_digit_inverse(u / 16);
            hex_digit_inverse(u % 16);
            hex_digit_inverse(v / 16);
            hex_digit_inverse(v % 16);
            assert(u == v);
        }
    }
    assert(c == d);
    assert(l.len() == r.len());
    assert forall|i: int| 0 <= i < x.len() implies x[i] == y[i] by {
        assert(l[a.len() + i] == x[i]);
        assert(r[b.len() + i] == y[i]);
    }
    assert(x =~= y);
}

/// Texts that escape to the same are the same.
pub proof fn escaped_is_injective(s: Seq<char>, t: Seq<char>)
    requires
        escaped(s) == escaped(t),
    ensures
        s == t,
    decreases s.len(),
{
    let s1 = s.subrange(1, s.len() as int);
    let t1 = t.subrange(1, t.len() as int);
    if s.len() > 0 {
        assert(s =~= seq![s[0]] + s1);
        escaped_front(s[0], s1);
    }
    if t.len() > 0 {
        assert(t =~= seq![t[0]] + t1);
        escaped_front(t[0], t1);
    }
    if s.len() > 0 && t.len() > 0 {
        escape_char_decides(s[0], escaped(s1), t[0], escaped(t1));
        escaped_is_injective(s1, t1);
        assert(s =~= t);
    } else {
        assert(escaped(s).len() == 0 <==> s.len() == 0);
        assert(escaped(t).len() == 0 <==> t.len() == 0);
        assert(s =~= t);
    }
}

/// What stands between the same texts in equal texts is the same.
pub proof fn middle_is_decided(p: Seq<char>, x: Seq<char>, y: Seq<char>, q: Seq<char>)
    requires
        p + x + q == p + y + q,
    ensures
        x == y,
{
    let l = p + x + q;
    let r = p + y + q;
    assert(l.len() == r.len());
    assert forall|i: int| 0 <= i < x.len() implies x[i] == y[i] by {
        assert(l[p.len() + i] == x[i]);
        assert(r[p.len() + i] == y[i]);
    }
    assert(x =~= y);
}

} // verus!
