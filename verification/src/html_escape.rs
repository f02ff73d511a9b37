//! Decoding of HTML character references in transcript text.
use vstd::prelude::*;

use crate::text::{chars_of, extend, has_prefix, same_chars, string_of};

verus! {

/// The number of characters before the first `;` of `s` (all of `s` if it
/// holds none).
pub open spec fn entity_len(s: Seq<char>) -> nat
    decreases s.len(),
{
    if s.len() == 0 || s[0] == ';' {
        0
    } else {
        1 + entity_len(s.drop_first())
    }
}

/// The value of a digit in the given radix (10 or 16).
pub open spec fn digit_value(c: char, radix: nat) -> Option<nat> {
    if '0' <= c <= '9' {
        Some((c as nat - '0' as nat) as nat)
    } else if radix == 16 && 'a' <= c <= 'f' {
        Some((c as nat - 'a' as nat + 10) as nat)
    } else if radix == 16 && 'A' <= c <= 'F' {
        Some((c as nat - 'A' as nat + 10) as nat)
    } else {
        None
    }
}

/// The digits and their values: in radix 10, `0` to `9` are worth 0 to 9;
/// in radix 16, `0` to `9`, `a` to `f` and `A` to `F` are worth 0 to 15, a
/// letter the same in either case; no other character is a digit.
pub proof fn lemma_digit_values()
    ensures
        forall|i: int|
            0 <= i < 10 ==> digit_value(#[trigger] "0123456789"@[i], 10) == Some(i as nat),
        forall|i: int|
            0 <= i < 16 ==> digit_value(#[trigger] "0123456789abcdef"@[i], 16) == Some(i as nat),
        forall|i: int|
            0 <= i < 16 ==> digit_value(#[trigger] "0123456789ABCDEF"@[i], 16) == Some(i as nat),
        forall|c: char| #[trigger] digit_value(c, 10) is Some ==> "0123456789"@.contains(c),
        forall|c: char|
            #[trigger] digit_value(c, 16) is Some ==> "0123456789abcdef"@.contains(c)
                || "0123456789ABCDEF"@.contains(c),
{
    reveal_strlit("0123456789");
    reveal_strlit("0123456789abcdef");
    reveal_strlit("0123456789ABCDEF");
    assert forall|c: char| #[trigger] digit_value(c, 10) is Some implies "0123456789"@.contains(
        c,
    ) by {
        let k = (c as nat - '0' as nat) as int;
        assert("0123456789"@[k] == c);
    }
    assert forall|c: char| #[trigger] digit_value(c, 16) is Some implies "0123456789abcdef"@.contains(
        c,
    ) || "0123456789ABCDEF"@.contains(c) by {
        if '0' <= c <= '9' {
            let k = (c as nat - '0' as nat) as int;
            assert("0123456789abcdef"@[k] == c);
        } else if 'a' <= c <= 'f' {
            let k = (c as nat - 'a' as nat + 10) as int;
            assert("0123456789abcdef"@[k] == c);
        } else {
            let k = (c as nat - 'A' as nat + 10) as int;
            assert("0123456789ABCDEF"@[k] == c);
        }
    }
}

/// The number that the digits `d` spell in the given radix, if all of them
/// are digits.
pub open spec fn digits_value(d: Seq<char>, radix: nat) -> Option<nat>
    decreases d.len(),
{
    if d.len() == 0 {
        Some(0)
    } else {
        match (digits_value(d.drop_last(), radix), digit_value(d.last(), radix)) {
            (Some(v), Some(x)) => Some(v * radix + x),
            _ => None,
        }
    }
}

/// What parsing `s` as a `u32` in the given radix yields: an optional `+`,
/// then at least one digit, and a value that fits in 32 bits.
pub open spec fn parse_u32(s: Seq<char>, radix: nat) -> Option<u32> {
    let digits = if s.len() > 0 && s[0] == '+' {
        s.drop_first()
    } else {
        s
    };
    if digits.len() == 0 {
        None
    } else {
        match digits_value(digits, radix) {
            Some(v) => if v <= u32::MAX {
                Some(v as u32)
            } else {
                None
            },
            None => None,
        }
    }
}

/// A Unicode scalar value: a code point that is not a surrogate.
pub open spec fn is_scalar_value(n: u32) -> bool {
    n < 0xD800 || (0xE000 <= n && n <= 0x10FFFF)
}

/// The text that stands for an entity that is not decoded: `&`, the entity
/// and `;`.
pub open spec fn undecoded(entity: Seq<char>) -> Seq<char> {
    seq!['&'] + entity + seq![';']
}

/// The text of a numeric entity whose number is `n`.
pub open spec fn numeric_entity(entity: Seq<char>, n: Option<u32>) -> Seq<char> {
    match n {
        Some(v) => if is_scalar_value(v) {
            seq![v as char]
        } else {
            undecoded(entity)
        },
        None => undecoded(entity),
    }
}

/// What the entity named between `&` and `;` decodes to.
pub open spec fn decoded_entity(entity: Seq<char>) -> Seq<char> {
    if entity == seq!['q', 'u', 'o', 't'] {
        seq!['"']
    } else if entity == seq!['a', 'm', 'p'] {
        seq!['&']
    } else if entity == seq!['a', 'p', 'o', 's'] {
        seq!['\'']
    } else if entity == seq!['l', 't'] {
        seq!['<']
    } else if entity == seq!['g', 't'] {
        seq!['>']
    } else if entity == seq!['n', 'b', 's', 'p'] {
        seq![' ']
    } else if has_prefix(entity, seq!['#', 'x']) || has_prefix(entity, seq!['#', 'X']) {
        numeric_entity(entity, parse_u32(entity.skip(2), 16))
    } else if has_prefix(entity, seq!['#']) {
        numeric_entity(entity, parse_u32(entity.skip(1), 10))
    } else {
        undecoded(entity)
    }
}

/// Where `entity_len` stops.
pub proof fn lemma_entity_len_bound(s: Seq<char>)
    ensures
        entity_len(s) <= s.len(),
        entity_len(s) < s.len() ==> s[entity_len(s) as int] == ';',
        forall|k: int| 0 <= k < entity_len(s) ==> s[k] != ';',
    decreases s.len(),
{
    if s.len() > 0 && s[0] != ';' {
        lemma_entity_len_bound(s.drop_first());
        assert forall|k: int| 0 <= k < entity_len(s) implies s[k] != ';' by {
            if k > 0 {
                assert(s[k] == s.drop_first()[k - 1]);
            }
        }
    }
}

/// `s` with each `&name;` replaced by what it decodes to. An `&` without a
/// later `;` takes the rest of the text as its entity.
pub open spec fn decoded(s: Seq<char>) -> Seq<char>
    decreases s.len(),
{
    if s.len() == 0 {
        Seq::empty()
    } else if s[0] == '&' {
        let rest = s.drop_first();
        let n = entity_len(rest);
        proof {
            lemma_entity_len_bound(rest);
        }
        let after = if n < rest.len() {
            rest.skip(n + 1int)
        } else {
            rest.skip(n as int)
        };
        decoded_entity(rest.take(n as int)) + decoded(after)
    } else {
        seq![s[0]] + decoded(s.drop_first())
    }
}

/// Text without `&` decodes to itself.
pub proof fn lemma_decoded_plain(s: Seq<char>)
    requires
        !s.contains('&'),
    ensures
        decoded(s) == s,
    decreases s.len(),
{
    if s.len() > 0 {
        assert(s[0] != '&');
        assert(!s.drop_first().contains('&')) by {
            if s.drop_first().contains('&') {
                let k = choose|k: int| 0 <= k < s.drop_first().len() && s.drop_first()[k] == '&';
                assert(s[k + 1] == '&');
            }
        }
        lemma_decoded_plain(s.drop_first());
        assert(seq![s[0]] + s.drop_first() =~= s);
    }
}

/// `char::from_u32`: the character with code point `n`, where `n` is a
/// Unicode scalar value (a code point up to 0x10FFFF that is not a
/// surrogate), else `None`, as the function's documentation states.
#[verifier::external_body]
fn char_from_u32(n: u32) -> (r: Option<char>)
    ensures
        r == (if is_scalar_value(n) {
            Some(n as char)
        } else {
            None
        }),
{
    char::from_u32(n)
}

/// The value of the digit `c` in `radix` (10 or 16).
fn digit(c: char, radix: u32) -> (r: Option<u32>)
    requires
        radix == 10 || radix == 16,
    ensures
        match digit_value(c, radix as nat) {
            Some(v) => r == Some(v as u32),
            None => r is None,
        },
        r matches Some(v) ==> v < radix,
{
    if '0' <= c && c <= '9' {
        Some((c as u32) - ('0' as u32))
    } else if radix == 16 && 'a' <= c && c <= 'f' {
        Some((c as u32) - ('a' as u32) + 10)
    } else if radix == 16 && 'A' <= c && c <= 'F' {
        Some((c as u32) - ('A' as u32) + 10)
    } else {
        None
    }
}

proof fn lemma_digits_value_grows(d: Seq<char>, radix: nat, i: int)
    requires
        radix >= 1,
        0 <= i <= d.len(),
        digits_value(d, radix) is Some,
    ensures
        digits_value(d.take(i), radix) is Some,
        digits_value(d.take(i), radix)->0 <= digits_value(d, radix)->0,
    decreases d.len(),
{
    if i < d.len() {
        assert(d.drop_last().take(i) =~= d.take(i));
        lemma_digits_value_grows(d.drop_last(), radix, i);
        let v = digits_value(d.drop_last(), radix)->0;
        let x = digit_value(d.last(), radix)->0;
        assert(v * radix + x >= v) by (nonlinear_arith)
            requires
                radix >= 1,
                x >= 0,
                v >= 0,
        ;
    } else {
        assert(d.take(i) =~= d);
    }
}

/// `parse_u32(s[from..], radix)`, computed.
fn parse_u32_from(s: &[char], from: usize, radix: u32) -> (r: Option<u32>)
    requires
        from <= s@.len(),
        radix == 10 || radix == 16,
    ensures
        r == parse_u32(s@.skip(from as int), radix as nat),
{
    let ghost whole = s@.skip(from as int);
    let mut start = from;
    if start < s.len() && s[start] == '+' {
        start += 1;
    }
    let ghost digits = s@.skip(start as int);
    assert(digits =~= (if whole.len() > 0 && whole[0] == '+' {
        whole.drop_first()
    } else {
        whole
    }));
    if start == s.len() {
        return None;
    }
    let mut value: u64 = 0;
    let mut i = start;
    assert(digits.take(0) =~= Seq::<char>::empty());
    while i < s.len()
        invariant
            start <= i <= s@.len(),
            start < s@.len(),
            digits == s@.skip(start as int),
            whole == s@.skip(from as int),
            digits == (if whole.len() > 0 && whole[0] == '+' {
                whole.drop_first()
            } else {
                whole
            }),
            radix == 10 || radix == 16,
            value <= u32::MAX,
            digits_value(digits.take(i - start), radix as nat) == Some(value as nat),
        decreases s.len() - i,
    {
        let ghost k = i - start;
        assert(digits.take(k + 1).drop_last() =~= digits.take(k));
        assert(digits.take(k + 1).last() == s@[i as int]);
        match digit(s[i], radix) {
            None => {
                proof {
                    if digits_value(digits, radix as nat) is Some {
                        lemma_digits_value_grows(digits, radix as nat, k + 1);
                    }
                }
                return None;
            },
            Some(d) => {
                assert(value * (radix as u64) <= 0xFFFF_FFFFu64 * 16) by (nonlinear_arith)
                    requires
                        value <= 0xFFFF_FFFFu64,
                        radix <= 16,
                ;
                let next = value * (radix as u64) + (d as u64);
                if next > 0xFFFF_FFFFu64 {
                    proof {
                        if digits_value(digits, radix as nat) is Some {
                            lemma_digits_value_grows(digits, radix as nat, k + 1);
                        }
                    }
                    return None;
                }
                value = next;
                i += 1;
            },
        }
    }
    assert(digits.take(i - start) =~= digits);
    Some(value as u32)
}

/// What the entity written between `&` and `;` decodes to.
fn decode_entity_chars(entity: &[char]) -> (r: Vec<char>)
    ensures
        r@ == decoded_entity(entity@),
{
    let mut r: Vec<char> = Vec::new();
    if same_chars(entity, &['q', 'u', 'o', 't']) {
        r.push('"');
    } else if same_chars(entity, &['a', 'm', 'p']) {
        r.push('&');
    } else if same_chars(entity, &['a', 'p', 'o', 's']) {
        r.push('\'');
    } else if same_chars(entity, &['l', 't']) {
        r.push('<');
    } else if same_chars(entity, &['g', 't']) {
        r.push('>');
    } else if same_chars(entity, &['n', 'b', 's', 'p']) {
        r.push(' ');
    } else {
        let hex = entity.len() >= 2 && entity[0] == '#' && (entity[1] == 'x' || entity[1] == 'X');
        let dec = entity.len() >= 1 && entity[0] == '#';
        proof {
            if has_prefix(entity@, seq!['#', 'x']) || has_prefix(entity@, seq!['#', 'X']) {
                assert(entity@.subrange(0, 2)[0] == entity@[0]);
                assert(entity@.subrange(0, 2)[1] == entity@[1]);
            }
            if hex {
                if entity@[1] == 'x' {
                    assert(entity@.subrange(0, 2) =~= seq!['#', 'x']);
                } else {
                    assert(entity@.subrange(0, 2) =~= seq!['#', 'X']);
                }
            }
            if has_prefix(entity@, seq!['#']) {
                assert(entity@.subrange(0, 1)[0] == entity@[0]);
            }
            if dec {
                assert(entity@.subrange(0, 1) =~= seq!['#']);
            }
        }
        let number = if hex {
            parse_u32_from(entity, 2, 16)
        } else if dec {
            parse_u32_from(entity, 1, 10)
        } else {
            None
        };
        let mut decoded_char = None;
        if hex || dec {
            if let Some(n) = number {
                decoded_char = char_from_u32(n);
            }
        }
        match decoded_char {
            Some(c) => {
                r.push(c);
            },
            None => {
                r.push('&');
                extend(&mut r, entity);
                r.push(';');
            },
        }
    }
    r
}

/// What the entity named `entity` (without `&` and `;`) decodes to.
pub fn decode_entity(entity: &str) -> (r: String)
    ensures
        r@ == decoded_entity(entity@),
{
    let e = chars_of(entity);
    let d = decode_entity_chars(e.as_slice());
    string_of(d.as_slice())
}

proof fn lemma_entity_len_is(rest: Seq<char>, j: int)
    requires
        0 <= j <= rest.len(),
        forall|k: int| 0 <= k < j ==> rest[k] != ';',
        j == rest.len() || rest[j] == ';',
    ensures
        entity_len(rest) == j,
    decreases j,
{
    if j > 0 {
        assert forall|k: int| 0 <= k < j - 1 implies rest.drop_first()[k] != ';' by {
            assert(rest.drop_first()[k] == rest[k + 1]);
        }
        lemma_entity_len_is(rest.drop_first(), j - 1);
    }
}

/// `s` with its HTML character references decoded.
pub fn decode_html_entities(s: &str) -> (r: String)
    ensures
        r@ == decoded(s@),
{
    let cs = chars_of(s);
    let n = cs.len();
    let mut result: Vec<char> = Vec::new();
    let mut i: usize = 0;
    assert(cs@.skip(0) =~= cs@);
    while i < n
        invariant
            n == cs@.len(),
            i <= n,
            result@ + decoded(cs@.skip(i as int)) == decoded(cs@),
        decreases n - i,
    {
        let ghost rest_all = cs@.skip(i as int);
        let ch = cs[i];
        i += 1;
        if ch == '&' {
            let ghost rest = cs@.skip(i as int);
            assert(rest_all.drop_first() =~= rest);
            let start = i;
            let mut entity: Vec<char> = Vec::new();
            while i < n && cs[i] != ';'
                invariant
                    n == cs@.len(),
                    start <= i <= n,
                    entity@ == cs@.subrange(start as int, i as int),
                    forall|k: int| start <= k < i ==> cs@[k] != ';',
                decreases n - i,
            {
                entity.push(cs[i]);
                i += 1;
                assert(entity@ =~= cs@.subrange(start as int, i as int));
            }
            proof {
                lemma_entity_len_is(rest, i - start);
                assert(rest.take(i - start) =~= entity@);
            }
            if i < n {
                i += 1;
                assert(rest.skip(entity_len(rest) + 1int) =~= cs@.skip(i as int));
            } else {
                assert(rest.skip(entity_len(rest) as int) =~= cs@.skip(i as int));
            }
            let d = decode_entity_chars(entity.as_slice());
            let ghost before = result@;
            extend(&mut result, d.as_slice());
            assert(result@ + decoded(cs@.skip(i as int)) =~= before + decoded(rest_all));
        } else {
            assert(rest_all.drop_first() =~= cs@.skip(i as int));
            let ghost before = result@;
            result.push(ch);
            assert(result@ + decoded(cs@.skip(i as int)) =~= before + decoded(rest_all));
        }
    }
    assert(decoded(cs@.skip(i as int)) =~= Seq::<char>::empty());
    assert(result@ + Seq::<char>::empty() =~= result@);
    string_of(result.as_slice())
}

} // verus!
