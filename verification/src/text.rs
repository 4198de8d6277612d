//! String utilities: character-exact equality and lexicographic order on
//! `&str`, decimal rendering of integers, and JSON string escaping.

use vstd::prelude::*;
use vstd::string::StrSliceExecFns;

verus! {

/// Relies on `String::push`: appends the given character at the end.
#[verifier::external_body]
pub(crate) fn push_char(s: &mut String, c: char)
    ensures
        final(s)@ == old(s)@.push(c),
{
    s.push(c);
}

/// Character-for-character string equality.
pub fn str_eq(a: &str, b: &str) -> (r: bool)
    ensures
        r == (a@ == b@),
{
    let alen = a.unicode_len();
    let blen = b.unicode_len();
    if alen != blen {
        return false;
    }
    let mut i: usize = 0;
    while i < alen
        invariant
            alen == a@.len(),
            blen == b@.len(),
            alen == blen,
            i <= alen,
            forall|j: int| 0 <= j < i ==> a@[j] == b@[j],
        decreases alen - i,
    {
        if a.get_char(i) != b.get_char(i) {
            return false;
        }
        i = i + 1;
    }
    proof {
        assert(a@ =~= b@);
    }
    true
}

/// Strict lexicographic order on character sequences, by code point.
pub open spec fn lex_lt(a: Seq<char>, b: Seq<char>) -> bool
    decreases a.len(),
{
    if b.len() == 0 {
        false
    } else if a.len() == 0 {
        true
    } else if a[0] != b[0] {
        (a[0] as int) < (b[0] as int)
    } else {
        lex_lt(a.drop_first(), b.drop_first())
    }
}

/// Lexicographic order, reflexive form.
pub open spec fn lex_le(a: Seq<char>, b: Seq<char>) -> bool {
    a == b || lex_lt(a, b)
}

/// `lex_lt` never holds in both directions.
pub proof fn lemma_lex_lt_asymmetric(a: Seq<char>, b: Seq<char>)
    requires
        lex_lt(a, b),
    ensures
        !lex_lt(b, a),
        a != b,
    decreases a.len(),
{
    if b.len() == 0 {
    } else if a.len() == 0 {
        assert(a != b) by {
            assert(a.len() != b.len());
        }
    } else if a[0] != b[0] {
        assert(a != b) by {
            assert(a[0] != b[0]);
        }
    } else {
        lemma_lex_lt_asymmetric(a.drop_first(), b.drop_first());
        assert(a != b) by {
            if a == b {
                assert(a.drop_first() =~= b.drop_first());
            }
        }
    }
}

/// Any two character sequences are ordered one way or the other.
pub proof fn lemma_lex_total(a: Seq<char>, b: Seq<char>)
    ensures
        lex_lt(a, b) || lex_lt(b, a) || a == b,
    decreases a.len(),
{
    if a.len() == 0 && b.len() == 0 {
        assert(a =~= b);
    } else if a.len() == 0 || b.len() == 0 {
    } else if a[0] != b[0] {
        assert((a[0] as int) != (b[0] as int));
    } else {
        lemma_lex_total(a.drop_first(), b.drop_first());
        if a.drop_first() == b.drop_first() {
            assert forall|i: int| 0 <= i < a.len() implies a[i] == b[i] by {
                if i > 0 {
                    assert(a.drop_first() =~= a.subrange(1, a.len() as int));
                    assert(b.drop_first() =~= b.subrange(1, b.len() as int));
                    assert(a.subrange(1, a.len() as int)[i - 1] == a[i]);
                    assert(b.subrange(1, b.len() as int)[i - 1] == b[i]);
                }
            }
            assert(a.len() == b.len()) by {
                assert(a.drop_first().len() == a.len() - 1);
                assert(b.drop_first().len() == b.len() - 1);
            }
            assert(a =~= b);
        }
    }
}

/// `lex_lt` carries across a middle element.
pub proof fn lemma_lex_lt_transitive(a: Seq<char>, b: Seq<char>, c: Seq<char>)
    requires
        lex_lt(a, b),
        lex_lt(b, c),
    ensures
        lex_lt(a, c),
    decreases a.len() + b.len() + c.len(),
{
    if c.len() == 0 || b.len() == 0 {
    } else if a.len() == 0 {
    } else {
        if a[0] == b[0] && b[0] == c[0] {
            lemma_lex_lt_transitive(a.drop_first(), b.drop_first(), c.drop_first());
        }
    }
}

/// Lexicographic comparison of two strings.
pub fn str_le(a: &str, b: &str) -> (r: bool)
    ensures
        r == lex_le(a@, b@),
{
    let alen = a.unicode_len();
    let blen = b.unicode_len();
    let mut i: usize = 0;
    loop
        invariant
            alen == a@.len(),
            blen == b@.len(),
            i <= alen,
            i <= blen,
            forall|j: int| 0 <= j < i ==> a@[j] == b@[j],
        decreases alen - i,
    {
        if i >= alen {
            proof {
                lemma_lex_le_from_prefix(a@, b@, i as int);
            }
            return true;
        }
        if i >= blen {
            proof {
                lemma_lex_lt_from_prefix(b@, a@, i as int);
                lemma_lex_lt_asymmetric(b@, a@);
            }
            return false;
        }
        let ca = a.get_char(i);
        let cb = b.get_char(i);
        if (ca as u32) < (cb as u32) {
            proof {
                assert((a@[i as int] as int) < (b@[i as int] as int));
            }
            proof {
                lemma_lex_lt_from_diff(a@, b@, i as int);
            }
            return true;
        }
        if (ca as u32) > (cb as u32) {
            proof {
                assert((b@[i as int] as int) < (a@[i as int] as int));
                lemma_lex_lt_from_diff(b@, a@, i as int);
                lemma_lex_lt_asymmetric(b@, a@);
            }
            return false;
        }
        proof {
            assert(ca == cb) by {
                assert(ca as int == cb as int);
            }
        }
        i = i + 1;
    }
}

/// A sequence that runs out while agreeing with a longer one comes first.
proof fn lemma_lex_lt_from_prefix(a: Seq<char>, b: Seq<char>, i: int)
    requires
        0 <= i == a.len() < b.len(),
        forall|j: int| 0 <= j < i ==> a[j] == b[j],
    ensures
        lex_lt(a, b),
    decreases i,
{
    if i > 0 {
        lemma_lex_lt_from_prefix(a.drop_first(), b.drop_first(), i - 1);
    }
}

/// Two sequences that agree up to the end of the first compare `lex_le`.
proof fn lemma_lex_le_from_prefix(a: Seq<char>, b: Seq<char>, i: int)
    requires
        0 <= i == a.len() <= b.len(),
        forall|j: int| 0 <= j < i ==> a[j] == b[j],
    ensures
        lex_le(a, b),
    decreases i,
{
    if a.len() == b.len() {
        assert(a =~= b);
    } else {
        lemma_lex_lt_from_prefix(a, b, i);
    }
}

/// A smaller character at the first disagreeing index decides the order.
proof fn lemma_lex_lt_from_diff(a: Seq<char>, b: Seq<char>, i: int)
    requires
        0 <= i < a.len(),
        i < b.len(),
        forall|j: int| 0 <= j < i ==> a[j] == b[j],
        (a[i] as int) < (b[i] as int),
    ensures
        lex_lt(a, b),
    decreases i,
{
    if i == 0 {
        assert(a[0] != b[0]) by {
            assert((a[0] as int) != (b[0] as int));
        }
    } else {
        lemma_lex_lt_from_diff(a.drop_first(), b.drop_first(), i - 1);
    }
}

/// The character for a single decimal digit.
pub open spec fn digit_char(d: nat) -> char {
    ((48 + d) as u8) as char
}

/// Decimal rendering of a natural number, most significant digit first.
pub open spec fn dec_digits(n: nat) -> Seq<char>
    decreases n,
{
    if n < 10 {
        seq![digit_char(n)]
    } else {
        dec_digits(n / 10).push(digit_char(n % 10))
    }
}

/// Decimal rendering of a signed number.
pub open spec fn dec_i64(n: int) -> Seq<char> {
    if n < 0 {
        seq!['-'] + dec_digits((-n) as nat)
    } else {
        dec_digits(n as nat)
    }
}

/// Appends the decimal digits of `m` to `s`.
fn push_dec_digits(s: &mut String, m: u64)
    ensures
        final(s)@ == old(s)@ + dec_digits(m as nat),
    decreases m,
{
    if m < 10 {
        let c = ((48 + m as u8)) as char;
        assert(c == digit_char(m as nat));
        push_char(s, c);
        assert(final(s)@ =~= old(s)@ + dec_digits(m as nat));
    } else {
        push_dec_digits(s, m / 10);
        let d = m % 10;
        let c = ((48 + d as u8)) as char;
        assert(c == digit_char((m as nat) % 10));
        push_char(s, c);
        assert(final(s)@ =~= old(s)@ + dec_digits(m as nat));
    }
}

/// Renders a signed number in decimal.
pub fn i64_to_string(n: i64) -> (r: String)
    ensures
        r@ == dec_i64(n as int),
{
    let mut s = String::new();
    if n < 0 {
        push_char(&mut s, '-');
        let m: u64 = (-(n as i128)) as u64;
        assert(m as nat == (-(n as int)) as nat);
        push_dec_digits(&mut s, m);
        assert(s@ =~= dec_i64(n as int));
    } else {
        let m: u64 = n as u64;
        push_dec_digits(&mut s, m);
        assert(s@ =~= dec_i64(n as int));
    }
    s
}

/// Renders an unsigned size in decimal.
pub fn usize_to_string(n: usize) -> (r: String)
    ensures
        r@ == dec_digits(n as nat),
{
    let mut s = String::new();
    push_dec_digits(&mut s, n as u64);
    proof {
        assert(s@ =~= dec_digits(n as nat));
    }
    s
}

/// The character for a single lowercase hexadecimal digit.
pub open spec fn hex_digit(d: nat) -> char {
    if d < 10 {
        ((48 + d) as u8) as char
    } else {
        ((87 + d) as u8) as char
    }
}

/// How one character is written inside a JSON string literal.
pub open spec fn esc_char(c: char) -> Seq<char> {
    if c == '"' {
        seq!['\\', '"']
    } else if c == '\\' {
        seq!['\\', '\\']
    } else if (c as int) < 32 {
        seq!['\\', 'u', '0', '0', hex_digit((c as int / 16) as nat), hex_digit(
            (c as int % 16) as nat,
        )]
    } else {
        seq![c]
    }
}

/// A whole character sequence written inside a JSON string literal.
pub open spec fn json_escaped(s: Seq<char>) -> Seq<char>
    decreases s.len(),
{
    if s.len() == 0 {
        Seq::empty()
    } else {
        esc_char(s[0]) + json_escaped(s.drop_first())
    }
}

/// Escaping one more character extends the escaped text.
proof fn lemma_json_escaped_push(s: Seq<char>, c: char)
    ensures
        json_escaped(s.push(c)) == json_escaped(s) + esc_char(c),
    decreases s.len(),
{
    if s.len() == 0 {
        assert(s.push(c).drop_first() =~= Seq::<char>::empty());
        assert(s.push(c)[0] == c);
        assert(json_escaped(s.push(c)) == esc_char(c) + json_escaped(s.push(c).drop_first()));
        assert(json_escaped(Seq::<char>::empty()) == Seq::<char>::empty());
        assert(json_escaped(s) == Seq::<char>::empty());
        assert(json_escaped(s.push(c)) =~= json_escaped(s) + esc_char(c));
    } else {
        assert(s.push(c).drop_first() =~= s.drop_first().push(c));
        lemma_json_escaped_push(s.drop_first(), c);
        assert(json_escaped(s.push(c)) == esc_char(s.push(c)[0]) + json_escaped(
            s.push(c).drop_first(),
        ));
        assert(s.push(c)[0] == s[0]);
        assert(json_escaped(s.push(c).drop_first()) == json_escaped(s.drop_first()) + esc_char(c));
        assert(json_escaped(s) == esc_char(s[0]) + json_escaped(s.drop_first()));
        assert(json_escaped(s.push(c)) =~= json_escaped(s) + esc_char(c));
    }
}

/// Appends the characters of `t`, escaped for JSON, to `s`.
pub fn push_json_escaped(s: &mut String, t: &str)
    ensures
        final(s)@ == old(s)@ + json_escaped(t@),
{
    let tlen = t.unicode_len();
    let mut i: usize = 0;
    proof {
        assert(t@.take(0) =~= Seq::<char>::empty());
        assert(s@ =~= s@ + json_escaped(t@.take(0)));
    }
    while i < tlen
        invariant
            tlen == t@.len(),
            i <= tlen,
            s@ == old(s)@ + json_escaped(t@.take(i as int)),
        decreases tlen - i,
    {
        let c = t.get_char(i);
        proof {
            assert(t@.take(i + 1) =~= t@.take(i as int).push(t@[i as int]));
            lemma_json_escaped_push(t@.take(i as int), t@[i as int]);
        }
        if c == '"' {
            push_char(s, '\\');
            push_char(s, '"');
        } else if c == '\\' {
            push_char(s, '\\');
            push_char(s, '\\');
        } else if (c as u32) < 32 {
            proof {
                assert((c as int) < 32);
            }
            push_char(s, '\\');
            push_char(s, 'u');
            push_char(s, '0');
            push_char(s, '0');
            let hi = (c as u32) / 16;
            let lo = (c as u32) % 16;
            proof {
                assert(hi as int == (c as int) / 16);
                assert(lo as int == (c as int) % 16);
            }
            let hc = if hi < 10 {
                (48 + hi as u8) as char
            } else {
                (87 + hi as u8) as char
            };
            let lc = if lo < 10 {
                (48 + lo as u8) as char
            } else {
                (87 + lo as u8) as char
            };
            assert(hc == hex_digit(((c as int) / 16) as nat));
            assert(lc == hex_digit(((c as int) % 16) as nat));
            push_char(s, hc);
            push_char(s, lc);
        } else {
            push_char(s, c);
        }
        proof {
            assert(s@ =~= old(s)@ + json_escaped(t@.take(i + 1)));
        }
        i = i + 1;
    }
    proof {
        assert(t@.take(tlen as int) =~= t@);
    }
}

} // verus!
