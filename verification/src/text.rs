use vstd::prelude::*;

verus! {

broadcast use vstd::utf8::char_u32_cast;

/// The character of a single decimal digit.
pub open spec fn digit_char(d: nat) -> char {
    ((48 + d) as u8) as char
}

/// The decimal numeral of a natural number.
pub open spec fn spec_udec(n: nat) -> Seq<char>
    decreases n,
{
    if n < 10 {
        seq![digit_char(n)]
    } else {
        spec_udec(n / 10).push(digit_char(n % 10))
    }
}

/// The decimal numeral of an integer, with a leading minus sign when negative.
pub open spec fn spec_dec(n: int) -> Seq<char> {
    if n < 0 {
        seq!['-'].add(spec_udec((-n) as nat))
    } else {
        spec_udec(n as nat)
    }
}

/// Relies on std's String::push: appends exactly the one character.
#[verifier::external_body]
pub fn push_char(s: &mut String, c: char)
    ensures
        final(s)@ == old(s)@.push(c),
{
    s.push(c);
}

/// Appends the decimal numeral of an unsigned number.
pub fn push_u64(s: &mut String, n: u64)
    ensures
        final(s)@ == old(s)@ + spec_udec(n as nat),
    decreases n,
{
    if n < 10 {
        let d: u8 = n as u8;
        push_char(s, (48 + d) as char);
        assert(s@ =~= old(s)@ + spec_udec(n as nat));
    } else {
        push_u64(s, n / 10);
        let d: u8 = (n % 10) as u8;
        push_char(s, (48 + d) as char);
        assert(s@ =~= old(s)@ + spec_udec(n as nat));
    }
}

/// Appends the decimal numeral of a signed number.
pub fn push_i64(s: &mut String, n: i64)
    ensures
        final(s)@ == old(s)@ + spec_dec(n as int),
{
    if n < 0 {
        push_char(s, '-');
        let mag: u64 = if n == i64::MIN {
            9223372036854775808u64
        } else {
            (-n) as u64
        };
        push_u64(s, mag);
        assert(s@ =~= old(s)@ + spec_dec(n as int));
    } else {
        push_u64(s, n as u64);
    }
}

/// Appends the decimal numeral of a machine-sized number.
pub fn push_usize(s: &mut String, n: usize)
    ensures
        final(s)@ == old(s)@ + spec_udec(n as nat),
{
    push_u64(s, n as u64);
}

/// Appends the decimal numeral of a wide number.
pub fn push_u128(s: &mut String, n: u128)
    ensures
        final(s)@ == old(s)@ + spec_udec(n as nat),
    decreases n,
{
    if n < 10 {
        let d: u8 = n as u8;
        push_char(s, (48 + d) as char);
        assert(s@ =~= old(s)@ + spec_udec(n as nat));
    } else {
        push_u128(s, n / 10);
        let d: u8 = (n % 10) as u8;
        push_char(s, (48 + d) as char);
        assert(s@ =~= old(s)@ + spec_udec(n as nat));
    }
}

/// Distinct digits have distinct characters.
proof fn lemma_digit_char_injective(a: nat, b: nat)
    requires
        a < 10,
        b < 10,
        digit_char(a) == digit_char(b),
    ensures
        a == b,
{
    vstd::utf8::char_u32_cast(digit_char(a), digit_char(a) as u32);
    vstd::utf8::char_u32_cast(digit_char(b), digit_char(b) as u32);
}

/// A numeral is never empty, and two digits or more from ten upward.
pub proof fn lemma_udec_len(n: nat)
    ensures
        spec_udec(n).len() >= 1,
        n >= 10 ==> spec_udec(n).len() >= 2,
    decreases n,
{
    if n >= 10 {
        lemma_udec_len(n / 10);
    }
}

/// Distinct numbers have distinct numerals.
pub proof fn lemma_udec_injective(a: nat, b: nat)
    requires
        spec_udec(a) == spec_udec(b),
    ensures
        a == b,
    decreases a,
{
    lemma_udec_len(a);
    lemma_udec_len(b);
    if a < 10 && b < 10 {
        assert(spec_udec(a)[0] == digit_char(a));
        assert(spec_udec(b)[0] == digit_char(b));
        lemma_digit_char_injective(a, b);
    } else if a < 10 {
        assert(spec_udec(a).len() == 1);
    } else if b < 10 {
        assert(spec_udec(b).len() == 1);
    } else {
        assert(spec_udec(a).last() == digit_char(a % 10));
        assert(spec_udec(b).last() == digit_char(b % 10));
        lemma_digit_char_injective(a % 10, b % 10);
        assert(spec_udec(a).drop_last() =~= spec_udec(a / 10));
        assert(spec_udec(b).drop_last() =~= spec_udec(b / 10));
        lemma_udec_injective(a / 10, b / 10);
    }
}

/// True when two string slices hold the same characters.
pub fn str_eq(a: &str, b: &str) -> (r: bool)
    ensures
        r == (a@ == b@),
{
    let x = a.to_owned();
    let y = b.to_owned();
    x == y
}

/// True when a string slice and an owned string hold the same characters.
pub fn str_eq_string(a: &str, b: &String) -> (r: bool)
    ensures
        r == (a@ == b@),
{
    str_eq(a, b.as_str())
}

/// Strict lexicographic order over character sequences, by scalar value.
pub open spec fn lex_lt(a: Seq<char>, b: Seq<char>) -> bool
    decreases a.len(),
{
    if b.len() == 0 {
        false
    } else if a.len() == 0 {
        true
    } else if a[0] != b[0] {
        (a[0] as u32) < (b[0] as u32)
    } else {
        lex_lt(a.skip(1), b.skip(1))
    }
}

/// Peeling one equal leading character off both sequences keeps the order.
proof fn lemma_lex_lt_step(a: Seq<char>, b: Seq<char>, i: int)
    requires
        0 <= i,
        i < a.len(),
        i < b.len(),
        a[i] == b[i],
    ensures
        lex_lt(a.skip(i), b.skip(i)) == lex_lt(a.skip(i + 1), b.skip(i + 1)),
{
    let sa = a.skip(i);
    let sb = b.skip(i);
    assert(sa[0] == a[i]);
    assert(sb[0] == b[i]);
    assert(sa.skip(1) =~= a.skip(i + 1));
    assert(sb.skip(1) =~= b.skip(i + 1));
}

/// Compares two string slices in the lexicographic order.
pub fn str_lex_lt(a: &str, b: &str) -> (r: bool)
    ensures
        r == lex_lt(a@, b@),
{
    let alen = a.unicode_len();
    let blen = b.unicode_len();
    let mut i: usize = 0;
    proof {
        assert(a@.skip(0) =~= a@);
        assert(b@.skip(0) =~= b@);
    }
    loop
        invariant
            i <= alen,
            i <= blen,
            alen == a@.len(),
            blen == b@.len(),
            lex_lt(a@, b@) == lex_lt(a@.skip(i as int), b@.skip(i as int)),
        decreases alen - i,
    {
        if i == blen {
            // b is exhausted: a is not smaller
            assert(b@.skip(i as int).len() == 0);
            return false;
        }
        if i == alen {
            // a is a strict prefix of b
            assert(a@.skip(i as int).len() == 0);
            assert(b@.skip(i as int).len() > 0);
            return true;
        }
        let ca = a.get_char(i);
        let cb = b.get_char(i);
        if ca != cb {
            proof {
                let sa = a@.skip(i as int);
                let sb = b@.skip(i as int);
                assert(sa[0] == a@[i as int]);
                assert(sb[0] == b@[i as int]);
            }
            return (ca as u32) < (cb as u32);
        }
        proof {
            lemma_lex_lt_step(a@, b@, i as int);
        }
        i = i + 1;
    }
}

/// Two sequences that neither orders below the other are equal.
pub proof fn lemma_lex_connected(a: Seq<char>, b: Seq<char>)
    requires
        !lex_lt(a, b),
        !lex_lt(b, a),
    ensures
        a == b,
    decreases a.len(),
{
    if a.len() == 0 {
        if b.len() != 0 {
            assert(lex_lt(a, b));
        }
        assert(a =~= b);
    } else if b.len() == 0 {
        assert(lex_lt(b, a));
    } else {
        if a[0] != b[0] {
            vstd::utf8::char_u32_cast(a[0], a[0] as u32);
            vstd::utf8::char_u32_cast(b[0], b[0] as u32);
            assert((a[0] as u32) != (b[0] as u32));
            assert(lex_lt(a, b) || lex_lt(b, a));
        }
        lemma_lex_connected(a.skip(1), b.skip(1));
        assert(a =~= seq![a[0]].add(a.skip(1)));
        assert(b =~= seq![b[0]].add(b.skip(1)));
        assert(a =~= b);
    }
}

/// The order is transitive.
pub proof fn lemma_lex_trans(a: Seq<char>, b: Seq<char>, c: Seq<char>)
    requires
        lex_lt(a, b),
        lex_lt(b, c),
    ensures
        lex_lt(a, c),
    decreases a.len(),
{
    if a.len() == 0 {
        assert(c.len() > 0);
    } else {
        // b and c are non-empty since something orders below them
        if a[0] == b[0] {
            if b[0] == c[0] {
                lemma_lex_trans(a.skip(1), b.skip(1), c.skip(1));
            }
        } else {
            if b[0] == c[0] {
            } else {
                if (a[0] as u32) < (b[0] as u32) && (b[0] as u32) < (c[0] as u32) {
                }
            }
        }
    }
}

} // verus!
