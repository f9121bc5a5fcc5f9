//! Building blocks for JSON text: string escaping, the number grammar, and
//! helpers that append byte sequences with exact contracts.

use vstd::prelude::*;
use vstd::string::StringSliceAdditionalSpecFns;

verus! {

/// The bytes of an ASCII string literal.
pub open spec fn lit(s: Seq<char>) -> Seq<u8> {
    Seq::new(s.len(), |i: int| s[i] as u8)
}

/// Appends every byte of `s` to `out`.
pub fn push_bytes(out: &mut Vec<u8>, s: &[u8])
    ensures
        final(out)@ == old(out)@ + s@,
{
    let mut i: usize = 0;
    while i < s.len()
        invariant
            i <= s.len(),
            out@ == old(out)@ + s@.subrange(0, i as int),
        decreases s.len() - i,
    {
        out.push(s[i]);
        proof {
            assert(s@.subrange(0, i + 1 as int) =~= s@.subrange(0, i as int).push(s@[i as int]));
            assert(out@ =~= old(out)@ + s@.subrange(0, i + 1 as int));
        }
        i = i + 1;
    }
    proof {
        assert(s@.subrange(0, s@.len() as int) =~= s@);
    }
}

/// Appends the bytes of an ASCII literal to `out`.
pub fn push_lit(out: &mut Vec<u8>, s: &str)
    requires
        vstd::string::is_ascii(s),
    ensures
        final(out)@ == old(out)@ + lit(s@),
{
    proof {
        vstd::string::is_ascii_spec_bytes(s);
        assert(s.spec_bytes() =~= lit(s@));
    }
    push_bytes(out, s.as_bytes());
}

/// How one byte of a string is written inside a JSON string literal:
/// quote and backslash are escaped, control bytes use the short escapes
/// or a `\u00..` sequence, and every other byte stands as itself.
pub open spec fn esc_byte(b: u8) -> Seq<u8> {
    if b == 34 {
        seq![92u8, 34u8]
    } else if b == 92 {
        seq![92u8, 92u8]
    } else if b == 8 {
        seq![92u8, 98u8]
    } else if b == 9 {
        seq![92u8, 116u8]
    } else if b == 10 {
        seq![92u8, 110u8]
    } else if b == 12 {
        seq![92u8, 102u8]
    } else if b == 13 {
        seq![92u8, 114u8]
    } else if b < 32 {
        seq![92u8, 117u8, 48u8, 48u8, hex_digit(b / 16), hex_digit(b % 16)]
    } else {
        seq![b]
    }
}

/// Lower-case hexadecimal digit for a value below sixteen.
pub open spec fn hex_digit(d: u8) -> u8 {
    if d < 10 {
        (48 + d) as u8
    } else {
        (87 + d) as u8
    }
}

/// The JSON escaping of a whole byte string.
pub open spec fn escape_json(s: Seq<u8>) -> Seq<u8>
    decreases s.len(),
{
    if s.len() == 0 {
        Seq::empty()
    } else {
        esc_byte(s[0]) + escape_json(s.drop_first())
    }
}

proof fn lemma_escape_push(s: Seq<u8>, b: u8)
    ensures
        escape_json(s.push(b)) == escape_json(s) + esc_byte(b),
    decreases s.len(),
{
    if s.len() == 0 {
        assert(s.push(b).drop_first() =~= Seq::<u8>::empty());
        assert(s.push(b)[0] == b);
        assert(escape_json(s.push(b)) == esc_byte(b) + escape_json(Seq::<u8>::empty()));
        assert(esc_byte(b) + Seq::<u8>::empty() =~= esc_byte(b));
        assert(Seq::<u8>::empty() + esc_byte(b) =~= esc_byte(b));
        assert(escape_json(s.push(b)) =~= escape_json(s) + esc_byte(b));
    } else {
        assert(s.push(b).drop_first() =~= s.drop_first().push(b));
        lemma_escape_push(s.drop_first(), b);
        assert(escape_json(s.push(b)) =~= escape_json(s) + esc_byte(b));
    }
}

fn hex_digit_exec(d: u8) -> (r: u8)
    requires
        d < 16,
    ensures
        r == hex_digit(d),
{
    if d < 10 {
        48 + d
    } else {
        87 + d
    }
}

/// Appends the JSON escaping of `s` to `out`.
pub fn push_escaped(out: &mut Vec<u8>, s: &[u8])
    ensures
        final(out)@ == old(out)@ + escape_json(s@),
{
    let mut i: usize = 0;
    while i < s.len()
        invariant
            i <= s.len(),
            out@ == old(out)@ + escape_json(s@.subrange(0, i as int)),
        decreases s.len() - i,
    {
        let b: u8 = s[i];
        if b == 34 {
            out.push(92);
            out.push(34);
        } else if b == 92 {
            out.push(92);
            out.push(92);
        } else if b == 8 {
            out.push(92);
            out.push(98);
        } else if b == 9 {
            out.push(92);
            out.push(116);
        } else if b == 10 {
            out.push(92);
            out.push(110);
        } else if b == 12 {
            out.push(92);
            out.push(102);
        } else if b == 13 {
            out.push(92);
            out.push(114);
        } else if b < 32 {
            out.push(92);
            out.push(117);
            out.push(48);
            out.push(48);
            out.push(hex_digit_exec(b / 16));
            out.push(hex_digit_exec(b % 16));
        } else {
            out.push(b);
        }
        proof {
            assert(s@.subrange(0, i + 1 as int) =~= s@.subrange(0, i as int).push(s@[i as int]));
            lemma_escape_push(s@.subrange(0, i as int), s@[i as int]);
            assert(out@ =~= old(out)@ + escape_json(s@.subrange(0, i + 1 as int)));
        }
        i = i + 1;
    }
    proof {
        assert(s@.subrange(0, s@.len() as int) =~= s@);
    }
}

/// The value of a lower-case hexadecimal digit byte.
pub open spec fn hex_val(b: u8) -> u8 {
    if 48 <= b && b <= 57 {
        (b - 48) as u8
    } else {
        (b - 87) as u8
    }
}

/// A lower-case hexadecimal digit byte.
pub open spec fn is_hex_lower(b: u8) -> bool {
    (48 <= b && b <= 57) || (97 <= b && b <= 102)
}

/// Puts one byte before an unescaped tail, keeping failure.
pub open spec fn cons_byte(b: u8, rest: Option<Seq<u8>>) -> Option<Seq<u8>> {
    match rest {
        Some(t) => Some(seq![b] + t),
        None => None,
    }
}

/// Reads JSON string escapes back to plain bytes: the inverse of
/// `escape_json` on its output.
pub open spec fn unescape_json(s: Seq<u8>) -> Option<Seq<u8>>
    decreases s.len(),
{
    if s.len() == 0 {
        Some(Seq::empty())
    } else if s[0] == 92 {
        if s.len() < 2 {
            None
        } else if s[1] == 34 || s[1] == 92 {
            cons_byte(s[1], unescape_json(s.skip(2)))
        } else if s[1] == 98 {
            cons_byte(8, unescape_json(s.skip(2)))
        } else if s[1] == 116 {
            cons_byte(9, unescape_json(s.skip(2)))
        } else if s[1] == 110 {
            cons_byte(10, unescape_json(s.skip(2)))
        } else if s[1] == 102 {
            cons_byte(12, unescape_json(s.skip(2)))
        } else if s[1] == 114 {
            cons_byte(13, unescape_json(s.skip(2)))
        } else if s[1] == 117 {
            if s.len() >= 6 && s[2] == 48 && s[3] == 48 && is_hex_lower(s[4]) && is_hex_lower(
                s[5],
            ) {
                cons_byte(
                    (16 * hex_val(s[4]) + hex_val(s[5])) as u8,
                    unescape_json(s.skip(6)),
                )
            } else {
                None
            }
        } else {
            None
        }
    } else {
        cons_byte(s[0], unescape_json(s.skip(1)))
    }
}

/// Escaping and then unescaping gives every byte string back: a reader of
/// the built document recovers exactly the field bytes that went in.
pub proof fn lemma_escape_round_trip(s: Seq<u8>)
    ensures
        unescape_json(escape_json(s)) == Some(s),
    decreases s.len(),
{
    if s.len() == 0 {
        assert(s =~= Seq::<u8>::empty());
    } else {
        let b = s[0];
        let rest = s.drop_first();
        lemma_escape_round_trip(rest);
        let e = esc_byte(b);
        let t = escape_json(rest);
        assert(escape_json(s) == e + t);
        if b == 34 || b == 92 || b == 8 || b == 9 || b == 10 || b == 12 || b == 13 {
            assert((e + t).skip(2) =~= t);
        } else if b < 32 {
            assert((e + t).skip(6) =~= t);
            assert(16 * (b / 16) + b % 16 == b);
            assert(is_hex_lower(hex_digit(b / 16)) && hex_val(hex_digit(b / 16)) == b / 16);
            assert(is_hex_lower(hex_digit(b % 16)) && hex_val(hex_digit(b % 16)) == b % 16);
        } else {
            assert((e + t).skip(1) =~= t);
        }
        assert(seq![b] + rest =~= s);
        assert(unescape_json(escape_json(s)) == Some(s));
    }
}

/// An ASCII decimal digit.
pub open spec fn is_digit(b: u8) -> bool {
    48 <= b && b <= 57
}

/// First position at or after `i` that does not hold a digit.
pub open spec fn skip_digits(s: Seq<u8>, i: int) -> int
    decreases s.len() - i,
{
    if i < s.len() && is_digit(s[i]) {
        skip_digits(s, i + 1)
    } else {
        i
    }
}

fn skip_digits_exec(s: &[u8], i: usize) -> (r: usize)
    requires
        i <= s.len(),
    ensures
        r as int == skip_digits(s@, i as int),
        i <= r && r <= s.len(),
    decreases s.len() - i,
{
    if i < s.len() {
        let b: u8 = s[i];
        if 48 <= b && b <= 57 {
            return skip_digits_exec(s, i + 1);
        }
    }
    i
}

/// The JSON number grammar: an optional minus sign, an integer part with no
/// leading zero, an optional fraction, and an optional exponent.
pub open spec fn is_json_number(s: Seq<u8>) -> bool {
    let i0: int = if s.len() > 0 && s[0] == 45 {
        1
    } else {
        0
    };
    let i1: int = skip_digits(s, i0);
    let int_ok: bool = i1 > i0 && (s[i0] == 48 ==> i1 == i0 + 1);
    let has_frac: bool = i1 < s.len() && s[i1] == 46;
    let i2: int = if has_frac {
        skip_digits(s, i1 + 1)
    } else {
        i1
    };
    let frac_ok: bool = !has_frac || i2 > i1 + 1;
    let has_exp: bool = i2 < s.len() && (s[i2] == 101 || s[i2] == 69);
    let i3: int = if has_exp {
        if i2 + 1 < s.len() && (s[i2 + 1] == 43 || s[i2 + 1] == 45) {
            i2 + 2
        } else {
            i2 + 1
        }
    } else {
        i2
    };
    let i4: int = if has_exp {
        skip_digits(s, i3)
    } else {
        i2
    };
    let exp_ok: bool = !has_exp || i4 > i3;
    int_ok && frac_ok && exp_ok && i4 == s.len()
}

/// Splits a JSON string body at its closing quote: the escaped content
/// before the first unescaped quote, and what follows the quote.
pub open spec fn split_string_field(s: Seq<u8>) -> Option<(Seq<u8>, Seq<u8>)>
    decreases s.len(),
{
    if s.len() == 0 {
        None
    } else if s[0] == 34 {
        Some((Seq::empty(), s.skip(1)))
    } else if s[0] == 92 {
        if s.len() >= 2 {
            match split_string_field(s.skip(2)) {
                Some(p) => Some((seq![s[0], s[1]] + p.0, p.1)),
                None => None,
            }
        } else {
            None
        }
    } else {
        match split_string_field(s.skip(1)) {
            Some(p) => Some((seq![s[0]] + p.0, p.1)),
            None => None,
        }
    }
}

/// The splitter finds exactly the escaped content the escaper wrote: the
/// quote that ends the field is never one the content put there.
pub proof fn lemma_split_escaped(s: Seq<u8>, tail: Seq<u8>)
    ensures
        split_string_field(escape_json(s) + seq![34u8] + tail) == Some((escape_json(s), tail)),
    decreases s.len(),
{
    let whole = escape_json(s) + seq![34u8] + tail;
    if s.len() == 0 {
        assert(whole =~= seq![34u8] + tail);
        assert(whole[0] == 34);
        assert(whole.skip(1) =~= tail);
        assert(escape_json(s) =~= Seq::<u8>::empty());
    } else {
        let b = s[0];
        let rest = s.drop_first();
        lemma_split_escaped(rest, tail);
        let e = esc_byte(b);
        let t = escape_json(rest) + seq![34u8] + tail;
        assert(escape_json(s) == esc_byte(b) + escape_json(rest));
        assert(whole =~= e + t);
        if b == 34 || b == 92 || b == 8 || b == 9 || b == 10 || b == 12 || b == 13 {
            assert(whole[0] == 92 && whole.len() >= 2);
            assert(whole.skip(2) =~= t);
            assert(seq![whole[0], whole[1]] + escape_json(rest) =~= escape_json(s));
        } else if b < 32 {
            // six bytes: backslash, 'u', two zeros, two hex digits
            let h1 = hex_digit(b / 16);
            let h2 = hex_digit(b % 16);
            let t2 = seq![h2] + t;
            let t1 = seq![h1] + t2;
            let z2 = seq![48u8] + t1;
            let z1 = seq![48u8] + z2;
            assert(h1 != 34 && h1 != 92 && h2 != 34 && h2 != 92);
            assert(t2[0] == h2 && t2.skip(1) =~= t);
            assert(split_string_field(t2) == Some((seq![h2] + escape_json(rest), tail)));
            assert(t1[0] == h1 && t1.skip(1) =~= t2);
            assert(split_string_field(t1) == Some((seq![h1, h2] + escape_json(rest), tail)));
            assert(seq![h1] + (seq![h2] + escape_json(rest)) =~= seq![h1, h2] + escape_json(rest));
            assert(z2[0] == 48u8 && z2.skip(1) =~= t1);
            assert(seq![48u8] + (seq![h1, h2] + escape_json(rest)) =~= seq![48u8, h1, h2]
                + escape_json(rest));
            assert(split_string_field(z2) == Some((seq![48u8, h1, h2] + escape_json(rest), tail)));
            assert(z1[0] == 48u8 && z1.skip(1) =~= z2);
            assert(seq![48u8] + (seq![48u8, h1, h2] + escape_json(rest)) =~= seq![
                48u8,
                48u8,
                h1,
                h2,
            ] + escape_json(rest));
            assert(split_string_field(z1) == Some(
                (seq![48u8, 48u8, h1, h2] + escape_json(rest), tail),
            ));
            assert(whole[0] == 92 && whole[1] == 117 && whole.len() >= 2);
            assert(whole.skip(2) =~= z1);
            assert(seq![92u8, 117u8] + (seq![48u8, 48u8, h1, h2] + escape_json(rest))
                =~= escape_json(s));
        } else {
            assert(whole[0] == b && b != 34 && b != 92);
            assert(whole.skip(1) =~= t);
            assert(seq![b] + escape_json(rest) =~= escape_json(s));
        }
        assert(split_string_field(whole) == Some((escape_json(s), tail)));
    }
}

/// Splits at the first occurrence of `stop`: the bytes before it and what
/// follows it.
pub open spec fn split_at_byte(s: Seq<u8>, stop: u8) -> Option<(Seq<u8>, Seq<u8>)>
    decreases s.len(),
{
    if s.len() == 0 {
        None
    } else if s[0] == stop {
        Some((Seq::empty(), s.skip(1)))
    } else {
        match split_at_byte(s.skip(1), stop) {
            Some(p) => Some((seq![s[0]] + p.0, p.1)),
            None => None,
        }
    }
}

/// Splitting at a byte that the prefix avoids finds exactly that prefix.
pub proof fn lemma_split_at_byte(x: Seq<u8>, stop: u8, tail: Seq<u8>)
    requires
        forall|j: int| 0 <= j < x.len() ==> x[j] != stop,
    ensures
        split_at_byte(x + seq![stop] + tail, stop) == Some((x, tail)),
    decreases x.len(),
{
    let whole = x + seq![stop] + tail;
    if x.len() == 0 {
        assert(whole =~= seq![stop] + tail);
        assert(whole.skip(1) =~= tail);
        assert(x =~= Seq::<u8>::empty());
    } else {
        lemma_split_at_byte(x.drop_first(), stop, tail);
        assert(whole[0] == x[0] && x[0] != stop);
        assert(whole.skip(1) =~= x.drop_first() + seq![stop] + tail);
        assert(seq![x[0]] + x.drop_first() =~= x);
        assert(split_at_byte(whole, stop) == Some((x, tail)));
    }
}

/// Takes a known literal off the front, or fails.
pub open spec fn strip_lit(s: Seq<u8>, l: Seq<u8>) -> Option<Seq<u8>> {
    if s.len() >= l.len() && s.take(l.len() as int) == l {
        Some(s.skip(l.len() as int))
    } else {
        None
    }
}

/// Stripping a literal from text that starts with it leaves the rest.
pub proof fn lemma_strip_lit(l: Seq<u8>, x: Seq<u8>)
    ensures
        strip_lit(l + x, l) == Some(x),
{
    assert((l + x).take(l.len() as int) =~= l);
    assert((l + x).skip(l.len() as int) =~= x);
}

proof fn lemma_skip_digits_range(s: Seq<u8>, i: int)
    requires
        0 <= i <= s.len(),
    ensures
        i <= skip_digits(s, i) <= s.len(),
        forall|j: int| i <= j < skip_digits(s, i) ==> is_digit(s[j]),
    decreases s.len() - i,
{
    if i < s.len() && is_digit(s[i]) {
        lemma_skip_digits_range(s, i + 1);
    }
}

/// A byte that may stand in JSON number text.
pub open spec fn is_number_byte(b: u8) -> bool {
    is_digit(b) || b == 45 || b == 43 || b == 46 || b == 101 || b == 69
}

/// JSON number text holds digits, signs, the dot and the exponent letters
/// alone; in particular no comma, quote or brace.
pub proof fn lemma_number_bytes(s: Seq<u8>)
    requires
        is_json_number(s),
    ensures
        forall|j: int| 0 <= j < s.len() ==> is_number_byte(s[j]),
{
    let i0: int = if s.len() > 0 && s[0] == 45 {
        1
    } else {
        0
    };
    let i1: int = skip_digits(s, i0);
    let has_frac: bool = i1 < s.len() && s[i1] == 46;
    let i2: int = if has_frac {
        skip_digits(s, i1 + 1)
    } else {
        i1
    };
    let has_exp: bool = i2 < s.len() && (s[i2] == 101 || s[i2] == 69);
    let i3: int = if has_exp {
        if i2 + 1 < s.len() && (s[i2 + 1] == 43 || s[i2 + 1] == 45) {
            i2 + 2
        } else {
            i2 + 1
        }
    } else {
        i2
    };
    let i4: int = if has_exp {
        skip_digits(s, i3)
    } else {
        i2
    };
    lemma_skip_digits_range(s, i0);
    if has_frac {
        lemma_skip_digits_range(s, i1 + 1);
    }
    if has_exp {
        lemma_skip_digits_range(s, i3);
    }
    assert(i4 == s.len());
    assert forall|j: int| 0 <= j < s.len() implies is_number_byte(s[j]) by {
        if j < i0 {
            assert(s[j] == 45);
        } else if j < i1 {
            assert(is_digit(s[j]));
        } else if has_frac && j == i1 {
            assert(s[j] == 46);
        } else if has_frac && j < i2 {
            assert(is_digit(s[j]));
        } else if has_exp && j == i2 {
            assert(s[j] == 101 || s[j] == 69);
        } else if has_exp && j < i3 {
            assert(s[j] == 43 || s[j] == 45);
        } else {
            assert(i3 <= j < i4);
            assert(is_digit(s[j]));
        }
    }
}

/// Decides the JSON number grammar on a byte string.
pub fn is_json_number_bytes(s: &[u8]) -> (r: bool)
    ensures
        r == is_json_number(s@),
{
    let n: usize = s.len();
    let i0: usize = if n > 0 && s[0] == 45 {
        1
    } else {
        0
    };
    let i1: usize = skip_digits_exec(s, i0);
    let int_ok: bool = i1 > i0 && (i0 >= n || s[i0] != 48 || i1 == i0 + 1);
    let has_frac: bool = i1 < n && s[i1] == 46;
    let i2: usize = if has_frac {
        skip_digits_exec(s, i1 + 1)
    } else {
        i1
    };
    let frac_ok: bool = !has_frac || i2 > i1 + 1;
    let has_exp: bool = i2 < n && (s[i2] == 101 || s[i2] == 69);
    let i3: usize = if has_exp {
        if i2 + 1 < n && (s[i2 + 1] == 43 || s[i2 + 1] == 45) {
            i2 + 2
        } else {
            i2 + 1
        }
    } else {
        i2
    };
    let i4: usize = if has_exp {
        skip_digits_exec(s, i3)
    } else {
        i2
    };
    let exp_ok: bool = !has_exp || i4 > i3;
    let r: bool = int_ok && frac_ok && exp_ok && i4 == n;
    proof {
        if i1 > i0 {
            assert(r == is_json_number(s@));
        } else {
            assert(!is_json_number(s@));
        }
    }
    r
}

} // verus!
