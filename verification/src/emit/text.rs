//! Decimal numbers and separator-joined fields, as characters.

use vstd::prelude::*;

use crate::text::str_chars;

verus! {

/// The decimal digit of `d` (below ten).
pub open spec fn digit_char(d: nat) -> char {
    (48 + d) as char
}

/// The decimal text of `n`, no leading zeros.
pub open spec fn dec_chars(n: nat) -> Seq<char>
    decreases n,
{
    if n < 10 {
        seq![digit_char(n)]
    } else {
        dec_chars(n / 10).push(digit_char(n % 10))
    }
}

/// Append the decimal text of `n`.
pub fn push_dec(out: &mut Vec<char>, n: u64)
    ensures
        final(out)@ == old(out)@ + dec_chars(n as nat),
    decreases n,
{
    if n >= 10 {
        push_dec(out, n / 10);
    }
    let d = (n % 10) as u8;
    let c = (48 + d) as char;
    assert(c == digit_char((n % 10) as nat));
    out.push(c);
    assert(final(out)@ =~= old(out)@ + dec_chars(n as nat));
}

/// Append a string's characters.
pub fn push_text(out: &mut Vec<char>, s: &str)
    ensures
        final(out)@ == old(out)@ + s@,
{
    let cs = str_chars(s);
    let mut i: usize = 0;
    let ghost o = out@;
    while i < cs.len()
        invariant
            i <= cs@.len(),
            cs@ == s@,
            out@ == o + cs@.take(i as int),
        decreases cs@.len() - i,
    {
        out.push(cs[i]);
        assert(cs@.take(i + 1) =~= cs@.take(i as int).push(cs@[i as int]));
        i += 1;
    }
    assert(cs@.take(cs@.len() as int) =~= cs@);
}

/// Fields joined with a separator between each two.
pub open spec fn joined(fs: Seq<Seq<char>>, sep: char) -> Seq<char>
    decreases fs.len(),
{
    if fs.len() == 0 {
        Seq::empty()
    } else if fs.len() == 1 {
        fs[0]
    } else {
        joined(fs.drop_last(), sep) + seq![sep] + fs.last()
    }
}

/// The characters of each field.
pub open spec fn views(fs: Seq<Vec<char>>) -> Seq<Seq<char>> {
    fs.map_values(|f: Vec<char>| f@)
}

/// Join fields with a separator.
pub fn join_fields(fs: &Vec<Vec<char>>, sep: char) -> (r: Vec<char>)
    ensures
        r@ == joined(views(fs@), sep),
{
    let ghost v = views(fs@);
    let mut out: Vec<char> = Vec::new();
    let mut i: usize = 0;
    while i < fs.len()
        invariant
            i <= fs@.len(),
            v == views(fs@),
            out@ == joined(v.take(i as int), sep),
        decreases fs@.len() - i,
    {
        assert(v[i as int] == fs[i as int]@);
        assert(v.take(i + 1).drop_last() =~= v.take(i as int));
        if i > 0 {
            out.push(sep);
        }
        let mut k: usize = 0;
        let ghost o = out@;
        while k < fs[i].len()
            invariant
                i < fs@.len(),
                k <= fs[i as int]@.len(),
                out@ == o + fs[i as int]@.take(k as int),
            decreases fs[i as int]@.len() - k,
        {
            out.push(fs[i][k]);
            assert(fs[i as int]@.take(k + 1) =~= fs[i as int]@.take(k as int).push(fs[i as int]@[k as int]));
            k += 1;
        }
        assert(fs[i as int]@.take(fs[i as int]@.len() as int) =~= fs[i as int]@);
        if i == 0 {
            assert(out@ =~= joined(v.take(1), sep));
        } else {
            assert(out@ =~= joined(v.take(i + 1), sep));
        }
        i += 1;
    }
    assert(v.take(fs@.len() as int) =~= v);
    out
}

} // verus!
