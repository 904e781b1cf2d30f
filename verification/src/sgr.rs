use vstd::prelude::*;

verus! {

/// The decimal digit character for `d` in [0, 9].
pub open spec fn spec_digit(d: int) -> char {
    if d == 0 {
        '0'
    } else if d == 1 {
        '1'
    } else if d == 2 {
        '2'
    } else if d == 3 {
        '3'
    } else if d == 4 {
        '4'
    } else if d == 5 {
        '5'
    } else if d == 6 {
        '6'
    } else if d == 7 {
        '7'
    } else if d == 8 {
        '8'
    } else {
        '9'
    }
}

/// The decimal digits of `n`, most significant first, no leading zeros.
pub open spec fn spec_decimal(n: int) -> Seq<char>
    decreases n,
{
    if n < 10 {
        seq![spec_digit(n)]
    } else {
        spec_decimal(n / 10) + seq![spec_digit(n % 10)]
    }
}

/// The text of an SGR parameter list: each parameter in decimal, the
/// parameters separated by semicolons.
pub open spec fn spec_params_text(params: Seq<u8>) -> Seq<char>
    decreases params.len(),
{
    if params.len() == 0 {
        Seq::empty()
    } else if params.len() == 1 {
        spec_decimal(params[0] as int)
    } else {
        spec_params_text(params.drop_last()) + seq![';'] + spec_decimal(params.last() as int)
    }
}

/// A Select Graphic Rendition sequence: `ESC [ p1;p2;...;pn m`, or nothing
/// at all when there are no parameters.
pub open spec fn spec_sgr_sequence(params: Seq<u8>) -> Seq<char> {
    if params.len() == 0 {
        Seq::empty()
    } else {
        seq!['\x1b', '['] + spec_params_text(params) + seq!['m']
    }
}

/// The unconditional reset sequence `ESC [ 0 m` that closes every row.
pub open spec fn spec_reset() -> Seq<char> {
    seq!['\x1b', '[', '0', 'm']
}

fn digit_char(d: u8) -> (c: char)
    requires
        d <= 9,
    ensures
        c == spec_digit(d as int),
{
    match d {
        0 => '0',
        1 => '1',
        2 => '2',
        3 => '3',
        4 => '4',
        5 => '5',
        6 => '6',
        7 => '7',
        8 => '8',
        _ => '9',
    }
}

/// Appends the decimal digits of `n`.
fn push_decimal(out: &mut Vec<char>, n: u8)
    ensures
        final(out)@ == old(out)@ + spec_decimal(n as int),
{
    let ghost start = out@;
    if n >= 100 {
        out.push(digit_char(n / 100));
        out.push(digit_char((n / 10) % 10));
        out.push(digit_char(n % 10));
        proof {
            vstd::arithmetic::div_mod::lemma_div_denominator(n as int, 10, 10);
            assert(spec_decimal(n as int / 100) == seq![spec_digit(n as int / 100)]);
            assert(spec_decimal(n as int / 10) == spec_decimal(n as int / 100) + seq![
                spec_digit((n as int / 10) % 10),
            ]);
            assert(out@ =~= start + spec_decimal(n as int));
        }
    } else if n >= 10 {
        out.push(digit_char(n / 10));
        out.push(digit_char(n % 10));
        proof {
            assert(spec_decimal(n as int / 10) == seq![spec_digit(n as int / 10)]);
            assert(out@ =~= start + spec_decimal(n as int));
        }
    } else {
        out.push(digit_char(n));
        proof {
            assert(out@ =~= start + spec_decimal(n as int));
        }
    }
}

/// Appends one whole SGR escape sequence carrying `params`; appends nothing
/// when `params` is empty.
pub fn write_sgr(out: &mut Vec<char>, params: &Vec<u8>)
    ensures
        final(out)@ == old(out)@ + spec_sgr_sequence(params@),
{
    let ghost start = out@;
    if params.len() == 0 {
        return ;
    }
    out.push('\x1b');
    out.push('[');
    push_decimal(out, params[0]);
    let mut i: usize = 1;
    while i < params.len()
        invariant
            1 <= i <= params@.len(),
            out@ == start + seq!['\x1b', '['] + spec_params_text(params@.take(i as int)),
        decreases params@.len() - i,
    {
        out.push(';');
        push_decimal(out, params[i]);
        proof {
            let taken = params@.take(i as int + 1);
            assert(taken.drop_last() =~= params@.take(i as int));
            assert(taken.last() == params@[i as int]);
            assert(out@ =~= start + seq!['\x1b', '['] + spec_params_text(taken));
        }
        i = i + 1;
    }
    out.push('m');
    proof {
        assert(params@.take(params@.len() as int) =~= params@);
        assert(out@ =~= start + spec_sgr_sequence(params@));
    }
}

/// Appends the reset sequence that closes a row.
pub fn write_reset(out: &mut Vec<char>)
    ensures
        final(out)@ == old(out)@ + spec_reset(),
{
    out.push('\x1b');
    out.push('[');
    out.push('0');
    out.push('m');
    proof {
        assert(out@ =~= old(out)@ + spec_reset());
    }
}

/// Relies on std's `FromIterator` implementation for `String`: collecting
/// an iterator of `char`s yields the string of exactly those characters.
#[verifier::external_body]
pub(crate) fn chars_to_string(v: &Vec<char>) -> (s: String)
    ensures
        s@ == v@,
{
    v.iter().collect()
}

} // verus!
