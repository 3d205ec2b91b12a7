//! Bytes in hexadecimal.
use vstd::prelude::*;
use vstd::string::StringExecFns;

verus! {

/// The lower-case hexadecimal digit of a number below sixteen.
pub open spec fn hex_digit(n: int) -> char {
    if n == 0 {
        '0'
    } else if n == 1 {
        '1'
    } else if n == 2 {
        '2'
    } else if n == 3 {
        '3'
    } else if n == 4 {
        '4'
    } else if n == 5 {
        '5'
    } else if n == 6 {
        '6'
    } else if n == 7 {
        '7'
    } else if n == 8 {
        '8'
    } else if n == 9 {
        '9'
    } else if n == 10 {
        'a'
    } else if n == 11 {
        'b'
    } else if n == 12 {
        'c'
    } else if n == 13 {
        'd'
    } else if n == 14 {
        'e'
    } else {
        'f'
    }
}

/// The two hexadecimal digits of a byte, the high one first.
pub open spec fn hex_byte(b: u8) -> Seq<char> {
    seq![hex_digit(b as int / 16), hex_digit(b as int % 16)]
}

/// The first `k` bytes in hexadecimal, with `sep` between groups of `g`
/// bytes.
pub open spec fn hex_upto(bytes: Seq<u8>, g: int, sep: char, k: nat) -> Seq<char>
    decreases k,
{
    if k == 0 {
        Seq::empty()
    } else {
        hex_upto(bytes, g, sep, (k - 1) as nat) + (if k > 1 && (k - 1) % g == 0 {
            seq![sep]
        } else {
            Seq::empty()
        }) + hex_byte(bytes[k - 1])
    }
}

/// The complete groups of `g` bytes in hexadecimal, with `sep` between them.
/// Bytes beyond the last complete group are left out.
pub open spec fn hex_join(bytes: Seq<u8>, g: int, sep: char) -> Seq<char> {
    hex_upto(bytes, g, sep, (bytes.len() - bytes.len() % (g as nat)) as nat)
}

/// The hexadecimal digit of a number below sixteen, as a string.
pub fn hex_digit_str(n: u8) -> (s: &'static str)
    requires
        n < 16,
    ensures
        s@ == seq![hex_digit(n as int)],
{
    proof {
        reveal_strlit("0");
        reveal_strlit("1");
        reveal_strlit("2");
        reveal_strlit("3");
        reveal_strlit("4");
        reveal_strlit("5");
        reveal_strlit("6");
        reveal_strlit("7");
        reveal_strlit("8");
        reveal_strlit("9");
        reveal_strlit("a");
        reveal_strlit("b");
        reveal_strlit("c");
        reveal_strlit("d");
        reveal_strlit("e");
        reveal_strlit("f");
    }
    let s = if n == 0 {
        "0"
    } else if n == 1 {
        "1"
    } else if n == 2 {
        "2"
    } else if n == 3 {
        "3"
    } else if n == 4 {
        "4"
    } else if n == 5 {
        "5"
    } else if n == 6 {
        "6"
    } else if n == 7 {
        "7"
    } else if n == 8 {
        "8"
    } else if n == 9 {
        "9"
    } else if n == 10 {
        "a"
    } else if n == 11 {
        "b"
    } else if n == 12 {
        "c"
    } else if n == 13 {
        "d"
    } else if n == 14 {
        "e"
    } else {
        "f"
    };
    assert(s@ =~= seq![hex_digit(n as int)]);
    s
}

/// Appends to `out` the complete groups of `g` bytes in hexadecimal, with
/// `sep`, which is one character, between them.
pub fn push_hex(out: &mut String, bytes: &[u8], g: usize, sep: &str)
    requires
        g > 0,
        sep@.len() == 1,
    ensures
        final(out)@ == old(out)@ + hex_join(bytes@, g as int, sep@[0]),
{
    proof {
        vstd::arithmetic::div_mod::lemma_mod_decreases(bytes@.len(), g as nat);
    }
    let n = bytes.len() - bytes.len() % g;
    let mut k: usize = 0;
    assert(out@ =~= old(out)@ + hex_upto(bytes@, g as int, sep@[0], 0));
    while k < n
        invariant
            g > 0,
            sep@.len() == 1,
            k <= n <= bytes@.len(),
            out@ == old(out)@ + hex_upto(bytes@, g as int, sep@[0], k as nat),
        decreases n - k,
    {
        let ghost before = out@;
        if k > 0 && k % g == 0 {
            out.append(sep);
            assert(sep@ =~= seq![sep@[0]]);
        }
        let b = bytes[k];
        out.append(hex_digit_str(b / 16));
        out.append(hex_digit_str(b % 16));
        k += 1;
        assert(out@ =~= old(out)@ + hex_upto(bytes@, g as int, sep@[0], k as nat));
    }
}

} // verus!
