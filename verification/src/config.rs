//! The one configuration value: the port, parsed from the `PORT` variable's
//! text. The read of the environment itself stays outside the library; the
//! parsing and the fallback live here.

use vstd::prelude::*;

verus! {

/// The default port, used when the text is absent or not a port number.
pub const DEFAULT_PORT: u16 = 3000;

/// True when `c` is an ASCII decimal digit.
pub open spec fn is_digit(c: char) -> bool {
    48 <= c as u32 <= 57
}

/// The numeric value of an ASCII decimal digit.
pub open spec fn digit_val(c: char) -> int {
    c as u32 - 48
}

/// The number that a digit sequence denotes in decimal.
pub open spec fn digits_val(s: Seq<char>) -> int
    decreases s.len(),
{
    if s.len() == 0 {
        0
    } else {
        digits_val(s.drop_last()) * 10 + digit_val(s.last())
    }
}

/// True when every character of `s` is an ASCII decimal digit.
pub open spec fn all_digits(s: Seq<char>) -> bool {
    forall|i: int| 0 <= i < s.len() ==> is_digit(s[i])
}

/// The digit part of a port text: an optional leading `+` sign is dropped.
pub open spec fn port_digits(s: Seq<char>) -> Seq<char> {
    if s.len() > 0 && s[0] == '+' {
        s.drop_first()
    } else {
        s
    }
}

/// True when `s` parses as a port: at least one digit after the optional
/// sign, digits only, and a value no greater than 65535.
pub open spec fn is_port_str(s: Seq<char>) -> bool {
    port_digits(s).len() > 0 && all_digits(port_digits(s)) && digits_val(port_digits(s)) <= 65535
}

/// The configured port: the parsed value where the text is a port, the
/// default everywhere else (absent, empty, signs, other characters,
/// out-of-range values).
pub open spec fn spec_port(p: Option<Seq<char>>) -> int {
    match p {
        Some(s) => if is_port_str(s) {
            digits_val(port_digits(s))
        } else {
            DEFAULT_PORT as int
        },
        None => DEFAULT_PORT as int,
    }
}

/// The view of the optional port text.
pub open spec fn opt_text(p: Option<String>) -> Option<Seq<char>> {
    match p {
        Some(s) => Some(s@),
        None => None,
    }
}

proof fn lemma_digits_nonneg(s: Seq<char>)
    requires
        all_digits(s),
    ensures
        digits_val(s) >= 0,
    decreases s.len(),
{
    if s.len() > 0 {
        assert(forall|i: int| 0 <= i < s.drop_last().len() ==> s.drop_last()[i] == s[i]);
        lemma_digits_nonneg(s.drop_last());
        assert(is_digit(s.last()));
    }
}

proof fn lemma_digits_prefix_le(s: Seq<char>, m: int)
    requires
        all_digits(s),
        0 <= m <= s.len(),
    ensures
        digits_val(s.take(m)) <= digits_val(s),
    decreases s.len(),
{
    if m == s.len() {
        assert(s.take(m) =~= s);
    } else {
        let d = s.drop_last();
        assert(forall|i: int| 0 <= i < d.len() ==> d[i] == s[i]);
        assert(s.take(m) =~= d.take(m));
        lemma_digits_prefix_le(d, m);
        lemma_digits_nonneg(d);
        assert(is_digit(s.last()));
        assert(digits_val(s) == digits_val(d) * 10 + digit_val(s.last()));
        assert(digits_val(d) * 10 >= digits_val(d));
    }
}

/// Parse a port text: the denoted value for a digit text (optional `+`
/// sign) no greater than 65535, the default port for any other text.
pub fn parse_port(s: &str) -> (r: u16)
    ensures
        r as int == (if is_port_str(s@) {
            digits_val(port_digits(s@))
        } else {
            DEFAULT_PORT as int
        }),
{
    let n = s.unicode_len();
    let start: usize = if n > 0 && s.get_char(0) == '+' {
        1
    } else {
        0
    };
    let ghost d = port_digits(s@);
    proof {
        assert(d =~= s@.subrange(start as int, n as int));
    }
    if start == n {
        return DEFAULT_PORT;
    }
    let mut val: u32 = 0;
    let mut i: usize = start;
    proof {
        assert(d.take(0) =~= Seq::<char>::empty());
    }
    while i < n
        invariant
            start <= i <= n,
            n == s@.len(),
            d == port_digits(s@),
            d == s@.subrange(start as int, n as int),
            all_digits(d.take(i as int - start as int)),
            val <= 65535,
            val as int == digits_val(d.take(i as int - start as int)),
        decreases n - i,
    {
        let c = s.get_char(i);
        let cu = c as u32;
        proof {
            assert(d[i as int - start as int] == s@[i as int]);
        }
        if cu < 48 || cu > 57 {
            proof {
                assert(!is_digit(d[i as int - start as int]));
                assert(!all_digits(d));
                assert(!is_port_str(s@));
            }
            return DEFAULT_PORT;
        }
        let nv = val * 10 + (cu - 48);
        proof {
            assert(d.take(i as int - start as int + 1).drop_last() =~= d.take(
                i as int - start as int,
            ));
            assert(d.take(i as int - start as int + 1).last() == d[i as int - start as int]);
            assert(nv as int == digits_val(d.take(i as int - start as int + 1)));
            assert(all_digits(d.take(i as int - start as int + 1)));
        }
        if nv > 65535 {
            proof {
                if all_digits(d) {
                    lemma_digits_prefix_le(d, i as int - start as int + 1);
                    assert(digits_val(d) >= nv as int);
                    assert(digits_val(d) > 65535);
                    assert(!is_port_str(s@));
                } else {
                    assert(!is_port_str(s@));
                }
            }
            return DEFAULT_PORT;
        }
        val = nv;
        i = i + 1;
    }
    proof {
        assert(d.take(n as int - start as int) =~= d);
        assert(is_port_str(s@));
    }
    val as u16
}

/// The configured port for the `PORT` variable's text, absent or present:
/// what the text denotes when it is a port, else the default 3000.
pub fn get_port(p: &Option<String>) -> (r: u16)
    ensures
        r as int == spec_port(opt_text(*p)),
{
    match p {
        Some(s) => parse_port(s.as_str()),
        None => DEFAULT_PORT,
    }
}

} // verus!
