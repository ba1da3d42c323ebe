//! The rules of the connection form that do not depend on the connection
//! profile: how the port field is read and how a new connection is named.
use crate::chars::str_chars;
use vstd::prelude::*;

verus! {

/// The port used when the port field does not hold a port number.
pub const DEFAULT_PORT: u16 = 5432;

/// Whether every char of `s` is an ASCII digit.
pub open spec fn all_digits(s: Seq<char>) -> bool {
    forall|i: int| 0 <= i < s.len() ==> '0' <= #[trigger] s[i] <= '9'
}

/// The number that the ASCII digits `s` write in decimal.
pub open spec fn digits_value(s: Seq<char>) -> nat
    decreases s.len(),
{
    if s.len() == 0 {
        0
    } else {
        digits_value(s.drop_last()) * 10 + (s.last() as nat - '0' as nat) as nat
    }
}

/// A port number written as an optional `+` followed by one or more ASCII
/// digits, with a value of at most 65535; nothing else (no sign `-`, no
/// spaces, no underscores) is one.
pub open spec fn parse_port(s: Seq<char>) -> Option<u16> {
    let d = if s.len() > 0 && s[0] == '+' {
        s.drop_first()
    } else {
        s
    };
    if d.len() > 0 && all_digits(d) && digits_value(d) <= 65535 {
        Some(digits_value(d) as u16)
    } else {
        None
    }
}

/// Appending a digit never makes the value smaller.
proof fn lemma_digits_value_grows(s: Seq<char>, k: int)
    requires
        0 <= k <= s.len(),
        all_digits(s),
    ensures
        digits_value(s.take(k)) <= digits_value(s),
    decreases s.len() - k,
{
    if k < s.len() {
        lemma_digits_value_grows(s, k + 1);
        assert(s.take(k + 1).drop_last() =~= s.take(k));
        assert(s.take(k + 1).last() == s[k]);
    } else {
        assert(s.take(k) =~= s);
    }
}

/// The port the form's port field asks for: its text read as a port
/// number, or the default port when it is not one.
pub fn port_or_default(text: &str) -> (port: u16)
    ensures
        port == match parse_port(text@) {
            Some(p) => p,
            None => DEFAULT_PORT,
        },
{
    let chars = str_chars(text);
    let n = chars.len();
    let start: usize = if n > 0 && chars[0] == '+' {
        1
    } else {
        0
    };
    let ghost d = if text@.len() > 0 && text@[0] == '+' {
        text@.drop_first()
    } else {
        text@
    };
    proof {
        assert(d =~= chars@.skip(start as int));
    }
    if start == n {
        return DEFAULT_PORT;
    }
    let mut value: u32 = 0;
    let mut i: usize = start;
    while i < n
        invariant
            start <= i <= n == chars@.len(),
            d == chars@.skip(start as int),
            d == (if text@.len() > 0 && text@[0] == '+' {
                text@.drop_first()
            } else {
                text@
            }),
            chars@ == text@,
            all_digits(d.take(i - start)),
            value == digits_value(d.take(i - start)),
            value <= 65535,
        decreases n - i,
    {
        let c = chars[i];
        if c < '0' || c > '9' {
            proof {
                assert(d[i - start] == c);
                assert(!('0' <= d[i - start] <= '9'));
                assert(!all_digits(d));
                assert(parse_port(text@) is None);
            }
            return DEFAULT_PORT;
        }
        let digit = (c as u32) - ('0' as u32);
        let next = value * 10 + digit;
        proof {
            let t = d.take(i - start + 1);
            assert(t.drop_last() =~= d.take(i - start));
            assert(t.last() == c);
            assert(forall|k: int| 0 <= k < t.len() ==> '0' <= #[trigger] t[k] <= '9');
        }
        if next > 65535 {
            proof {
                let k = i - start + 1;
                assert(digits_value(d.take(k)) == next);
                if all_digits(d) {
                    lemma_digits_value_grows(d, k);
                }
                assert(parse_port(text@) is None);
            }
            return DEFAULT_PORT;
        }
        value = next;
        i += 1;
    }
    proof {
        assert(d.take(n - start) =~= d);
    }
    value as u16
}

/// The name a new connection gets: `database@host`.
pub fn connection_name(database: &str, host: &str) -> (name: String)
    ensures
        name@ == database@ + seq!['@'] + host@,
{
    let mut name = database.to_owned();
    name.append("@");
    name.append(host);
    proof {
        reveal_strlit("@");
    }
    name
}

} // verus!
