//! The handshake wire protocol: the numeric action codes a client may send
//! as its first message, the decimal parser that reads them, the taxonomy of
//! per-connection failures, and the acknowledgement payload sent after a
//! successful join.

use vstd::prelude::*;

verus! {

/// A decimal digit, by code point.
pub open spec fn is_decimal_digit(c: char) -> bool {
    48 <= c as int && c as int <= 57
}

/// The numeric value of one decimal digit.
pub open spec fn digit_value(c: char) -> int {
    c as int - 48
}

pub open spec fn all_digits(s: Seq<char>) -> bool {
    forall|i: int| 0 <= i < s.len() ==> is_decimal_digit(s[i])
}

/// The value of a digit string read left to right.
pub open spec fn decimal_value(s: Seq<char>) -> int
    decreases s.len(),
{
    if s.len() == 0 {
        0
    } else {
        decimal_value(s.drop_last()) * 10 + digit_value(s.last())
    }
}

/// The body of a numeric message once an optional leading `+` sign is gone.
pub open spec fn digits_of(s: Seq<char>) -> Seq<char> {
    if s.len() > 0 && s[0] == '+' {
        s.subrange(1, s.len() as int)
    } else {
        s
    }
}

/// What counts as a well-formed unsigned 16-bit message body: an optional
/// leading `+`, then one or more decimal digits, whose value fits in 16 bits.
/// This is the grammar `str::parse::<u16>` accepts.
pub open spec fn parse_u16_spec(s: Seq<char>) -> Option<u16> {
    let d = digits_of(s);
    if d.len() >= 1 && all_digits(d) && decimal_value(d) <= u16::MAX {
        Some(decimal_value(d) as u16)
    } else {
        None
    }
}

proof fn lemma_decimal_value_nonneg(s: Seq<char>)
    requires
        all_digits(s),
    ensures
        decimal_value(s) >= 0,
    decreases s.len(),
{
    if s.len() > 0 {
        assert(all_digits(s.drop_last()));
        lemma_decimal_value_nonneg(s.drop_last());
    }
}

/// A digit string is worth at least any of its prefixes: appending digits
/// never lowers the value.
proof fn lemma_decimal_value_prefix_le(s: Seq<char>, i: int)
    requires
        all_digits(s),
        0 <= i <= s.len(),
    ensures
        decimal_value(s.subrange(0, i)) <= decimal_value(s),
    decreases s.len() - i,
{
    if i == s.len() {
        assert(s.subrange(0, i) =~= s);
    } else {
        let p = s.subrange(0, i);
        let q = s.subrange(0, i + 1);
        assert(q.drop_last() =~= p);
        assert(all_digits(p));
        lemma_decimal_value_nonneg(p);
        assert(decimal_value(q) == decimal_value(p) * 10 + digit_value(s[i]));
        assert(decimal_value(p) <= decimal_value(q));
        lemma_decimal_value_prefix_le(s, i + 1);
    }
}

/// Reads an unsigned 16-bit integer from a text message, accepting exactly
/// the bodies `parse_u16_spec` accepts.
pub fn parse_u16(s: &str) -> (r: Option<u16>)
    ensures
        r == parse_u16_spec(s@),
{
    let n = s.unicode_len();
    let start: usize = if n > 0 && s.get_char(0) == '+' {
        1
    } else {
        0
    };
    proof {
        assert(digits_of(s@) =~= s@.subrange(start as int, n as int));
    }
    if start >= n {
        return None;
    }
    let ghost d = digits_of(s@);
    let mut acc: u16 = 0;
    let mut i: usize = start;
    while i < n
        invariant
            start <= i <= n,
            n == s@.len(),
            d == digits_of(s@),
            d =~= s@.subrange(start as int, n as int),
            all_digits(s@.subrange(start as int, i as int)),
            acc as int == decimal_value(s@.subrange(start as int, i as int)),
        decreases n - i,
    {
        let c = s.get_char(i);
        let cp = c as u32;
        let ghost p = s@.subrange(start as int, i as int);
        let ghost q = s@.subrange(start as int, i as int + 1);
        proof {
            assert(q.drop_last() =~= p);
        }
        if cp < 48 || cp > 57 {
            proof {
                assert(!is_decimal_digit(d[i - start as int]));
            }
            return None;
        }
        let dv: u32 = cp - 48;
        let next: u32 = acc as u32 * 10 + dv;
        if next > 65535 {
            proof {
                assert(decimal_value(q) == next as int);
                if all_digits(d) {
                    lemma_decimal_value_prefix_le(d, i as int + 1 - start as int);
                    assert(d.subrange(0, i as int + 1 - start as int) =~= q);
                    assert(decimal_value(d) > u16::MAX);
                }
            }
            return None;
        }
        acc = next as u16;
        i = i + 1;
        proof {
            assert(s@.subrange(start as int, i as int) =~= q);
        }
    }
    proof {
        assert(s@.subrange(start as int, n as int) =~= d);
        assert(d.len() >= 1);
        assert(all_digits(d));
        assert(decimal_value(d) == acc as int);
    }
    Some(acc)
}

/// The action codes a client may name in its handshake message. `Join` is
/// the only admission code the core reserves.
#[derive(Clone, Copy, Debug, PartialEq, Eq, Structural)]
pub enum CrapsAction {
    Join,
}

impl CrapsAction {
    /// The numeric code this action travels as on the wire.
    pub open spec fn spec_code(self) -> u16 {
        match self {
            CrapsAction::Join => 0,
        }
    }

    #[verifier::when_used_as_spec(spec_code)]
    pub fn code(self) -> (c: u16)
        ensures
            c == self.spec_code(),
    {
        match self {
            CrapsAction::Join => 0,
        }
    }

    /// The action a numeric code names, if it names one.
    pub fn from_code(code: u16) -> (r: Option<CrapsAction>)
        ensures
            r == if code == CrapsAction::Join.spec_code() {
                Some(CrapsAction::Join)
            } else {
                None::<CrapsAction>
            },
    {
        if code == 0 {
            Some(CrapsAction::Join)
        } else {
            None
        }
    }
}

/// Why a connection failed to become (or stay) a session. Every variant is
/// scoped to the one connection: it closes, and nothing else is affected.
#[derive(Clone, Copy, Debug, PartialEq, Eq, Structural)]
pub enum HandshakeError {
    /// The connection closed before any message arrived.
    ClosedBeforeMessage,
    /// The first message was not a well-formed unsigned 16-bit integer.
    NonNumeric,
    /// The first message was numeric but named no admission action.
    WrongActionCode,
    /// The freshly generated identity was already registered; the connection
    /// is rejected rather than overwriting the existing session.
    IdentityCollision,
}

/// The exact acknowledgement body sent after a successful join: a JSON
/// object echoing the join action code and an empty message.
pub open spec fn join_ack_text() -> Seq<char> {
    "{\"action\":\"0\",\"message\":\"\"}"@
}

/// Builds the acknowledgement payload for a successful join.
pub fn join_ack() -> (r: String)
    ensures
        r@ == join_ack_text(),
{
    "{\"action\":\"0\",\"message\":\"\"}".to_owned()
}

} // verus!
