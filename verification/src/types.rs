//! Base value types shared by the domain records: financial-service-provider
//! ids, ISO 4217 currency codes, timestamps, decimal amounts.
//!
//! All of them are plain validated strings, so that contracts can speak of
//! their character content directly.

use vstd::prelude::*;

verus! {

/// A financial service provider identifier (an opaque string on the wire).
#[derive(Debug, Clone)]
pub struct FspId(pub String);

impl View for FspId {
    type V = Seq<char>;

    open spec fn view(&self) -> Seq<char> {
        self.0@
    }
}

/// An ISO 4217 currency code: exactly three ASCII upper-case letters.
#[derive(Debug, Clone)]
pub struct Currency(String);

/// The well-formedness of a currency code's character content.
pub open spec fn valid_currency(s: Seq<char>) -> bool {
    s.len() == 3 && forall|i: int| 0 <= i < s.len() ==> 'A' <= #[trigger] s[i] <= 'Z'
}

impl View for Currency {
    type V = Seq<char>;

    closed spec fn view(&self) -> Seq<char> {
        self.0@
    }
}

impl Currency {
    pub open spec fn wf(&self) -> bool {
        valid_currency(self@)
    }

    /// Accepts exactly a three-letter upper-case code.
    pub fn from_code(code: &str) -> (r: Option<Currency>)
        ensures
            match r {
                Some(c) => c.wf() && c@ == code@,
                None => !valid_currency(code@),
            },
    {
        let len = code.unicode_len();
        if len != 3 {
            return None;
        }
        let mut i: usize = 0;
        while i < 3
            invariant
                i <= 3,
                code@.len() == 3,
                forall|j: int| 0 <= j < i ==> 'A' <= #[trigger] code@[j] <= 'Z',
            decreases 3 - i,
        {
            let c = code.get_char(i);
            if !('A' <= c && c <= 'Z') {
                return None;
            }
            i += 1;
        }
        Some(Currency(code.to_owned()))
    }

    pub fn code(&self) -> (r: &str)
        ensures
            r@ == self@,
    {
        self.0.as_str()
    }
}

/// A timestamp, carried as the wire's string form (e.g. an RFC 3339 instant).
/// The layer transports it without interpreting it.
#[derive(Debug, Clone)]
pub struct DateTime(pub String);

impl View for DateTime {
    type V = Seq<char>;

    open spec fn view(&self) -> Seq<char> {
        self.0@
    }
}

/// A correlation id (a UUID on the wire), transported uninterpreted.
#[derive(Debug, Clone)]
pub struct CorrelationId(pub String);

impl View for CorrelationId {
    type V = Seq<char>;

    open spec fn view(&self) -> Seq<char> {
        self.0@
    }
}

/// A decimal amount, carried as its exact digit string: an optional minus
/// sign, an integer part, and an optional fractional part.
#[derive(Debug, Clone)]
pub struct Amount(String);

pub open spec fn is_digit(c: char) -> bool {
    '0' <= c <= '9'
}

/// All characters of `s` in `[lo, hi)` are decimal digits, and the range is
/// non-empty.
pub open spec fn all_digits(s: Seq<char>, lo: int, hi: int) -> bool {
    lo < hi <= s.len() && forall|i: int| lo <= i < hi ==> is_digit(#[trigger] s[i])
}

/// The shape of a decimal amount string: `-?[0-9]+(\.[0-9]+)?`.
pub open spec fn valid_amount(s: Seq<char>) -> bool {
    let start: int = if s.len() > 0 && s[0] == '-' {
        1
    } else {
        0
    };
    ||| all_digits(s, start, s.len() as int)
    ||| exists|dot: int|
        start <= dot < s.len() && s[dot] == '.' && all_digits(s, start, dot) && all_digits(
            s,
            dot + 1,
            s.len() as int,
        )
}

impl View for Amount {
    type V = Seq<char>;

    closed spec fn view(&self) -> Seq<char> {
        self.0@
    }
}

impl Amount {
    pub open spec fn wf(&self) -> bool {
        valid_amount(self@)
    }

    /// Accepts exactly the decimal shape `-?[0-9]+(\.[0-9]+)?`.
    pub fn from_decimal_str(s: &str) -> (r: Option<Amount>)
        ensures
            match r {
                Some(a) => a.wf() && a@ == s@,
                None => !valid_amount(s@),
            },
    {
        let len = s.unicode_len();
        let start: usize = if len > 0 && s.get_char(0) == '-' {
            1
        } else {
            0
        };
        if len == start {
            return None;
        }
        let mut i: usize = start;
        let mut dot: Option<usize> = None;
        while i < len
            invariant
                start <= i <= len,
                len == s@.len(),
                start as int == (if s@.len() > 0 && s@[0] == '-' {
                    1int
                } else {
                    0int
                }),
                match dot {
                    Some(d) => {
                        &&& start < d < i
                        &&& s@[d as int] == '.'
                        &&& forall|j: int| start <= j < d ==> is_digit(#[trigger] s@[j])
                        &&& forall|j: int| d < j < i ==> is_digit(#[trigger] s@[j])
                    },
                    None => forall|j: int| start <= j < i ==> is_digit(#[trigger] s@[j]),
                },
            decreases len - i,
        {
            let c = s.get_char(i);
            if '0' <= c && c <= '9' {
            } else if c == '.' && dot.is_none() && i > start {
                dot = Some(i);
            } else {
                proof {
                    let sv = s@;
                    let sti = start as int;
                    let pi = i as int;
                    assert forall|dj: int|
                        sti <= dj < sv.len() && sv[dj] == '.' implies !(all_digits(sv, sti, dj)
                        && all_digits(sv, dj + 1, sv.len() as int)) by {
                        if c != '.' {
                            if dj < pi {
                                assert(!is_digit(sv[pi]));
                            } else if dj == pi {
                                assert(sv[pi] != '.');
                            } else {
                                assert(!is_digit(sv[pi]));
                            }
                        } else if i == start {
                            if dj > sti {
                                assert(!is_digit(sv[sti]));
                            }
                        } else {
                            match dot {
                                Some(d) => {
                                    let di = d as int;
                                    if dj < pi {
                                        assert(!is_digit(sv[pi]));
                                    } else if dj == pi {
                                        assert(!is_digit(sv[di]));
                                    } else {
                                        assert(!is_digit(sv[pi]));
                                    }
                                },
                                None => {
                                    assert(false);
                                },
                            }
                        }
                    }
                    assert(!all_digits(sv, sti, sv.len() as int));
                }
                return None;
            }
            i += 1;
        }
        if let Some(d) = dot {
            if d + 1 == len {
                proof {
                    let sv = s@;
                    let sti = start as int;
                    let di = d as int;
                    assert forall|dj: int|
                        sti <= dj < sv.len() && sv[dj] == '.' implies !(all_digits(sv, sti, dj)
                        && all_digits(sv, dj + 1, sv.len() as int)) by {
                        if dj < di {
                            assert(!is_digit(sv[di]));
                        }
                    }
                    assert(!all_digits(sv, sti, sv.len() as int));
                }
                return None;
            }
        }
        proof {
            match dot {
                Some(d) => {
                    assert(all_digits(s@, start as int, d as int));
                    assert(all_digits(s@, d + 1, s@.len() as int));
                },
                None => {
                    assert(all_digits(s@, start as int, s@.len() as int));
                },
            }
        }
        Some(Amount(s.to_owned()))
    }

    pub fn digits(&self) -> (r: &str)
        ensures
            r@ == self@,
    {
        self.0.as_str()
    }
}

/// A monetary value: an amount together with its currency, as the FSPIOP
/// `Money` object carries it on the wire.
#[derive(Debug, Clone)]
pub struct Money {
    pub currency: Currency,
    pub amount: Amount,
}

impl Money {
    pub open spec fn wf(&self) -> bool {
        self.currency.wf() && self.amount.wf()
    }
}

} // verus!
