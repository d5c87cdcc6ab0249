//! The values of the bar query surface.

use crate::olhc::OLHC;
use crate::price::Price;
use crate::text::push_char;
use vstd::prelude::*;

verus! {

/// The query of the latest bar: exchange and market, each optional.
#[derive(Debug)]
pub struct LastMinParams {
    pub exchange: Option<String>,
    pub market: Option<String>,
}

/// The latest bar, as the query answers it.
#[derive(Debug, PartialEq, Eq)]
pub struct LastMinResponse {
    pub open: Price,
    pub close: Price,
    pub min: Price,
    pub max: Price,
}

/// A character that a `LIKE` pattern treats specially.
pub open spec fn is_like_special(c: char) -> bool {
    c == '\\' || c == '%' || c == '_'
}

/// A `LIKE` pattern that matches exactly `s`: each `\`, `%` and `_` gets a
/// `\` before it.
pub open spec fn like_literal(s: Seq<char>) -> Seq<char>
    decreases s.len(),
{
    if s.len() == 0 {
        s
    } else if is_like_special(s.last()) {
        like_literal(s.drop_last()).push('\\').push(s.last())
    } else {
        like_literal(s.drop_last()).push(s.last())
    }
}

/// The `LIKE` pattern that matches exactly the given text, or the empty
/// text where there is none.
pub fn like_pattern(t: &Option<String>) -> (r: String)
    ensures
        match t {
            Some(x) => r@ == like_literal(x@),
            None => r@.len() == 0,
        },
{
    let mut out = String::new();
    match t {
        Some(x) => {
            let s = x.as_str();
            let n = s.unicode_len();
            let mut i: usize = 0;
            proof {
                assert(s@.take(0) =~= Seq::<char>::empty());
            }
            while i < n
                invariant
                    n == s@.len(),
                    i <= n,
                    out@ == like_literal(s@.take(i as int)),
                decreases n - i,
            {
                let c = s.get_char(i);
                proof {
                    assert(s@.take(i + 1).drop_last() =~= s@.take(i as int));
                }
                if c == '\\' || c == '%' || c == '_' {
                    push_char(&mut out, '\\');
                }
                push_char(&mut out, c);
                i = i + 1;
            }
            proof {
                assert(s@.take(n as int) =~= s@);
            }
            out
        },
        None => out,
    }
}

impl LastMinParams {
    /// The `LIKE` patterns for the exchange and the market: each matches its
    /// text exactly (the match is made without regard to case); a missing one
    /// matches only the empty text.
    pub fn patterns(&self) -> (r: (String, String))
        ensures
            match self.exchange {
                Some(x) => r.0@ == like_literal(x@),
                None => r.0@.len() == 0,
            },
            match self.market {
                Some(x) => r.1@ == like_literal(x@),
                None => r.1@.len() == 0,
            },
    {
        (like_pattern(&self.exchange), like_pattern(&self.market))
    }
}

impl LastMinResponse {
    /// The answer for a stored bar.
    pub fn from_bar(bar: &OLHC) -> (r: LastMinResponse)
        ensures
            r.open@ == bar.open@,
            r.close@ == bar.close@,
            r.min@ == bar.min@,
            r.max@ == bar.max@,
    {
        LastMinResponse {
            open: bar.open.copy(),
            close: bar.close.copy(),
            min: bar.min.copy(),
            max: bar.max.copy(),
        }
    }
}

} // verus!
