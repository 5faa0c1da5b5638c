//! Typed coercion of element text: the parse rule of each target type,
//! and what coercion does to a caller-supplied output slot.

use vstd::prelude::*;
use crate::element::Node;
use crate::error::{value_err_matches, Error};
use crate::num::{
    i64_accepts, int_literal_val, lemma_render_parse_round_trip, parse_i64, spec_render_i64,
};
use crate::lookup::ElementExt;
use crate::text::str_eq;

verus! {

/// The boolean reading of a text, over the fixed vocabulary of boolean
/// flags: `"true"` and `"1"` read as true, `"false"` and `"0"` as false,
/// and nothing else is accepted.
pub open spec fn bool_of_text(s: Seq<char>) -> Option<bool> {
    if s == "true"@ || s == "1"@ {
        Some(true)
    } else if s == "false"@ || s == "0"@ {
        Some(false)
    } else {
        None
    }
}

/// The boolean vocabulary, spelled out: each accepted token with its value,
/// and every other text rejected.
pub proof fn lemma_boolean_tokens()
    ensures
        bool_of_text("true"@) == Some(true),
        bool_of_text("1"@) == Some(true),
        bool_of_text("false"@) == Some(false),
        bool_of_text("0"@) == Some(false),
        forall|s: Seq<char>|
            s != "true"@ && s != "1"@ && s != "false"@ && s != "0"@ ==> bool_of_text(s) is None,
{
    reveal_strlit("true");
    reveal_strlit("false");
    reveal_strlit("1");
    reveal_strlit("0");
    assert("true"@.len() == 4);
    assert("false"@.len() == 5);
    assert("1"@.len() == 1);
    assert("0"@.len() == 1);
    assert("0"@[0] == '0' && "1"@[0] == '1');
    assert("0"@ != "1"@);
    assert("false"@ != "true"@ && "false"@ != "1"@);
    assert("0"@ != "true"@);
}

/// A type a node's text can be coerced into.  `accepts` and `parsed` are
/// the type's parse rule; `absent_text_value` is what a node without text
/// assigns, `None` for every plain type, and an implicit `true` for `bool`,
/// where the bare presence of an empty flag element is the signal.
pub trait Unmarshaller: Sized {
    /// The texts this type's parse rule accepts.
    spec fn accepts(s: Seq<char>) -> bool;

    /// Whether `v` is the value that the accepted text `s` parses to.
    spec fn parsed(s: Seq<char>, v: Self) -> bool;

    /// The value a node without text assigns, if any.
    spec fn absent_text_value() -> Option<Self>;

    /// Parses a value of this type out of text, failing with an error that
    /// names the text on anything the parse rule rejects.
    fn parse_text(s: &str) -> (r: Result<Self, Error>)
        ensures
            Self::accepts(s@) ==> (r matches Ok(v) && Self::parsed(s@, v)),
            !Self::accepts(s@) ==> value_err_matches(r, s@),
    ;

    /// Assigns to `self` the value that `node`'s text coerces to: no text
    /// assigns `absent_text_value` where the type has one and otherwise
    /// leaves `self` alone reporting `Ok(false)`; accepted text assigns the
    /// parsed value; rejected text is an error naming it, `self` unchanged.
    fn unmarshal_from(&mut self, node: &Node) -> (r: Result<bool, Error>)
        ensures
            match node.text {
                None => match Self::absent_text_value() {
                    None => r == Ok::<bool, Error>(false) && *final(self) == *old(self),
                    Some(v) => r == Ok::<bool, Error>(true) && *final(self) == v,
                },
                Some(t) => if Self::accepts(t@) {
                    r == Ok::<bool, Error>(true) && Self::parsed(t@, *final(self))
                } else {
                    value_err_matches(r, t@) && *final(self) == *old(self)
                },
            },
    ;
}

/// The outcome of plain coercion of `node`'s text into a slot that held
/// `prev` and now holds `now`: no text leaves the slot unchanged and
/// reports `Ok(false)`; accepted text assigns the parsed value and reports
/// `Ok(true)`; rejected text is an error naming it, the slot unchanged.
pub open spec fn coerce_post<T: Unmarshaller>(
    node: Node,
    prev: T,
    now: T,
    r: Result<bool, Error>,
) -> bool {
    match node.text {
        None => r == Ok::<bool, Error>(false) && now == prev,
        Some(t) => if T::accepts(t@) {
            r == Ok::<bool, Error>(true) && T::parsed(t@, now)
        } else {
            value_err_matches(r, t@) && now == prev
        },
    }
}

/// The outcome of boolean coercion of `node`'s text into a slot that held
/// `prev` and now holds `now`: no text assigns `true`, since the bare
/// presence of an empty flag element is the signal; a token of the boolean
/// vocabulary assigns its value; any other text is an error naming it,
/// the slot unchanged.
pub open spec fn coerce_bool_post(
    node: Node,
    prev: bool,
    now: bool,
    r: Result<bool, Error>,
) -> bool {
    match node.text {
        None => r == Ok::<bool, Error>(true) && now == true,
        Some(t) => match bool_of_text(t@) {
            Some(b) => r == Ok::<bool, Error>(true) && now == b,
            None => value_err_matches(r, t@) && now == prev,
        },
    }
}

/// Round trip: coercing a text element that was built from the decimal
/// text of an integer, as the construction helper builds it, assigns that
/// integer back and reports a value present.
pub proof fn lemma_text_element_round_trip(
    e: Node,
    v: i64,
    prev: i64,
    now: i64,
    r: Result<bool, Error>,
)
    requires
        e.text matches Some(t) && t@ == spec_render_i64(v as int),
        coerce_post::<i64>(e, prev, now, r),
    ensures
        r == Ok::<bool, Error>(true),
        now == v,
{
    lemma_render_parse_round_trip(v);
}

/// Reads a token of the boolean vocabulary, failing with an error that
/// names the text on anything else.
pub fn parse_bool_token(s: &str) -> (r: Result<bool, Error>)
    ensures
        match bool_of_text(s@) {
            Some(b) => r == Ok::<bool, Error>(b),
            None => value_err_matches(r, s@),
        },
{
    proof {
        reveal_strlit("true");
        reveal_strlit("false");
        reveal_strlit("1");
        reveal_strlit("0");
    }
    if str_eq(s, "true") || str_eq(s, "1") {
        Ok(true)
    } else if str_eq(s, "false") || str_eq(s, "0") {
        Ok(false)
    } else {
        Err(Error::ValueFromStr { t: s.to_owned() })
    }
}

impl Unmarshaller for i64 {
    open spec fn accepts(s: Seq<char>) -> bool {
        i64_accepts(s)
    }

    open spec fn parsed(s: Seq<char>, v: i64) -> bool {
        v as int == int_literal_val(s)
    }

    open spec fn absent_text_value() -> Option<i64> {
        None
    }

    fn parse_text(s: &str) -> (r: Result<i64, Error>) {
        parse_i64(s)
    }

    fn unmarshal_from(&mut self, node: &Node) -> (r: Result<bool, Error>) {
        match &node.text {
            None => Ok(false),
            Some(t) => match parse_i64(t.as_str()) {
                Ok(v) => {
                    *self = v;
                    Ok(true)
                }
                Err(e) => Err(e),
            },
        }
    }
}

impl Unmarshaller for String {
    open spec fn accepts(s: Seq<char>) -> bool {
        true
    }

    open spec fn parsed(s: Seq<char>, v: String) -> bool {
        v@ == s
    }

    open spec fn absent_text_value() -> Option<String> {
        None
    }

    fn parse_text(s: &str) -> (r: Result<String, Error>) {
        Ok(s.to_owned())
    }

    fn unmarshal_from(&mut self, node: &Node) -> (r: Result<bool, Error>) {
        match &node.text {
            None => Ok(false),
            Some(t) => {
                *self = t.as_str().to_owned();
                Ok(true)
            }
        }
    }
}

impl Unmarshaller for bool {
    open spec fn accepts(s: Seq<char>) -> bool {
        bool_of_text(s) is Some
    }

    open spec fn parsed(s: Seq<char>, v: bool) -> bool {
        bool_of_text(s) == Some(v)
    }

    open spec fn absent_text_value() -> Option<bool> {
        Some(true)
    }

    fn parse_text(s: &str) -> (r: Result<bool, Error>) {
        parse_bool_token(s)
    }

    fn unmarshal_from(&mut self, node: &Node) -> (r: Result<bool, Error>) {
        match &node.text {
            None => {
                *self = true;
                Ok(true)
            }
            Some(t) => match parse_bool_token(t.as_str()) {
                Ok(v) => {
                    *self = v;
                    Ok(true)
                }
                Err(e) => Err(e),
            },
        }
    }
}

} // verus!
