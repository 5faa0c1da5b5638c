//! The extraction API: locate a node by path and coerce its text,
//! classifying "absent", "present but unparsable" and "present with value".

use vstd::prelude::*;
use crate::coerce::{bool_of_text, coerce_bool_post, coerce_post, parse_bool_token, Unmarshaller};
use crate::element::{spec_find, Node};
use crate::error::{value_err_matches, Error};

verus! {

/// The error of a required lookup that found no value at `path`.
pub open spec fn required_missing<V>(r: Result<V, Error>, path: Seq<char>) -> bool {
    &&& r matches Err(e)
    &&& e matches Error::ValueNotFound { path: p } && p@ == path
}

/// The outcome of an optional lookup: an absent node, or one without text,
/// is an empty optional and no error; text is coerced by `T`'s parse rule.
pub open spec fn find_optional_post<T: Unmarshaller>(
    root: Node,
    path: Seq<char>,
    r: Result<Option<T>, Error>,
) -> bool {
    match spec_find(root, path) {
        None => r == Ok::<Option<T>, Error>(None),
        Some(e) => match e.text {
            None => r == Ok::<Option<T>, Error>(None),
            Some(t) => if T::accepts(t@) {
                r matches Ok(Some(v)) && T::parsed(t@, v)
            } else {
                value_err_matches(r, t@)
            },
        },
    }
}

/// The outcome of a required lookup: as the optional one, except that an
/// empty optional is promoted to an error carrying the path.
pub open spec fn find_required_post<T: Unmarshaller>(
    root: Node,
    path: Seq<char>,
    r: Result<T, Error>,
) -> bool {
    match spec_find(root, path) {
        None => required_missing(r, path),
        Some(e) => match e.text {
            None => required_missing(r, path),
            Some(t) => if T::accepts(t@) {
                r matches Ok(v) && T::parsed(t@, v)
            } else {
                value_err_matches(r, t@)
            },
        },
    }
}

/// The outcome of a boolean flag lookup: an absent node means the flag is
/// off (`false`, not an error); a node without text means the flag is
/// present and on (`true`); text follows the boolean vocabulary.
pub open spec fn find_bool_post(root: Node, path: Seq<char>, r: Result<bool, Error>) -> bool {
    match spec_find(root, path) {
        None => r == Ok::<bool, Error>(false),
        Some(e) => match e.text {
            None => r == Ok::<bool, Error>(true),
            Some(t) => match bool_of_text(t@) {
                Some(b) => r == Ok::<bool, Error>(b),
                None => value_err_matches(r, t@),
            },
        },
    }
}

/// The extraction operations over an element tree.
pub trait ElementExt: Sized {
    /// The element the operations read; the contracts are stated over it.
    spec fn node(&self) -> Node;

    /// Looks up `path` and coerces the text found there into `T`.
    /// Absence, of the node or of its text, is a valid outcome, not an
    /// error: the optional comes back empty.
    fn find_value0<T: Unmarshaller>(&self, path: &str) -> (r: Result<Option<T>, Error>)
        ensures
            find_optional_post::<T>(self.node(), path@, r),
    ;

    /// Looks up `path` and coerces the text found there into `T`,
    /// requiring a value: where the optional lookup would come back
    /// empty, this is an error carrying the path.
    fn find_value1<T: Unmarshaller>(&self, path: &str) -> (r: Result<T, Error>)
        ensures
            find_required_post::<T>(self.node(), path@, r),
    ;

    /// Reads the boolean flag at `path`: absent means `false`, present
    /// without text means `true`, and text follows the boolean vocabulary.
    fn find_bool(&self, path: &str) -> (r: Result<bool, Error>)
        ensures
            find_bool_post(self.node(), path@, r),
    ;

    /// Coerces this node's text into `out`.  Returns `Ok(false)` and
    /// leaves `out` alone where there is no text, so a caller can keep a
    /// default without treating absence as an error.
    fn unmarshal_into<T: Unmarshaller>(&self, out: &mut T) -> (r: Result<bool, Error>)
        ensures
            coerce_post::<T>(self.node(), *old(out), *final(out), r),
    ;

    /// Coerces this node's text into the boolean `out`.  A node without
    /// text assigns `true`: the bare presence of the empty flag element
    /// is the signal.
    fn unmarshal_bool_into(&self, out: &mut bool) -> (r: Result<bool, Error>)
        ensures
            coerce_bool_post(self.node(), *old(out), *final(out), r),
    ;
}

impl ElementExt for Node {
    open spec fn node(&self) -> Node {
        *self
    }

    fn find_value0<T: Unmarshaller>(&self, path: &str) -> (r: Result<Option<T>, Error>) {
        match self.find(path) {
            Ok(el) => match &el.text {
                None => Ok(None),
                Some(t) => match T::parse_text(t.as_str()) {
                    Ok(v) => Ok(Some(v)),
                    Err(e) => Err(e),
                },
            },
            Err(e) => match e {
                Error::ElementNotFound { .. } => Ok(None),
                other => Err(other),
            },
        }
    }

    fn find_value1<T: Unmarshaller>(&self, path: &str) -> (r: Result<T, Error>) {
        match self.find_value0::<T>(path) {
            Ok(Some(v)) => Ok(v),
            Ok(None) => Err(Error::ValueNotFound { path: path.to_owned() }),
            Err(e) => Err(e),
        }
    }

    fn find_bool(&self, path: &str) -> (r: Result<bool, Error>) {
        match self.find(path) {
            Ok(el) => match &el.text {
                None => Ok(true),
                Some(t) => match parse_bool_token(t.as_str()) {
                    Ok(b) => Ok(b),
                    Err(e) => Err(e),
                },
            },
            Err(e) => match e {
                Error::ElementNotFound { .. } => Ok(false),
                other => Err(other),
            },
        }
    }

    fn unmarshal_into<T: Unmarshaller>(&self, out: &mut T) -> (r: Result<bool, Error>) {
        match &self.text {
            None => Ok(false),
            Some(t) => match T::parse_text(t.as_str()) {
                Ok(v) => {
                    *out = v;
                    Ok(true)
                }
                Err(e) => Err(e),
            },
        }
    }

    fn unmarshal_bool_into(&self, out: &mut bool) -> (r: Result<bool, Error>) {
        match &self.text {
            None => {
                *out = true;
                Ok(true)
            }
            Some(t) => match parse_bool_token(t.as_str()) {
                Ok(v) => {
                    *out = v;
                    Ok(true)
                }
                Err(e) => Err(e),
            },
        }
    }
}

} // verus!
