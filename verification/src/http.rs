//! The few pieces of HTTP that both listeners share.

use vstd::prelude::*;

verus! {

/// The request header that carries the client's validator.
pub const IF_NONE_MATCH: &'static str = "if-none-match";

/// The request header that says which encodings the client accepts.
pub const ACCEPT_ENCODING: &'static str = "accept-encoding";

/// One response header.
#[derive(Debug)]
pub struct Header {
    pub name: &'static str,
    pub value: String,
}

/// Headers as pairs of name and value, in their order.
pub open spec fn header_pairs(headers: Seq<Header>) -> Seq<(Seq<char>, Seq<char>)> {
    Seq::new(headers.len(), |i: int| (headers[i].name@, headers[i].value@))
}

/// The value of the first header called `name`, if there is one.
pub open spec fn header_value(headers: Seq<(Seq<char>, Seq<char>)>, name: Seq<char>) -> Option<
    Seq<char>,
>
    decreases headers.len(),
{
    if headers.len() == 0 {
        None
    } else if headers[0].0 == name {
        Some(headers[0].1)
    } else {
        header_value(headers.drop_first(), name)
    }
}

} // verus!
