//! Path parameters extracted by a router, and the conversion of one raw
//! parameter into a typed value.

use vstd::prelude::*;

use crate::bytes::{parse_usize, sub_vec};
use crate::error::RequestError;

verus! {

/// The raw values of a route's path parameters, in route order, as a
/// router extracted them from the request path.
pub struct Params {
    pub values: Vec<Vec<u8>>,
}

impl Params {
    pub fn new(values: Vec<Vec<u8>>) -> (r: Params)
        ensures
            r.values@ == values@,
    {
        Params { values }
    }

    /// The raw parameter at `index`, if the route captured that many.
    pub fn parameter<'a>(&'a self, index: usize) -> (r: Option<&'a Vec<u8>>)
        ensures
            r is Some <==> index < self.values@.len(),
            r matches Some(v) ==> v@ == self.values@[index as int]@,
    {
        if index < self.values.len() {
            Some(&self.values[index])
        } else {
            None
        }
    }
}

/// Conversion of one raw path parameter into a typed value. Route
/// handlers implement it for the types their paths carry; a value that
/// cannot be read from the raw bytes is an invalid parameter.
pub trait ToParameter where Self: Sized {
    /// Convert the raw bytes of one path parameter.
    fn to_parameter(raw: &Vec<u8>) -> Result<Self, RequestError>;
}

impl ToParameter for Vec<u8> {
    fn to_parameter(raw: &Vec<u8>) -> Result<Vec<u8>, RequestError> {
        Ok(sub_vec(raw, 0, raw.len()))
    }
}

impl ToParameter for usize {
    fn to_parameter(raw: &Vec<u8>) -> Result<usize, RequestError> {
        match parse_usize(raw) {
            Some(n) => Ok(n),
            None => Err(RequestError::InvalidParameter),
        }
    }
}

} // verus!
