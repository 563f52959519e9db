//! What is fixed when the library is built: the class of result objects and
//! the classes of tuples.

use vstd::prelude::*;

verus! {

/// The type signature of the class of result objects.
pub const RESULT_JNI_SIGNATURE: &'static str = "LResult;";

/// The largest arity for which there is a tuple class.
pub const MAX_TUPLE_ARITY: usize = 12;

/// The type signature of the tuple class of an arity, as a sequence of
/// characters. There is one for each arity up to [`MAX_TUPLE_ARITY`].
pub open spec fn tuple_signature_spec(arity: nat) -> Option<Seq<char>> {
    if arity == 0 {
        Some("LTuple0;"@)
    } else if arity == 1 {
        Some("LTuple1;"@)
    } else if arity == 2 {
        Some("LTuple2;"@)
    } else if arity == 3 {
        Some("LTuple3;"@)
    } else if arity == 4 {
        Some("LTuple4;"@)
    } else if arity == 5 {
        Some("LTuple5;"@)
    } else if arity == 6 {
        Some("LTuple6;"@)
    } else if arity == 7 {
        Some("LTuple7;"@)
    } else if arity == 8 {
        Some("LTuple8;"@)
    } else if arity == 9 {
        Some("LTuple9;"@)
    } else if arity == 10 {
        Some("LTuple10;"@)
    } else if arity == 11 {
        Some("LTuple11;"@)
    } else if arity == 12 {
        Some("LTuple12;"@)
    } else {
        None
    }
}

/// The type signature of the tuple class of an arity.
pub fn tuple_signature(arity: usize) -> (s: Option<&'static str>)
    ensures
        s is Some <==> arity <= MAX_TUPLE_ARITY,
        match s {
            Some(text) => tuple_signature_spec(arity as nat) == Some(text@),
            None => tuple_signature_spec(arity as nat) is None,
        },
{
    match arity {
        0 => Some("LTuple0;"),
        1 => Some("LTuple1;"),
        2 => Some("LTuple2;"),
        3 => Some("LTuple3;"),
        4 => Some("LTuple4;"),
        5 => Some("LTuple5;"),
        6 => Some("LTuple6;"),
        7 => Some("LTuple7;"),
        8 => Some("LTuple8;"),
        9 => Some("LTuple9;"),
        10 => Some("LTuple10;"),
        11 => Some("LTuple11;"),
        12 => Some("LTuple12;"),
        _ => None,
    }
}

} // verus!
