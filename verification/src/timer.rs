//! The decisions of the timer functions: the clock is read by the caller,
//! the library checks the argument and measures the interval.

use vstd::prelude::*;
use crate::net::value::{model, Value, ValueModel};

verus! {

/// The start mark passed as the first argument, when it is an integer.
pub open spec fn start_mark(args: Seq<Value>) -> Option<int> {
    if args.len() > 0 {
        match args[0] {
            Value::Int(n) => Some(n as int),
            _ => None,
        }
    } else {
        None
    }
}

/// How much time passed from the start mark (the first argument) to `now`,
/// in the same unit; never below zero. Anything but an integer as the first
/// argument is an error.
pub fn elapsed_since(args: &[Value], now: i64) -> (r: Result<Value, String>)
    requires
        start_mark(args@) matches Some(s) ==> i64::MIN <= now - s <= i64::MAX,
    ensures
        match start_mark(args@) {
            Some(s) => r matches Ok(v) && model(v) == ValueModel::Int(
                if now - s > 0 { now - s } else { 0 },
            ),
            None => r matches Err(e) && e@ == "Ожидается целое значение"@,
        },
{
    if args.len() > 0 {
        if let Value::Int(start) = &args[0] {
            let d = now - *start;
            return Ok(Value::Int(if d > 0 { d } else { 0 }));
        }
    }
    Err("Ожидается целое значение".to_string())
}

} // verus!
