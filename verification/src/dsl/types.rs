//! Common types.
use vstd::prelude::*;

use crate::ast::Type;
use crate::dsl::ty;
use crate::dsl::ty_con;

verus! {

pub fn ty_vec(t: Type) -> (r: Type)
    ensures
        r matches Type::Cons(n, ts) && n@ == "Vec"@ && ts@ == seq![t],
{
    let mut ts = Vec::new();
    ts.push(t);
    ty_con("Vec", ts)
}

pub fn ty_stream(t: Type) -> (r: Type)
    ensures
        r matches Type::Cons(n, ts) && n@ == "Stream"@ && ts@ == seq![t],
{
    let mut ts = Vec::new();
    ts.push(t);
    ty_con("Stream", ts)
}

pub fn ty_i32() -> (r: Type)
    ensures
        r matches Type::Cons(n, ts) && n@ == "i32"@ && ts@.len() == 0,
{
    proof {
        reveal_strlit("i32");
    }
    ty("i32")
}

pub fn ty_i64() -> (r: Type)
    ensures
        r matches Type::Cons(n, ts) && n@ == "i64"@ && ts@.len() == 0,
{
    proof {
        reveal_strlit("i64");
    }
    ty("i64")
}

pub fn ty_bool() -> (r: Type)
    ensures
        r matches Type::Cons(n, ts) && n@ == "bool"@ && ts@.len() == 0,
{
    proof {
        reveal_strlit("bool");
    }
    ty("bool")
}

pub fn ty_f32() -> (r: Type)
    ensures
        r matches Type::Cons(n, ts) && n@ == "f32"@ && ts@.len() == 0,
{
    proof {
        reveal_strlit("f32");
    }
    ty("f32")
}

} // verus!
