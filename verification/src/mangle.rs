//! Mangled names: the names under which monomorphised functions, structs, enums and
//! implementation members are emitted, spelled out from a name and the types it is
//! instantiated with.
use vstd::prelude::*;

use crate::ast::TraitBound;
use crate::ast::Type;
use crate::map::lemma_view_decreases;
use crate::map::VecMap;
use crate::name::Name;

verus! {

/// Types built from constructors, functions, tuples, records and arrays only: the types
/// that remain after monomorphisation.
pub open spec fn ground(t: Type) -> bool
    decreases t, 0int,
{
    match t {
        Type::Cons(_, ts) => grounds(ts@),
        Type::Fun(ts, u) => grounds(ts@) && ground(*u),
        Type::Tuple(ts) => grounds(ts@),
        Type::Record(m) => {
            proof {
                lemma_view_decreases(m);
            }
            ground_fields(m@)
        },
        Type::Array(u, _) => ground(*u),
        _ => false,
    }
}

pub open spec fn grounds(ts: Seq<Type>) -> bool
    decreases ts, 0int,
{
    forall|i: int| 0 <= i < ts.len() ==> ground(#[trigger] ts[i])
}

pub open spec fn ground_fields(xts: Seq<(Name, Type)>) -> bool
    decreases xts, 0int,
{
    forall|i: int| 0 <= i < xts.len() ==> ground(#[trigger] xts[i].1)
}

/// The mangled spelling of a type.
pub open spec fn mangled(t: Type) -> Seq<char>
    decreases t, 0int,
{
    match t {
        Type::Cons(x, ts) => x@ + mangled_all(ts@),
        Type::Fun(ts, u) => "Fun"@ + mangled_all(ts@) + mangled(*u) + "End"@,
        Type::Tuple(ts) => "Tuple"@ + mangled_all(ts@) + "End"@,
        Type::Record(m) => {
            proof {
                lemma_view_decreases(m);
            }
            "Record"@ + mangled_fields(m@) + "End"@
        },
        Type::Array(u, _) => "Array"@ + mangled(*u) + "End"@,
        _ => Seq::empty(),
    }
}

/// The mangled spellings of the types, one after the other.
pub open spec fn mangled_all(ts: Seq<Type>) -> Seq<char>
    decreases ts, 0int,
{
    if ts.len() == 0 {
        Seq::empty()
    } else {
        mangled_all(ts.drop_last()) + mangled(ts.last())
    }
}

pub open spec fn mangled_fields(xts: Seq<(Name, Type)>) -> Seq<char>
    decreases xts, 0int,
{
    if xts.len() == 0 {
        Seq::empty()
    } else {
        mangled_fields(xts.drop_last()) + xts.last().0@ + mangled(xts.last().1)
    }
}

/// A mangled name being spelled out.
pub struct Mangler(pub String);

impl Mangler {
    pub fn new() -> (m: Mangler)
        ensures
            m.0@.len() == 0,
    {
        Mangler(String::new())
    }

    pub fn finish(self) -> (x: Name)
        ensures
            x@ == self.0@,
    {
        Name::from_string(self.0)
    }

    pub fn write(&mut self, s: &str)
        ensures
            final(self).0@ == old(self).0@ + s@,
    {
        self.0.append(s);
    }

    pub fn mangle_type(&mut self, t: &Type)
        requires
            ground(*t),
        ensures
            final(self).0@ == old(self).0@ + mangled(*t),
        decreases t, 1int,
    {
        let ghost s0 = self.0@;
        match t {
            Type::Cons(x, ts) => {
                self.write(x.as_str());
                self.mangle_types(ts);
            },
            Type::Fun(ts, u) => {
                self.write("Fun");
                self.mangle_types(ts);
                self.mangle_type(u);
                self.write("End");
            },
            Type::Tuple(ts) => {
                self.write("Tuple");
                self.mangle_types(ts);
                self.write("End");
            },
            Type::Record(m) => {
                proof {
                    lemma_view_decreases(*m);
                }
                self.write("Record");
                self.mangle_fields(m);
                self.write("End");
            },
            Type::Array(u, _) => {
                self.write("Array");
                self.mangle_type(u);
                self.write("End");
            },
            _ => {
                proof {
                    assert(false);
                }
            },
        }
        assert(self.0@ =~= s0 + mangled(*t));
    }

    fn mangle_fields(&mut self, m: &VecMap<Name, Type>)
        requires
            ground_fields(m@),
        ensures
            final(self).0@ == old(self).0@ + mangled_fields(m@),
        decreases m, 0int,
    {
        let ghost s1 = self.0@;
        let xts = m.iter();
        let mut i: usize = 0;
        while i < xts.len()
            invariant
                xts@ == m@,
                ground_fields(m@),
                i <= xts@.len(),
                self.0@ == s1 + mangled_fields(xts@.take(i as int)),
            decreases xts@.len() - i,
        {
            self.write(xts[i].0.as_str());
            proof {
                lemma_view_decreases(*m);
                assert(decreases_to!(*m => m@[i as int]));
                assert(ground(xts@[i as int].1));
            }
            self.mangle_type(&xts[i].1);
            proof {
                let t2 = xts@.take(i + 1);
                assert(t2.drop_last() =~= xts@.take(i as int));
                assert(self.0@ =~= s1 + mangled_fields(t2));
            }
            i = i + 1;
        }
        assert(xts@.take(xts@.len() as int) =~= xts@);
    }

    pub fn mangle_types(&mut self, ts: &Vec<Type>)
        requires
            grounds(ts@),
        ensures
            final(self).0@ == old(self).0@ + mangled_all(ts@),
        decreases ts, 0int,
    {
        let ghost s0 = self.0@;
        let mut i: usize = 0;
        while i < ts.len()
            invariant
                grounds(ts@),
                i <= ts@.len(),
                self.0@ == s0 + mangled_all(ts@.take(i as int)),
            decreases ts@.len() - i,
        {
            assert(ground(ts@[i as int]));
            self.mangle_type(&ts[i]);
            proof {
                let t2 = ts@.take(i + 1);
                assert(t2.drop_last() =~= ts@.take(i as int));
                assert(self.0@ =~= s0 + mangled_all(t2));
            }
            i = i + 1;
        }
        assert(ts@.take(ts@.len() as int) =~= ts@);
    }

    /// The name of a function instantiated with the types `ts`.
    pub fn mangle_fun(x: Name, ts: &Vec<Type>) -> (r: Name)
        requires
            grounds(ts@),
        ensures
            r@ == x@ + mangled_all(ts@),
    {
        let mut m = Mangler::new();
        m.write(x.as_str());
        m.mangle_types(ts);
        m.finish()
    }

    /// The name of a struct instantiated with the types `ts`.
    pub fn mangle_struct(x: Name, ts: &Vec<Type>) -> (r: Name)
        requires
            grounds(ts@),
        ensures
            r@ == x@ + mangled_all(ts@),
    {
        let mut m = Mangler::new();
        m.write(x.as_str());
        m.mangle_types(ts);
        m.finish()
    }

    /// The name of an enum instantiated with the types `ts`.
    pub fn mangle_enum(x: Name, ts: &Vec<Type>) -> (r: Name)
        requires
            grounds(ts@),
        ensures
            r@ == x@ + mangled_all(ts@),
    {
        let mut m = Mangler::new();
        m.write(x.as_str());
        m.mangle_types(ts);
        m.finish()
    }

    /// The name of the definition `x` of an implementation of the trait `tr`, instantiated
    /// with the types `ts`.
    pub fn mangle_trait_impl_def(tr: &TraitBound, x: &Name, ts: &Vec<Type>) -> (r: Name)
        requires
            grounds(tr.types@),
            grounds(ts@),
        ensures
            r@ == tr.name@ + mangled_all(tr.types@) + x@ + mangled_all(ts@),
    {
        let mut m = Mangler::new();
        m.write(tr.name.as_str());
        m.mangle_types(&tr.types);
        m.write(x.as_str());
        m.mangle_types(ts);
        let r = m.finish();
        assert(r@ =~= tr.name@ + mangled_all(tr.types@) + x@ + mangled_all(ts@));
        r
    }

    /// The name of the definition `x` of an implementation for the type `t`, instantiated
    /// with the types `ts`.
    pub fn mangle_type_impl_def(t: &Type, x: &Name, ts: &Vec<Type>) -> (r: Name)
        requires
            ground(*t),
            grounds(ts@),
        ensures
            r@ == mangled(*t) + x@ + mangled_all(ts@),
    {
        let mut m = Mangler::new();
        m.mangle_type(t);
        m.write(x.as_str());
        m.mangle_types(ts);
        let r = m.finish();
        assert(r@ =~= mangled(*t) + x@ + mangled_all(ts@));
        r
    }
}

} // verus!
