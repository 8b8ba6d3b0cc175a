use vstd::prelude::*;

verus! {

/// An identifier of the surface language.
#[derive(Debug)]
pub struct Name {
    pub data: String,
}

impl View for Name {
    type V = Seq<char>;

    open spec fn view(&self) -> Seq<char> {
        self.data@
    }
}

impl Name {
    pub fn from_str(s: &str) -> (n: Name)
        ensures
            n@ == s@,
    {
        Name { data: s.to_owned() }
    }

    pub fn from_string(data: String) -> (n: Name)
        ensures
            n@ == data@,
    {
        Name { data }
    }

    pub fn as_str(&self) -> (s: &str)
        ensures
            s@ == self@,
    {
        self.data.as_str()
    }
}

impl Clone for Name {
    fn clone(&self) -> (r: Self)
        ensures
            r@ == self@,
    {
        Name { data: self.data.clone() }
    }
}

impl PartialEq for Name {
    fn eq(&self, other: &Self) -> (r: bool) {
        self.data == other.data
    }
}

impl Eq for Name {

}

impl vstd::std_specs::cmp::PartialEqSpecImpl for Name {
    open spec fn obeys_eq_spec() -> bool {
        true
    }

    open spec fn eq_spec(&self, other: &Self) -> bool {
        self@ == other@
    }
}

/// Two names are equal exactly when they spell the same characters.
pub proof fn lemma_name_obeys_view_eq()
    ensures
        vstd::laws_eq::obeys_view_eq::<Name>(),
{
    reveal(vstd::laws_eq::obeys_view_eq);
}

} // verus!
