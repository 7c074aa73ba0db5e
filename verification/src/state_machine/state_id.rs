use vstd::prelude::*;
use vstd::std_specs::cmp::PartialEqSpecImpl;
use vstd::std_specs::convert::FromSpecImpl;

verus! {

/// The name of a state in a state machine. Two ids are the same id exactly
/// when their texts are equal.
#[derive(Debug, Hash)]
pub struct StateID(pub String);

impl View for StateID {
    type V = Seq<char>;

    open spec fn view(&self) -> Seq<char> {
        self.0@
    }
}

impl StateID {
    /// The text of the id.
    pub fn as_str(&self) -> (text: &str)
        ensures
            text@ == self@,
    {
        self.0.as_str()
    }
}

impl Clone for StateID {
    fn clone(&self) -> (copy: Self)
        ensures
            copy == *self,
    {
        StateID(self.0.clone())
    }
}

impl PartialEq for StateID {
    fn eq(&self, other: &Self) -> (same: bool) {
        self.0 == other.0
    }
}

impl PartialEqSpecImpl for StateID {
    open spec fn obeys_eq_spec() -> bool {
        true
    }

    open spec fn eq_spec(&self, other: &Self) -> bool {
        self@ == other@
    }
}

impl Eq for StateID {

}

impl From<String> for StateID {
    fn from(value: String) -> (id: Self) {
        StateID(value)
    }
}

impl FromSpecImpl<String> for StateID {
    open spec fn obeys_from_spec() -> bool {
        true
    }

    open spec fn from_spec(value: String) -> Self {
        StateID(value)
    }
}

/// The text of an optional id.
pub open spec fn id_text(id: Option<StateID>) -> Option<Seq<char>> {
    match id {
        Some(id) => Some(id@),
        None => None,
    }
}

} // verus!
