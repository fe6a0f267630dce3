//! Errors: what has failed, and what it failed for.
use vstd::prelude::*;
use crate::text;

verus! {

/// An error. Its text is the message alone; the causes stand behind it, the nearest
/// first.
#[derive(Debug, PartialEq, Eq)]
pub struct Fault {
    pub message: String,
    pub causes: Vec<String>,
}

/// An error, as a mathematical value.
pub struct FaultModel {
    pub message: Seq<char>,
    pub causes: Seq<Seq<char>>,
}

impl View for Fault {
    type V = FaultModel;

    open spec fn view(&self) -> FaultModel {
        FaultModel { message: self.message@, causes: text::texts(self.causes@) }
    }
}

/// An error without a cause.
pub open spec fn plain(message: Seq<char>) -> FaultModel {
    FaultModel { message, causes: Seq::empty() }
}

/// An error that another one has caused.
pub open spec fn caused(message: Seq<char>, cause: FaultModel) -> FaultModel {
    FaultModel { message, causes: seq![cause.message] + cause.causes }
}

impl Fault {
    /// An error without a cause.
    pub fn new(message: &str) -> (r: Self)
        ensures
            r@ == plain(message@),
    {
        let r = Fault { message: message.to_owned(), causes: Vec::new() };
        assert(r@.causes =~= Seq::empty());
        r
    }

    /// An error that this one has caused.
    pub fn context(self, message: &str) -> (r: Self)
        ensures
            r@ == caused(message@, self@),
    {
        let mut causes: Vec<String> = Vec::new();
        causes.push(self.message);
        let mut rest: Vec<String> = self.causes;
        causes.append(&mut rest);
        let r = Fault { message: message.to_owned(), causes };
        assert(r@.causes =~= seq![self@.message] + self@.causes);
        r
    }
}

/// An error keeps all that was known of its cause, and shows only itself.
pub proof fn law_context_hides_and_keeps(message: Seq<char>, cause: FaultModel)
    ensures
        caused(message, cause).message == message,
        caused(message, cause).causes[0] == cause.message,
        caused(message, cause).causes.skip(1) == cause.causes,
{
    assert(caused(message, cause).causes.skip(1) =~= cause.causes);
}

} // verus!
