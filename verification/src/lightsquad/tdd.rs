//! Test-driven generation: test assertion stubs, committed before any
//! production code, one per acceptance criterion.
use vstd::prelude::*;

verus! {

/// One test assertion stub: an acceptance criterion and the test that will
/// verify it.
#[derive(Debug, Clone, PartialEq)]
#[non_exhaustive]
pub struct TestAssertion {
    /// The acceptance criterion this assertion validates.
    pub criterion: String,
    /// The test function name or describe block that verifies it.
    pub test_stub: String,
}

impl TestAssertion {
    /// A new test assertion stub.
    pub fn new(criterion: String, test_stub: String) -> (r: Self)
        ensures
            r.criterion == criterion,
            r.test_stub == test_stub,
    {
        TestAssertion { criterion, test_stub }
    }
}

/// Error of building an empty collection of test assertions: the assertion
/// list must be non-empty.
#[derive(Debug, PartialEq)]
pub struct EmptyAssertionsError;

/// A non-empty collection of test assertion stubs. No value of this type is
/// ever empty.
#[derive(Debug, PartialEq)]
pub struct TestAssertions(Vec<TestAssertion>);

impl TestAssertions {
    /// Every collection holds at least one stub.
    #[verifier::type_invariant]
    spec fn non_empty(self) -> bool {
        self.0@.len() > 0
    }

    /// The stubs of the collection.
    pub closed spec fn stubs(self) -> Seq<TestAssertion> {
        self.0@
    }

    /// The collection of the given stubs; an error when there are none.
    pub fn new(assertions: Vec<TestAssertion>) -> (r: Result<Self, EmptyAssertionsError>)
        ensures
            match r {
                Ok(t) => assertions@.len() > 0 && t.stubs() == assertions@,
                Err(_) => assertions@.len() == 0,
            },
    {
        if assertions.len() == 0 {
            return Err(EmptyAssertionsError);
        }
        Ok(TestAssertions(assertions))
    }

    /// The stubs as a slice.
    pub fn as_slice(&self) -> (r: &[TestAssertion])
        ensures
            r@ == self.stubs(),
    {
        self.0.as_slice()
    }

    /// The number of stubs; at least one.
    pub fn len(&self) -> (r: usize)
        ensures
            r == self.stubs().len(),
            r >= 1,
    {
        proof {
            use_type_invariant(self);
        }
        self.0.len()
    }

    /// Always `false`: the collection is never empty.
    pub fn is_empty(&self) -> (r: bool)
        ensures
            r == (self.stubs().len() == 0),
            !r,
    {
        proof {
            use_type_invariant(self);
        }
        false
    }
}

impl Clone for TestAssertions {
    /// A copy holding clones of the same number of stubs.
    fn clone(&self) -> (r: Self)
        ensures
            r.stubs().len() == self.stubs().len(),
    {
        proof {
            use_type_invariant(self);
        }
        TestAssertions(self.0.clone())
    }
}

} // verus!
