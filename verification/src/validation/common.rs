//! Validation of what the families share. No rule bears on these values, so the walk
//! finds no fault in them.

use crate::error::Error;
use crate::opentelemetry::common::types::{
    AnyValue, AnyValueOneOfvalue, ArrayValue, InstrumentationScope, KeyValue, KeyValueList,
    Resource,
};
use crate::validation::walk::{first_failure, lemma_failure_at, lemma_no_failure};
use vstd::prelude::*;

verus! {

/// Validation of a message of the common family.
pub trait CommonValidate {
    /// The verdict that `validate` gives.
    spec fn verdict(&self) -> Result<(), Error>;

    /// Walks the message and what it holds, and returns the first fault found.
    fn validate(&self) -> (r: Result<(), Error>)
        ensures
            r == self.verdict(),
    ;
}

/// The verdicts on a list of messages.
pub open spec fn verdicts_of<T: CommonValidate>(items: Seq<T>) -> Seq<Result<(), Error>> {
    Seq::new(items.len(), |i: int| items[i].verdict())
}

/// Validates the items of a list in order, up to the first that is at fault.
pub fn validate_each<T: CommonValidate>(items: &Vec<T>) -> (r: Result<(), Error>)
    ensures
        r == first_failure(verdicts_of(items@)),
{
    let mut i: usize = 0;
    while i < items.len()
        invariant
            i <= items.len(),
            forall|j: int| 0 <= j < i ==> (#[trigger] verdicts_of(items@)[j]) is Ok,
        decreases items.len() - i,
    {
        match items[i].validate() {
            Err(e) => {
                proof {
                    lemma_failure_at(verdicts_of(items@), i as int);
                }
                return Err(e);
            },
            Ok(()) => {},
        }
        i = i + 1;
    }
    proof {
        lemma_no_failure(verdicts_of(items@));
    }
    Ok(())
}

impl<'a> CommonValidate for Resource<'a> {
    open spec fn verdict(&self) -> Result<(), Error> {
        Ok(())
    }

    fn validate(&self) -> (r: Result<(), Error>)
        ensures
            r == Ok::<(), Error>(()),
    {
        proof {
            lemma_no_failure(verdicts_of(self.attributes@));
        }
        validate_each(&self.attributes)
    }
}

impl<'a> CommonValidate for InstrumentationScope<'a> {
    open spec fn verdict(&self) -> Result<(), Error> {
        Ok(())
    }

    fn validate(&self) -> (r: Result<(), Error>)
        ensures
            r == Ok::<(), Error>(()),
    {
        proof {
            lemma_no_failure(verdicts_of(self.attributes@));
        }
        validate_each(&self.attributes)
    }
}

impl<'a> CommonValidate for KeyValue<'a> {
    open spec fn verdict(&self) -> Result<(), Error> {
        Ok(())
    }

    fn validate(&self) -> (r: Result<(), Error>)
        ensures
            r == Ok::<(), Error>(()),
    {
        match &self.value {
            Some(x) => x.validate(),
            None => Ok(()),
        }
    }
}

impl<'a> CommonValidate for ArrayValue<'a> {
    open spec fn verdict(&self) -> Result<(), Error> {
        Ok(())
    }

    fn validate(&self) -> (r: Result<(), Error>)
        ensures
            r == Ok::<(), Error>(()),
    {
        proof {
            lemma_no_failure(verdicts_of(self.values@));
        }
        validate_each(&self.values)
    }
}

impl<'a> CommonValidate for KeyValueList<'a> {
    open spec fn verdict(&self) -> Result<(), Error> {
        Ok(())
    }

    fn validate(&self) -> (r: Result<(), Error>)
        ensures
            r == Ok::<(), Error>(()),
    {
        proof {
            lemma_no_failure(verdicts_of(self.values@));
        }
        validate_each(&self.values)
    }
}

impl<'a> CommonValidate for AnyValue<'a> {
    open spec fn verdict(&self) -> Result<(), Error> {
        Ok(())
    }

    fn validate(&self) -> (r: Result<(), Error>)
        ensures
            r == Ok::<(), Error>(()),
    {
        self.value.validate()
    }
}

impl<'a> CommonValidate for AnyValueOneOfvalue<'a> {
    open spec fn verdict(&self) -> Result<(), Error> {
        Ok(())
    }

    fn validate(&self) -> (r: Result<(), Error>)
        ensures
            r == Ok::<(), Error>(()),
    {
        Ok(())
    }
}

} // verus!
