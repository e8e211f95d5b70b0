//! The language edition probes are compiled under.

use vstd::prelude::*;

verus! {

/// A language edition the probe compiler understands.
#[derive(Clone, Copy, PartialEq, Eq, Structural, Debug)]
pub enum Edition {
    E2015,
    E2018,
    E2021,
}

/// The text an edition takes on the compiler command line.
pub open spec fn edition_str(e: Edition) -> Seq<char> {
    match e {
        Edition::E2015 => "2015"@,
        Edition::E2018 => "2018"@,
        Edition::E2021 => "2021"@,
    }
}

/// The command-line form of an edition.
pub fn edition_to_str(edition: &Edition) -> (r: &'static str)
    ensures
        r@ == edition_str(*edition),
{
    match edition {
        Edition::E2015 => "2015",
        Edition::E2018 => "2018",
        Edition::E2021 => "2021",
    }
}

/// The run's edition: the first one the metadata declared, or the baseline.
pub fn resolve_edition(declared: Option<Edition>) -> (r: Edition)
    ensures
        declared is Some ==> r == declared->0,
        declared is None ==> r == Edition::E2021,
{
    match declared {
        Option::Some(e) => e,
        Option::None => Edition::E2021,
    }
}

} // verus!
