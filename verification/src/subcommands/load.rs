//! Loading the testbed: the one set of parameters that a loading run takes.

use vstd::prelude::*;
use vstd::string::*;
use crate::error::{BenchError, ErrorView};
use crate::parameters::{combinations, Files, Parameter, ParameterList};

verus! {

/// What is said of a parameter file for loading that allows more than one
/// set of parameters.
pub open spec fn more_than_one() -> ErrorView {
    ErrorView::Message("The parameter file contains more than one combination"@)
}

/// A set of parameters, or the failure to choose one, as plain values.
pub open spec fn choice_view(choice: Result<Parameter, BenchError>) -> Result<Files, ErrorView> {
    match choice {
        Ok(parameter) => Ok(parameter@),
        Err(error) => Err(error@),
    }
}

/// The set of parameters of a loading run: the only one that the lists
/// allow. Lists that allow another number of sets are a failure.
pub fn execute<'a>(param_list: &'a ParameterList) -> (choice: Result<Parameter<'a>, BenchError>)
    ensures
        choice_view(choice) == if combinations(param_list@, 0, 0, Seq::empty()).len() == 1 {
            Ok::<Files, ErrorView>(combinations(param_list@, 0, 0, Seq::empty())[0])
        } else {
            Err::<Files, ErrorView>(more_than_one())
        },
{
    // The file should only produce single "Parameter"
    let mut sets = param_list.to_vec();
    if sets.len() != 1 {
        return Err(
            BenchError::Message(
                String::from_str("The parameter file contains more than one combination"),
            ),
        );
    }
    let ghost all = sets@;
    let parameter = sets.remove(0);
    assert(parameter == all[0]);
    Ok(parameter)
}

} // verus!
