//! Token budget status: whether usage stays within its limits, with the
//! warnings and exceeded limits found.

use vstd::prelude::*;

verus! {

/// Budget status.
#[derive(Debug)]
pub struct BudgetStatus {
    pub within_limits: bool,
    pub warnings: Vec<String>,
    pub exceeded: Vec<String>,
    pub should_auto_summarize: bool,
}

/// The status from the warnings and exceeded limits found: within limits
/// when nothing is exceeded; summarizing automatically when something is
/// exceeded and the budget asks for it.
pub fn budget_status(warnings: Vec<String>, exceeded: Vec<String>, auto_summarize_on_limit: bool) -> (s: BudgetStatus)
    ensures
        s.within_limits == (exceeded@.len() == 0),
        s.should_auto_summarize == (exceeded@.len() > 0 && auto_summarize_on_limit),
        s.warnings == warnings,
        s.exceeded == exceeded,
{
    let within = exceeded.len() == 0;
    BudgetStatus {
        within_limits: within,
        warnings,
        exceeded,
        should_auto_summarize: !within && auto_summarize_on_limit,
    }
}

} // verus!
