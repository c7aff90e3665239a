//! What the graphics device knows of the code that is executed.
use vstd::prelude::*;

use crate::dap::dap_notebook::CodeLocation;

verus! {

/// The code that is executed, by which plots are labelled.
pub struct ExecutionContext {
    pub execution_id: String,
    pub code: String,
    pub code_location: Option<CodeLocation>,
    /// What the frontend says of the size of plots, as JSON.
    pub plot_sizing: Option<String>,
}

/// What the graphics device knows of the code that is executed, and where plots that
/// are not drawn yet come from.
pub struct DeviceContext {
    pub execution: Option<ExecutionContext>,
    pub pending_origin: Option<String>,
}

impl DeviceContext {
    /// The execution of code starts. Plots that are made from now on belong to it.
    pub fn graphics_on_execute_request(
        &mut self,
        execution_id: String,
        code: String,
        code_location: Option<CodeLocation>,
        plot_sizing: Option<String>,
    )
        ensures
            final(self).execution == Some(
                (ExecutionContext { execution_id, code, code_location, plot_sizing }),
            ),
            final(self).pending_origin == old(self).pending_origin,
    {
        self.execution =
        Some(ExecutionContext { execution_id, code, code_location, plot_sizing });
    }

    /// The execution of code is over. Called once pending changes are drawn: plots that
    /// are made from now on belong to no code.
    pub fn graphics_on_did_execute_request(&mut self)
        ensures
            final(self).execution is None,
            final(self).pending_origin is None,
    {
        self.execution = None;
        self.pending_origin = None;
    }
}

} // verus!
