//! The edge-bundling chart.

use vstd::prelude::*;

verus! {

#[derive(Debug, Default)]
pub struct EdgeChart;

impl EdgeChart {
    /// The name of the file the chart's graph is written to.
    pub fn file_name(&self) -> (name: &'static str)
        ensures
            name@ == "edge-bundling.json"@,
    {
        "edge-bundling.json"
    }
}

} // verus!
