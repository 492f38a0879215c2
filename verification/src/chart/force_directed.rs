//! The force-directed chart.

use vstd::prelude::*;

verus! {

#[derive(Debug, Default)]
pub struct ForceDirectedChart;

impl ForceDirectedChart {
    /// The name of the file the chart's graph is written to.
    pub fn file_name(&self) -> (name: &'static str)
        ensures
            name@ == "force-directed.json"@,
    {
        "force-directed.json"
    }
}

} // verus!
