//! Which template a report is rendered from and which file it goes to.

use crate::cli::GraphChoice;
use vstd::prelude::*;

verus! {

/// The name of the template that renders the chosen layout.
pub fn template_name(graph: GraphChoice) -> (name: &'static str)
    ensures
        name@ == match graph {
            GraphChoice::Edge => "edge-bundling.hbs"@,
            GraphChoice::Directed => "force-directed.hbs"@,
        },
{
    match graph {
        GraphChoice::Edge => "edge-bundling.hbs",
        GraphChoice::Directed => "force-directed.hbs",
    }
}

/// The name of the file the report is written to: the template's name with
/// `.html` in place of `.hbs`.
pub fn report_file_name(graph: GraphChoice) -> (name: &'static str)
    ensures
        name@ == match graph {
            GraphChoice::Edge => "edge-bundling.html"@,
            GraphChoice::Directed => "force-directed.html"@,
        },
{
    match graph {
        GraphChoice::Edge => "edge-bundling.html",
        GraphChoice::Directed => "force-directed.html",
    }
}

} // verus!
