//! Data sets handed to the chart renderers.

pub mod dataset;
pub mod dependancy;
pub mod edge_chart;
pub mod force_directed;
pub mod item;
pub mod registry;

pub use edge_chart::EdgeChart;
pub use force_directed::ForceDirectedChart;
pub use item::Item;
