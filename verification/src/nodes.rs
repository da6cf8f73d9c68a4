//! What is known of a node.
use vstd::prelude::*;

verus! {

/// What a node says of itself, as far as a Job on it can use it.
#[derive(Debug, Default)]
pub struct NodeFacts {
    pub name: String,
    pub container_runtime_version: Option<String>,
    pub machine_id: Option<String>,
}

/// The view of `NodeFacts`.
#[verifier::ext_equal]
pub struct NodeFactsView {
    pub name: Seq<char>,
    pub container_runtime_version: Option<Seq<char>>,
    pub machine_id: Option<Seq<char>>,
}

impl DeepView for NodeFacts {
    type V = NodeFactsView;

    open spec fn deep_view(&self) -> NodeFactsView {
        NodeFactsView {
            name: self.name.deep_view(),
            container_runtime_version: self.container_runtime_version.deep_view(),
            machine_id: self.machine_id.deep_view(),
        }
    }
}

} // verus!
