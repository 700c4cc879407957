//! A deterministic graph-rewrite core for a conversation-and-decision log.
//!
//! The crate maintains a typed property graph and mutates it exclusively
//! through declarative double-pushout rewrite rules (a left pattern `L`, a
//! gluing interface `K`, and a concrete replacement `R`).  Every proposed
//! rule is validated against an invariant battery inside a sandbox before
//! the live graph is touched; successful applications are committed
//! atomically and documented by an execution proof.

pub mod digest;
pub mod engine;
pub mod errors;
pub mod graph;
pub mod invariants;
pub mod json;
pub mod laws;
pub mod matcher;
pub mod oracle;
pub mod rule;
pub mod sim;
pub mod text;
pub mod value;

pub use engine::ConfluenceProof;
pub use engine::DiffSummary;
pub use engine::ExecutionProof;
pub use engine::InMemoryCore;
pub use engine::LlmOracle;
pub use engine::RmgCore;
pub use errors::CoreError;
pub use invariants::InvariantResult;
pub use invariants::ValidationReport;
pub use oracle::MockOracle;
pub use rule::AttrOp;
pub use rule::DpoRule;
pub use rule::EdgePattern;
pub use rule::GraphPattern;
pub use rule::Match;
pub use rule::NodePattern;
pub use rule::RuleMetadata;
pub use rule::StructuralConstraint;
pub use rule::VarMap;

pub use graph::Edge;
pub use graph::EdgeType;
pub use graph::Graph;
pub use graph::GraphSnapshot;
pub use graph::Node;
pub use graph::NodeType;
pub use graph::SnapshotMetadata;
pub use graph::Timestamp;
pub use value::AttrMap;
pub use value::SpecValue;
pub use value::Value;
