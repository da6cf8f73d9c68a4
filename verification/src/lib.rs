//! Per-node Kubernetes Jobs: how they are named, built, admitted to nodes and diagnosed.
pub mod text;
pub mod trim;
pub mod words;
pub mod numerals;
pub mod digest;
pub mod sorted;
pub mod string_map;
pub mod objects;
pub mod node_filter;
pub mod naming;
pub mod nodes;
pub mod tracking;
pub mod job;
pub mod pods;
pub mod diagnosis;
pub mod one_line;
pub mod telling;
pub mod views;
