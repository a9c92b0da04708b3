//! Verified core of a JavaScript runtime and compiler: the decisions, tables
//! and arithmetic behind garbage collection, arrays, performance histograms
//! and array-method lowering.

pub mod array_copy;
pub mod array_fold;
pub mod array_layout;
pub mod array_props;
pub mod array_receiver;
pub mod fold_laws;
pub mod gc_budget;
pub mod gc_collect;
pub mod gc_env;
pub mod gc_init;
pub mod gc_laws;
pub mod gc_policy;
pub mod gc_types;
pub mod hdr;
pub mod hir;
pub mod histogram;
pub mod histogram_api;
pub mod histogram_laws;
pub mod layout_tables;
pub mod nanbox;
pub mod rooting;
pub mod roots;
pub mod schedule;
pub mod sums;
pub mod temp_root;
pub mod text;
