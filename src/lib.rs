//! Stack (reuse) distances of memory-access traces: exact list, array and splay-tree
//! algorithms, an approximate scale tree, and a driver that walks loop-nest trees,
//! assigns array bases and feeds each address to an algorithm and a histogram.

pub mod fxmap;
pub mod lru;
pub mod olken;
pub mod recency;
pub mod stack;
pub mod vec;
pub mod hist;
pub mod list_serializable;
pub mod ast;
pub mod arybase;
pub mod trace;
pub mod ri;
pub mod polybench;
pub mod iter;
pub mod calculate;
pub mod buckets;
pub mod scale_tree;
pub mod report;
pub mod test_cases;
