//! Classification of Zcash mempool transactions by the value pools they
//! touch, and the running statistics that a mempool monitor keeps about them.

pub mod pools;
pub mod flow;
pub mod history;
pub mod rpc;
pub mod cookie;
pub mod labels;
