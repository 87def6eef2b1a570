use vstd::prelude::*;

pub mod allow_list;
pub mod ledger;
pub mod engine;
pub mod laws;

verus! {

} // verus!
