//! Daily stock data maintenance for qlib: formatting of quote rows into the
//! local CSV store, the per-file update decisions, and the column plans of
//! the price normalisation.

use vstd::prelude::*;

pub mod command;
pub mod normalize_data;
pub mod source_data;
pub mod util;

verus! {

/// The origin of market data.
#[derive(Debug, Clone, Copy, PartialEq, Eq, Structural)]
pub enum Source {
    SINA,
}

impl From<String> for Source {
    fn from(value: String) -> (res: Self) {
        let sina = String::from_str("sina");
        if sina == value {
            return Source::SINA;
        }
        Source::SINA
    }
}

impl vstd::std_specs::convert::FromSpecImpl<String> for Source {
    open spec fn obeys_from_spec() -> bool {
        true
    }

    open spec fn from_spec(v: String) -> Source {
        Source::SINA
    }
}

} // verus!
