//! Configuration of the remote data source adapter: a credential/key
//! reference, a dataset identifier, and named sub-ranges to read. All
//! four are opaque strings to the table core; the host shell fills them
//! in from its environment.

use vstd::prelude::*;

verus! {

/// External configuration of the data source adapter. The table core
/// never interprets these strings; it only carries them.
pub struct Config {
    pub private_key: String,
    pub sheet_id: String,
    pub deposit_range_input: String,
    pub deposit_range_output: String,
}

impl Config {
    /// Builds a configuration from the four already-read settings. The
    /// host shell reads them from its environment and hands them over
    /// as plain strings.
    pub fn new(
        private_key: String,
        sheet_id: String,
        deposit_range_input: String,
        deposit_range_output: String,
    ) -> (c: Config)
        ensures
            c.private_key@ == private_key@,
            c.sheet_id@ == sheet_id@,
            c.deposit_range_input@ == deposit_range_input@,
            c.deposit_range_output@ == deposit_range_output@,
    {
        Config { private_key, sheet_id, deposit_range_input, deposit_range_output }
    }
}

} // verus!
