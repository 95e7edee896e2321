//! The options of one decoding run.

use vstd::prelude::*;

verus! {

/// How a symbol is decoded and rendered.
#[derive(Clone, Copy, Debug)]
pub struct DemangleOptions {
    /// Render a function without parameters as `name()` instead of
    /// `name(void)`.
    pub omit_empty_parameters: bool,
    /// Recognize the vendor's extensions to the base grammar: the `V`
    /// (volatile) qualifier.
    pub mw_extensions: bool,
}

impl Default for DemangleOptions {
    /// Empty parameter lists are omitted, vendor extensions are off.
    fn default() -> (r: Self)
        ensures
            r.omit_empty_parameters,
            !r.mw_extensions,
    {
        DemangleOptions { omit_empty_parameters: true, mw_extensions: false }
    }
}

} // verus!
