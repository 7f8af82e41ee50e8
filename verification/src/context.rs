//! The configuration of a parse, for code that needs it while the parse
//! runs.
use vstd::prelude::*;
use crate::config::ParserConfig;

verus! {

/// Holds the configuration of a parse.
#[derive(Debug)]
pub struct Context<T> {
    pub config: ParserConfig<T>,
}

impl<T> Context<T> {
    /// A context holding `config`.
    pub fn new_from_config(config: ParserConfig<T>) -> (r: Context<T>)
        ensures
            r.config == config,
    {
        Context { config }
    }
}

/// Applies `func` to the configuration held by `context`.
pub fn with_config<T, U, F: FnOnce(&ParserConfig<T>) -> U>(context: &Context<T>, func: F) -> (r: U)
    requires
        func.requires((&context.config,)),
    ensures
        func.ensures((&context.config,), r),
{
    func(&context.config)
}

} // verus!
