use vstd::prelude::*;

use crate::ast::{node_text, shown, shows_consistently, AstNode};
use crate::expressions::Expression;

verus! {

/// Renders whole trees in prefix form.
pub struct AstPrinter {}

impl AstPrinter {
    /// The prefix-form text of `node`.
    pub fn print<S: Fn(u64) -> String>(node: Box<AstNode>, show: &S) -> (r: String)
        requires
            shows_consistently(show),
        ensures
            r@ == node_text(*node, shown(show)),
    {
        node.to_string(show)
    }
}

} // verus!
