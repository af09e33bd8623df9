//! A visitor that will be called for every language item compiled. All
//! methods have no-op defaults, so a consumer implements only the hooks it
//! observes.

use vstd::prelude::*;

use crate::meta::Meta;
use crate::span::SourceId;
use crate::span::Span;

verus! {

/// A visitor that will be called for every language item compiled.
pub trait CompileVisitor {
    /// Called when a meta item is registered.
    fn register_meta(&mut self, _meta: &Meta) {
    }

    /// Mark that we've encountered a specific compile meta at the given
    /// span.
    fn visit_meta(&mut self, _source_id: SourceId, _meta: &Meta, _span: Span) {
    }

    /// Visit a variable use.
    fn visit_variable_use(&mut self, _source_id: SourceId, _var_span: Span, _span: Span) {
    }

    /// Visit something that is a module.
    fn visit_mod(&mut self, _source_id: SourceId, _span: Span) {
    }

    /// Visit the doc comment text attached to an item, given as the item's
    /// path. This may be called several times for a single item, and always
    /// after [`CompileVisitor::visit_meta`] for that item.
    fn visit_doc_comment(
        &mut self,
        _source_id: SourceId,
        _item: &Vec<String>,
        _span: Span,
        _docstr: &String,
    ) {
    }
}

/// A [`CompileVisitor`] which does nothing.
pub struct NoopCompileVisitor;

impl NoopCompileVisitor {
    /// Construct a new noop compile visitor.
    pub fn new() -> (r: NoopCompileVisitor)
        ensures
            r == NoopCompileVisitor,
    {
        NoopCompileVisitor
    }
}

impl CompileVisitor for NoopCompileVisitor {
}

} // verus!
