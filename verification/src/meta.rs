//! Elaborated descriptions of items: their kind, location and parameters.
//!
//! Every meta record is keyed by an interned item identifier together with a
//! parameters hash; the empty hash stands for a non-generic item.

use vstd::prelude::*;

use crate::ir::IrFn;
use crate::pool::ItemId;
use crate::span::SourceId;
use crate::value::ConstValue;

verus! {

/// The parameters hash of a non-generic item.
pub const EMPTY_HASH: u64 = 0;

/// The visibility of an item.
#[derive(Debug, Clone, Copy, PartialEq, Eq, Structural)]
pub enum MetaVisibility {
    /// Visible to every module.
    Public,
    /// Visible according to where the item lives.
    Inherited,
}

/// Identifies where an item lives and what sees it.
#[derive(Debug, Clone, Copy, PartialEq, Eq, Structural)]
pub struct ItemMeta {
    /// The item itself.
    pub item: ItemId,
    /// The module the item lives in.
    pub module: ItemId,
    /// Who sees the item.
    pub visibility: MetaVisibility,
    /// The source file the item was read from.
    pub source_id: SourceId,
}

/// The kind of an elaborated item.
#[derive(Debug)]
pub enum MetaKind {
    /// A plain function.
    Fn,
    /// A constant with its fully evaluated value.
    Const {
        /// The evaluated value.
        value: ConstValue,
    },
    /// A constant function, invokable by the constant evaluator.
    ConstFn {
        /// The reduced function.
        ir_fn: IrFn,
    },
    /// A struct declaration.
    Struct,
    /// An enum declaration.
    Enum,
    /// A variant of an enum.
    Variant,
    /// A module.
    Module,
    /// A macro.
    Macro,
    /// An impl block.
    Impl,
}

/// A bare tag naming a meta kind, used in diagnostics.
#[derive(Debug, Clone, Copy, PartialEq, Eq, Structural)]
pub enum MetaKindTag {
    /// A plain function.
    Fn,
    /// A constant.
    Const,
    /// A constant function.
    ConstFn,
    /// A struct declaration.
    Struct,
    /// An enum declaration.
    Enum,
    /// A variant of an enum.
    Variant,
    /// A module.
    Module,
    /// A macro.
    Macro,
    /// An impl block.
    Impl,
}

impl MetaKind {
    /// The tag of this kind.
    pub open spec fn spec_tag(&self) -> MetaKindTag {
        match self {
            MetaKind::Fn => MetaKindTag::Fn,
            MetaKind::Const { .. } => MetaKindTag::Const,
            MetaKind::ConstFn { .. } => MetaKindTag::ConstFn,
            MetaKind::Struct => MetaKindTag::Struct,
            MetaKind::Enum => MetaKindTag::Enum,
            MetaKind::Variant => MetaKindTag::Variant,
            MetaKind::Module => MetaKindTag::Module,
            MetaKind::Macro => MetaKindTag::Macro,
            MetaKind::Impl => MetaKindTag::Impl,
        }
    }

    /// The tag of this kind.
    pub fn tag(&self) -> (r: MetaKindTag)
        ensures
            r == self.spec_tag(),
    {
        match self {
            MetaKind::Fn => MetaKindTag::Fn,
            MetaKind::Const { .. } => MetaKindTag::Const,
            MetaKind::ConstFn { .. } => MetaKindTag::ConstFn,
            MetaKind::Struct => MetaKindTag::Struct,
            MetaKind::Enum => MetaKindTag::Enum,
            MetaKind::Variant => MetaKindTag::Variant,
            MetaKind::Module => MetaKindTag::Module,
            MetaKind::Macro => MetaKindTag::Macro,
            MetaKind::Impl => MetaKindTag::Impl,
        }
    }

    /// Whether an item of this kind names a callable or addressable value.
    /// Macros and modules do not.
    pub open spec fn spec_is_value(&self) -> bool {
        !(self.spec_tag() == MetaKindTag::Macro || self.spec_tag() == MetaKindTag::Module)
    }

    /// Whether an item of this kind names a callable or addressable value.
    pub fn is_value(&self) -> (r: bool)
        ensures
            r == self.spec_is_value(),
    {
        !matches!(self, MetaKind::Macro | MetaKind::Module)
    }
}

/// The elaborated description of an item.
#[derive(Debug)]
pub struct Meta {
    /// Where the item lives.
    pub item_meta: ItemMeta,
    /// The parameters hash; [`EMPTY_HASH`] for a non-generic item.
    pub parameters: u64,
    /// What the item is.
    pub kind: MetaKind,
}

impl Meta {
    /// A compact description for diagnostics, in the model.
    pub open spec fn info_model(&self) -> MetaInfo {
        MetaInfo { item: self.item_meta.item, parameters: self.parameters, tag: self.kind.spec_tag() }
    }

    /// A compact description for diagnostics.
    pub fn info(&self) -> (r: MetaInfo)
        ensures
            r == self.info_model(),
    {
        MetaInfo { item: self.item_meta.item, parameters: self.parameters, tag: self.kind.tag() }
    }
}

/// A compact description of a meta record, carried by diagnostics.
#[derive(Debug, Clone, Copy, PartialEq, Eq, Structural)]
pub struct MetaInfo {
    /// The item described.
    pub item: ItemId,
    /// Its parameters hash.
    pub parameters: u64,
    /// Its kind.
    pub tag: MetaKindTag,
}

/// The kind of an item registered by the host context. Hosts register
/// plain values and declarations; a constant function reduced from user
/// source never comes from the context.
#[derive(Debug)]
pub enum ContextMetaKind {
    /// A plain function.
    Fn,
    /// A constant with its value.
    Const {
        /// The registered value.
        value: ConstValue,
    },
    /// A struct declaration.
    Struct,
    /// An enum declaration.
    Enum,
    /// A variant of an enum.
    Variant,
    /// A module.
    Module,
    /// A macro.
    Macro,
    /// An impl block.
    Impl,
}

impl ContextMetaKind {
    /// The tag of this kind.
    pub open spec fn spec_tag(&self) -> MetaKindTag {
        match self {
            ContextMetaKind::Fn => MetaKindTag::Fn,
            ContextMetaKind::Const { .. } => MetaKindTag::Const,
            ContextMetaKind::Struct => MetaKindTag::Struct,
            ContextMetaKind::Enum => MetaKindTag::Enum,
            ContextMetaKind::Variant => MetaKindTag::Variant,
            ContextMetaKind::Module => MetaKindTag::Module,
            ContextMetaKind::Macro => MetaKindTag::Macro,
            ContextMetaKind::Impl => MetaKindTag::Impl,
        }
    }

    /// The tag of this kind.
    pub fn tag(&self) -> (r: MetaKindTag)
        ensures
            r == self.spec_tag(),
    {
        match self {
            ContextMetaKind::Fn => MetaKindTag::Fn,
            ContextMetaKind::Const { .. } => MetaKindTag::Const,
            ContextMetaKind::Struct => MetaKindTag::Struct,
            ContextMetaKind::Enum => MetaKindTag::Enum,
            ContextMetaKind::Variant => MetaKindTag::Variant,
            ContextMetaKind::Module => MetaKindTag::Module,
            ContextMetaKind::Macro => MetaKindTag::Macro,
            ContextMetaKind::Impl => MetaKindTag::Impl,
        }
    }

    /// Whether an item of this kind names a callable or addressable value.
    /// Macros and modules do not.
    pub open spec fn spec_is_value(&self) -> bool {
        !(self.spec_tag() == MetaKindTag::Macro || self.spec_tag() == MetaKindTag::Module)
    }

    /// Whether an item of this kind names a callable or addressable value.
    pub fn is_value(&self) -> (r: bool)
        ensures
            r == self.spec_is_value(),
    {
        !matches!(self, ContextMetaKind::Macro | ContextMetaKind::Module)
    }
}

/// An item registered by the host context.
#[derive(Debug)]
pub struct ContextMeta {
    /// The item the registration is for.
    pub item: ItemId,
    /// The module the registration places the item in.
    pub module: ItemId,
    /// The parameters hash of the registration.
    pub parameters: u64,
    /// What the registered item is.
    pub kind: ContextMetaKind,
}

impl ContextMeta {
    /// A compact description for diagnostics, in the model.
    pub open spec fn info_model(&self) -> MetaInfo {
        MetaInfo { item: self.item, parameters: self.parameters, tag: self.kind.spec_tag() }
    }

    /// The parameters hash of this registration.
    pub fn as_parameters(&self) -> (r: u64)
        ensures
            r == self.parameters,
    {
        self.parameters
    }

    /// A compact description for diagnostics.
    pub fn info(&self) -> (r: MetaInfo)
        ensures
            r == self.info_model(),
    {
        MetaInfo { item: self.item, parameters: self.parameters, tag: self.kind.tag() }
    }
}

} // verus!
