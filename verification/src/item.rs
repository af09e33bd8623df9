//! Declarations at the item level, and the checks shared by every item form:
//! which leading tokens open an item, which forms accept attributes and a
//! visibility, and which need a trailing separator.
//!
//! The concrete grammar of each item form is a collaborator outside this
//! core: the form parsers here consume the leading keyword and attach the
//! attributes and visibility handed to them.

use vstd::prelude::*;

use crate::span::Span;

verus! {

/// The kind of a lexed token, as far as item dispatch reads it.
#[derive(Debug, Clone, Copy, PartialEq, Eq, Structural)]
pub enum TokenKind {
    /// The `use` keyword.
    Use,
    /// The `enum` keyword.
    Enum,
    /// The `struct` keyword.
    Struct,
    /// The `impl` keyword.
    Impl,
    /// The `async` keyword.
    Async,
    /// The `fn` keyword.
    Fn,
    /// The `mod` keyword.
    Mod,
    /// The `const` keyword.
    Const,
    /// An identifier, opening a macro call.
    Ident,
    /// Any other token.
    Other,
}

/// One lexed token.
#[derive(Debug, Clone, Copy, PartialEq, Eq, Structural)]
pub struct Token {
    /// What the token is.
    pub kind: TokenKind,
    /// Where it stands in the source.
    pub span: Span,
}

/// A parse failure.
#[derive(Debug, PartialEq, Eq)]
pub enum ParseErrorKind {
    /// A token that opens no item stood where an item was expected.
    ExpectedItem {
        /// The kind actually seen.
        actual: TokenKind,
    },
    /// The item form does not support attributes.
    UnsupportedItemAttributes,
    /// The item form does not support a visibility.
    UnsupportedItemVisibility,
    /// The input ended where a token was required.
    UnexpectedEof,
}

/// A parse failure with the span it arose at.
#[derive(Debug, PartialEq, Eq)]
pub struct ParseError {
    /// Where the failure arose.
    pub span: Span,
    /// Why parsing failed.
    pub kind: ParseErrorKind,
}

impl ParseError {
    /// Construct an error.
    pub fn new(span: Span, kind: ParseErrorKind) -> (r: ParseError)
        ensures
            r == (ParseError { span, kind }),
    {
        ParseError { span, kind }
    }
}

/// An attribute attached to an item.
#[derive(Debug, Clone, Copy, PartialEq, Eq, Structural)]
pub struct Attribute {
    /// Where the attribute stands.
    pub span: Span,
}

/// The written visibility of an item.
#[derive(Debug, Clone, Copy, PartialEq, Eq, Structural)]
pub enum Visibility {
    /// Nothing written: the item is visible according to where it lives.
    Inherited,
    /// An explicit `pub`, with its span.
    Public(Span),
}

impl Visibility {
    /// The span of an explicit visibility, if one was written.
    pub open spec fn spec_option_span(self) -> Option<Span> {
        match self {
            Visibility::Inherited => None,
            Visibility::Public(span) => Some(span),
        }
    }

    /// The span of an explicit visibility, if one was written.
    pub fn option_span(&self) -> (r: Option<Span>)
        ensures
            r == self.spec_option_span(),
    {
        match self {
            Visibility::Inherited => None,
            Visibility::Public(span) => Some(*span),
        }
    }
}

/// The span of a non-empty attribute list: where its first attribute stands.
pub open spec fn spec_attributes_span(attributes: Seq<Attribute>) -> Option<Span> {
    if attributes.len() == 0 {
        None
    } else {
        Some(attributes[0].span)
    }
}

/// The span of a non-empty attribute list.
pub fn attributes_span(attributes: &Vec<Attribute>) -> (r: Option<Span>)
    ensures
        r == spec_attributes_span(attributes@),
{
    if attributes.len() == 0 {
        None
    } else {
        Some(attributes[0].span)
    }
}

/// A token stream handed to the item parser.
pub struct Parser {
    tokens: Vec<Token>,
    pos: usize,
}

impl Parser {
    /// The tokens not yet consumed, in order.
    pub closed spec fn rest(&self) -> Seq<Token> {
        if self.pos <= self.tokens@.len() {
            self.tokens@.skip(self.pos as int)
        } else {
            Seq::empty()
        }
    }

    /// A parser over a token list.
    pub fn new(tokens: Vec<Token>) -> (r: Parser)
        ensures
            r.rest() == tokens@,
    {
        let r = Parser { tokens, pos: 0 };
        proof {
            assert(r.rest() =~= r.tokens@);
        }
        r
    }

    /// Peek one token ahead without consuming it.
    pub fn token_peek(&self) -> (r: Option<Token>)
        ensures
            r == (if self.rest().len() > 0 {
                Some(self.rest()[0])
            } else {
                None::<Token>
            }),
    {
        if self.pos < self.tokens.len() {
            proof {
                assert(self.rest()[0] == self.tokens@[self.pos as int]);
            }
            Some(self.tokens[self.pos])
        } else {
            proof {
                if self.pos <= self.tokens@.len() {
                    assert(self.rest() =~= Seq::<Token>::empty());
                }
            }
            None
        }
    }

    /// Peek two tokens ahead without consuming them.
    pub fn token_peek_pair(&self) -> (r: (Option<Token>, Option<Token>))
        ensures
            r.0 == (if self.rest().len() > 0 {
                Some(self.rest()[0])
            } else {
                None::<Token>
            }),
            r.1 == (if self.rest().len() > 1 {
                Some(self.rest()[1])
            } else {
                None::<Token>
            }),
    {
        let first = self.token_peek();
        let second = if self.pos < self.tokens.len() && self.pos + 1 < self.tokens.len() {
            proof {
                assert(self.rest()[1] == self.tokens@[self.pos + 1]);
            }
            Some(self.tokens[self.pos + 1])
        } else {
            None
        };
        (first, second)
    }

    /// Peek one token ahead, failing at the end of the input.
    pub fn token_peek_eof(&self) -> (r: Result<Token, ParseError>)
        ensures
            self.rest().len() > 0 ==> r == Ok::<Token, ParseError>(self.rest()[0]),
            self.rest().len() == 0 ==> (r matches Err(e) && e.kind == ParseErrorKind::UnexpectedEof),
    {
        match self.token_peek() {
            Some(t) => Ok(t),
            None => Err(ParseError::new(Span { start: 0, end: 0 }, ParseErrorKind::UnexpectedEof)),
        }
    }

    /// Consume one token.
    pub fn advance(&mut self)
        requires
            old(self).rest().len() > 0,
        ensures
            final(self).rest() == old(self).rest().skip(1),
    {
        let n = self.tokens.len();
        proof {
            assert(old(self).pos < old(self).tokens@.len());
        }
        if self.pos < n {
            self.pos = self.pos + 1;
        }
        proof {
            assert(final(self).rest() =~= old(self).rest().skip(1));
        }
    }
}

/// A use declaration.
#[derive(Debug)]
pub struct ItemUse {
    /// The attributes attached to the declaration.
    pub attributes: Vec<Attribute>,
    /// Its written visibility.
    pub visibility: Visibility,
    /// Where the declaration stands.
    pub span: Span,
}

/// A function declaration.
#[derive(Debug)]
pub struct ItemFn {
    /// The attributes attached to the declaration.
    pub attributes: Vec<Attribute>,
    /// Its written visibility.
    pub visibility: Visibility,
    /// Where the declaration stands.
    pub span: Span,
}

/// An enum declaration.
#[derive(Debug)]
pub struct ItemEnum {
    /// The attributes attached to the declaration.
    pub attributes: Vec<Attribute>,
    /// Its written visibility.
    pub visibility: Visibility,
    /// Where the declaration stands.
    pub span: Span,
}

/// A struct declaration.
#[derive(Debug)]
pub struct ItemStruct {
    /// The attributes attached to the declaration.
    pub attributes: Vec<Attribute>,
    /// Its written visibility.
    pub visibility: Visibility,
    /// Where the declaration stands.
    pub span: Span,
}

/// An impl declaration. Impl blocks take no visibility.
#[derive(Debug)]
pub struct ItemImpl {
    /// The attributes attached to the declaration.
    pub attributes: Vec<Attribute>,
    /// Where the declaration stands.
    pub span: Span,
}

/// A module declaration.
#[derive(Debug)]
pub struct ItemMod {
    /// The attributes attached to the declaration.
    pub attributes: Vec<Attribute>,
    /// Its written visibility.
    pub visibility: Visibility,
    /// Where the declaration stands.
    pub span: Span,
}

/// A constant declaration.
#[derive(Debug)]
pub struct ItemConst {
    /// The attributes attached to the declaration.
    pub attributes: Vec<Attribute>,
    /// Its written visibility.
    pub visibility: Visibility,
    /// Where the declaration stands.
    pub span: Span,
}

/// A macro call expanding into an item. Macro calls take neither attributes
/// nor a visibility.
#[derive(Debug)]
pub struct MacroCall {
    /// Where the call stands.
    pub span: Span,
}

/// A declaration.
#[derive(Debug)]
pub enum Item {
    /// A use declaration.
    ItemUse(ItemUse),
    /// A function declaration.
    ItemFn(Box<ItemFn>),
    /// An enum declaration.
    ItemEnum(ItemEnum),
    /// A struct declaration.
    ItemStruct(ItemStruct),
    /// An impl declaration.
    ItemImpl(ItemImpl),
    /// A module declaration.
    ItemMod(ItemMod),
    /// A const declaration.
    ItemConst(ItemConst),
    /// A macro call expanding into an item.
    MacroCall(MacroCall),
}

/// Whether a token kind opens an item that takes attributes and a
/// visibility through the ordinary channel.
pub open spec fn opens_plain_item(kind: TokenKind) -> bool {
    ||| kind == TokenKind::Use
    ||| kind == TokenKind::Enum
    ||| kind == TokenKind::Struct
    ||| kind == TokenKind::Async
    ||| kind == TokenKind::Fn
    ||| kind == TokenKind::Mod
    ||| kind == TokenKind::Const
}

/// What [`Item::peek_as_stmt`] answers for the first two token kinds ahead.
pub open spec fn spec_peek_as_stmt(first: Option<Token>, second: Option<Token>) -> bool {
    match first {
        None => false,
        Some(t1) => match t1.kind {
            TokenKind::Use => true,
            TokenKind::Enum => true,
            TokenKind::Struct => true,
            TokenKind::Impl => true,
            TokenKind::Async => match second {
                None => false,
                Some(t2) => t2.kind == TokenKind::Fn,
            },
            TokenKind::Fn => true,
            TokenKind::Mod => true,
            TokenKind::Const => true,
            _ => false,
        },
    }
}

impl Item {
    /// Indicates if the declaration needs a trailing semi-colon: only an
    /// item introduced by a macro call does.
    pub fn needs_semi_colon(&self) -> (r: bool)
        ensures
            r == (self matches Item::MacroCall(..)),
    {
        matches!(self, Item::MacroCall(..))
    }

    /// Test if the item carries any attributes it does not support.
    pub fn has_unsupported_attributes(&self) -> (r: bool)
        ensures
            r == match self {
                Item::ItemUse(item) => item.attributes@.len() != 0,
                Item::ItemFn(item) => item.attributes@.len() != 0,
                Item::ItemEnum(item) => item.attributes@.len() != 0,
                Item::ItemStruct(item) => item.attributes@.len() != 0,
                Item::ItemImpl(item) => item.attributes@.len() != 0,
                Item::ItemMod(item) => item.attributes@.len() != 0,
                Item::ItemConst(item) => item.attributes@.len() != 0,
                Item::MacroCall(_) => false,
            },
    {
        match self {
            Item::ItemUse(item) => item.attributes.len() != 0,
            Item::ItemFn(item) => item.attributes.len() != 0,
            Item::ItemEnum(item) => item.attributes.len() != 0,
            Item::ItemStruct(item) => item.attributes.len() != 0,
            Item::ItemImpl(item) => item.attributes.len() != 0,
            Item::ItemMod(item) => item.attributes.len() != 0,
            Item::ItemConst(item) => item.attributes.len() != 0,
            Item::MacroCall(_) => false,
        }
    }

    /// Test if a declaration suitable inside of a block begins here: the
    /// leading token of `use`, `enum`, `struct`, `impl`, `(async) fn`,
    /// `mod` or `const`.
    pub fn peek_as_stmt(parser: &Parser) -> (r: Result<bool, ParseError>)
        ensures
            r == Ok::<bool, ParseError>(
                spec_peek_as_stmt(
                    if parser.rest().len() > 0 {
                        Some(parser.rest()[0])
                    } else {
                        None
                    },
                    if parser.rest().len() > 1 {
                        Some(parser.rest()[1])
                    } else {
                        None
                    },
                ),
            ),
    {
        let (t1, t2) = parser.token_peek_pair();
        let t1 = match t1 {
            Some(t) => t,
            None => {
                return Ok(false);
            },
        };
        Ok(
            match t1.kind {
                TokenKind::Use => true,
                TokenKind::Enum => true,
                TokenKind::Struct => true,
                TokenKind::Impl => true,
                TokenKind::Async => match t2 {
                    Some(t2) => matches!(t2.kind, TokenKind::Fn),
                    None => {
                        return Ok(false);
                    },
                },
                TokenKind::Fn => true,
                TokenKind::Mod => true,
                TokenKind::Const => true,
                _ => false,
            },
        )
    }

    /// Parse an item, attaching the given attributes and visibility.
    ///
    /// The form opened by the leading token decides what is accepted: impl
    /// blocks refuse a written visibility, and a macro call refuses both
    /// attributes and a written visibility. A token that opens no item is
    /// reported with its kind.
    pub fn parse_with_meta(
        parser: &mut Parser,
        attributes: Vec<Attribute>,
        visibility: Visibility,
    ) -> (r: Result<Item, ParseError>)
        ensures
            old(parser).rest().len() == 0 ==> (r matches Err(e) && e.kind
                == ParseErrorKind::UnexpectedEof),
            old(parser).rest().len() > 0 ==> {
                let kind = old(parser).rest()[0].kind;
                match r {
                    Ok(item) => {
                        &&& (opens_plain_item(kind) || kind == TokenKind::Impl || kind
                            == TokenKind::Ident)
                        &&& kind == TokenKind::Impl ==> (visibility is Inherited && (item matches
                            Item::ItemImpl(p) && p.attributes@ == attributes@))
                        &&& kind == TokenKind::Ident ==> (attributes@.len() == 0 && visibility
                            is Inherited && (item matches Item::MacroCall(_)))
                        &&& kind == TokenKind::Use ==> (item matches Item::ItemUse(p)
                            && p.attributes@ == attributes@ && p.visibility == visibility)
                        &&& kind == TokenKind::Enum ==> (item matches Item::ItemEnum(p)
                            && p.attributes@ == attributes@ && p.visibility == visibility)
                        &&& kind == TokenKind::Struct ==> (item matches Item::ItemStruct(p)
                            && p.attributes@ == attributes@ && p.visibility == visibility)
                        &&& (kind == TokenKind::Async || kind == TokenKind::Fn) ==> (item matches
                            Item::ItemFn(p) && p.attributes@ == attributes@ && p.visibility
                            == visibility)
                        &&& kind == TokenKind::Mod ==> (item matches Item::ItemMod(p)
                            && p.attributes@ == attributes@ && p.visibility == visibility)
                        &&& kind == TokenKind::Const ==> (item matches Item::ItemConst(p)
                            && p.attributes@ == attributes@ && p.visibility == visibility)
                    },
                    Err(e) => {
                        &&& (!opens_plain_item(kind) && kind != TokenKind::Impl && kind
                            != TokenKind::Ident) ==> e.kind == (ParseErrorKind::ExpectedItem {
                            actual: kind,
                        })
                        &&& kind == TokenKind::Impl ==> !(visibility is Inherited) && e.kind
                            == ParseErrorKind::UnsupportedItemVisibility
                        &&& kind == TokenKind::Ident ==> (attributes@.len() != 0 && e.kind
                            == ParseErrorKind::UnsupportedItemAttributes) || (attributes@.len()
                            == 0 && !(visibility is Inherited) && e.kind
                            == ParseErrorKind::UnsupportedItemVisibility)
                        &&& opens_plain_item(kind) ==> r is Ok
                    },
                }
            },
    {
        let t = match parser.token_peek_eof() {
            Ok(t) => t,
            Err(e) => {
                return Err(e);
            },
        };

        let item = match t.kind {
            TokenKind::Use => {
                parser.advance();
                Item::ItemUse(ItemUse { attributes, visibility, span: t.span })
            },
            TokenKind::Enum => {
                parser.advance();
                Item::ItemEnum(ItemEnum { attributes, visibility, span: t.span })
            },
            TokenKind::Struct => {
                parser.advance();
                Item::ItemStruct(ItemStruct { attributes, visibility, span: t.span })
            },
            TokenKind::Impl => {
                if let Some(span) = visibility.option_span() {
                    return Err(ParseError::new(span, ParseErrorKind::UnsupportedItemVisibility));
                }
                parser.advance();
                Item::ItemImpl(ItemImpl { attributes, span: t.span })
            },
            TokenKind::Async => {
                parser.advance();
                Item::ItemFn(Box::new(ItemFn { attributes, visibility, span: t.span }))
            },
            TokenKind::Fn => {
                parser.advance();
                Item::ItemFn(Box::new(ItemFn { attributes, visibility, span: t.span }))
            },
            TokenKind::Mod => {
                parser.advance();
                Item::ItemMod(ItemMod { attributes, visibility, span: t.span })
            },
            TokenKind::Const => {
                parser.advance();
                Item::ItemConst(ItemConst { attributes, visibility, span: t.span })
            },
            TokenKind::Ident => {
                if let Some(span) = attributes_span(&attributes) {
                    return Err(ParseError::new(span, ParseErrorKind::UnsupportedItemAttributes));
                }
                if let Some(span) = visibility.option_span() {
                    return Err(ParseError::new(span, ParseErrorKind::UnsupportedItemVisibility));
                }
                parser.advance();
                Item::MacroCall(MacroCall { span: t.span })
            },
            kind => {
                return Err(ParseError::new(t.span, ParseErrorKind::ExpectedItem { actual: kind }));
            },
        };

        Ok(item)
    }

    /// Parse an item with no attributes or visibility written before it:
    /// it behaves as [`Item::parse_with_meta`] handed an empty attribute
    /// list and the inherited visibility, so the only failures are the end
    /// of the input and a token that opens no item.
    pub fn parse(parser: &mut Parser) -> (r: Result<Item, ParseError>)
        ensures
            old(parser).rest().len() == 0 ==> (r matches Err(e) && e.kind
                == ParseErrorKind::UnexpectedEof),
            old(parser).rest().len() > 0 ==> {
                let kind = old(parser).rest()[0].kind;
                match r {
                    Ok(item) => {
                        &&& (opens_plain_item(kind) || kind == TokenKind::Impl || kind
                            == TokenKind::Ident)
                        &&& kind == TokenKind::Impl ==> (item matches Item::ItemImpl(p)
                            && p.attributes@.len() == 0)
                        &&& kind == TokenKind::Ident ==> (item matches Item::MacroCall(_))
                        &&& kind == TokenKind::Use ==> (item matches Item::ItemUse(p)
                            && p.attributes@.len() == 0 && p.visibility == Visibility::Inherited)
                        &&& kind == TokenKind::Enum ==> (item matches Item::ItemEnum(p)
                            && p.attributes@.len() == 0 && p.visibility == Visibility::Inherited)
                        &&& kind == TokenKind::Struct ==> (item matches Item::ItemStruct(p)
                            && p.attributes@.len() == 0 && p.visibility == Visibility::Inherited)
                        &&& (kind == TokenKind::Async || kind == TokenKind::Fn) ==> (item matches
                            Item::ItemFn(p) && p.attributes@.len() == 0 && p.visibility
                            == Visibility::Inherited)
                        &&& kind == TokenKind::Mod ==> (item matches Item::ItemMod(p)
                            && p.attributes@.len() == 0 && p.visibility == Visibility::Inherited)
                        &&& kind == TokenKind::Const ==> (item matches Item::ItemConst(p)
                            && p.attributes@.len() == 0 && p.visibility == Visibility::Inherited)
                    },
                    Err(e) => {
                        &&& !opens_plain_item(kind) && kind != TokenKind::Impl && kind
                            != TokenKind::Ident
                        &&& e.kind == (ParseErrorKind::ExpectedItem { actual: kind })
                    },
                }
            },
    {
        Item::parse_with_meta(parser, Vec::new(), Visibility::Inherited)
    }
}

} // verus!
