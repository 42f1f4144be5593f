//! The parser's position in the token sequence, and the small parsers that
//! statements build on: identifiers, dimensions, data types, labels.

use vstd::prelude::*;

use crate::parser::ast::{DataType, Dimension, Expression, ExprKind, HierarchicalIdentifier, Identifier, Signing};
use crate::parser::grammar::{
    bumped, eaten, expected, sp_data_type, sp_dims, sp_end_label, sp_hier, sp_hier_expr,
    sp_hier_tail, sp_ident, sp_signing, sp_skip_from, sp_skip_parens, sp_typedef, sp_typedef_tail,
    span_upto,
};
use crate::parser::model::{
    data_type_m, dim_m, dims_m, expr_m, hier_m, ident_m, idents_m, DimM, PState,
};
use crate::parser::token::{data_type_kind, is_data_type_kind, Span, Token, TokenKind};

verus! {

/// A token other than the one expected.
#[derive(Debug)]
pub struct SyntaxError {
    pub expected: TokenKind,
    pub found: TokenKind,
    pub span: Span,
}

/// A parser over a token sequence that ends with an `Eof` token.
pub struct Parser {
    pub tokens: Vec<Token>,
    pub pos: usize,
    pub errors: Vec<SyntaxError>,
}

/// `new` continues from `old`: the same tokens, not further back, and the
/// errors recorded before are kept as they were (new ones come after them).
pub open spec fn moved_on(old: Parser, new: Parser) -> bool {
    &&& new.wf()
    &&& new.tokens@ == old.tokens@
    &&& old.pos <= new.pos
    &&& old.errors@.len() <= new.errors@.len()
    &&& forall|i: int| 0 <= i < old.errors@.len() ==> #[trigger] new.errors@[i] == old.errors@[i]
}

/// As `moved_on`, and past at least one token unless `old` stood at the end.
pub open spec fn progressed(old: Parser, new: Parser) -> bool {
    &&& moved_on(old, new)
    &&& (old.cur() != TokenKind::Eof ==> old.pos < new.pos)
}

impl Parser {
    /// The token sequence ends with `Eof` and the position lies within it.
    pub open spec fn wf(&self) -> bool {
        &&& self.tokens@.len() > 0
        &&& self.tokens@.last().kind == TokenKind::Eof
        &&& self.pos < self.tokens@.len()
    }

    /// The kind of the token at `i` (`Eof` past the end).
    pub open spec fn kind_at(&self, i: int) -> TokenKind {
        if 0 <= i < self.tokens@.len() {
            self.tokens@[i].kind
        } else {
            TokenKind::Eof
        }
    }

    /// The kind of the current token.
    pub open spec fn cur(&self) -> TokenKind {
        self.kind_at(self.pos as int)
    }

    /// The position and the errors recorded so far.
    pub open spec fn st(&self) -> PState {
        PState { pos: self.pos as int, errs: self.errors@ }
    }

    /// A parser at the start of `tokens`; an `Eof` token is appended when the
    /// sequence does not already end with one.
    pub fn new(tokens: Vec<Token>) -> (p: Parser)
        ensures
            p.wf(),
            p.pos == 0,
            tokens@.len() > 0 && tokens@.last().kind == TokenKind::Eof ==> p.tokens@ == tokens@,
            !(tokens@.len() > 0 && tokens@.last().kind == TokenKind::Eof) ==> p.tokens@.drop_last()
                == tokens@ && p.tokens@.last().text@ == Seq::<char>::empty()
                && p.tokens@.last().span == (if tokens@.len() == 0 {
                Span { start: 0, end: 0 }
            } else {
                Span { start: tokens@.last().span.end, end: tokens@.last().span.end }
            }),
            p.errors@ == Seq::<SyntaxError>::empty(),
    {
        let mut tokens = tokens;
        let n = tokens.len();
        if n == 0 || tokens[n - 1].kind != TokenKind::Eof {
            let end = if n == 0 {
                0
            } else {
                tokens[n - 1].span.end
            };
            tokens.push(Token::new(TokenKind::Eof, String::new(), Span { start: end, end }));
        }
        Parser { tokens, pos: 0, errors: Vec::new() }
    }

    pub fn current(&self) -> (t: &Token)
        requires
            self.wf(),
        ensures
            *t == self.tokens@[self.pos as int],
    {
        &self.tokens[self.pos]
    }

    pub fn current_kind(&self) -> (k: TokenKind)
        requires
            self.wf(),
        ensures
            k == self.cur(),
    {
        self.tokens[self.pos].kind
    }

    /// The kind of the token after the current one.
    pub fn peek_kind(&self) -> (k: TokenKind)
        requires
            self.wf(),
        ensures
            k == self.kind_at(self.pos + 1),
    {
        if self.pos < self.tokens.len() - 1 {
            self.tokens[self.pos + 1].kind
        } else {
            TokenKind::Eof
        }
    }

    /// The kind of the token `n` places ahead.
    pub fn kind_ahead(&self, n: usize) -> (k: TokenKind)
        requires
            self.wf(),
            n < 8,
        ensures
            k == self.kind_at(self.pos + n),
    {
        if n < self.tokens.len() - self.pos {
            self.tokens[self.pos + n].kind
        } else {
            TokenKind::Eof
        }
    }

    pub fn at(&self, k: TokenKind) -> (r: bool)
        requires
            self.wf(),
        ensures
            r == (self.cur() == k),
    {
        self.tokens[self.pos].kind == k
    }

    /// The current token is one of `ks`.
    pub fn at_any(&self, ks: &[TokenKind]) -> (r: bool)
        requires
            self.wf(),
        ensures
            r == exists|i: int| 0 <= i < ks@.len() && ks@[i] == self.cur(),
    {
        let k = self.tokens[self.pos].kind;
        let mut i: usize = 0;
        while i < ks.len()
            invariant
                0 <= i <= ks@.len(),
                k == self.cur(),
                forall|j: int| 0 <= j < i ==> ks@[j] != k,
            decreases ks@.len() - i,
        {
            if ks[i] == k {
                return true;
            }
            i = i + 1;
        }
        false
    }

    /// Moves past the current token (never past `Eof`) and returns it.
    pub fn bump(&mut self) -> (t: Token)
        requires
            old(self).wf(),
        ensures
            progressed(*old(self), *final(self)),
            t == old(self).tokens@[old(self).pos as int],
            final(self).st() == bumped(old(self).tokens@, old(self).st()),
    {
        let t = self.tokens[self.pos].duplicate();
        if self.pos < self.tokens.len() - 1 {
            self.pos = self.pos + 1;
        }
        t
    }

    /// Moves past the current token when it is of kind `k`.
    pub fn eat(&mut self, k: TokenKind) -> (r: Option<Token>)
        requires
            old(self).wf(),
        ensures
            moved_on(*old(self), *final(self)),
            (r is Some) == (old(self).cur() == k),
            r is Some ==> progressed(*old(self), *final(self)),
            r is Some ==> r->0 == old(self).tokens@[old(self).pos as int],
            final(self).st() == eaten(old(self).tokens@, old(self).st(), k),
    {
        if self.tokens[self.pos].kind == k {
            Some(self.bump())
        } else {
            None
        }
    }

    /// Moves past the current token when it is of kind `k`; otherwise records
    /// an error and stays.
    pub fn expect(&mut self, k: TokenKind) -> (r: bool)
        requires
            old(self).wf(),
        ensures
            moved_on(*old(self), *final(self)),
            r == (old(self).cur() == k),
            r ==> progressed(*old(self), *final(self)),
            final(self).st() == expected(old(self).tokens@, old(self).st(), k),
    {
        if self.tokens[self.pos].kind == k {
            self.bump();
            true
        } else {
            let found = self.tokens[self.pos].kind;
            let span = self.tokens[self.pos].span;
            self.errors.push(SyntaxError { expected: k, found, span });
            false
        }
    }

    /// The span from `start` to the end of the last token passed.
    pub fn span_from(&self, start: usize) -> (s: Span)
        requires
            self.wf(),
        ensures
            s == span_upto(self.tokens@, start, self.st()),
    {
        if self.pos > 0 {
            Span { start, end: self.tokens[self.pos - 1].span.end }
        } else {
            Span { start, end: start }
        }
    }

    /// The current token begins a built-in data type.
    pub fn is_data_type_keyword(&self) -> (r: bool)
        requires
            self.wf(),
        ensures
            r == is_data_type_kind(self.cur()),
    {
        data_type_kind(self.tokens[self.pos].kind)
    }

    /// The current identifier is a scope prefix of an expression
    /// (`pkg::f(...)`), not the type of a declaration (`pkg::t x`).
    pub fn peek_is_class_scope(&self) -> (r: bool)
        requires
            self.wf(),
        ensures
            r == (self.kind_at(self.pos + 1) == TokenKind::DoubleColon && self.kind_at(self.pos + 2)
                == TokenKind::Identifier && self.kind_at(self.pos + 3) != TokenKind::Identifier),
    {
        self.kind_ahead(1) == TokenKind::DoubleColon && self.kind_ahead(2) == TokenKind::Identifier
            && self.kind_ahead(3) != TokenKind::Identifier
    }

    /// An identifier; when the current token is not one, an error is
    /// recorded and an empty name is returned.
    pub fn parse_identifier(&mut self) -> (id: Identifier)
        requires
            old(self).wf(),
        ensures
            moved_on(*old(self), *final(self)),
            (ident_m(id), final(self).st()) == sp_ident(old(self).tokens@, old(self).st()),
    {
        if self.at(TokenKind::Identifier) {
            let t = self.bump();
            Identifier { name: t.text, span: t.span }
        } else {
            let span = self.tokens[self.pos].span;
            self.expect(TokenKind::Identifier);
            Identifier { name: String::new(), span }
        }
    }

    /// `a.b.c` or `pkg::name`.
    pub fn parse_hierarchical_identifier(&mut self) -> (h: HierarchicalIdentifier)
        requires
            old(self).wf(),
        ensures
            moved_on(*old(self), *final(self)),
            old(self).cur() == TokenKind::Identifier ==> old(self).pos < final(self).pos,
            h.path@.len() >= 1,
            (hier_m(h), final(self).st()) == sp_hier(old(self).tokens@, old(self).st()),
    {
        let ghost t = self.tokens@;
        let start = self.tokens[self.pos].span.start;
        let first = self.parse_identifier();
        let ghost s1 = self.st();
        let mut path: Vec<Identifier> = Vec::new();
        path.push(first);
        assert(idents_m(path@) =~= seq![ident_m(first)]);
        let ghost p0 = *old(self);
        while (self.at(TokenKind::Dot) || self.at(TokenKind::DoubleColon)) && self.peek_kind()
            == TokenKind::Identifier
            invariant
                moved_on(p0, *self),
                t == self.tokens@,
                p0.cur() == TokenKind::Identifier ==> p0.pos < self.pos,
                path@.len() >= 1,
                sp_hier_tail(t, idents_m(path@), self.st()) == sp_hier_tail(
                    t,
                    seq![ident_m(first)],
                    s1,
                ),
            decreases self.tokens@.len() - self.pos,
        {
            let ghost s = self.st();
            let ghost before = path@;
            self.bump();
            let seg = self.parse_identifier();
            path.push(seg);
            assert(idents_m(path@) =~= idents_m(before).push(ident_m(seg)));
        }
        let span = self.span_from(start);
        HierarchicalIdentifier { path, span }
    }

    /// A hierarchical identifier as an expression.
    pub fn parse_hierarchical_identifier_expr(&mut self) -> (e: Expression)
        requires
            old(self).wf(),
        ensures
            moved_on(*old(self), *final(self)),
            old(self).cur() == TokenKind::Identifier ==> old(self).pos < final(self).pos,
            e.kind is Ident,
            (expr_m(e), final(self).st()) == sp_hier_expr(old(self).tokens@, old(self).st()),
    {
        let start = self.tokens[self.pos].span.start;
        let h = self.parse_hierarchical_identifier();
        let span = self.span_from(start);
        Expression::new(ExprKind::Ident(h), span)
    }

    /// An optional `: label` after `end`, `join` and the like.
    pub fn parse_end_label(&mut self) -> (l: Option<Identifier>)
        requires
            old(self).wf(),
        ensures
            moved_on(*old(self), *final(self)),
            (l is Some) == (old(self).cur() == TokenKind::Colon),
            (match l {
                Some(i) => Some(ident_m(i)),
                None => None,
            }, final(self).st()) == sp_end_label(old(self).tokens@, old(self).st()),
    {
        if self.eat(TokenKind::Colon).is_some() {
            Some(self.parse_identifier())
        } else {
            None
        }
    }

    /// Zero or more `[msb:lsb]`, `[size]` or `[]`.
    pub fn parse_unpacked_dimensions(&mut self) -> (dims: Vec<Dimension>)
        requires
            old(self).wf(),
        ensures
            moved_on(*old(self), *final(self)),
            (dims@.len() > 0) == (old(self).cur() == TokenKind::LBracket),
            (dims_m(dims@), final(self).st()) == sp_dims(old(self).tokens@, old(self).st()),
    {
        let ghost t = self.tokens@;
        let ghost s0 = self.st();
        let mut dims: Vec<Dimension> = Vec::new();
        let ghost p0 = *old(self);
        assert(dims_m(dims@) =~= Seq::<DimM>::empty());
        while self.at(TokenKind::LBracket)
            invariant
                moved_on(p0, *self),
                t == self.tokens@,
                s0 == p0.st(),
                dims@.len() > 0 ==> p0.cur() == TokenKind::LBracket,
                dims@.len() == 0 ==> self.pos == p0.pos,
                sp_dims(t, s0) == (dims_m(dims@) + sp_dims(t, self.st()).0, sp_dims(
                    t,
                    self.st(),
                ).1),
            decreases self.tokens@.len() - self.pos,
        {
            let ghost before = dims@;
            let start = self.tokens[self.pos].span.start;
            self.bump();
            let d;
            if self.at(TokenKind::RBracket) {
                self.bump();
                let span = self.span_from(start);
                d = Dimension { msb: None, lsb: None, span };
            } else {
                let msb = self.parse_expression();
                let lsb = if self.eat(TokenKind::Colon).is_some() {
                    Some(self.parse_expression())
                } else {
                    None
                };
                self.expect(TokenKind::RBracket);
                let span = self.span_from(start);
                d = Dimension { msb: Some(msb), lsb, span };
            }
            let ghost dm = dim_m(d);
            dims.push(d);
            assert(dims_m(dims@) =~= dims_m(before).push(dm));
            assert(dims_m(before) + (seq![dm] + sp_dims(t, self.st()).0) =~= dims_m(dims@)
                + sp_dims(t, self.st()).0);
        }
        assert(dims_m(dims@) + Seq::<DimM>::empty() =~= dims_m(dims@));
        dims
    }

    fn parse_signing(&mut self) -> (s: Option<Signing>)
        requires
            old(self).wf(),
        ensures
            moved_on(*old(self), *final(self)),
            (s, final(self).st()) == sp_signing(old(self).tokens@, old(self).st()),
    {
        if self.eat(TokenKind::KwSigned).is_some() {
            Some(Signing::Signed)
        } else if self.eat(TokenKind::KwUnsigned).is_some() {
            Some(Signing::Unsigned)
        } else {
            None
        }
    }

    /// Skips a balanced `( ... )`; the current token is `(`.
    fn skip_parenthesized(&mut self)
        requires
            old(self).wf(),
            old(self).cur() == TokenKind::LParen,
        ensures
            progressed(*old(self), *final(self)),
            final(self).st() == sp_skip_parens(old(self).tokens@, old(self).st()),
    {
        let ghost t = self.tokens@;
        self.bump();
        let ghost s1 = self.st();
        let ghost p0 = *old(self);
        let n = self.tokens.len();
        let mut depth: usize = 1;
        while depth > 0 && !self.at(TokenKind::Eof)
            invariant
                progressed(p0, *self),
                t == self.tokens@,
                n == self.tokens@.len(),
                depth <= self.pos,
                sp_skip_from(t, depth as nat, self.st()) == sp_skip_from(t, 1, s1),
            decreases self.tokens@.len() - self.pos,
        {
            if self.at(TokenKind::LParen) {
                depth = depth + 1;
            } else if self.at(TokenKind::RParen) {
                depth = depth - 1;
            }
            self.bump();
        }
    }

    /// A data type: a built-in keyword with optional signing and packed
    /// dimensions, or a (scoped, possibly parameterized) type name.
    pub fn parse_data_type(&mut self) -> (dt: DataType)
        requires
            old(self).wf(),
        ensures
            moved_on(*old(self), *final(self)),
            is_data_type_kind(old(self).cur()) ==> old(self).pos < final(self).pos
                && dt is Builtin,
            old(self).cur() == TokenKind::Identifier ==> old(self).pos < final(self).pos
                && dt is Named,
            (data_type_m(dt), final(self).st()) == sp_data_type(old(self).tokens@, old(self).st()),
    {
        let start = self.tokens[self.pos].span.start;
        if self.is_data_type_keyword() {
            let keyword = self.bump().kind;
            let signing = self.parse_signing();
            let dimensions = self.parse_unpacked_dimensions();
            let span = self.span_from(start);
            DataType::Builtin { keyword, signing, dimensions, span }
        } else if self.at(TokenKind::Identifier) {
            let name = self.parse_hierarchical_identifier();
            if self.at(TokenKind::Hash) && self.peek_kind() == TokenKind::LParen {
                self.bump();
                self.skip_parenthesized();
            }
            let dimensions = self.parse_unpacked_dimensions();
            let span = self.span_from(start);
            DataType::Named { name, dimensions, span }
        } else {
            let signing = self.parse_signing();
            let dimensions = self.parse_unpacked_dimensions();
            let span = self.span_from(start);
            DataType::Implicit { signing, dimensions, span }
        }
    }

    /// A `typedef ... name;` declaration, read up to its semicolon; gives the
    /// last identifier before the semicolon.
    pub fn parse_typedef_declaration(&mut self) -> (name: Option<Identifier>)
        requires
            old(self).wf(),
            old(self).cur() == TokenKind::KwTypedef,
        ensures
            progressed(*old(self), *final(self)),
            (match name {
                Some(i) => Some(ident_m(i)),
                None => None,
            }, final(self).st()) == sp_typedef(old(self).tokens@, old(self).st()),
    {
        let ghost t = self.tokens@;
        self.bump();
        let ghost s1 = self.st();
        let ghost p0 = *old(self);
        let mut last: Option<Identifier> = None;
        while !self.at(TokenKind::Semicolon) && !self.at(TokenKind::Eof)
            invariant
                progressed(p0, *self),
                t == self.tokens@,
                sp_typedef_tail(t, match last {
                    Some(i) => Some(ident_m(i)),
                    None => None,
                }, self.st()) == sp_typedef_tail(t, None, s1),
            decreases self.tokens@.len() - self.pos,
        {
            if self.at(TokenKind::Identifier) {
                let t = self.bump();
                last = Some(Identifier { name: t.text, span: t.span });
            } else {
                self.bump();
            }
        }
        self.expect(TokenKind::Semicolon);
        last
    }
}

} // verus!
