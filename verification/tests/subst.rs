use enum_trait::conflict::{
    param_context_name_conflict, param_generics_name_conflict, param_name_conflict,
};
use enum_trait::error::{ErrorKind, Reason};
use enum_trait::expr::{TypeLevelArm, TypeLevelArmSelector, TypeLevelExpr, TypeLevelExprMatch};
use enum_trait::generics::{
    generic_param_arg, self_type_param, GenericParam, Generics, GenericsContext, ParamKind,
};
use enum_trait::item::ItemKind;
use enum_trait::output::LoweredItem;
use enum_trait::indirection::{build_indirection, isolate_type_param};
use enum_trait::params::{
    add_prefix_to_all_params, add_underscores_to_all_params, rename_all_params,
    rename_conflicting_params, substitute_all, substitute_all_params,
};
use enum_trait::rename::Conflict;
use enum_trait::scoped::ImplItem;
use enum_trait::substitutable::{get_param_references, references_param, substitute};
use enum_trait::subst::ParamSubstArg;
use enum_trait::syntax::{
    clone_node, ExprKind, Ident, Node, NodeKind, PatKind, PathPlace, PathSegment, QSelf, Span,
    TypeKind,
};

// A reader and a writer for the small part of the surface syntax that the
// cases below are written in. Two trees are compared by what they print.

#[derive(Clone, Debug, PartialEq)]
enum Tok {
    Ident(String),
    Lifetime(String),
    Lit(String),
    Punct(&'static str),
}

fn lex(src: &str) -> Vec<Tok> {
    let chars: Vec<char> = src.chars().collect();
    let mut toks = Vec::new();
    let mut i = 0;
    while i < chars.len() {
        let c = chars[i];
        if c.is_whitespace() {
            i += 1;
        } else if c.is_ascii_digit() {
            let start = i;
            while i < chars.len() && chars[i].is_ascii_alphanumeric() {
                i += 1;
            }
            toks.push(Tok::Lit(chars[start..i].iter().collect()));
        } else if c.is_alphabetic() || c == '_' {
            let start = i;
            while i < chars.len() && (chars[i].is_alphanumeric() || chars[i] == '_') {
                i += 1;
            }
            toks.push(Tok::Ident(chars[start..i].iter().collect()));
        } else if c == '\'' {
            let start = i + 1;
            i += 1;
            while i < chars.len() && (chars[i].is_alphanumeric() || chars[i] == '_') {
                i += 1;
            }
            toks.push(Tok::Lifetime(chars[start..i].iter().collect()));
        } else {
            let two: String = chars[i..(i + 2).min(chars.len())].iter().collect();
            let p = match two.as_str() {
                "::" => Some("::"),
                "=>" => Some("=>"),
                _ => None,
            };
            if let Some(p) = p {
                toks.push(Tok::Punct(p));
                i += 2;
            } else {
                let p = match c {
                    '<' => "<",
                    '>' => ">",
                    ',' => ",",
                    '(' => "(",
                    ')' => ")",
                    '{' => "{",
                    '}' => "}",
                    '=' => "=",
                    ':' => ":",
                    ';' => ";",
                    '+' => "+",
                    '*' => "*",
                    '|' => "|",
                    _ => panic!("unexpected character {c}"),
                };
                toks.push(Tok::Punct(p));
                i += 1;
            }
        }
    }
    toks
}

struct Reader {
    toks: Vec<Tok>,
    pos: usize,
}

fn sp() -> Span {
    Span { id: 0 }
}

fn ident(name: &str) -> Ident {
    Ident::new(name, sp())
}

fn tree(kind: NodeKind, text: &str, children: Vec<Node>) -> Node {
    Node::Tree { kind, text: text.to_string(), span: sp(), children }
}

impl Reader {
    fn new(src: &str) -> Reader {
        Reader { toks: lex(src), pos: 0 }
    }

    fn peek(&self) -> Option<&Tok> {
        self.toks.get(self.pos)
    }

    fn at(&self, p: &str) -> bool {
        matches!(self.peek(), Some(Tok::Punct(q)) if *q == p)
    }

    fn at_word(&self, w: &str) -> bool {
        matches!(self.peek(), Some(Tok::Ident(q)) if q == w)
    }

    fn eat(&mut self, p: &str) -> bool {
        if self.at(p) {
            self.pos += 1;
            true
        } else {
            false
        }
    }

    fn expect(&mut self, p: &str) {
        assert!(self.eat(p), "expected {p} at {}: {:?}", self.pos, self.peek());
    }

    fn word(&mut self) -> String {
        match self.toks.get(self.pos) {
            Some(Tok::Ident(name)) => {
                self.pos += 1;
                name.clone()
            }
            other => panic!("expected a name, found {other:?}"),
        }
    }

    fn done(&self) {
        assert_eq!(self.pos, self.toks.len(), "input left over");
    }

    fn lifetime(&mut self) -> Node {
        match self.toks.get(self.pos) {
            Some(Tok::Lifetime(name)) => {
                self.pos += 1;
                Node::Lifetime { ident: ident(name) }
            }
            other => panic!("expected a lifetime, found {other:?}"),
        }
    }

    fn generic_arg(&mut self) -> Node {
        if matches!(self.peek(), Some(Tok::Lifetime(_))) {
            self.lifetime()
        } else if self.eat("{") {
            let e = self.expr();
            self.expect("}");
            e
        } else {
            self.ty()
        }
    }

    fn angle_args(&mut self) -> Node {
        self.expect("<");
        let mut args = Vec::new();
        while !self.at(">") {
            args.push(self.generic_arg());
            if !self.eat(",") {
                break;
            }
        }
        self.expect(">");
        tree(NodeKind::AngleBracketed, "", args)
    }

    fn path(&mut self, place: PathPlace) -> Node {
        let mut qself = None;
        if self.at("<") {
            self.expect("<");
            let ty = self.ty();
            self.expect(">");
            qself = Some(QSelf { ty: Box::new(ty), position: 0, as_token: false });
        }
        let mut leading_colon = false;
        if qself.is_some() {
            self.expect("::");
            leading_colon = true;
        } else if self.eat("::") {
            leading_colon = true;
        }
        let mut segments = Vec::new();
        loop {
            let name = self.word();
            let mut arguments = None;
            if place == PathPlace::Expr {
                if self.at("::") && self.toks.get(self.pos + 1) == Some(&Tok::Punct("<")) {
                    self.expect("::");
                    arguments = Some(Box::new(self.angle_args()));
                }
            } else if self.at("<") {
                arguments = Some(Box::new(self.angle_args()));
            }
            segments.push(PathSegment { ident: ident(&name), arguments });
            if !self.eat("::") {
                break;
            }
        }
        Node::Path { place, qself, leading_colon, segments }
    }

    fn ty(&mut self) -> Node {
        if self.eat("(") {
            let mut elems = Vec::new();
            while !self.at(")") {
                elems.push(self.ty());
                if !self.eat(",") {
                    break;
                }
            }
            self.expect(")");
            tree(NodeKind::Type(TypeKind::Tuple), "", elems)
        } else {
            self.path(PathPlace::Type)
        }
    }

    fn block(&mut self) -> Node {
        self.expect("{");
        let mut stmts = Vec::new();
        while self.at_word("let") {
            self.word();
            let name = self.word();
            self.expect(":");
            let ty = self.ty();
            self.expect("=");
            let value = self.expr();
            self.expect(";");
            let binding = tree(NodeKind::Pat(PatKind::Ident), &name, Vec::new());
            let typed = tree(NodeKind::Pat(PatKind::Type), "", vec![binding, ty]);
            stmts.push(tree(NodeKind::Local, "", vec![typed, value]));
        }
        let last = self.expr();
        stmts.push(tree(NodeKind::StmtExpr, "", vec![last]));
        self.expect("}");
        tree(NodeKind::Expr(ExprKind::Block), "", vec![tree(NodeKind::Block, "", stmts)])
    }

    fn primary(&mut self) -> Node {
        let mut e = match self.peek().cloned() {
            Some(Tok::Lit(text)) => {
                self.pos += 1;
                tree(NodeKind::Expr(ExprKind::Lit), &text, Vec::new())
            }
            Some(Tok::Punct("{")) => self.block(),
            Some(Tok::Punct("|")) => {
                self.expect("|");
                let mut parts = Vec::new();
                while !self.at("|") {
                    let name = self.word();
                    parts.push(tree(NodeKind::Pat(PatKind::Ident), &name, Vec::new()));
                    if !self.eat(",") {
                        break;
                    }
                }
                self.expect("|");
                parts.push(self.expr());
                tree(NodeKind::Expr(ExprKind::Closure), "", parts)
            }
            _ => self.path(PathPlace::Expr),
        };
        while self.eat("(") {
            let mut parts = vec![e];
            while !self.at(")") {
                parts.push(self.expr());
                if !self.eat(",") {
                    break;
                }
            }
            self.expect(")");
            e = tree(NodeKind::Expr(ExprKind::Call), "", parts);
        }
        e
    }

    fn expr(&mut self) -> Node {
        let mut left = self.primary();
        loop {
            let op = if self.eat("+") {
                "+"
            } else if self.eat("*") {
                "*"
            } else {
                break;
            };
            let right = self.primary();
            left = tree(NodeKind::Expr(ExprKind::Binary), op, vec![left, right]);
        }
        left
    }

    fn bound(&mut self) -> Node {
        if matches!(self.peek(), Some(Tok::Lifetime(_))) {
            self.lifetime()
        } else {
            tree(NodeKind::TraitBound, "", vec![self.path(PathPlace::Plain)])
        }
    }

    fn param(&mut self) -> GenericParam {
        if let Some(Tok::Lifetime(name)) = self.peek().cloned() {
            self.pos += 1;
            let mut bounds = Vec::new();
            if self.eat(":") {
                loop {
                    bounds.push(self.lifetime());
                    if !self.eat("+") {
                        break;
                    }
                }
            }
            GenericParam::Lifetime { lifetime: ident(&name), bounds }
        } else if self.at_word("const") {
            self.word();
            let name = self.word();
            self.expect(":");
            let ty = self.ty();
            GenericParam::Const { ident: ident(&name), ty, default: None }
        } else {
            let name = self.word();
            let mut bounds = Vec::new();
            if self.eat(":") {
                loop {
                    bounds.push(self.bound());
                    if !self.eat("+") {
                        break;
                    }
                }
            }
            GenericParam::Type { ident: ident(&name), bounds, default: None }
        }
    }

    fn generics(&mut self) -> Generics {
        let mut params = Vec::new();
        if self.eat("<") {
            while !self.at(">") {
                params.push(self.param());
                if !self.eat(",") {
                    break;
                }
            }
            self.expect(">");
        }
        Generics { params, where_clause: Vec::new() }
    }

    fn type_level(&mut self, of_types: bool) -> TypeLevelExpr {
        if self.at_word("match") {
            self.word();
            self.expect("<");
            let mut types = Vec::new();
            while !self.at(">") {
                types.push(self.ty());
                if !self.eat(",") {
                    break;
                }
            }
            self.expect(">");
            self.expect("{");
            let mut arms = Vec::new();
            while !self.at("}") {
                let mut selectors = Vec::new();
                loop {
                    if self.at_word("_") {
                        self.word();
                        selectors.push(TypeLevelArmSelector::Default { span: sp() });
                    } else {
                        let name = self.word();
                        let generics = self.generics();
                        selectors.push(TypeLevelArmSelector::Specific { ident: ident(&name), generics });
                    }
                    if !self.eat(",") {
                        break;
                    }
                }
                self.expect("=>");
                let body = self.type_level(of_types);
                arms.push(TypeLevelArm { selectors, body });
                if !self.eat(",") {
                    break;
                }
            }
            self.expect("}");
            TypeLevelExpr::Match(TypeLevelExprMatch { types, arms })
        } else if of_types {
            TypeLevelExpr::Expr(self.ty())
        } else {
            TypeLevelExpr::Expr(self.expr())
        }
    }
}

fn ty(src: &str) -> Node {
    let mut r = Reader::new(src);
    let n = r.ty();
    r.done();
    n
}

fn expr(src: &str) -> Node {
    let mut r = Reader::new(src);
    let n = r.expr();
    r.done();
    n
}

fn param(src: &str) -> GenericParam {
    let mut r = Reader::new(src);
    let p = r.param();
    r.done();
    p
}

fn match_of_types(src: &str) -> TypeLevelExpr {
    let mut r = Reader::new(src);
    let e = r.type_level(true);
    r.done();
    e
}

fn match_of_exprs(src: &str) -> TypeLevelExpr {
    let mut r = Reader::new(src);
    let e = r.type_level(false);
    r.done();
    e
}

fn join(parts: &[Node], sep: &str) -> String {
    parts.iter().map(show).collect::<Vec<_>>().join(sep)
}

fn show_arg(n: &Node) -> String {
    match n {
        Node::Tree { kind: NodeKind::Expr(ExprKind::Lit), .. } => show(n),
        Node::Tree { kind: NodeKind::Expr(ExprKind::Block), .. } => show(n),
        Node::Tree { kind: NodeKind::Expr(_), .. } => format!("{{ {} }}", show(n)),
        _ => show(n),
    }
}

fn show(n: &Node) -> String {
    match n {
        Node::Lifetime { ident } => format!("'{}", ident.name),
        Node::Path { qself, leading_colon, segments, .. } => {
            let mut out = String::new();
            if let Some(q) = qself {
                out.push_str(&format!("< {} > ", show(&q.ty)));
            }
            if *leading_colon {
                out.push_str(":: ");
            }
            let shown: Vec<String> = segments
                .iter()
                .map(|s| match &s.arguments {
                    Some(a) => format!("{} {}", s.ident.name, show(a)),
                    None => s.ident.name.clone(),
                })
                .collect();
            out.push_str(&shown.join(" :: "));
            out
        }
        Node::Tree { kind, text, children, .. } => match kind {
            NodeKind::AngleBracketed => {
                let shown: Vec<String> = children.iter().map(show_arg).collect();
                format!("< {} >", shown.join(" , "))
            }
            NodeKind::Type(TypeKind::Tuple) => format!("( {} )", join(children, " , ")),
            NodeKind::Expr(ExprKind::Lit) => text.clone(),
            NodeKind::Expr(ExprKind::Call) => {
                format!("{} ( {} )", show(&children[0]), join(&children[1..], " , "))
            }
            NodeKind::Expr(ExprKind::Binary) => {
                format!("{} {} {}", show(&children[0]), text, show(&children[1]))
            }
            NodeKind::Expr(ExprKind::Closure) => {
                let last = children.len() - 1;
                format!("| {} | {}", join(&children[..last], " , "), show(&children[last]))
            }
            NodeKind::Expr(ExprKind::Block) => format!("{{ {} }}", show(&children[0])),
            NodeKind::Block => join(children, " "),
            NodeKind::Local => format!("let {} = {} ;", show(&children[0]), show(&children[1])),
            NodeKind::Pat(PatKind::Type) => format!("{} : {}", show(&children[0]), show(&children[1])),
            NodeKind::Pat(PatKind::Ident) => text.clone(),
            NodeKind::StmtExpr => show(&children[0]),
            NodeKind::TraitBound => show(&children[0]),
            other => panic!("no way to print {other:?}"),
        },
    }
}

fn show_param(p: &GenericParam) -> String {
    match p {
        GenericParam::Lifetime { lifetime, bounds } => {
            if bounds.is_empty() {
                format!("'{}", lifetime.name)
            } else {
                format!("'{} : {}", lifetime.name, join(bounds, " + "))
            }
        }
        GenericParam::Type { ident, bounds, .. } => {
            if bounds.is_empty() {
                ident.name.clone()
            } else {
                format!("{} : {}", ident.name, join(bounds, " + "))
            }
        }
        GenericParam::Const { ident, ty, .. } => format!("const {} : {}", ident.name, show(ty)),
    }
}

fn show_generics(g: &Generics) -> String {
    if g.params.is_empty() {
        String::new()
    } else {
        let shown: Vec<String> = g.params.iter().map(show_param).collect();
        format!(" < {} >", shown.join(" , "))
    }
}

fn show_level(e: &TypeLevelExpr) -> String {
    match e {
        TypeLevelExpr::Expr(n) => show(n),
        TypeLevelExpr::Match(m) => {
            let arms: Vec<String> = m
                .arms
                .iter()
                .map(|arm| {
                    let selectors: Vec<String> = arm
                        .selectors
                        .iter()
                        .map(|s| match s {
                            TypeLevelArmSelector::Specific { ident, generics } => {
                                format!("{}{}", ident.name, show_generics(generics))
                            }
                            TypeLevelArmSelector::Default { .. } => "_".to_string(),
                        })
                        .collect();
                    format!("{} => {} ,", selectors.join(" , "), show_level(&arm.body))
                })
                .collect();
            format!("match < {} > {{ {} }}", join(&m.types, " , "), arms.join(" "))
        }
    }
}

fn assert_subst_type(param: &GenericParam, arg: ParamSubstArg, mut before: Node, after: Node) {
    substitute(&mut before, param, arg).unwrap();
    assert_eq!(show(&before), show(&after));
}

fn assert_subst_level(
    param: &GenericParam,
    arg: ParamSubstArg,
    mut before: TypeLevelExpr,
    after: TypeLevelExpr,
) {
    substitute(&mut before, param, arg).unwrap();
    assert_eq!(show_level(&before), show_level(&after));
}

#[test]
fn lifetime_param_subst_param() {
    let param = param("'a");
    let arg = self::param("'x");
    let arg = ParamSubstArg::Param(&arg);
    assert_subst_type(&param, arg, ty("A<'a>"), ty("A<'x>"));
    assert_subst_type(&param, arg, ty("A<'b>"), ty("A<'b>"));
    assert_subst_level(
        &param,
        arg,
        match_of_types("match <B> { C => A, D => B, E => F<'b, 'a, A> }"),
        match_of_types("match <B> { C => A, D => B, E => F<'b, 'x, A> }"),
    );
    assert_subst_level(
        &param,
        arg,
        match_of_types("match <B> { C<'b, 'a, D> => F<'a> }"),
        match_of_types("match <B> { C<'b, 'a, D> => F<'a> }"),
    );
}

#[test]
fn type_param_subst_param() {
    let param = param("A");
    let arg = self::param("X");
    let arg = ParamSubstArg::Param(&arg);
    assert_subst_type(&param, arg, ty("A"), ty("X"));
    assert_subst_type(&param, arg, ty("B"), ty("B"));
    assert_subst_type(&param, arg, ty("A::C"), ty("X::C"));
    assert_subst_type(&param, arg, ty("<A>::C"), ty("<X>::C"));
    assert_subst_type(&param, arg, ty("B::C"), ty("B::C"));
    assert_subst_type(&param, arg, ty("B::A"), ty("B::A"));
    assert_subst_type(&param, arg, ty("F<A,B,G<A::C::D>,E>"), ty("F<X,B,G<X::C::D>,E>"));
    assert_subst_type(&param, arg, expr("A::C"), expr("X::C"));
    assert_subst_type(&param, arg, expr("B::C"), expr("B::C"));
    assert_subst_level(
        &param,
        arg,
        match_of_types("match <B> { C => A, D => B, E => F<A> }"),
        match_of_types("match <B> { C => X, D => B, E => F<X> }"),
    );
    assert_subst_level(
        &param,
        arg,
        match_of_types("match <B> { C => match <C> { D => A, }, }"),
        match_of_types("match <B> { C => match <C> { D => X, }, }"),
    );
    assert_subst_level(&param, arg, match_of_types("match <A> {}"), match_of_types("match <X> {}"));
    assert_subst_level(
        &param,
        arg,
        match_of_types("match <B> { C<D, E: F<A>> => A }"),
        match_of_types("match <B> { C<D, E: F<X>> => X }"),
    );
    assert_subst_level(
        &param,
        arg,
        match_of_types("match <B> { C<D, A, E: F<A>> => A }"),
        match_of_types("match <B> { C<D, A, E: F<A>> => A }"),
    );
    assert_subst_level(
        &param,
        arg,
        match_of_types("match <B> { C<D, X> => (A, X) }"),
        match_of_types("match <B> { C<D, X_> => (X, X_) }"),
    );
    assert_subst_level(
        &param,
        arg,
        match_of_types("match <B> { C<D, X, Y: F<X>> => (A, X, Y) }"),
        match_of_types("match <B> { C<D, X_, Y: F<X_>> => (X, X_, Y) }"),
    );
}

#[test]
fn type_param_subst_tuple() {
    let param = param("A");
    let arg = ty("(X, Y)");
    let arg = ParamSubstArg::Arg(&arg);
    assert_subst_type(&param, arg, ty("A"), ty("(X, Y)"));
    assert_subst_type(&param, arg, ty("B"), ty("B"));
    assert_subst_type(&param, arg, ty("::A"), ty("::A"));
    assert_subst_type(&param, arg, ty("A::C"), ty("<(X, Y)>::C"));
    assert_subst_type(&param, arg, ty("<A>::C"), ty("<(X, Y)>::C"));
    assert_subst_type(&param, arg, ty("B::C"), ty("B::C"));
    assert_subst_type(&param, arg, ty("B::A"), ty("B::A"));
    assert_subst_type(
        &param,
        arg,
        ty("F<A,B,G<A::C::D>,E>"),
        ty("F<(X, Y),B,G<<(X, Y)>::C::D>,E>"),
    );
    assert_subst_type(&param, arg, expr("A::C"), expr("<(X, Y)>::C"));
    assert_subst_type(&param, arg, expr("B::C"), expr("B::C"));
    assert_subst_level(
        &param,
        arg,
        match_of_types("match <B> { C => A, D => B, E => F<A> }"),
        match_of_types("match <B> { C => (X, Y), D => B, E => F<(X, Y)> }"),
    );
    assert_subst_level(
        &param,
        arg,
        match_of_types("match <B> { C => match <C> { D => A, }, }"),
        match_of_types("match <B> { C => match <C> { D => (X, Y), }, }"),
    );
    assert_subst_level(
        &param,
        arg,
        match_of_types("match <A> {}"),
        match_of_types("match <(X, Y)> {}"),
    );
    assert_subst_level(
        &param,
        arg,
        match_of_types("match <B> { C<D, E: F<A>> => A }"),
        match_of_types("match <B> { C<D, E: F<(X, Y)>> => (X, Y) }"),
    );
    assert_subst_level(
        &param,
        arg,
        match_of_types("match <B> { C<D, A, E: F<A>> => A }"),
        match_of_types("match <B> { C<D, A, E: F<A>> => A }"),
    );
    assert_subst_level(
        &param,
        arg,
        match_of_types("match <B> { C<D, X> => (A, X) }"),
        match_of_types("match <B> { C<D, X_> => ((X, Y), X_) }"),
    );
}

#[test]
fn expr_param_subst_param() {
    let param = param("const A: T");
    let arg = self::param("const X: T");
    let arg = ParamSubstArg::Param(&arg);
    assert_subst_type(&param, arg, expr("A"), expr("X"));
    assert_subst_type(&param, arg, expr("B"), expr("B"));
    assert_subst_type(&param, arg, expr("::A"), expr("::A"));
    assert_subst_type(&param, arg, expr("A::B"), expr("A::B"));
    assert_subst_type(&param, arg, expr("B::A"), expr("B::A"));
    assert_subst_type(
        &param,
        arg,
        expr("f(A, B(A(C)))"),
        expr("{ let A: T = X; f(A, B(A(C))) }"),
    );
    assert_subst_type(&param, arg, expr("A(|A| 2 * A)"), expr("{ let A: T = X; A(|A| 2 * A) }"));
    assert_subst_type(&param, arg, ty("F<A>"), ty("F<X>"));
    assert_subst_level(
        &param,
        arg,
        match_of_exprs("match <B> { C => A, D => B, E => f(A), }"),
        match_of_exprs("match <B> { C => X, D => B, E => { let A: T = X; f(A) }, }"),
    );
    assert_subst_level(
        &param,
        arg,
        match_of_exprs("match <B> { C => match <C> { D => A, }, }"),
        match_of_exprs("match <B> { C => match <C> { D => X, }, }"),
    );
    assert_subst_level(
        &param,
        arg,
        match_of_exprs("match <F<A>> {}"),
        match_of_exprs("match <F<X>> {}"),
    );
    assert_subst_level(
        &param,
        arg,
        match_of_exprs("match <B> { C<D, A, E: F<A>> => f::<A> }"),
        match_of_exprs("match <B> { C<D, A, E: F<A>> => f::<A> }"),
    );
    assert_subst_level(
        &param,
        arg,
        match_of_exprs("match <B> { C<D, E: F<A>> => f::<A> }"),
        match_of_exprs("match <B> { C<D, E: F<X>> => f::<X> }"),
    );
    assert_subst_level(
        &param,
        arg,
        match_of_exprs("match <B> { C<D, X> => f::<A, X> }"),
        match_of_exprs("match <B> { C<D, X_> => f::<X, X_> }"),
    );
}

#[test]
fn expr_param_subst_op() {
    let param = param("const A: T");
    let arg = expr("X + 42");
    let arg = ParamSubstArg::Arg(&arg);
    assert_subst_type(&param, arg, expr("A"), expr("X + 42"));
    assert_subst_type(&param, arg, expr("B"), expr("B"));
    assert_subst_type(&param, arg, expr("::A"), expr("::A"));
    assert_subst_type(&param, arg, expr("A::B"), expr("A::B"));
    assert_subst_type(&param, arg, expr("B::A"), expr("B::A"));
    assert_subst_type(
        &param,
        arg,
        expr("f(A, B(A(C)))"),
        expr("{ let A: T = X + 42; f(A, B(A(C))) }"),
    );
    assert_subst_type(
        &param,
        arg,
        expr("A(|A| 2 * A)"),
        expr("{ let A: T = X + 42; A(|A| 2 * A) }"),
    );
    assert_subst_type(&param, arg, ty("F<A>"), ty("F<{ X + 42 }>"));
    assert_subst_level(
        &param,
        arg,
        match_of_exprs("match <B> { C => A, D => B, E => f(A), }"),
        match_of_exprs("match <B> { C => X + 42, D => B, E => { let A: T = X + 42; f(A) }, }"),
    );
    assert_subst_level(
        &param,
        arg,
        match_of_exprs("match <B> { C => match <C> { D => A, }, }"),
        match_of_exprs("match <B> { C => match <C> { D => X + 42, }, }"),
    );
    assert_subst_level(
        &param,
        arg,
        match_of_exprs("match <F<A>> {}"),
        match_of_exprs("match <F<{ X + 42 }>> {}"),
    );
    assert_subst_level(
        &param,
        arg,
        match_of_exprs("match <B> { C<D, A, E: F<A>> => f::<A> }"),
        match_of_exprs("match <B> { C<D, A, E: F<A>> => f::<A> }"),
    );
    assert_subst_level(
        &param,
        arg,
        match_of_exprs("match <B> { C<D, E: F<A>> => f::<A> }"),
        match_of_exprs("match <B> { C<D, E: F<{ X + 42 }>> => f::<{ X + 42 }> }"),
    );
    assert_subst_level(
        &param,
        arg,
        match_of_exprs("match <B> { C<D, X> => f::<A, X> }"),
        match_of_exprs("match <B> { C<D, X_> => f::<{ X + 42 }, X_> }"),
    );
}

fn generics(src: &str) -> Generics {
    let mut r = Reader::new(src);
    let g = r.generics();
    r.done();
    g
}

fn shown_generics(g: &Generics) -> String {
    show_generics(g).trim().to_string()
}

fn shown_captures(captures: &[(GenericParam, Node)]) -> Vec<(String, String)> {
    captures.iter().map(|(p, a)| (show_param(p), show(a))).collect()
}

#[test]
fn shadowed_arm_is_left_alone_but_matched_types_are_rewritten() {
    let a = param("A");
    let x = param("X");
    let mut e = match_of_types("match <A> { C<A> => F<A>, D => A }");
    let found = substitute(&mut e, &a, ParamSubstArg::Param(&x)).unwrap();
    assert!(found);
    assert_eq!(show_level(&e), show_level(&match_of_types("match <X> { C<A> => F<A>, D => X }")));
}

#[test]
fn bounds_of_selectors_before_the_shadowing_one_are_rewritten() {
    let a = param("A");
    let x = param("X");
    let mut e = match_of_types("match <B, C> { P<E: F<A>>, Q<A> => G<A, E> }");
    substitute(&mut e, &a, ParamSubstArg::Param(&x)).unwrap();
    assert_eq!(
        show_level(&e),
        show_level(&match_of_types("match <B, C> { P<E: F<X>>, Q<A> => G<A, E> }"))
    );
}

#[test]
fn lifetime_bounds_of_a_parameter_of_the_same_name_are_rewritten() {
    let a = param("'a");
    let x = param("'x");
    let mut p = param("'a: 'a + 'b");
    let found = substitute(&mut p, &a, ParamSubstArg::Param(&x)).unwrap();
    assert!(found);
    assert_eq!(show_param(&p), "'a : 'x + 'b");
}

#[test]
fn no_occurrence_is_no_change() {
    let a = param("A");
    let x = param("X");
    let mut t = ty("F<B, G<C::A>>");
    let before = show(&t);
    assert_eq!(substitute(&mut t, &a, ParamSubstArg::Param(&x)), Ok(false));
    assert_eq!(show(&t), before);
    assert_eq!(t, ty("F<B, G<C::A>>"));
}

#[test]
fn no_occurrence_renames_no_parameter_of_an_arm() {
    let a = param("A");
    let x = param("X");
    let mut e = match_of_types("match <B> { C<D, X> => (B, X) }");
    assert_eq!(substitute(&mut e, &a, ParamSubstArg::Param(&x)), Ok(false));
    assert_eq!(e, match_of_types("match <B> { C<D, X> => (B, X) }"));
}

#[test]
fn no_occurrence_binds_nothing_before_an_expression() {
    let a = param("const A: T");
    let arg = expr("X + 42");
    let mut e = expr("f(B, 2 * C)");
    assert_eq!(substitute(&mut e, &a, ParamSubstArg::Arg(&arg)), Ok(false));
    assert_eq!(e, expr("f(B, 2 * C)"));
}

#[test]
fn search_alone_changes_nothing() {
    let a = param("A");
    let mut t = ty("F<A, A::C>");
    assert_eq!(substitute(&mut t, &a, ParamSubstArg::TestOnly), Ok(true));
    assert_eq!(t, ty("F<A, A::C>"));
}

#[test]
fn lifetime_for_type_parameter_is_a_kind_mismatch() {
    let a = param("A");
    let arg = Node::Lifetime { ident: Ident::new("x", Span { id: 9 }) };
    let mut t = ty("F<A>");
    let err = substitute(&mut t, &a, ParamSubstArg::Arg(&arg)).unwrap_err();
    assert_eq!(err.reason, Reason::NonTypeArg);
    assert_eq!(err.kind(), ErrorKind::KindMismatch);
    assert_eq!(err.span, Span { id: 9 });
    assert_eq!(err.message(), "non-type arg for type param");
    assert_eq!(t, ty("F<A>"));
    let mut e = match_of_types("match <B> { C => A }");
    let err = substitute(&mut e, &a, ParamSubstArg::Arg(&arg)).unwrap_err();
    assert_eq!(err.reason, Reason::NonTypeArg);
    let mut none = ty("F<B>");
    assert_eq!(substitute(&mut none, &a, ParamSubstArg::Arg(&arg)), Ok(false));
}

#[test]
fn each_kind_refuses_the_others() {
    let lifetime = param("'a");
    let constant = param("const N: T");
    let ty_param = param("A");
    let mut t = ty("F<'a, N, A>");
    let err = substitute(&mut t, &lifetime, ParamSubstArg::Param(&ty_param)).unwrap_err();
    assert_eq!(err.reason, Reason::NonLifetimeArg);
    let err = substitute(&mut t, &constant, ParamSubstArg::Param(&ty_param)).unwrap_err();
    assert_eq!(err.reason, Reason::NonConstArg);
    let err = substitute(&mut t, &ty_param, ParamSubstArg::Param(&constant)).unwrap_err();
    assert_eq!(err.reason, Reason::NonTypeArg);
    assert_eq!(t, ty("F<'a, N, A>"));
}

#[test]
fn a_type_cannot_replace_a_path_of_one_segment() {
    let a = param("A");
    let arg = ty("(X, Y)");
    let mut e = expr("f(A)");
    let err = substitute(&mut e, &a, ParamSubstArg::Arg(&arg)).unwrap_err();
    assert_eq!(err.reason, Reason::SingleSegmentPath);
    assert_eq!(err.kind(), ErrorKind::Unsupported);
    assert_eq!(e, expr("f(A)"));
    let x = param("X");
    assert_eq!(substitute(&mut e, &a, ParamSubstArg::Param(&x)), Ok(true));
    assert_eq!(show(&e), "f ( X )");
}

#[test]
fn other_items_are_refused() {
    let a = param("A");
    let x = param("X");
    let mut item = ImplItem::Other { span: Span { id: 4 } };
    let err = substitute(&mut item, &a, ParamSubstArg::Param(&x)).unwrap_err();
    assert_eq!(err.reason, Reason::UnsupportedItem);
    assert_eq!(err.span, Span { id: 4 });
    assert_eq!(err.message(), "substitution not supported within this item");
    assert!(references_param(&item, &a).is_err());
}

#[test]
fn references_are_reported_in_source_order() {
    let a = param("A");
    let mut t = ty("F<A, B, G<A::C>>");
    if let Node::Path { segments, .. } = &mut t {
        if let Some(args) = &mut segments[0].arguments {
            if let Node::Tree { children, .. } = &mut **args {
                if let Node::Path { segments, .. } = &mut children[0] {
                    segments[0].ident.span = Span { id: 11 };
                }
                if let Node::Path { segments, .. } = &mut children[2] {
                    if let Some(inner) = &mut segments[0].arguments {
                        if let Node::Tree { children, .. } = &mut **inner {
                            if let Node::Path { segments, .. } = &mut children[0] {
                                segments[0].ident.span = Span { id: 22 };
                            }
                        }
                    }
                }
            }
        }
    }
    assert_eq!(get_param_references(&t, &a), Ok(vec![Span { id: 11 }, Span { id: 22 }]));
    assert_eq!(references_param(&t, &a), Ok(true));
    assert_eq!(references_param(&t, &param("C")), Ok(false));
    assert_eq!(get_param_references(&t, &param("'a")), Ok(vec![]));
}

#[test]
fn a_replaced_name_keeps_the_place_of_the_occurrence() {
    let a = param("A");
    let x = GenericParam::Type { ident: Ident::new("X", Span { id: 5 }), bounds: vec![], default: None };
    let mut t = Node::Path {
        place: PathPlace::Type,
        qself: None,
        leading_colon: false,
        segments: vec![
            PathSegment { ident: Ident::new("A", Span { id: 7 }), arguments: None },
            PathSegment { ident: Ident::new("C", Span { id: 8 }), arguments: None },
        ],
    };
    substitute(&mut t, &a, ParamSubstArg::Param(&x)).unwrap();
    if let Node::Path { segments, .. } = &t {
        assert_eq!(segments[0].ident, Ident::new("X", Span { id: 7 }));
        assert_eq!(segments[1].ident, Ident::new("C", Span { id: 8 }));
    } else {
        panic!("a path was expected");
    }
    let this = GenericParam::Type { ident: Ident::new("Self", Span { id: 5 }), bounds: vec![], default: None };
    substitute(&mut t, &x, ParamSubstArg::Param(&this)).unwrap();
    if let Node::Path { segments, .. } = &t {
        assert_eq!(segments[0].ident, Ident::new("Self", Span { id: 5 }));
    } else {
        panic!("a path was expected");
    }
}

#[test]
fn behind_the_head_of_a_path_the_arguments_are_rewritten() {
    let a = param("A");
    let x = param("X");
    let mut t = ty("A::C<A, F<A::D>>");
    assert_eq!(get_param_references(&t, &a).unwrap().len(), 3);
    assert_eq!(substitute(&mut t, &a, ParamSubstArg::Param(&x)), Ok(true));
    assert_eq!(show(&t), "X :: C < X , F < X :: D > >");
    assert_eq!(references_param(&t, &a), Ok(false));
    assert_eq!(substitute(&mut t, &a, ParamSubstArg::Param(&x)), Ok(false));
    let arg = ty("(P, Q)");
    let mut t = ty("A::C<A>::E");
    assert_eq!(substitute(&mut t, &a, ParamSubstArg::Arg(&arg)), Ok(true));
    assert_eq!(show(&t), "< ( P , Q ) > :: C < ( P , Q ) > :: E");
    let mut e = expr("A::f::<A>(B)");
    assert_eq!(substitute(&mut e, &a, ParamSubstArg::Param(&x)), Ok(true));
    assert_eq!(show(&e), "X :: f < X > ( B )");
}

#[test]
fn the_bounds_of_a_hiding_lifetime_are_rewritten() {
    let a = param("'a");
    let x = param("'x");
    let mut e = match_of_types("match <B> { C<'a: 'a + 'b, T: G<'a>> => F<'a> }");
    assert_eq!(get_param_references(&e, &a).unwrap().len(), 1);
    assert_eq!(substitute(&mut e, &a, ParamSubstArg::Param(&x)), Ok(true));
    assert_eq!(
        show_level(&e),
        show_level(&match_of_types("match <B> { C<'a: 'x + 'b, T: G<'a>> => F<'a> }"))
    );
    let mut plain = match_of_types("match <B> { C<'b, 'a, D> => F<'a> }");
    assert_eq!(substitute(&mut plain, &a, ParamSubstArg::Param(&x)), Ok(false));
    let t = param("A");
    let y = param("X");
    let mut types = match_of_types("match <B> { C<D, A, E: F<A>> => A }");
    assert_eq!(substitute(&mut types, &t, ParamSubstArg::Param(&y)), Ok(false));
    assert_eq!(types, match_of_types("match <B> { C<D, A, E: F<A>> => A }"));
    let mut item = function_item("<'a: 'a, T: G<'a>>", vec![ty("R<'a>")], "R<'a>", "f(B)");
    assert_eq!(substitute(&mut item, &a, ParamSubstArg::Param(&x)), Ok(true));
    assert_eq!(shown_generics(&item.generics), "< 'a : 'x , T : G < 'a > >");
    assert_eq!(item.header.iter().map(show).collect::<Vec<_>>(), vec!["R < 'a >"]);
    assert_eq!(item.output.as_ref().map(show), Some("R < 'a >".to_string()));
}

#[test]
fn what_cannot_be_rewritten_is_refused_only_when_asked() {
    let other = || ImplItem::Other { span: Span { id: 6 } };
    let empty = GenericsContext::Empty;
    let mut item = other();
    assert_eq!(build_indirection(&mut item, &empty), Ok(vec![]));
    let hidden_outer = generics("<T>");
    let inner = generics("<T>");
    let outer_context = GenericsContext::WithGenerics(&hidden_outer, &empty);
    let context = GenericsContext::WithGenerics(&inner, &outer_context);
    assert_eq!(build_indirection(&mut item, &context).unwrap_err().reason, Reason::UnsupportedItem);
    let none = generics("");
    let bare = GenericsContext::WithGenerics(&none, &empty);
    assert_eq!(build_indirection(&mut item, &bare), Ok(vec![]));
    assert_eq!(
        isolate_type_param(&mut item, &empty, &ident("A")).unwrap_err().reason,
        Reason::TypeParamNotFound
    );
    let constant = generics("<const A: T>");
    let const_context = GenericsContext::WithGenerics(&constant, &empty);
    assert_eq!(
        isolate_type_param(&mut item, &const_context, &ident("A")).unwrap_err().reason,
        Reason::ConstParamFound
    );
    assert_eq!(
        isolate_type_param(&mut item, &const_context, &ident("B")).unwrap_err().reason,
        Reason::TypeParamNotFound
    );
    let g = generics("<A>");
    let found = GenericsContext::WithGenerics(&g, &empty);
    assert_eq!(
        isolate_type_param(&mut item, &found, &ident("A")).unwrap_err().reason,
        Reason::UnsupportedItem
    );
    let this = param("Self");
    let subject = GenericsContext::WithSelf(&this, &empty);
    let (q, captured) = isolate_type_param(&mut item, &subject, &ident("Self")).unwrap();
    assert_eq!(show_param(q), "Self");
    assert!(captured.is_empty());
    let mut apart = generics("<X, Y>");
    let outside = vec![param("Z")];
    assert_eq!(rename_conflicting_params(&mut apart, &Conflict::Params(&outside), &mut item), Ok(false));
    let none = generics("");
    assert_eq!(substitute_all(&mut item, &none, &vec![], Span { id: 3 }), Ok(false));
    let err = substitute_all(&mut item, &none, &vec![ty("X")], Span { id: 3 }).unwrap_err();
    assert_eq!(err.reason, Reason::SuperfluousArgument);
    let one = generics("<A>");
    let err = substitute_all(&mut item, &one, &vec![], Span { id: 3 }).unwrap_err();
    assert_eq!(err.reason, Reason::TooFewArguments);
    let err = substitute_all(&mut item, &one, &vec![ty("X")], Span { id: 3 }).unwrap_err();
    assert_eq!(err.reason, Reason::UnsupportedItem);
}

#[test]
fn the_captures_of_an_inner_scope_stand_first() {
    let inner = generics("<A, C>");
    let outer = generics("<B, D>");
    let empty = GenericsContext::Empty;
    let outer_context = GenericsContext::WithGenerics(&outer, &empty);
    let context = GenericsContext::WithGenerics(&inner, &outer_context);
    let mut e = ty("(D, C, B, A)");
    let captured = build_indirection(&mut e, &context).unwrap();
    assert_eq!(
        shown_captures(&captured).into_iter().map(|c| c.0).collect::<Vec<_>>(),
        vec!["A", "C", "B", "D"]
    );
}

#[test]
fn name_conflicts_keep_lifetimes_apart() {
    assert!(param_name_conflict(&param("A"), &param("A: F")));
    assert!(param_name_conflict(&param("A"), &param("const A: T")));
    assert!(param_name_conflict(&param("const A: T"), &param("A")));
    assert!(param_name_conflict(&param("'a"), &param("'a: 'b")));
    assert!(!param_name_conflict(&param("'a"), &param("a")));
    assert!(!param_name_conflict(&param("A"), &param("B")));
    let g = generics("<'a, T, const N: U>");
    assert!(param_generics_name_conflict(&param("N"), &g));
    assert!(param_generics_name_conflict(&param("'a"), &g));
    assert!(!param_generics_name_conflict(&param("a"), &g));
    let inner = generics("<V>");
    let this = param("Self");
    let empty = GenericsContext::Empty;
    let outer = GenericsContext::WithGenerics(&g, &empty);
    let middle = GenericsContext::WithSelf(&this, &outer);
    let context = GenericsContext::WithGenerics(&inner, &middle);
    assert!(param_context_name_conflict(&param("V"), &context));
    assert!(param_context_name_conflict(&param("Self"), &context));
    assert!(param_context_name_conflict(&param("T"), &context));
    assert!(!param_context_name_conflict(&param("W"), &context));
    assert!(!param_context_name_conflict(&param("W"), &empty));
}

#[test]
fn conflicting_parameters_are_renamed_with_their_references() {
    let mut g = generics("<X, Y: F<X>, Z>");
    let outside = vec![param("X"), param("Z_"), param("Z")];
    let mut body = ty("(X, Y, Z)");
    let renamed = rename_conflicting_params(&mut g, &Conflict::Params(&outside), &mut body);
    assert_eq!(renamed, Ok(true));
    assert_eq!(shown_generics(&g), "< X_ , Y : F < X_ > , Z__ >");
    assert_eq!(show(&body), "( X_ , Y , Z__ )");
    for p in &g.params {
        assert!(!Conflict::Params(&outside).holds(p));
    }
    let mut body = ty("(X_, Y)");
    let again = rename_conflicting_params(&mut g, &Conflict::Params(&outside), &mut body);
    assert_eq!(again, Ok(false));
    assert_eq!(shown_generics(&g), "< X_ , Y : F < X_ > , Z__ >");
    assert_eq!(show(&body), "( X_ , Y )");
}

#[test]
fn parameters_that_an_argument_refers_to_are_in_conflict() {
    let mut g = generics("<X, Y>");
    let arg = ty("F<X, Z>");
    let mut nothing = ();
    assert_eq!(rename_conflicting_params(&mut g, &Conflict::Node(&arg), &mut nothing), Ok(true));
    assert_eq!(shown_generics(&g), "< X_ , Y >");
    let mut other = ImplItem::Other { span: Span { id: 1 } };
    let mut g = generics("<X, Y>");
    let err = rename_conflicting_params(&mut g, &Conflict::Node(&arg), &mut other).unwrap_err();
    assert_eq!(err.reason, Reason::UnsupportedItem);
    assert_eq!(shown_generics(&g), "< X , Y >");
}

#[test]
fn all_parameters_take_the_names_of_the_target() {
    let mut g = generics("<'a, A, B: F<A> + 'a, const N: A>");
    let target = generics("<'x, B, C, const M: T>");
    assert_eq!(rename_all_params(&mut g, &target), Ok(()));
    assert_eq!(shown_generics(&g), "< 'x , B , C : F < B > + 'x , const M : B >");
}

#[test]
fn renaming_to_a_target_of_another_shape_fails() {
    let mut g = generics("<A, B>");
    let err = rename_all_params(&mut g, &generics("<X>")).unwrap_err();
    assert_eq!(err.reason, Reason::TooFewParameters);
    assert_eq!(err.kind(), ErrorKind::Cardinality);
    let err = rename_all_params(&mut g, &generics("<X, Y, Z>")).unwrap_err();
    assert_eq!(err.reason, Reason::SuperfluousParameter);
    let err = rename_all_params(&mut g, &generics("<X, 'y>")).unwrap_err();
    assert_eq!(err.reason, Reason::TypeParamExpected);
    assert_eq!(err.kind(), ErrorKind::KindMismatch);
    let mut g = generics("<'a>");
    let err = rename_all_params(&mut g, &generics("<X>")).unwrap_err();
    assert_eq!(err.reason, Reason::LifetimeParamExpected);
    let mut g = generics("<const N: T>");
    let err = rename_all_params(&mut g, &generics("<X>")).unwrap_err();
    assert_eq!(err.reason, Reason::ConstParamExpected);
    assert_eq!(shown_generics(&g), "< const N : T >");
}

#[test]
fn underscores_and_prefixes_reach_every_parameter() {
    let mut g = generics("<'a, A, B: F<A> + 'a>");
    assert_eq!(add_underscores_to_all_params(&mut g), Ok(true));
    assert_eq!(shown_generics(&g), "< 'a_ , A_ , B_ : F < A_ > + 'a_ >");
    let mut none = generics("");
    assert_eq!(add_underscores_to_all_params(&mut none), Ok(false));
    let mut g = generics("<'a, A, B: F<A> + 'a>");
    assert_eq!(add_prefix_to_all_params(&mut g, "__"), Ok(()));
    assert_eq!(shown_generics(&g), "< '__a , __A , __B : F < __A > + '__a >");
}

#[test]
fn all_parameters_are_replaced_by_their_partners() {
    let g = generics("<A, B>");
    let mut t = ty("F<A, G<B>>");
    assert_eq!(substitute_all_params(&mut t, &g, &generics("<B, C>")), Ok(true));
    assert_eq!(show(&t), "F < B , G < C > >");
    let mut t = ty("F<A, G<B>>");
    let args = vec![ty("(B, B)"), ty("A")];
    assert_eq!(substitute_all(&mut t, &g, &args, Span { id: 3 }), Ok(true));
    assert_eq!(show(&t), "F < ( B , B ) , G < A > >");
    let mut t = ty("F<C>");
    let apart = vec![ty("X"), ty("Y")];
    assert_eq!(substitute_all(&mut t, &g, &apart, Span { id: 3 }), Ok(false));
    assert_eq!(show(&t), "F < C >");
    let mut t = ty("F<C>");
    assert_eq!(substitute_all(&mut t, &g, &args, Span { id: 3 }), Ok(true));
    assert_eq!(show(&t), "F < C >");
}

#[test]
fn too_few_and_too_many_partners_fail() {
    let g = generics("<A, B>");
    let mut t = ty("F<A, B>");
    let err = substitute_all_params(&mut t, &g, &generics("<X>")).unwrap_err();
    assert_eq!(err.reason, Reason::TooFewParameters);
    let mut t = ty("F<A, B>");
    let err = substitute_all_params(&mut t, &g, &generics("<X, Y, Z>")).unwrap_err();
    assert_eq!(err.reason, Reason::SuperfluousParameter);
    let mut t = ty("F<A, B>");
    let err = substitute_all(&mut t, &g, &vec![ty("X")], Span { id: 3 }).unwrap_err();
    assert_eq!(err.reason, Reason::TooFewArguments);
    assert_eq!(err.span, Span { id: 3 });
    let mut t = ty("F<A, B>");
    let err = substitute_all(&mut t, &g, &vec![ty("X"), ty("Y"), ty("Z")], Span { id: 3 }).unwrap_err();
    assert_eq!(err.reason, Reason::SuperfluousArgument);
    let mut t = ty("F<A, B>");
    let err = substitute_all(&mut t, &g, &vec![ty("X"), expr("1 + 2")], Span { id: 3 }).unwrap_err();
    assert_eq!(err.reason, Reason::NonTypeArg);
}

#[test]
fn an_expression_captures_what_it_depends_on() {
    let outer = generics("<T, W>");
    let inner = generics("<U: F<T>, V>");
    let empty = GenericsContext::Empty;
    let outer_context = GenericsContext::WithGenerics(&outer, &empty);
    let context = GenericsContext::WithGenerics(&inner, &outer_context);
    let mut e = ty("G<U>");
    let captured = build_indirection(&mut e, &context).unwrap();
    assert_eq!(
        shown_captures(&captured),
        vec![("U : F < T >".to_string(), "U".to_string()), ("T".to_string(), "T".to_string())]
    );
    assert_eq!(show(&e), "G < U >");
    let mut e = ty("G<X>");
    assert_eq!(build_indirection(&mut e, &context).unwrap().len(), 0);
    let mut e = ty("G<V, W>");
    let captured = build_indirection(&mut e, &empty).unwrap();
    assert!(captured.is_empty());
}

#[test]
fn an_inner_parameter_hides_an_outer_one() {
    let outer = generics("<T: Outer>");
    let inner = generics("<T: Inner>");
    let empty = GenericsContext::Empty;
    let outer_context = GenericsContext::WithGenerics(&outer, &empty);
    let context = GenericsContext::WithGenerics(&inner, &outer_context);
    let mut e = ty("G<T>");
    let captured = build_indirection(&mut e, &context).unwrap();
    assert_eq!(shown_captures(&captured), vec![("T : Inner".to_string(), "T".to_string())]);
}

#[test]
fn a_captured_dispatch_subject_is_renamed() {
    let this = param("Self: Tr");
    let inner = generics("<V: F<Self>>");
    let empty = GenericsContext::Empty;
    let self_context = GenericsContext::WithSelf(&this, &empty);
    let context = GenericsContext::WithGenerics(&inner, &self_context);
    let mut e = ty("G<Self::Item, V>");
    let captured = build_indirection(&mut e, &context).unwrap();
    assert_eq!(
        shown_captures(&captured),
        vec![
            ("V : F < Self_ >".to_string(), "V".to_string()),
            ("Self_ : Tr".to_string(), "Self".to_string())
        ]
    );
    assert_eq!(show(&e), "G < Self_ :: Item , V >");
}

#[test]
fn the_argument_of_a_capture_stands_at_the_first_reference() {
    let g = generics("<T>");
    let empty = GenericsContext::Empty;
    let context = GenericsContext::WithGenerics(&g, &empty);
    let mut e = Node::Path {
        place: PathPlace::Type,
        qself: None,
        leading_colon: false,
        segments: vec![
            PathSegment { ident: Ident::new("T", Span { id: 41 }), arguments: None },
            PathSegment { ident: Ident::new("Item", Span { id: 42 }), arguments: None },
        ],
    };
    let captured = build_indirection(&mut e, &context).unwrap();
    assert_eq!(captured.len(), 1);
    match &captured[0].1 {
        Node::Path { segments, .. } => assert_eq!(segments[0].ident, Ident::new("T", Span { id: 41 })),
        other => panic!("a path was expected, not {other:?}"),
    }
}

#[test]
fn a_type_parameter_is_set_apart_as_self() {
    let g = generics("<L: TypeList, I: Index<L>, J>");
    let empty = GenericsContext::Empty;
    let context = GenericsContext::WithGenerics(&g, &empty);
    let mut e = match_of_types("match <L> { Empty => I, NonEmpty<H, T> => F<L, H, I> }");
    let (found, captured) = isolate_type_param(&mut e, &context, &ident("L")).unwrap();
    assert_eq!(show_param(found), "L : TypeList");
    assert_eq!(shown_captures(&captured), vec![("I : Index < L >".to_string(), "I".to_string())]);
    assert_eq!(
        show_level(&e),
        show_level(&match_of_types("match <Self> { Empty => I, NonEmpty<H, T> => F<Self, H, I> }"))
    );
}

#[test]
fn a_dispatch_subject_is_set_apart_as_it_is() {
    let this = param("Self: Tr");
    let g = generics("<V>");
    let empty = GenericsContext::Empty;
    let outer = GenericsContext::WithGenerics(&g, &empty);
    let context = GenericsContext::WithSelf(&this, &outer);
    let mut e = ty("F<Self, V>");
    let (found, captured) = isolate_type_param(&mut e, &context, &ident("Self")).unwrap();
    assert_eq!(show_param(found), "Self : Tr");
    assert_eq!(shown_captures(&captured), vec![("V".to_string(), "V".to_string())]);
    assert_eq!(show(&e), "F < Self , V >");
}

#[test]
fn setting_apart_fails_without_a_type_parameter_of_the_name() {
    let g = generics("<L, const N: T>");
    let empty = GenericsContext::Empty;
    let context = GenericsContext::WithGenerics(&g, &empty);
    let mut e = ty("F<L, N>");
    let err = isolate_type_param(&mut e, &context, &ident("M")).unwrap_err();
    assert_eq!(err.reason, Reason::TypeParamNotFound);
    assert_eq!(err.kind(), ErrorKind::UnknownTarget);
    assert_eq!(err.message(), "type param `M` not found");
    let err = isolate_type_param(&mut e, &context, &ident("N")).unwrap_err();
    assert_eq!(err.reason, Reason::ConstParamFound);
    assert_eq!(err.message(), "type param expected, but `N` is a const param");
    assert_eq!(e, ty("F<L, N>"));
}

#[test]
fn a_type_parameter_is_replaced_in_nested_arguments() {
    let a = param("A");
    let x = param("X");
    let mut t = ty("F<A,B,G<A::C::D>,E>");
    assert_eq!(substitute(&mut t, &a, ParamSubstArg::Param(&x)), Ok(true));
    assert_eq!(t, ty("F<X,B,G<X::C::D>,E>"));
}

#[test]
fn a_const_argument_is_bound_once_before_the_expression() {
    let a = param("const A: T");
    let arg = expr("X + 42");
    let mut e = expr("f(A, B(A(C)))");
    assert_eq!(substitute(&mut e, &a, ParamSubstArg::Arg(&arg)), Ok(true));
    assert_eq!(e, expr("{ let A: T = X + 42; f(A, B(A(C))) }"));
    match &e {
        Node::Tree { kind: NodeKind::Expr(ExprKind::Block), children, .. } => match &children[0] {
            Node::Tree { kind: NodeKind::Block, children, .. } => {
                assert_eq!(children.len(), 2);
                assert_eq!(children[1], tree(NodeKind::StmtExpr, "", vec![expr("f(A, B(A(C)))")]));
            }
            other => panic!("a block was expected, not {other:?}"),
        },
        other => panic!("a block was expected, not {other:?}"),
    }
}

#[test]
fn a_tuple_becomes_the_self_type_of_a_qualified_path() {
    let a = param("A");
    let arg = ty("(X, Y)");
    let mut t = ty("A::C");
    assert_eq!(substitute(&mut t, &a, ParamSubstArg::Arg(&arg)), Ok(true));
    assert_eq!(t, ty("<(X, Y)>::C"));
    match &t {
        Node::Path { qself: Some(q), leading_colon, segments, .. } => {
            assert_eq!(*q.ty, ty("(X, Y)"));
            assert_eq!(q.position, 0);
            assert!(!q.as_token);
            assert!(*leading_colon);
            assert_eq!(segments.len(), 1);
        }
        other => panic!("a qualified path was expected, not {other:?}"),
    }
}

#[test]
fn a_parameter_of_an_arm_is_renamed_out_of_the_way() {
    let a = param("A");
    let x = param("X");
    let mut e = match_of_types("match <B> { C<D, X> => (A, X) }");
    assert_eq!(substitute(&mut e, &a, ParamSubstArg::Param(&x)), Ok(true));
    assert_eq!(e, match_of_types("match <B> { C<D, X_> => (X, X_) }"));
    let arg = ty("F<X, X_>");
    let mut e = match_of_types("match <B> { C<D, X> => (A, X) }");
    assert_eq!(substitute(&mut e, &a, ParamSubstArg::Arg(&arg)), Ok(true));
    assert_eq!(show_level(&e), show_level(&match_of_types("match <B> { C<D, X__> => (F<X, X_>, X__) }")));
}

#[test]
fn arms_and_matches_can_be_rewritten_on_their_own() {
    let a = param("A");
    let x = param("X");
    let whole = match_of_types("match <A> { C<X> => (A, X), D<A> => A }");
    let TypeLevelExpr::Match(mut m) = whole else { panic!("a match was expected") };
    assert_eq!(references_param(&m, &a), Ok(true));
    assert_eq!(substitute(&mut m, &a, ParamSubstArg::Param(&x)), Ok(true));
    assert_eq!(
        show_level(&TypeLevelExpr::Match(m)),
        show_level(&match_of_types("match <X> { C<X_> => (X, X_), D<A> => A }"))
    );
    let whole = match_of_types("match <B> { C<X> => (A, X), D<A> => A }");
    let TypeLevelExpr::Match(m) = whole else { panic!("a match was expected") };
    let mut arms = m.arms;
    assert_eq!(substitute(&mut arms[1], &a, ParamSubstArg::Param(&x)), Ok(false));
    assert_eq!(substitute(&mut arms[0], &a, ParamSubstArg::Param(&x)), Ok(true));
    let rebuilt = TypeLevelExpr::Match(TypeLevelExprMatch { types: vec![ty("B")], arms });
    assert_eq!(
        show_level(&rebuilt),
        show_level(&match_of_types("match <B> { C<X_> => (X, X_), D<A> => A }"))
    );
}

#[test]
fn parameter_lists_and_pairs_can_be_rewritten() {
    let a = param("A");
    let x = param("X");
    let mut g = generics("<A, B: F<A>, const N: A>");
    assert_eq!(substitute(&mut g, &a, ParamSubstArg::Param(&x)), Ok(true));
    assert_eq!(shown_generics(&g), "< A , B : F < X > , const N : X >");
    let mut pair = (ty("F<A>"), expr("g::<A>(B)"));
    assert_eq!(get_param_references(&pair, &a).unwrap().len(), 2);
    assert_eq!(substitute(&mut pair, &a, ParamSubstArg::Param(&x)), Ok(true));
    assert_eq!(show(&pair.0), "F < X >");
    assert_eq!(show(&pair.1), "g < X > ( B )");
    let mut nothing = ();
    assert_eq!(substitute(&mut nothing, &a, ParamSubstArg::Param(&x)), Ok(false));
    let mut both = (ImplItem::Other { span: Span { id: 2 } }, ty("A"));
    assert_eq!(substitute(&mut both, &a, ParamSubstArg::Param(&x)).unwrap_err().reason, Reason::UnsupportedItem);
    assert_eq!(both.1, ty("A"));
}

fn function_item(params: &str, inputs: Vec<Node>, output: &str, body: &str) -> LoweredItem {
    LoweredItem {
        kind: ItemKind::Fn,
        part: None,
        attrs: vec![],
        vis: vec![],
        ident: ident("f"),
        generics: generics(params),
        header: inputs,
        output: Some(ty(output)),
        body: Some(expr(body)),
    }
}

#[test]
fn the_parameters_of_an_item_are_a_scope() {
    let a = param("A");
    let x = param("X");
    let mut hidden = function_item("<A, B: F<A>>", vec![ty("A")], "A", "g::<A>(B)");
    assert_eq!(references_param(&hidden, &a), Ok(false));
    assert_eq!(substitute(&mut hidden, &a, ParamSubstArg::Param(&x)), Ok(false));
    assert_eq!(hidden, function_item("<A, B: F<A>>", vec![ty("A")], "A", "g::<A>(B)"));
    let mut open = function_item("<X, B: F<A, X>>", vec![ty("A"), ty("X")], "G<A>", "g::<A, X>(B)");
    assert_eq!(substitute(&mut open, &a, ParamSubstArg::Param(&x)), Ok(true));
    assert_eq!(shown_generics(&open.generics), "< X_ , B : F < X , X_ > >");
    assert_eq!(open.header.iter().map(show).collect::<Vec<_>>(), vec!["X", "X_"]);
    assert_eq!(open.output.as_ref().map(show), Some("G < X >".to_string()));
    assert_eq!(open.body.as_ref().map(show), Some("g < X , X_ > ( B )".to_string()));
    let mut apart = function_item("<X>", vec![], "B", "g::<X>(B)");
    assert_eq!(substitute(&mut apart, &a, ParamSubstArg::Param(&x)), Ok(false));
    assert_eq!(shown_generics(&apart.generics), "< X >");
    let mut item = ImplItem::Item(function_item("<B>", vec![], "A", "1"));
    assert_eq!(substitute(&mut item, &a, ParamSubstArg::Param(&x)), Ok(true));
}

#[test]
fn copies_are_equal_to_what_they_copy() {
    let t = ty("F<'a, A::B, (C, D)>");
    assert_eq!(clone_node(&t), t);
    assert_eq!(t.clone(), t);
    let e = match_of_exprs("match <B> { C<D, X: F<D> + 'a> => f::<A, X>(1 + 2), _ => |y| y }");
    assert_eq!(e.clone(), e);
    let g = generics("<'a: 'b, A: F<B>, const N: T>");
    assert_eq!(g.clone(), g);
    assert_eq!(Generics::new(), generics(""));
}

#[test]
fn arguments_pass_parameters_on_by_name() {
    let lifetime = GenericParam::Lifetime { lifetime: Ident::new("a", Span { id: 3 }), bounds: vec![] };
    assert_eq!(
        generic_param_arg(&lifetime, None),
        Node::Lifetime { ident: Ident::new("a", Span { id: 3 }) }
    );
    assert_eq!(
        generic_param_arg(&lifetime, Some(Span { id: 9 })),
        Node::Lifetime { ident: Ident::new("a", Span { id: 9 }) }
    );
    assert_eq!(generic_param_arg(&param("T: F"), None), ty("T"));
    assert_eq!(generic_param_arg(&param("const N: T"), None), expr("N"));
    assert_eq!(lifetime.kind(), ParamKind::Lifetime);
    assert_eq!(param("const N: T").kind(), ParamKind::Const);
    assert_eq!(param("T").ident().name, "T");
    let this = self_type_param(None, vec![]);
    assert_eq!(this, param("Self"));
    assert_eq!(Span::call_site(), Span { id: 0 });
    let there = self_type_param(Some(Span { id: 5 }), vec![]);
    assert_eq!(there.ident().span, Span { id: 5 });
}

#[test]
fn a_chain_of_bounds_that_leads_nowhere_captures_nothing() {
    let g = generics("<A: F<B>, B: F<A>, C: F<A>>");
    let empty = GenericsContext::Empty;
    let context = GenericsContext::WithGenerics(&g, &empty);
    let mut e = ty("G<X>");
    assert!(build_indirection(&mut e, &context).unwrap().is_empty());
    let mut e = ty("G<C>");
    let captured = build_indirection(&mut e, &context).unwrap();
    assert_eq!(
        shown_captures(&captured),
        vec![
            ("A : F < B >".to_string(), "A".to_string()),
            ("B : F < A >".to_string(), "B".to_string()),
            ("C : F < A >".to_string(), "C".to_string())
        ]
    );
}
