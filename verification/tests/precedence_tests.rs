use liva_parser::{
    flat_expr_from_components, merge_all_binops, merge_all_unops, merge_nodes_binop,
    merge_nodes_unop, resolve, tuple_to_flat_vec, BinaryOp, ExprHead, ExprOrVarname, Expression,
    Expression2, Literal, OpOrExp, Operator, PrefixExpr, Span, Token, UnOperator, UnOrBinOp,
    UnaryOp,
};

fn var(name: &'static str) -> Expression<'static> {
    Expression::PrefixExpr(Box::new(plain(name)))
}

fn plain(name: &'static str) -> PrefixExpr<'static> {
    PrefixExpr {
        prefix: ExprOrVarname::Varname(Literal::Variable(Token::new(name, Span::new(name)))),
        suffix_chain: vec![],
    }
}

fn exp(name: &'static str) -> OpOrExp<'static> {
    OpOrExp::Exp(var(name))
}

fn op(o: Operator) -> OpOrExp<'static> {
    OpOrExp::Op(UnOrBinOp::BinOp(o))
}

fn pre(o: UnOperator) -> OpOrExp<'static> {
    OpOrExp::Op(UnOrBinOp::UnOp(o))
}

fn bin(left: Expression<'static>, o: Operator, right: Expression<'static>) -> Expression<'static> {
    Expression::BinaryOp(Box::new(BinaryOp { left, right, op: o }))
}

fn un(o: UnOperator, operand: Expression<'static>) -> Expression<'static> {
    Expression::UnaryOp(Box::new(UnaryOp { op: o, operand }))
}

#[test]
fn merging_one_tier_takes_the_leftmost_first() {
    let mut list =
        vec![exp("a"), op(Operator::Sub), exp("b"), op(Operator::Mul), exp("c"), op(Operator::Add), exp("d")];
    merge_all_binops(&mut list, &vec![Operator::Add, Operator::Sub]);
    assert_eq!(
        list,
        vec![
            OpOrExp::Exp(bin(var("a"), Operator::Sub, var("b"))),
            op(Operator::Mul),
            OpOrExp::Exp(bin(var("c"), Operator::Add, var("d")))
        ]
    );
    merge_all_binops(&mut list, &vec![Operator::Mul]);
    assert_eq!(
        list,
        vec![OpOrExp::Exp(bin(
            bin(var("a"), Operator::Sub, var("b")),
            Operator::Mul,
            bin(var("c"), Operator::Add, var("d"))
        ))]
    );
}

#[test]
fn merging_skips_an_operand_with_a_unary_operator() {
    let mut list =
        vec![exp("a"), op(Operator::Pow), pre(UnOperator::Sub), exp("b"), op(Operator::Pow), exp("c")];
    merge_all_binops(&mut list, &vec![Operator::Pow]);
    assert_eq!(
        list,
        vec![
            exp("a"),
            op(Operator::Pow),
            pre(UnOperator::Sub),
            OpOrExp::Exp(bin(var("b"), Operator::Pow, var("c")))
        ]
    );
    merge_all_unops(&mut list, &vec![UnOperator::Sub]);
    assert_eq!(
        list,
        vec![
            exp("a"),
            op(Operator::Pow),
            OpOrExp::Exp(un(UnOperator::Sub, bin(var("b"), Operator::Pow, var("c"))))
        ]
    );
    let mut stacked = vec![pre(UnOperator::Not), pre(UnOperator::Sub), exp("x")];
    merge_all_unops(&mut stacked, &vec![UnOperator::Not]);
    assert_eq!(stacked, vec![pre(UnOperator::Not), pre(UnOperator::Sub), exp("x")]);
    merge_all_unops(&mut stacked, &vec![UnOperator::Sub, UnOperator::Not]);
    assert_eq!(
        stacked,
        vec![OpOrExp::Exp(un(UnOperator::Not, un(UnOperator::Sub, var("x"))))]
    );
}

#[test]
fn merged_nodes() {
    assert_eq!(
        merge_nodes_binop(exp("a"), op(Operator::Mod), exp("b")),
        OpOrExp::Exp(bin(var("a"), Operator::Mod, var("b")))
    );
    assert_eq!(
        merge_nodes_unop(pre(UnOperator::Not), exp("a")),
        OpOrExp::Exp(un(UnOperator::Not, var("a")))
    );
    assert!(exp("a").is_exp() && !exp("a").is_binop() && !exp("a").is_unop());
    assert!(op(Operator::Add).is_binop() && !op(Operator::Add).is_exp());
    assert!(pre(UnOperator::Add).is_unop() && !pre(UnOperator::Add).is_binop());
}

#[test]
fn two_operators_by_tier() {
    let tiers = liva_parser::binop_precedence();
    let tier_of = |o: &Operator| tiers.iter().position(|t| t.contains(o)).unwrap();
    let all: Vec<Operator> = tiers.iter().flatten().cloned().collect();
    assert_eq!(all.len(), 14);
    for o1 in &all {
        for o2 in &all {
            let tree = resolve(vec![exp("a"), op(*o1), exp("b"), op(*o2), exp("c")]).unwrap();
            let expected = if tier_of(o2) < tier_of(o1) {
                bin(var("a"), *o1, bin(var("b"), *o2, var("c")))
            } else {
                bin(bin(var("a"), *o1, var("b")), *o2, var("c"))
            };
            assert_eq!(tree, expected);
        }
    }
    for o in &all {
        for u in [UnOperator::Add, UnOperator::Sub, UnOperator::Not] {
            let tree = resolve(vec![pre(u), exp("a"), op(*o), exp("b")]).unwrap();
            let expected = if *o == Operator::Pow {
                un(u, bin(var("a"), *o, var("b")))
            } else {
                bin(un(u, var("a")), *o, var("b"))
            };
            assert_eq!(tree, expected);
        }
    }
}

#[test]
fn lists_that_are_no_flat_expressions_have_no_tree() {
    assert_eq!(resolve(vec![]), None);
    assert_eq!(resolve(vec![op(Operator::Add)]), None);
    assert_eq!(resolve(vec![pre(UnOperator::Sub)]), None);
    assert_eq!(resolve(vec![exp("a"), exp("b")]), None);
    assert_eq!(resolve(vec![exp("a"), op(Operator::Add)]), None);
    assert_eq!(resolve(vec![op(Operator::Add), exp("a")]), None);
    assert_eq!(resolve(vec![exp("a"), op(Operator::Add), op(Operator::Add), exp("b")]), None);
    assert_eq!(resolve(vec![exp("a"), pre(UnOperator::Sub), exp("b")]), None);
    assert_eq!(resolve(vec![exp("a")]), Some(var("a")));
}

#[test]
fn flattening_heads_and_chain() {
    let head = ExprHead {
        un_ops: vec![UnOperator::Sub, UnOperator::Add],
        expr: Expression2::PrefixExpr(plain("a")),
    };
    assert_eq!(
        tuple_to_flat_vec(head),
        vec![pre(UnOperator::Sub), pre(UnOperator::Add), exp("a")]
    );
    let head = ExprHead { un_ops: vec![UnOperator::Sub], expr: Expression2::PrefixExpr(plain("a")) };
    let chain = vec![
        (Operator::Add, ExprHead { un_ops: vec![], expr: Expression2::PrefixExpr(plain("b")) }),
        (
            Operator::Mul,
            ExprHead {
                un_ops: vec![UnOperator::Sub],
                expr: Expression2::Literal(Literal::Int(Token::new(2, Span::new("2")))),
            },
        ),
    ];
    let flat = flat_expr_from_components(head, chain);
    let tree = Expression::from(flat);
    assert_eq!(
        tree,
        bin(
            un(UnOperator::Sub, var("a")),
            Operator::Add,
            bin(
                var("b"),
                Operator::Mul,
                un(UnOperator::Sub, Expression::Literal(Literal::Int(Token::new(2, Span::new("2")))))
            )
        )
    );
    let head = ExprHead { un_ops: vec![], expr: Expression2::PrefixExpr(plain("a")) };
    let flat = flat_expr_from_components(head, vec![]);
    assert_eq!(flat.into_items(), vec![exp("a")]);
}
