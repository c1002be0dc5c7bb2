use liva_parser::{
    else_statements, if_condition, parse_assignment, parse_block, parse_class,
    parse_class_name, parse_for, parse_function, parse_function_call, parse_function_name,
    parse_if, parse_import, parse_iter_item, parse_iterator, parse_lassignment,
    parse_parameter_list, parse_return_stmt, parse_source, parse_statement, parse_while,
    parser::statement::parse_statements,
    while_condition, Assignment, BinaryOp, Block, Call, Class, Collection, ExprOrVarname,
    ExprSuffix, Expression, For, Function, If, Import, LAssignment, Label, Literal, Operator,
    PrefixExpr, ReturnStmt, Span, Statement, Token, While,
};

fn var(name: &'static str) -> Expression<'static> {
    Expression::PrefixExpr(Box::new(plain(name)))
}

fn plain(name: &'static str) -> PrefixExpr<'static> {
    PrefixExpr { prefix: ExprOrVarname::Varname(name_of(name)), suffix_chain: vec![] }
}

fn name_of(name: &'static str) -> Literal<'static> {
    Literal::Variable(Token::new(name, Span::new(name)))
}

fn number(value: i32, text: &'static str) -> Expression<'static> {
    Expression::Literal(Literal::Int(Token::new(value, Span::new(text))))
}

fn text(value: &'static str) -> Expression<'static> {
    Expression::Literal(Literal::Str(Token::new(String::from(value), Span::new(value))))
}

fn bin(left: Expression<'static>, op: Operator, right: Expression<'static>) -> Expression<'static> {
    Expression::BinaryOp(Box::new(BinaryOp { left, right, op }))
}

fn declare(name: &'static str, expression: Expression<'static>) -> Statement<'static> {
    Statement::LAssignment(LAssignment { variable: Token::new(name, Span::new(name)), expression })
}

fn empty() -> Block<'static> {
    Block { statements: vec![], return_stmt: None }
}

fn ass_x_eq_3() -> Statement<'static> {
    Statement::LAssignment(LAssignment {
        variable: Token::new("x", Span::new("x")),
        expression: Expression::Literal(Literal::Int(Token::new(3, Span::new("3")))),
    })
}

#[test]
fn assignment_test_assignment() {
    let string = "let x = 3";
    let (_, res) = parse_lassignment(Span::new(string)).unwrap();
    assert_eq!(
        res,
        LAssignment {
            variable: Token::new("x", Span::new("x")),
            expression: Expression::Literal(Literal::Int(Token::new(3, Span::new("3"))))
        }
    );
}

#[test]
fn test_assignment_list() {
    let string = "let x = [1, 2, 3]\nlet x = 1";
    let (rest, res) = parse_lassignment(Span::new(string)).unwrap();
    assert_eq!(rest.fragment(), "let x = 1");
    assert_eq!(
        res,
        LAssignment {
            variable: Token::new("x", Span::new("x")),
            expression: Expression::Collection(Collection::Array(vec![
                Expression::Literal(Literal::Int(Token::new(1, Span::new("1")))),
                Expression::Literal(Literal::Int(Token::new(2, Span::new("2")))),
                Expression::Literal(Literal::Int(Token::new(3, Span::new("3")))),
            ]))
        }
    );
}

#[test]
fn let_commits() {
    let err = parse_lassignment(Span::new("let x 3")).unwrap_err();
    assert!(err.fatal);
    assert_eq!(err.trace.last().unwrap().1, Label::LAssignment);
    let err = parse_lassignment(Span::new("let = 3")).unwrap_err();
    assert!(err.fatal);
    let err = parse_lassignment(Span::new("let x = ")).unwrap_err();
    assert!(err.fatal);
    let err = parse_lassignment(Span::new("x = 3")).unwrap_err();
    assert!(!err.fatal);
    let err = parse_statement(Span::new("let x 3")).unwrap_err();
    assert!(err.fatal);
    assert_eq!(err.trace.last().unwrap().1, Label::Stmt);
}

#[test]
fn a_name_that_starts_with_a_keyword_is_a_name() {
    let (_, res) = parse_statement(Span::new("letter = 3")).unwrap();
    assert_eq!(
        res,
        Statement::Assignment(Assignment { variable: plain("letter"), expression: number(3, "3") })
    );
    let (_, res) = parse_statement(Span::new("format(x)")).unwrap();
    assert_eq!(
        res,
        Statement::FuncCall(PrefixExpr {
            prefix: ExprOrVarname::Varname(name_of("format")),
            suffix_chain: vec![ExprSuffix::FuncCall(Call { callee: None, args: vec![var("x")] })]
        })
    );
    let (_, res) = parse_statement(Span::new("important()")).unwrap();
    assert_eq!(
        res,
        Statement::FuncCall(PrefixExpr {
            prefix: ExprOrVarname::Varname(name_of("important")),
            suffix_chain: vec![ExprSuffix::FuncCall(Call { callee: None, args: vec![] })]
        })
    );
}

#[test]
fn plain_assignment() {
    let (rest, res) = parse_assignment(Span::new(" self.height = height\n")).unwrap();
    assert_eq!(
        res,
        Assignment {
            variable: PrefixExpr {
                prefix: ExprOrVarname::Varname(name_of("self")),
                suffix_chain: vec![ExprSuffix::TableDot(name_of("height"))]
            },
            expression: var("height")
        }
    );
    assert_eq!(rest.fragment(), "");
    let err = parse_assignment(Span::new("x 3")).unwrap_err();
    assert!(!err.fatal);
    assert_eq!(err.trace.last().unwrap().1, Label::Assignment);
}

#[test]
fn call_as_statement_ends_in_a_call() {
    let (_, res) = parse_function_call(Span::new("a.b(1)")).unwrap();
    assert_eq!(
        res,
        PrefixExpr {
            prefix: ExprOrVarname::Varname(name_of("a")),
            suffix_chain: vec![
                ExprSuffix::TableDot(name_of("b")),
                ExprSuffix::FuncCall(Call { callee: None, args: vec![number(1, "1")] })
            ]
        }
    );
    for stmt in ["a.b", "a", "a(1).b", "a[0]"] {
        let err = parse_function_call(Span::new(stmt)).unwrap_err();
        assert!(!err.fatal);
        assert_eq!(err.trace[0].1, Label::Call);
        assert!(parse_statement(Span::new(stmt)).is_err());
    }
}

#[test]
fn test_prase_class_name() {
    let string = " class Hello ";
    let (_, res) = parse_class_name(Span::new(string)).unwrap();
    assert_eq!(res.fragment(), "Hello")
}

#[test]
fn test_parse_class_with_method() {
    let string = "class Hello\n\tfun foo()\n\t\tlet some = 1\n\tend\nend";
    let (_, res) = parse_class(Span::new(string)).unwrap();
    assert_eq!(
        res,
        Class {
            name: String::from("Hello"),
            methods: vec![Function {
                name: "foo",
                parameters: vec![],
                block: Block {
                    return_stmt: None,
                    statements: vec![Statement::LAssignment(LAssignment {
                        variable: Token::new("some", Span::new("some")),
                        expression: Expression::Literal(Literal::Int(Token::new(
                            1,
                            Span::new("1")
                        )))
                    })]
                }
            }]
        }
    );
}

#[test]
fn test_parse_class_with_method1() {
    let string = "\n\nclass Hello\n\n\tfun method1()\n\t\treturn 'Hello World'\n\tend\n\nend\n";
    let (_, res) = parse_class(Span::new(string)).unwrap();
    assert_eq!(
        res,
        Class {
            name: String::from("Hello"),
            methods: vec![Function {
                name: "method1",
                parameters: vec![],
                block: Block {
                    return_stmt: Some(ReturnStmt {
                        values: vec![Expression::Literal(Literal::Str(Token::new(
                            String::from("Hello World"),
                            Span::new("Hello World")
                        )))],
                    }),
                    statements: vec![]
                }
            }]
        }
    );
}

#[test]
fn test_empty_class() {
    let string = "class Test\n\n   end\n";
    let (_, res) = parse_class(Span::new(string)).unwrap();

    assert_eq!(res, Class { name: String::from("Test"), methods: vec![] })
}

#[test]
fn class_with_two_methods() {
    let string = "class Person\r\n\r\n    fun init(self, height, weight)\r\n       self.height = height\r\n       self.weight = weight \r\n    end\r\n\r\n    fun get_bmi(self)\r\n       let w_res = self.height * self.height\r\n       return self.weight / w_res\r\n    end\r\nend\r\n\r\n";
    let (rest, res) = parse_class(Span::new(string)).unwrap();
    assert_eq!(res.name, "Person");
    assert_eq!(res.methods.len(), 2);
    assert_eq!(res.methods[0].name, "init");
    assert_eq!(res.methods[0].block.statements.len(), 2);
    assert_eq!(res.methods[1].name, "get_bmi");
    assert_eq!(res.methods[1].parameters, vec![name_of("self")]);
    assert!(res.methods[1].block.return_stmt.is_some());
    assert_eq!(rest.fragment(), "\r\n\r\n");
    let err = parse_class(Span::new("class Person fun f() end")).unwrap_err();
    assert!(err.fatal);
    let err = parse_class(Span::new("class 1")).unwrap_err();
    assert!(err.fatal);
    let err = parse_class(Span::new("klass A end")).unwrap_err();
    assert!(!err.fatal);
    assert_eq!(err.trace.last().unwrap().1, Label::Class);
}

#[test]
fn test_parse_iter_item() {
    let string = "for item in iterator do";
    let (_, res) = parse_iter_item(Span::new(string)).unwrap();
    assert_eq!(res, Token::new("item", Span::new("item")));
}

#[test]
fn test_parse_iterator() {
    let string = " in iterator do";
    let (_, res) = parse_iterator(Span::new(string)).unwrap();
    assert_eq!(
        res,
        Expression::PrefixExpr(Box::new(PrefixExpr {
            prefix: ExprOrVarname::Varname(Literal::Variable(Token::new(
                "iterator",
                Span::new("iterator")
            ))),
            suffix_chain: vec![]
        }))
    );
}

#[test]
fn test_parse_for_loop() {
    let string = "\nfor x in y do \n let y = 3 \nend";
    let (_, res) = parse_for(Span::new(string)).unwrap();

    assert_eq!(
        res,
        For {
            iter_item: Token::new("x", Span::new("x")),
            iterator: Expression::PrefixExpr(Box::new(PrefixExpr {
                prefix: ExprOrVarname::Varname(Literal::Variable(Token::new(
                    "y",
                    Span::new("y")
                ))),
                suffix_chain: vec![]
            })),
            block: Block {
                statements: vec![Statement::LAssignment(LAssignment {
                    variable: Token::new("y", Span::new("y")),
                    expression: Expression::Literal(Literal::Int(Token::new(3, Span::new("3"))))
                })],
                return_stmt: None
            }
        }
    )
}

#[test]
fn for_commits() {
    for source in ["for x y do end", "for 1 in y do end", "for x in y end", "for x in y do"] {
        let err = parse_for(Span::new(source)).unwrap_err();
        assert!(err.fatal);
    }
    let err = parse_for(Span::new("four x in y do end")).unwrap_err();
    assert!(!err.fatal);
    assert_eq!(err.trace.last().unwrap().1, Label::For);
}

#[test]
fn test_parse_function_name() {
    let string = "fun hello ()";
    let (_, res) = parse_function_name(Span::new(string)).unwrap();
    assert_eq!(res, "hello");
}

#[test]
fn test_parse_function() {
    let string = "fun hello(x, y)\n\tlet some = \"1\"\nend";
    let (_, res) = parse_function(Span::new(string)).unwrap();

    assert_eq!(
        res,
        Function {
            name: "hello",
            parameters: vec![
                Literal::Variable(Token::new("x", Span::new("x"))),
                Literal::Variable(Token::new("y", Span::new("y")))
            ],
            block: Block {
                statements: vec![Statement::LAssignment(LAssignment {
                    variable: Token::new("some", Span::new("some")),
                    expression: Expression::Literal(Literal::Str(Token::new(
                        String::from("1"),
                        Span::new("1")
                    )))
                })],
                return_stmt: None
            }
        }
    );
}

#[test]
fn test_fun_1() {
    let string = "fun fib(n)\n\nend";
    let (_, res) = parse_function(Span::new(string)).unwrap();
    assert_eq!(
        res,
        Function {
            name: "fib",
            parameters: vec![Literal::Variable(Token::new("n", Span::new("n")))],
            block: Block { statements: vec![], return_stmt: None }
        }
    );
}

#[test]
fn test_fun_return() {
    let string = "\n\n\tfun fib(n)\n\t\treturn 'Hello World'\n\tend";
    let (_, res) = parse_function(Span::new(string)).unwrap();
    assert_eq!(
        res,
        Function {
            name: "fib",
            parameters: vec![Literal::Variable(Token::new("n", Span::new("n")))],
            block: Block {
                statements: vec![],
                return_stmt: Some(ReturnStmt {
                    values: vec![Expression::Literal(Literal::Str(Token::new(
                        String::from("Hello World"),
                        Span::new("Hello World")
                    )))],
                })
            }
        }
    );
}

#[test]
fn test_fun() {
    let string = "fun fib(n)\n    if n == 0  do\n        return 0\n    end\nend";
    let (_, res) = parse_function(Span::new(string)).unwrap();

    assert_eq!(
        res,
        Function {
            name: "fib",
            parameters: vec![Literal::Variable(Token::new("n", Span::new("n")))],
            block: Block {
                statements: vec![Statement::If(If {
                    cond: Expression::BinaryOp(Box::new(BinaryOp {
                        left: Expression::PrefixExpr(Box::new(PrefixExpr {
                            prefix: ExprOrVarname::Varname(Literal::Variable(Token::new(
                                "n",
                                Span::new("n")
                            ))),
                            suffix_chain: vec![]
                        })),
                        op: Operator::EQ,
                        right: Expression::Literal(Literal::Int(Token::new(0, Span::new("0"))))
                    })),
                    stmts: Block {
                        statements: vec![],
                        return_stmt: Some(ReturnStmt {
                            values: vec![Expression::Literal(Literal::Int(Token::new(
                                0,
                                Span::new("0")
                            )))]
                        })
                    },
                    else_statements: None
                })],
                return_stmt: None
            }
        }
    )
}

#[test]
fn test_fun_2() {
    let string = "fun init(self, height, weight)\r\n       self.height = height\r\n       self.weight = weight \r\n    end\r\n\r\n     ";
    let (_, res) = parse_function(Span::new(string)).unwrap();
    assert_eq!(res.name, "init");
    assert_eq!(res.parameters, vec![name_of("self"), name_of("height"), name_of("weight")]);
    assert_eq!(res.block.statements.len(), 2);
}

#[test]
fn fun_commits() {
    for source in ["fun", "fun 1()", "fun f", "fun f(", "fun f(x,)", "fun f() let", "fun f()"] {
        let err = parse_function(Span::new(source)).unwrap_err();
        assert!(err.fatal);
        assert_eq!(err.trace.last().unwrap().1, Label::Func);
    }
    let err = parse_function(Span::new("fn f() end")).unwrap_err();
    assert!(!err.fatal);
    let (rest, res) = parse_parameter_list(Span::new(" ( a , b ) x")).unwrap();
    assert_eq!(res, vec![Token::new("a", Span::new("a")), Token::new("b", Span::new("b"))]);
    assert_eq!(rest.fragment(), " x");
    let (_, res) = parse_parameter_list(Span::new("()")).unwrap();
    assert_eq!(res, vec![]);
    assert!(parse_parameter_list(Span::new("(a b)")).is_err());
}

#[test]
fn parse_if_condition() {
    let string = "if x < 3 do";
    let (_, res) = if_condition(Span::new(string)).unwrap();

    assert_eq!(
        res,
        Expression::BinaryOp(Box::new(BinaryOp {
            left: Expression::PrefixExpr(Box::new(PrefixExpr {
                prefix: ExprOrVarname::Varname(Literal::Variable(Token::new(
                    "x",
                    Span::new("x")
                ))),
                suffix_chain: vec![],
            })),
            op: Operator::Lt,
            right: Expression::Literal(Literal::Int(Token::new(3, Span::new("3")))),
        }))
    )
}

#[test]
fn parse_if_statements() {
    let string = "if x < 3 do let z = x + 3\n let y = 3 \nend";
    let (_, res) = parse_if(Span::new(string)).unwrap();

    assert_eq!(
        res,
        If {
            cond: bin(var("x"), Operator::Lt, number(3, "3")),
            stmts: Block {
                statements: vec![
                    declare("z", bin(var("x"), Operator::Add, number(3, "3"))),
                    declare("y", number(3, "3")),
                ],
                return_stmt: None,
            },
            else_statements: None
        }
    )
}

#[test]
fn parse_if_statements_with_return() {
    let string = "if x < 3 do return 0 \nend";
    let (_, res) = parse_if(Span::new(string)).unwrap();

    assert_eq!(
        res,
        If {
            cond: bin(var("x"), Operator::Lt, number(3, "3")),
            stmts: Block {
                statements: vec![],
                return_stmt: Some(ReturnStmt { values: vec![number(0, "0")] }),
            },
            else_statements: None
        }
    )
}

#[test]
fn parse_else_stmt() {
    let string = "else return 0";
    let (_, res) = else_statements(Span::new(string)).unwrap();

    assert_eq!(
        res,
        Block {
            statements: vec![],
            return_stmt: Some(ReturnStmt {
                values: vec![Expression::Literal(Literal::Int(Token::new(0, Span::new("0"))))],
            }),
        }
    )
}

#[test]
fn parse_if_statements_with_else() {
    let string = "if x < 3 do // Nothing \nelse return 0 \nend";
    let (_, res) = parse_if(Span::new(string)).unwrap();

    assert_eq!(
        res,
        If {
            cond: bin(var("x"), Operator::Lt, number(3, "3")),
            stmts: Block { statements: vec![], return_stmt: None },
            else_statements: Some(Block {
                statements: vec![],
                return_stmt: Some(ReturnStmt { values: vec![number(0, "0")] }),
            })
        }
    )
}

#[test]
fn if_with_return_scenario() {
    let (rest, res) = parse_if(Span::new("if n == 0 do\n return 0\nend")).unwrap();
    assert_eq!(
        res,
        If {
            cond: bin(var("n"), Operator::EQ, number(0, "0")),
            stmts: Block {
                statements: vec![],
                return_stmt: Some(ReturnStmt { values: vec![number(0, "0")] }),
            },
            else_statements: None
        }
    );
    assert_eq!(rest.fragment(), "");
}

#[test]
fn if_commits() {
    for source in [
        "if",
        "if do end",
        "if x end",
        "if x do",
        "if x do else",
        "if x do else end end x = ",
        "if x do return 1 y = 2 end",
        "if x do else let end",
    ] {
        let r = parse_if(Span::new(source));
        if source == "if x do else end end x = " {
            assert!(r.is_ok());
        } else {
            let err = r.unwrap_err();
            assert!(err.fatal);
            assert_eq!(err.trace.last().unwrap().1, Label::If);
        }
    }
    let err = parse_if(Span::new("iffy do end")).unwrap_err();
    assert!(!err.fatal);
    assert_eq!(err.trace[0].1, Label::If);
    assert_eq!(err.trace[1].1, Label::IfCond);
    assert_eq!(err.trace[2].1, Label::If);
    let err = parse_if(Span::new("if x < do end")).unwrap_err();
    assert!(err.fatal);
    assert_eq!(err.trace[0].0.fragment(), "< do end");
}

#[test]
fn while_statement_parse_while_condition() {
    let string = "while x < 3 do";
    let (_, res) = while_condition(Span::new(string)).unwrap();

    assert_eq!(res, bin(var("x"), Operator::Lt, number(3, "3")))
}

#[test]
fn parse_while_statement() {
    let string = "while x < 3 do let z = x + 3\n let y = 3 \nend";
    let (_, res) = parse_while(Span::new(string)).unwrap();

    assert_eq!(
        res,
        While {
            cond: bin(var("x"), Operator::Lt, number(3, "3")),
            block: Block {
                statements: vec![
                    declare("z", bin(var("x"), Operator::Add, number(3, "3"))),
                    declare("y", number(3, "3")),
                ],
                return_stmt: None
            }
        }
    )
}

#[test]
fn test_import() {
    let string = "import hello";
    let (_, res) = parse_import(Span::new(string)).unwrap();

    assert_eq!(
        res,
        Import {
            external: false,
            path: vec![Literal::Variable(Token::new("hello", Span::new("hello")))],
            alias: None
        }
    )
}

#[test]
fn test_import_multi() {
    let string = "import hello.world as tuna";
    let (_, res) = parse_import(Span::new(string)).unwrap();

    assert_eq!(
        res,
        Import {
            external: false,
            path: vec![
                Literal::Variable(Token::new("hello", Span::new("hello"))),
                Literal::Variable(Token::new("world", Span::new("world")))
            ],
            alias: Some(Literal::Variable(Token::new("tuna", Span::new("tuna"))))
        }
    )
}

#[test]
fn test_import_external() {
    let string = "external import hello";
    let (_, res) = parse_import(Span::new(string)).unwrap();

    assert_eq!(
        res,
        Import {
            external: true,
            path: vec![Literal::Variable(Token::new("hello", Span::new("hello")))],
            alias: None
        }
    )
}

#[test]
fn test_import_alias() {
    let string = "import hello as h";
    let (_, res) = parse_import(Span::new(string)).unwrap();
    assert_eq!(
        res,
        Import {
            external: false,
            path: vec![Literal::Variable(Token::new("hello", Span::new("hello")))],
            alias: Some(Literal::Variable(Token::new("h", Span::new("h"))))
        }
    )
}

#[test]
fn import_external_with_path_and_alias() {
    let (rest, res) = parse_import(Span::new("external import hello.world as tuna")).unwrap();
    assert_eq!(
        res,
        Import {
            external: true,
            path: vec![name_of("hello"), name_of("world")],
            alias: Some(name_of("tuna"))
        }
    );
    assert_eq!(rest.fragment(), "");
    let (_, stmt) = parse_statement(Span::new("external import hello.world as tuna")).unwrap();
    assert_eq!(stmt, Statement::Import(res.clone()));
}

#[test]
fn import_commits() {
    for source in ["import", "import 1", "import a as", "external import .a", "import a as 1"] {
        let err = parse_import(Span::new(source)).unwrap_err();
        assert!(err.fatal);
        assert_eq!(err.trace.last().unwrap().1, Label::Import);
    }
    for source in ["external hello", "important", "external"] {
        let err = parse_import(Span::new(source)).unwrap_err();
        assert!(!err.fatal);
    }
    let (rest, res) = parse_import(Span::new("import a.b.")).unwrap();
    assert_eq!(res.path.len(), 2);
    assert_eq!(rest.fragment(), ".");
}

#[test]
fn test_parse_assignemnt() {
    let string = " let x = 3";
    let (_, res) = parse_statement(Span::new(string)).unwrap();
    assert_eq!(
        res,
        Statement::LAssignment(LAssignment {
            variable: Token::new("x", Span::new("x")),
            expression: Expression::Literal(Literal::Int(Token::new(3, Span::new("3.0"))))
        })
    );
}

#[test]
fn test_parse_assignemnt_line_ending() {
    let string = " let x = 3\n\n";
    let (_, res) = parse_statement(Span::new(string)).unwrap();
    assert_eq!(res, ass_x_eq_3());
}

#[test]
fn test_parse_assignemnt_line_ending_indented_newline() {
    let string = "\n\t let x = 3\n\n";
    let (_, res) = parse_statement(Span::new(string)).unwrap();
    assert_eq!(res, ass_x_eq_3());
}

#[test]
fn test_parse_statements() {
    let string = "let x = 3\n let y = 3";
    let (_, res) = parse_statement(Span::new(string)).unwrap();
    assert_eq!(res, ass_x_eq_3())
}

#[test]
fn test_return_stmt() {
    let string = "return hello, 3";
    let (_, res) = parse_return_stmt(Span::new(string)).unwrap();
    assert_eq!(res, ReturnStmt { values: vec![var("hello"), number(3, "3")] })
}

#[test]
fn test_return_stmt_2() {
    let string = "return hello, func(n)";
    let (_, res) = parse_return_stmt(Span::new(string)).unwrap();
    assert_eq!(
        res,
        ReturnStmt {
            values: vec![
                var("hello"),
                Expression::PrefixExpr(Box::new(PrefixExpr {
                    prefix: ExprOrVarname::Varname(name_of("func")),
                    suffix_chain: vec![ExprSuffix::FuncCall(Call {
                        callee: None,
                        args: vec![var("n")]
                    })]
                }))
            ]
        }
    )
}

#[test]
fn test_return_stmt_3() {
    let string = "return fib(n-1)";
    let (_, res) = parse_return_stmt(Span::new(string)).unwrap();
    assert_eq!(
        res,
        ReturnStmt {
            values: vec![Expression::PrefixExpr(Box::new(PrefixExpr {
                prefix: ExprOrVarname::Varname(name_of("fib")),
                suffix_chain: vec![ExprSuffix::FuncCall(Call {
                    callee: None,
                    args: vec![bin(var("n"), Operator::Sub, number(1, "1"))]
                })]
            }))]
        }
    )
}

#[test]
fn return_without_values() {
    let (rest, res) = parse_return_stmt(Span::new(" return\nend")).unwrap();
    assert_eq!(res, ReturnStmt { values: vec![] });
    assert_eq!(rest.fragment(), "end");
    let err = parse_return_stmt(Span::new("returns 1")).unwrap_err();
    assert!(!err.fatal);
    assert_eq!(err.trace.last().unwrap().1, Label::ReturnStmt);
}

#[test]
fn test_stmt_leading_nl_sp() {
    let string = "\n\n// Hello Test \nfun hello() end";
    let (_, res) = parse_statement(Span::new(string)).unwrap();
    assert_eq!(
        res,
        Statement::Fun(Function {
            name: "hello",
            parameters: vec![],
            block: Block { statements: vec![], return_stmt: None }
        })
    )
}

#[test]
fn empty_block() {
    let string = "";
    let (_, res) = parse_block(Span::new(string)).unwrap();
    assert_eq!(res, Block { statements: vec![], return_stmt: None })
}

#[test]
fn test_while_stmt() {
    let string = "while x < 3 do\n\nend";
    let (_, res) = parse_statement(Span::new(string)).unwrap();
    assert_eq!(
        res,
        Statement::While(While {
            cond: bin(var("x"), Operator::Lt, number(3, "3")),
            block: Block { statements: vec![], return_stmt: None }
        })
    )
}

#[test]
fn test_while_stmt2() {
    let string = "while x < 3 do\nprint(\"Hello\")\nend";
    let (_, res) = parse_statement(Span::new(string)).unwrap();
    assert_eq!(
        res,
        Statement::While(While {
            cond: bin(var("x"), Operator::Lt, number(3, "3")),
            block: Block {
                statements: vec![Statement::FuncCall(PrefixExpr {
                    prefix: ExprOrVarname::Varname(name_of("print")),
                    suffix_chain: vec![ExprSuffix::FuncCall(Call {
                        callee: None,
                        args: vec![text("Hello")]
                    })]
                })],
                return_stmt: None
            }
        })
    )
}

#[test]
fn block_keeps_statements_in_order_and_return_last() {
    let (rest, res) = parse_block(Span::new("let a = 1\nb = a\nprint(b)\nreturn a, b\nend")).unwrap();
    assert_eq!(res.statements.len(), 3);
    assert_eq!(res.statements[0], declare("a", number(1, "1")));
    assert_eq!(
        res.statements[1],
        Statement::Assignment(Assignment { variable: plain("b"), expression: var("a") })
    );
    assert_eq!(res.return_stmt, Some(ReturnStmt { values: vec![var("a"), var("b")] }));
    assert_eq!(rest.fragment(), "end");
    assert_eq!(rest.location_line(), 5);
    assert_eq!(rest.location_offset(), 37);
}

#[test]
fn return_must_be_last() {
    let (rest, res) = parse_block(Span::new("return 1\nlet x = 2")).unwrap();
    assert_eq!(res, Block { statements: vec![], return_stmt: Some(ReturnStmt { values: vec![number(1, "1")] }) });
    assert_eq!(rest.fragment(), "let x = 2");

    let err = parse_source(Span::new("return 1\nlet x = 2")).unwrap_err();
    assert_eq!(err.trace[0].1, Label::Eof);
    assert_eq!(err.trace[0].0.fragment(), "let x = 2");
    assert_eq!(err.trace.last().unwrap().1, Label::Root);
    let err = parse_source(Span::new("fun f()\n return 1\n let x = 2\nend")).unwrap_err();
    assert!(err.fatal);
    let err = parse_source(Span::new("return 1\nreturn 2")).unwrap_err();
    assert_eq!(err.trace.last().unwrap().1, Label::Root);
}

#[test]
fn whole_programs() {
    assert_eq!(parse_source(Span::new("")).unwrap(), empty());
    assert_eq!(parse_source(Span::new(" \n// only a comment")).unwrap(), empty());
    let program = "// the numbers of Fibonacci\nimport math\nexternal import frosch.handler as fhandler\n\nfun fib(n)\n    if n < 2 do\n        return n\n    else\n        x = fib(n - 1)\n    end\n    return fib(n - 1) + fib(n - 2)\nend\n\nclass Counter\n    fun count(self, items)\n        let total = 0\n        for item in items do\n            total = total + item.weight * 2\n        end\n        while total > 100 do\n            total = total - 100\n        end\n        return total\n    end\nend\n\nlet table = {'one': 1, \"two\": [1, 2.5, 'x']}\nprint(fib(10), table)\n";
    let block = parse_source(Span::new(program)).unwrap();
    assert_eq!(block.statements.len(), 6);
    assert!(block.return_stmt.is_none());
    assert!(matches!(block.statements[0], Statement::Import(_)));
    assert!(matches!(block.statements[1], Statement::Import(_)));
    assert!(matches!(block.statements[2], Statement::Fun(_)));
    assert!(matches!(block.statements[3], Statement::Class(_)));
    assert!(matches!(block.statements[4], Statement::LAssignment(_)));
    assert!(matches!(block.statements[5], Statement::FuncCall(_)));

    let err = parse_source(Span::new("let x = 1\nend")).unwrap_err();
    assert!(!err.fatal);
    assert_eq!(err.trace[0].0.location_line(), 2);
    let err = parse_source(Span::new("let x = 1\nlet y 2")).unwrap_err();
    assert!(err.fatal);
    assert_eq!(err.trace.last().unwrap().1, Label::Root);
    assert_eq!(err.trace[err.trace.len() - 2].1, Label::Block);
}

#[test]
fn statements_of_a_block() {
    let (_, block) = parse_block(Span::new("let a = 1\nlet b = 2\nreturn a")).unwrap();
    let statements = block.into_statements();
    assert_eq!(statements, vec![declare("a", number(1, "1")), declare("b", number(2, "2"))]);
}

#[test]
fn error_trace_goes_from_the_failure_outwards() {
    let err = parse_source(Span::new("fun f()\n  if x do\n    let y = [1, 2\n  end\nend")).unwrap_err();
    assert!(err.fatal);
    let labels: Vec<&str> = err.trace.iter().map(|(_, label)| label.name()).collect();
    assert_eq!(
        labels,
        vec![
            "RightBracket", "Array", "Collection", "Expression2", "NestedExpression", "FlatExpr",
            "LAssignment", "Stmt", "Block", "If", "Stmt", "Block", "Func", "Stmt", "Block", "Root"
        ]
    );
    assert_eq!(err.trace[0].0.fragment(), "end\nend");
    assert_eq!(err.trace[0].0.location_line(), 4);
    assert_eq!(err.trace[1].0.fragment(), "[1, 2\n  end\nend");
    assert_eq!(err.trace[1].0.location_line(), 3);
    assert_eq!(err.trace[1].0.location_offset(), 30);
    assert_eq!(err.trace[15].0.location_offset(), 0);
}

#[test]
fn test_expr_lexer0() {
    let string = "method.call()";
    let res = parse_statement(Span::new(string));
    println!("{:?}", res);
    let (rest, statement) = res.unwrap();
    assert_eq!(
        statement,
        Statement::FuncCall(PrefixExpr {
            prefix: ExprOrVarname::Varname(name_of("method")),
            suffix_chain: vec![
                ExprSuffix::TableDot(name_of("call")),
                ExprSuffix::FuncCall(Call { callee: None, args: vec![] })
            ]
        })
    );
    assert_eq!(rest.fragment(), "");
}

#[test]
fn test_assignment_no_init() {
    let string = " x = 3";
    let (rest, res) = parse_assignment(Span::new(string)).unwrap();
    assert_eq!(rest.fragment(), "");
    assert_eq!(res, Assignment { variable: plain("x"), expression: number(3, "3") });
}

#[test]
fn test_parse_statement() {
    let string = "let x = 3\nlet x = 4";
    let (rest, res) = parse_statements(Span::new(string), vec![]).unwrap();
    assert_eq!(rest.fragment(), "");
    assert_eq!(res, vec![declare("x", number(3, "3")), declare("x", number(4, "4"))]);
}

#[test]
fn sample_program() {
    let program = "let x = [1, 2.5, \"three\"]          // a declaration
point.x = x[0] * -2 ^ 2            // an assignment
if x < 3 and not_done do print(x) else return x end
for item in items do total = total + item end
fun area(w, h) return w * h end
class Shape fun init(self) end end
external import geometry.shapes as shapes
";
    let block = parse_source(Span::new(program)).unwrap();
    assert_eq!(block.statements.len(), 7);
    assert!(matches!(block.statements[0], Statement::LAssignment(_)));
    assert!(matches!(block.statements[1], Statement::Assignment(_)));
    assert!(matches!(block.statements[2], Statement::If(_)));
    assert!(matches!(block.statements[3], Statement::For(_)));
    assert!(matches!(block.statements[4], Statement::Fun(_)));
    assert!(matches!(block.statements[5], Statement::Class(_)));
    assert!(matches!(block.statements[6], Statement::Import(_)));
    match &block.statements[1] {
        Statement::Assignment(a) => assert_eq!(
            a.expression,
            bin(
                Expression::PrefixExpr(Box::new(PrefixExpr {
                    prefix: ExprOrVarname::Varname(name_of("x")),
                    suffix_chain: vec![ExprSuffix::TableIdx(number(0, "0"))]
                })),
                Operator::Mul,
                Expression::UnaryOp(Box::new(liva_parser::UnaryOp {
                    op: liva_parser::UnOperator::Sub,
                    operand: bin(number(2, "2"), Operator::Pow, number(2, "2"))
                }))
            )
        ),
        _ => panic!("not an assignment"),
    }
}

#[test]
fn more_programs() {
    let block = parse_source(Span::new("let x = 1 // done")).unwrap();
    assert_eq!(block.statements, vec![declare("x", number(1, "1"))]);

    let block = parse_source(Span::new("// caf\u{e9}\nlet x = 1\n// \u{4e16}\u{754c}")).unwrap();
    assert_eq!(block.statements, vec![declare("x", number(1, "1"))]);

    let block =
        parse_source(Span::new("if a do x = 1 else if b do y = 2 end end")).unwrap();
    match &block.statements[0] {
        Statement::If(outer) => {
            assert_eq!(outer.stmts.statements.len(), 1);
            let other = outer.else_statements.as_ref().unwrap();
            assert!(matches!(other.statements[0], Statement::If(_)));
        }
        _ => panic!("not an if"),
    }

    let block = parse_source(Span::new("(a).b()\na[0] = 1\nt.x.y = f(1)(2)")).unwrap();
    assert_eq!(block.statements.len(), 3);
    assert!(matches!(block.statements[0], Statement::FuncCall(_)));
    assert!(matches!(block.statements[1], Statement::Assignment(_)));
    assert!(matches!(block.statements[2], Statement::Assignment(_)));

    let err = parse_source(Span::new("let s = \"caf\u{e9}\"")).unwrap_err();
    assert!(err.fatal);
    assert_eq!(err.trace[0].0.fragment(), "\u{e9}\"");
    assert_eq!(err.trace[0].0.get_column(), 13);

    let err = parse_source(Span::new("fun f()\n  return 1,\nend")).unwrap_err();
    assert!(err.fatal);
    assert_eq!(err.trace[0].1, Label::End);
    assert_eq!(err.trace[0].0.fragment(), ",\nend");
}
