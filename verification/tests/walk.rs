use solc_ast::ast::source_unit::{
    ContractDefinition, ContractDefinitionPart, ContractKind, FunctionIdentifierPath,
    ImportDirective, InheritanceSpecifier, PragmaDirective, SourceUnit, SourceUnitPart,
    SymbolAlias, UsingForDirective,
};
use solc_ast::ast::definition::{
    EnumDefinition, EnumValue, ErrorDefinition, EventDefinition, FunctionDefinition, FunctionKind,
    Identifier, IdentifierOrIdentifierPath, IdentifierPath, ModifierDefinition,
    ModifierInvocation, OverrideSpecifier, ParameterList, StructDefinition,
    UserDefinedValueTypeDefinition, VariableDeclaration,
};
use solc_ast::ast::types::{
    ArrayTypeName, ElementaryTypeName, FunctionTypeName, Mapping, TypeName, UserDefinedTypeName,
    UserDefinedTypeNameOrIdentifierPath,
};
use solc_ast::ast::expression::{
    Assignment, AssignmentOperator, BinaryOperation, BinaryOperator, Conditional,
    ElementaryTypeNameExpression, Expression, FunctionCall, FunctionCallKind, FunctionCallOptions,
    IndexAccess, IndexRangeAccess, Literal, LiteralKind, MemberAccess, NewExpression,
    TupleExpression, UnaryOperation, UnaryOperator,
};
use solc_ast::ast::statement::{
    Block, BlockOrStatement, Break, Continue, DoWhileStatement, EmitStatement,
    ExpressionOrVariableDeclarationStatement, ExpressionStatement, ForStatement, IfStatement,
    InlineAssembly, PlaceholderStatement, Return, RevertStatement, Statement, TryCatchClause,
    TryStatement, UncheckedBlock, VariableDeclarationStatement, WhileStatement,
};
use solc_ast::ast::yul::{
    YulAssignment, YulBlock, YulBreak, YulCase, YulContinue, YulExpression,
    YulExpressionStatement, YulForLoop, YulFunctionCall, YulFunctionDefinition, YulIdentifier,
    YulIf, YulLeave, YulLiteral, YulLiteralKind, YulStatement, YulSwitch, YulTypedName,
    YulVariableDeclaration,
};
use solc_ast::misc::{
    Mutability, SourceLocation, StateMutability, StorageLocation, TypeDescriptions, Visibility,
};
use solc_ast::visitor::definition::visit_variable_declarations;
use solc_ast::visitor::expression::{
    visit_expressions, visit_maybe_boxed_expression, visit_maybe_expression,
    visit_maybe_expressions, visit_optional_expressions,
};
use solc_ast::visitor::source_unit::visit_symbol_aliases;
use solc_ast::visitor::statement::{accept_maybe_block, visit_statements};
use solc_ast::visitor::{walk, Bystander, Step, VisitError, Visitable, Visitor};

// ---- a visitor that writes down what it is called for --------------------------

#[derive(Debug, Default)]
struct Settings {
    fail_at: Option<String>,
    fail_silently: bool,
    prune_at: Vec<String>,
}

#[derive(Debug, Default)]
struct Recorder {
    settings: Settings,
    seen: Vec<String>,
}

impl Recorder {
    fn new() -> Recorder {
        Recorder::default()
    }

    fn failing_at(label: &str) -> Recorder {
        let mut r = Recorder::default();
        r.settings.fail_at = Some(label.to_string());
        r
    }

    fn pruning_at(labels: &[&str]) -> Recorder {
        let mut r = Recorder::default();
        r.settings.prune_at = labels.iter().map(|l| l.to_string()).collect();
        r
    }

    fn note(&mut self, label: &str) -> Result<Step, VisitError> {
        self.seen.push(label.to_string());
        if self.settings.fail_at.as_deref() == Some(label) {
            if self.settings.fail_silently {
                return Err(VisitError::Unknown);
            }
            return Err(VisitError::MsgError(format!("stopped at {}", label)));
        }
        if self.settings.prune_at.iter().any(|l| l == label) {
            Ok(Step::Prune)
        } else {
            Ok(Step::Descend)
        }
    }

    fn count(&self, label: &str) -> usize {
        self.seen.iter().filter(|l| l.as_str() == label).count()
    }
}

impl Visitor<Settings> for Recorder {
    fn shared_data(&mut self) -> &Settings {
        &self.settings
    }


    fn visit_source_unit(&mut self, _node: &mut SourceUnit) -> Result<Step, VisitError> {
        self.note("source_unit")
    }

    fn visit_pragma_directive(&mut self, _node: &mut PragmaDirective) -> Result<Step, VisitError> {
        self.note("pragma_directive")
    }

    fn visit_import_directive(&mut self, _node: &mut ImportDirective) -> Result<Step, VisitError> {
        self.note("import_directive")
    }

    fn visit_source_unit_part(&mut self, _node: &mut SourceUnitPart) -> Result<Step, VisitError> {
        self.note("source_unit_part")
    }

    fn visit_using_for_directive(&mut self, _node: &mut UsingForDirective) -> Result<Step, VisitError> {
        self.note("using_for_directive")
    }

    fn visit_variable_declaration(&mut self, _node: &mut VariableDeclaration) -> Result<Step, VisitError> {
        self.note("variable_declaration")
    }

    fn visit_binary_operation(&mut self, _node: &mut BinaryOperation) -> Result<Step, VisitError> {
        self.note("binary_operation")
    }

    fn visit_conditional(&mut self, _node: &mut Conditional) -> Result<Step, VisitError> {
        self.note("conditional")
    }

    fn visit_elementary_type_name(&mut self, _node: &mut ElementaryTypeName) -> Result<Step, VisitError> {
        self.note("elementary_type_name")
    }

    fn visit_elementary_type_name_expression(&mut self, _node: &mut ElementaryTypeNameExpression) -> Result<Step, VisitError> {
        self.note("elementary_type_name_expression")
    }

    fn visit_function_call(&mut self, _node: &mut FunctionCall) -> Result<Step, VisitError> {
        self.note("function_call")
    }

    fn visit_unary_operation(&mut self, _node: &mut UnaryOperation) -> Result<Step, VisitError> {
        self.note("unary_operation")
    }

    fn visit_tuple_expression(&mut self, _node: &mut TupleExpression) -> Result<Step, VisitError> {
        self.note("tuple_expression")
    }

    fn visit_new_expression(&mut self, _node: &mut NewExpression) -> Result<Step, VisitError> {
        self.note("new_expression")
    }

    fn visit_member_access(&mut self, _node: &mut MemberAccess) -> Result<Step, VisitError> {
        self.note("member_access")
    }

    fn visit_type_descriptions(&mut self, _node: &mut TypeDescriptions) -> Result<Step, VisitError> {
        self.note("type_descriptions")
    }

    fn visit_literal(&mut self, _node: &mut Literal) -> Result<Step, VisitError> {
        self.note("literal")
    }

    fn visit_index_range_access(&mut self, _node: &mut IndexRangeAccess) -> Result<Step, VisitError> {
        self.note("index_range_access")
    }

    fn visit_index_access(&mut self, _node: &mut IndexAccess) -> Result<Step, VisitError> {
        self.note("index_access")
    }

    fn visit_identifier(&mut self, node: &mut Identifier) -> Result<Step, VisitError> {
        let label = format!("identifier({})", node.name);
        self.note(&label)
    }

    fn visit_function_call_options(&mut self, _node: &mut FunctionCallOptions) -> Result<Step, VisitError> {
        self.note("function_call_options")
    }

    fn visit_enum_definition(&mut self, _node: &mut EnumDefinition) -> Result<Step, VisitError> {
        self.note("enum_definition")
    }

    fn visit_event_definition(&mut self, _node: &mut EventDefinition) -> Result<Step, VisitError> {
        self.note("event_definition")
    }

    fn visit_modifier_definition(&mut self, _node: &mut ModifierDefinition) -> Result<Step, VisitError> {
        self.note("modifier_definition")
    }

    fn visit_error_definition(&mut self, _node: &mut ErrorDefinition) -> Result<Step, VisitError> {
        self.note("error_definition")
    }

    fn visit_function_definition(&mut self, _node: &mut FunctionDefinition) -> Result<Step, VisitError> {
        self.note("function_definition")
    }

    fn visit_struct_definition(&mut self, _node: &mut StructDefinition) -> Result<Step, VisitError> {
        self.note("struct_definition")
    }

    fn visit_expression(&mut self, _node: &mut Expression) -> Result<Step, VisitError> {
        self.note("expression")
    }

    fn visit_statement(&mut self, _node: &mut Statement) -> Result<Step, VisitError> {
        self.note("statement")
    }

    fn visit_contract_definition(&mut self, _node: &mut ContractDefinition) -> Result<Step, VisitError> {
        self.note("contract_definition")
    }

    fn visit_contract_definition_part(&mut self, _node: &mut ContractDefinitionPart) -> Result<Step, VisitError> {
        self.note("contract_definition_part")
    }

    fn visit_type_name(&mut self, _node: &mut TypeName) -> Result<Step, VisitError> {
        self.note("type_name")
    }

    fn visit_user_defined_value_type_definition(&mut self, _node: &mut UserDefinedValueTypeDefinition) -> Result<Step, VisitError> {
        self.note("user_defined_value_type_definition")
    }

    fn visit_user_defined_type_name_or_identifier_path(&mut self, _node: &mut UserDefinedTypeNameOrIdentifierPath) -> Result<Step, VisitError> {
        self.note("user_defined_type_name_or_identifier_path")
    }

    fn visit_expression_or_variable_declaration_statement(&mut self, _node: &mut ExpressionOrVariableDeclarationStatement) -> Result<Step, VisitError> {
        self.note("expression_or_variable_declaration_statement")
    }

    fn visit_identifier_or_identifier_path(&mut self, _node: &mut IdentifierOrIdentifierPath) -> Result<Step, VisitError> {
        self.note("identifier_or_identifier_path")
    }

    fn visit_inheritance_specifier(&mut self, _node: &mut InheritanceSpecifier) -> Result<Step, VisitError> {
        self.note("inheritance_specifier")
    }

    fn visit_user_defined_type_name(&mut self, _node: &mut UserDefinedTypeName) -> Result<Step, VisitError> {
        self.note("user_defined_type_name")
    }

    fn visit_mapping(&mut self, _node: &mut Mapping) -> Result<Step, VisitError> {
        self.note("mapping")
    }

    fn visit_function_type_name(&mut self, _node: &mut FunctionTypeName) -> Result<Step, VisitError> {
        self.note("function_type_name")
    }

    fn visit_array_type_name(&mut self, _node: &mut ArrayTypeName) -> Result<Step, VisitError> {
        self.note("array_type_name")
    }

    fn visit_assignment(&mut self, _node: &mut Assignment) -> Result<Step, VisitError> {
        self.note("assignment")
    }

    fn visit_assignment_operator(&mut self, _node: &mut AssignmentOperator) -> Result<Step, VisitError> {
        self.note("assignment_operator")
    }

    fn visit_binary_operator(&mut self, _node: &mut BinaryOperator) -> Result<Step, VisitError> {
        self.note("binary_operator")
    }

    fn visit_placeholder_statement(&mut self, _node: &mut PlaceholderStatement) -> Result<Step, VisitError> {
        self.note("placeholder_statement")
    }

    fn visit_inline_assembly(&mut self, _node: &mut InlineAssembly) -> Result<Step, VisitError> {
        self.note("inline_assembly")
    }

    fn visit_if_statement(&mut self, _node: &mut IfStatement) -> Result<Step, VisitError> {
        self.note("if_statement")
    }

    fn visit_for_statement(&mut self, _node: &mut ForStatement) -> Result<Step, VisitError> {
        self.note("for_statement")
    }

    fn visit_expression_statement(&mut self, _node: &mut ExpressionStatement) -> Result<Step, VisitError> {
        self.note("expression_statement")
    }

    fn visit_emit_statement(&mut self, _node: &mut EmitStatement) -> Result<Step, VisitError> {
        self.note("emit_statement")
    }

    fn visit_do_while_statement(&mut self, _node: &mut DoWhileStatement) -> Result<Step, VisitError> {
        self.note("do_while_statement")
    }

    fn visit_continue(&mut self, _node: &mut Continue) -> Result<Step, VisitError> {
        self.note("continue")
    }

    fn visit_break(&mut self, _node: &mut Break) -> Result<Step, VisitError> {
        self.note("break")
    }

    fn visit_block(&mut self, _node: &mut Block) -> Result<Step, VisitError> {
        self.note("block")
    }

    fn visit_return(&mut self, _node: &mut Return) -> Result<Step, VisitError> {
        self.note("return")
    }

    fn visit_revert_statement(&mut self, _node: &mut RevertStatement) -> Result<Step, VisitError> {
        self.note("revert_statement")
    }

    fn visit_try_statement(&mut self, _node: &mut TryStatement) -> Result<Step, VisitError> {
        self.note("try_statement")
    }

    fn visit_unchecked_block(&mut self, _node: &mut UncheckedBlock) -> Result<Step, VisitError> {
        self.note("unchecked_block")
    }

    fn visit_variable_declaration_statement(&mut self, _node: &mut VariableDeclarationStatement) -> Result<Step, VisitError> {
        self.note("variable_declaration_statement")
    }

    fn visit_while_statement(&mut self, _node: &mut WhileStatement) -> Result<Step, VisitError> {
        self.note("while_statement")
    }

    fn visit_identifier_path(&mut self, node: &mut IdentifierPath) -> Result<Step, VisitError> {
        let label = format!("identifier_path({})", node.name);
        self.note(&label)
    }

    fn visit_yul_assignment(&mut self, _node: &mut YulAssignment) -> Result<Step, VisitError> {
        self.note("yul_assignment")
    }

    fn visit_yul_block(&mut self, _node: &mut YulBlock) -> Result<Step, VisitError> {
        self.note("yul_block")
    }

    fn visit_yul_break(&mut self, _node: &mut YulBreak) -> Result<Step, VisitError> {
        self.note("yul_break")
    }

    fn visit_yul_continue(&mut self, _node: &mut YulContinue) -> Result<Step, VisitError> {
        self.note("yul_continue")
    }

    fn visit_yul_expression_statement(&mut self, _node: &mut YulExpressionStatement) -> Result<Step, VisitError> {
        self.note("yul_expression_statement")
    }

    fn visit_yul_function_definition(&mut self, _node: &mut YulFunctionDefinition) -> Result<Step, VisitError> {
        self.note("yul_function_definition")
    }

    fn visit_yul_for_loop(&mut self, _node: &mut YulForLoop) -> Result<Step, VisitError> {
        self.note("yul_for_loop")
    }

    fn visit_yul_if(&mut self, _node: &mut YulIf) -> Result<Step, VisitError> {
        self.note("yul_if")
    }

    fn visit_yul_switch(&mut self, _node: &mut YulSwitch) -> Result<Step, VisitError> {
        self.note("yul_switch")
    }

    fn visit_yul_variable_declaration(&mut self, _node: &mut YulVariableDeclaration) -> Result<Step, VisitError> {
        self.note("yul_variable_declaration")
    }

    fn visit_yul_function_call(&mut self, _node: &mut YulFunctionCall) -> Result<Step, VisitError> {
        self.note("yul_function_call")
    }

    fn visit_yul_identifier(&mut self, node: &mut YulIdentifier) -> Result<Step, VisitError> {
        let label = format!("yul_identifier({})", node.name);
        self.note(&label)
    }

    fn visit_yul_literal(&mut self, _node: &mut YulLiteral) -> Result<Step, VisitError> {
        self.note("yul_literal")
    }

    fn visit_yul_leave(&mut self, _node: &mut YulLeave) -> Result<Step, VisitError> {
        self.note("yul_leave")
    }
}

// ---- a visitor that rewrites what it sees --------------------------------------

struct Renamer {
    suffix: String,
    stop_after: Option<usize>,
    renamed: usize,
}

impl Visitor<String> for Renamer {
    fn shared_data(&mut self) -> &String {
        &self.suffix
    }

    fn visit_identifier(&mut self, node: &mut Identifier) -> Result<Step, VisitError> {
        if self.stop_after == Some(self.renamed) {
            return Err(VisitError::MsgError("enough".to_string()));
        }
        let suffix = self.shared_data().clone();
        node.name.push_str(&suffix);
        self.renamed += 1;
        Ok(Step::Descend)
    }

    fn visit_literal(&mut self, node: &mut Literal) -> Result<Step, VisitError> {
        node.value = Some("0".to_string());
        Ok(Step::Descend)
    }
}

// ---- a visitor that walks the children of a node from its own callback ----------

#[derive(Default)]
struct AfterChildren {
    seen: Vec<String>,
}

impl Visitor<()> for AfterChildren {
    fn shared_data(&mut self) -> &() {
        &()
    }

    fn visit_identifier(&mut self, node: &mut Identifier) -> Result<Step, VisitError> {
        self.seen.push(node.name.clone());
        Ok(Step::Descend)
    }

    fn visit_binary_operation(&mut self, node: &mut BinaryOperation) -> Result<Step, VisitError> {
        node.visit(self)?;
        self.seen.push("+".to_string());
        Ok(Step::Prune)
    }
}

// ---- building trees ------------------------------------------------------------

fn at() -> SourceLocation {
    SourceLocation { start: Some(0), length: Some(1), index: Some(0) }
}

fn described() -> TypeDescriptions {
    TypeDescriptions { type_identifier: None, type_string: None }
}

fn ident(name: &str) -> Identifier {
    Identifier {
        id: 1,
        src: at(),
        name: name.to_string(),
        referenced_declaration: None,
        type_descriptions: described(),
    }
}

fn path(name: &str) -> IdentifierPath {
    IdentifierPath { id: 2, src: at(), name: name.to_string(), referenced_declaration: 0 }
}

fn name(name: &str) -> Expression {
    Expression::Identifier(ident(name))
}

fn number(value: &str) -> Expression {
    Expression::Literal(Literal {
        id: 3,
        src: at(),
        type_descriptions: described(),
        kind: LiteralKind::Number,
        value: Some(value.to_string()),
        hex_value: String::new(),
    })
}

fn binary(lhs: Expression, rhs: Expression) -> BinaryOperation {
    BinaryOperation {
        id: 4,
        src: at(),
        type_descriptions: described(),
        common_type: described(),
        lhs: Box::new(lhs),
        operator: BinaryOperator::Add,
        rhs: Box::new(rhs),
    }
}

fn assignment(lhs: Expression, rhs: Expression) -> Assignment {
    Assignment {
        id: 5,
        src: at(),
        type_descriptions: described(),
        lhs: Box::new(lhs),
        operator: AssignmentOperator::Assign,
        rhs: Box::new(rhs),
    }
}

fn conditional(condition: Expression, yes: Expression, no: Expression) -> Conditional {
    Conditional {
        id: 6,
        src: at(),
        type_descriptions: described(),
        condition: Box::new(condition),
        false_expression: Box::new(no),
        true_expression: Box::new(yes),
    }
}

fn call(callee: Expression, arguments: Vec<Expression>) -> FunctionCall {
    FunctionCall {
        id: 7,
        src: at(),
        type_descriptions: described(),
        arguments,
        expression: Box::new(callee),
        kind: FunctionCallKind::FunctionCall,
        names: Vec::new(),
        try_call: false,
    }
}

fn elementary(name: &str) -> ElementaryTypeName {
    ElementaryTypeName {
        id: 8,
        src: at(),
        type_descriptions: described(),
        name: name.to_string(),
        state_mutability: None,
    }
}

fn user_type(name: &str) -> UserDefinedTypeName {
    UserDefinedTypeName {
        id: 9,
        src: at(),
        type_descriptions: described(),
        name: Some(name.to_string()),
        path_node: None,
        referenced_declaration: 0,
    }
}

fn array_of(base: TypeName, length: Option<Expression>) -> ArrayTypeName {
    ArrayTypeName {
        id: 10,
        src: at(),
        type_descriptions: described(),
        base_type: Box::new(base),
        length: length.map(Box::new),
    }
}

fn parameters(parameters: Vec<VariableDeclaration>) -> ParameterList {
    ParameterList { id: 11, src: at(), parameters }
}

fn variable(name: &str, declared: Option<TypeName>, value: Option<Expression>) -> VariableDeclaration {
    VariableDeclaration {
        id: 12,
        src: at(),
        name: name.to_string(),
        constant: false,
        state_variable: false,
        indexed: false,
        mutability: Some(Mutability::Mutable),
        overrides: None,
        storage_location: StorageLocation::Default,
        type_descriptions: described(),
        declared_type: declared,
        value,
        visibility: Visibility::Internal,
    }
}

fn block(statements: Vec<Statement>) -> Block {
    Block { id: 13, src: at(), statements }
}

fn statement(expression: Expression) -> ExpressionStatement {
    ExpressionStatement { id: 14, src: at(), expression }
}

fn returning(expression: Option<Expression>) -> Return {
    Return { id: 15, src: at(), expression, function_return_parameters: 0 }
}

fn function(name: &str, body: Option<Block>) -> FunctionDefinition {
    FunctionDefinition {
        id: 16,
        src: at(),
        name: name.to_string(),
        kind: Some(FunctionKind::Function),
        body,
        modifiers: Vec::new(),
        overrides: None,
        parameters: parameters(Vec::new()),
        return_parameters: parameters(Vec::new()),
        state_mutability: Some(StateMutability::Nonpayable),
        visibility: Visibility::Public,
        is_virtual: false,
        implemented: true,
    }
}

fn unit(nodes: Vec<SourceUnitPart>) -> SourceUnit {
    SourceUnit { id: 0, src: at(), absolute_path: "a.sol".to_string(), license: None, nodes }
}

fn contract(name: &str, nodes: Vec<ContractDefinitionPart>) -> ContractDefinition {
    ContractDefinition {
        id: 17,
        src: at(),
        name: name.to_string(),
        is_abstract: false,
        kind: ContractKind::Contract,
        base_contracts: Vec::new(),
        nodes,
    }
}

fn overriding(names: Vec<&str>) -> OverrideSpecifier {
    OverrideSpecifier {
        id: 18,
        src: at(),
        overrides: names
            .into_iter()
            .map(|n| UserDefinedTypeNameOrIdentifierPath::IdentifierPath(path(n)))
            .collect(),
    }
}

fn yul_name(name: &str) -> YulIdentifier {
    YulIdentifier { src: at(), name: name.to_string() }
}

fn yul_number(value: &str) -> YulLiteral {
    YulLiteral { src: at(), kind: YulLiteralKind::Number, value: Some(value.to_string()), hex_value: None }
}

fn yul_call(function: &str, arguments: Vec<YulExpression>) -> YulFunctionCall {
    YulFunctionCall { src: at(), arguments, function_name: yul_name(function) }
}

fn yul_block(statements: Vec<YulStatement>) -> YulBlock {
    YulBlock { src: at(), statements }
}

/// `{ x = a + b; return x; }`
fn sum_body() -> Block {
    block(vec![
        Statement::ExpressionStatement(statement(Expression::Assignment(assignment(
            name("x"),
            Expression::BinaryOperation(binary(name("a"), name("b"))),
        )))),
        Statement::Return(returning(Some(name("x")))),
    ])
}

fn sum_unit() -> SourceUnit {
    unit(vec![SourceUnitPart::FunctionDefinition(function("f", Some(sum_body())))])
}

fn labels(seen: &[String]) -> Vec<&str> {
    seen.iter().map(|s| s.as_str()).collect()
}

/// A tree with a node of many kinds, some of them nested.
fn rich_unit() -> SourceUnit {
    let mut f = function("f", Some(sum_body()));
    f.parameters = parameters(vec![variable(
        "n",
        Some(TypeName::ArrayTypeName(array_of(
            TypeName::ElementaryTypeName(elementary("uint256")),
            Some(number("4")),
        ))),
        None,
    )]);
    f.overrides = Some(overriding(vec!["Base"]));
    f.modifiers = vec![ModifierInvocation {
        id: 30,
        src: at(),
        arguments: Some(vec![name("limit"), number("1")]),
        modifier_name: IdentifierOrIdentifierPath::Identifier(ident("guarded")),
    }];
    let tuple = Expression::TupleExpression(TupleExpression {
        id: 31,
        src: at(),
        type_descriptions: described(),
        components: vec![Some(name("p")), None, Some(number("2"))],
        is_inline_array: false,
    });
    let looping = Statement::WhileStatement(WhileStatement {
        id: 32,
        src: at(),
        body: BlockOrStatement::Statement(Box::new(Statement::Break(Break { id: 33, src: at() }))),
        condition: Expression::Conditional(conditional(name("c"), name("t"), name("e"))),
    });
    let g = function("g", Some(block(vec![Statement::ExpressionStatement(statement(tuple)), looping])));
    unit(vec![
        SourceUnitPart::PragmaDirective(PragmaDirective {
            id: 34,
            src: at(),
            literals: vec!["solidity".to_string(), "^".to_string(), "0.8".to_string()],
        }),
        SourceUnitPart::ContractDefinition(contract(
            "C",
            vec![
                ContractDefinitionPart::VariableDeclaration(variable(
                    "total",
                    Some(TypeName::ElementaryTypeName(elementary("uint256"))),
                    Some(number("0")),
                )),
                ContractDefinitionPart::FunctionDefinition(f),
                ContractDefinitionPart::FunctionDefinition(g),
            ],
        )),
    ])
}

// ---- the walk as a whole -------------------------------------------------------

#[test]
fn a_visitor_that_keeps_every_default_changes_nothing() {
    let mut tree = rich_unit();
    let mut onlooker = Bystander { data: 7u32 };
    assert_eq!(walk(&mut tree, &mut onlooker), Ok(()));
    assert_eq!(tree, rich_unit());
    assert_eq!(onlooker.data, 7);
    assert_eq!(*onlooker.shared_data(), 7);
}

#[test]
fn a_visitor_that_keeps_every_default_changes_nothing_in_an_empty_tree() {
    let mut tree = unit(Vec::new());
    assert_eq!(walk(&mut tree, &mut Bystander { data: () }), Ok(()));
    assert_eq!(tree, unit(Vec::new()));
}

#[test]
fn a_function_body_is_walked_in_the_order_of_the_source() {
    let mut tree = sum_unit();
    let mut recorder = Recorder::new();
    assert_eq!(walk(&mut tree, &mut recorder), Ok(()));
    assert_eq!(
        labels(&recorder.seen),
        vec![
            "source_unit",
            "function_definition",
            "block",
            "expression_statement",
            "assignment",
            "identifier(x)",
            "binary_operation",
            "identifier(a)",
            "identifier(b)",
            "return",
            "identifier(x)",
        ]
    );
    assert_eq!(tree, sum_unit());
}

#[test]
fn accept_on_the_root_is_the_walk() {
    let mut tree = sum_unit();
    let mut by_walk = Recorder::new();
    assert_eq!(walk(&mut tree, &mut by_walk), Ok(()));
    let mut by_accept = Recorder::new();
    assert_eq!(tree.accept(&mut by_accept), Ok(()));
    assert_eq!(by_walk.seen, by_accept.seen);
}

#[test]
fn visit_on_the_root_walks_the_parts_without_the_root_callback() {
    let mut tree = sum_unit();
    let mut recorder = Recorder::new();
    assert_eq!(tree.visit(&mut recorder), Ok(()));
    assert_eq!(recorder.count("source_unit"), 0);
    assert_eq!(recorder.seen.len(), 10);
    assert_eq!(recorder.seen[0], "function_definition");
}

#[test]
fn the_left_operand_is_seen_before_the_right_operand() {
    let mut node = binary(name("l"), name("r"));
    let mut recorder = Recorder::new();
    assert_eq!(node.visit(&mut recorder), Ok(()));
    assert_eq!(labels(&recorder.seen), vec!["identifier(l)", "identifier(r)"]);

    let mut nested = binary(
        Expression::BinaryOperation(binary(name("a"), name("b"))),
        Expression::BinaryOperation(binary(name("c"), name("d"))),
    );
    let mut recorder = Recorder::new();
    assert_eq!(nested.visit(&mut recorder), Ok(()));
    assert_eq!(
        labels(&recorder.seen),
        vec![
            "binary_operation",
            "identifier(a)",
            "identifier(b)",
            "binary_operation",
            "identifier(c)",
            "identifier(d)",
        ]
    );
}

#[test]
fn an_assignment_is_walked_from_left_to_right() {
    let mut node = assignment(name("target"), Expression::BinaryOperation(binary(name("a"), number("1"))));
    let mut recorder = Recorder::new();
    assert_eq!(node.visit(&mut recorder), Ok(()));
    assert_eq!(
        labels(&recorder.seen),
        vec!["identifier(target)", "binary_operation", "identifier(a)", "literal"]
    );
}

#[test]
fn a_failure_ends_the_walk_at_once() {
    let mut tree = sum_unit();
    let mut recorder = Recorder::failing_at("identifier(a)");
    assert_eq!(
        walk(&mut tree, &mut recorder),
        Err(VisitError::MsgError("stopped at identifier(a)".to_string()))
    );
    assert_eq!(
        labels(&recorder.seen),
        vec![
            "source_unit",
            "function_definition",
            "block",
            "expression_statement",
            "assignment",
            "identifier(x)",
            "binary_operation",
            "identifier(a)",
        ]
    );
}

#[test]
fn a_failure_of_a_compound_node_keeps_the_walk_out_of_its_children() {
    let mut tree = sum_unit();
    let mut recorder = Recorder::failing_at("assignment");
    assert_eq!(
        walk(&mut tree, &mut recorder),
        Err(VisitError::MsgError("stopped at assignment".to_string()))
    );
    assert_eq!(
        labels(&recorder.seen),
        vec!["source_unit", "function_definition", "block", "expression_statement", "assignment"]
    );
}

#[test]
fn a_failure_without_a_reason_is_handed_on_as_it_is() {
    let mut tree = sum_unit();
    let mut recorder = Recorder::failing_at("return");
    recorder.settings.fail_silently = true;
    assert_eq!(walk(&mut tree, &mut recorder), Err(VisitError::Unknown));
    assert_eq!(recorder.seen.last().map(|s| s.as_str()), Some("return"));
    assert_eq!(recorder.count("identifier(x)"), 1);
}

#[test]
fn a_failure_of_the_root_callback_keeps_the_walk_out_of_the_tree() {
    let mut tree = sum_unit();
    let mut recorder = Recorder::failing_at("source_unit");
    assert_eq!(
        walk(&mut tree, &mut recorder),
        Err(VisitError::MsgError("stopped at source_unit".to_string()))
    );
    assert_eq!(labels(&recorder.seen), vec!["source_unit"]);
}

#[test]
fn the_root_callback_is_called_once_and_first() {
    let mut tree = rich_unit();
    let mut recorder = Recorder::new();
    assert_eq!(walk(&mut tree, &mut recorder), Ok(()));
    assert_eq!(recorder.seen[0], "source_unit");
    assert_eq!(recorder.count("source_unit"), 1);
}

#[test]
fn pruning_at_the_root_leaves_the_whole_tree_out() {
    let mut tree = sum_unit();
    let mut recorder = Recorder::pruning_at(&["source_unit"]);
    assert_eq!(walk(&mut tree, &mut recorder), Ok(()));
    assert_eq!(labels(&recorder.seen), vec!["source_unit"]);
}

#[test]
fn pruning_keeps_the_walk_out_of_the_subtree_and_lets_it_go_on_behind() {
    let mut tree = sum_unit();
    let mut recorder = Recorder::pruning_at(&["binary_operation"]);
    assert_eq!(walk(&mut tree, &mut recorder), Ok(()));
    assert_eq!(
        labels(&recorder.seen),
        vec![
            "source_unit",
            "function_definition",
            "block",
            "expression_statement",
            "assignment",
            "identifier(x)",
            "binary_operation",
            "return",
            "identifier(x)",
        ]
    );
    assert_eq!(recorder.count("identifier(a)"), 0);
    assert_eq!(recorder.count("identifier(b)"), 0);
}

#[test]
fn pruning_a_function_leaves_all_of_it_out() {
    let mut tree = rich_unit();
    let mut recorder = Recorder::pruning_at(&["function_definition"]);
    assert_eq!(walk(&mut tree, &mut recorder), Ok(()));
    assert_eq!(
        labels(&recorder.seen),
        vec![
            "source_unit",
            "pragma_directive",
            "contract_definition",
            "variable_declaration",
            "elementary_type_name",
            "literal",
            "function_definition",
            "function_definition",
        ]
    );
}

#[test]
fn pruning_a_block_leaves_its_statements_out() {
    let mut tree = sum_unit();
    let mut recorder = Recorder::pruning_at(&["block"]);
    assert_eq!(walk(&mut tree, &mut recorder), Ok(()));
    assert_eq!(labels(&recorder.seen), vec!["source_unit", "function_definition", "block"]);
}

#[test]
fn pruning_a_node_without_children_changes_nothing() {
    let mut tree = sum_unit();
    let mut recorder = Recorder::pruning_at(&["identifier(x)", "identifier(a)"]);
    assert_eq!(walk(&mut tree, &mut recorder), Ok(()));
    assert_eq!(recorder.seen.len(), 11);
}

#[test]
fn a_rich_tree_is_walked_in_order() {
    let mut tree = rich_unit();
    let mut recorder = Recorder::new();
    assert_eq!(walk(&mut tree, &mut recorder), Ok(()));
    assert_eq!(
        labels(&recorder.seen),
        vec![
            "source_unit",
            "pragma_directive",
            "contract_definition",
            "variable_declaration",
            "elementary_type_name",
            "literal",
            "function_definition",
            "block",
            "expression_statement",
            "assignment",
            "identifier(x)",
            "binary_operation",
            "identifier(a)",
            "identifier(b)",
            "return",
            "identifier(x)",
            "identifier(limit)",
            "literal",
            "identifier(guarded)",
            "identifier_path(Base)",
            "array_type_name",
            "literal",
            "function_definition",
            "block",
            "expression_statement",
            "tuple_expression",
            "identifier(p)",
            "literal",
            "while_statement",
            "break",
            "conditional",
            "identifier(c)",
            "identifier(e)",
            "identifier(e)",
        ]
    );
}

// ---- the order inside single kinds ---------------------------------------------

#[test]
fn a_conditional_is_walked_through_its_condition_and_twice_through_its_false_branch() {
    let mut node = conditional(name("c"), name("yes"), name("no"));
    let mut recorder = Recorder::new();
    assert_eq!(node.visit(&mut recorder), Ok(()));
    assert_eq!(labels(&recorder.seen), vec!["identifier(c)", "identifier(no)", "identifier(no)"]);
    assert_eq!(recorder.count("identifier(yes)"), 0);
}

#[test]
fn the_second_walk_through_the_false_branch_sees_what_the_first_has_changed() {
    let mut node = conditional(name("c"), name("yes"), name("no"));
    let mut renamer = Renamer { suffix: "!".to_string(), stop_after: None, renamed: 0 };
    assert_eq!(node.visit(&mut renamer), Ok(()));
    assert_eq!(node, conditional(name("c!"), name("yes"), name("no!!")));
    assert_eq!(renamer.renamed, 3);
}

#[test]
fn a_failure_in_the_second_walk_through_the_false_branch_ends_the_walk() {
    let mut node = conditional(name("c"), name("yes"), name("no"));
    let mut renamer = Renamer { suffix: "!".to_string(), stop_after: Some(2), renamed: 0 };
    assert_eq!(node.visit(&mut renamer), Err(VisitError::MsgError("enough".to_string())));
    assert_eq!(node, conditional(name("c!"), name("yes"), name("no!")));
}

#[test]
fn an_if_statement_is_walked_through_its_else_branch_before_its_then_branch() {
    let mut node = IfStatement {
        id: 40,
        src: at(),
        condition: name("c"),
        false_body: Some(BlockOrStatement::Statement(Box::new(Statement::ExpressionStatement(statement(
            name("otherwise"),
        ))))),
        true_body: BlockOrStatement::Block(block(vec![Statement::ExpressionStatement(statement(name(
            "then",
        )))])),
    };
    let mut recorder = Recorder::new();
    assert_eq!(node.visit(&mut recorder), Ok(()));
    assert_eq!(
        labels(&recorder.seen),
        vec![
            "identifier(c)",
            "expression_statement",
            "identifier(otherwise)",
            "expression_statement",
            "identifier(then)",
        ]
    );
}

#[test]
fn an_if_statement_without_else_branch_is_walked_through_condition_and_then_branch() {
    let mut node = IfStatement {
        id: 40,
        src: at(),
        condition: name("c"),
        false_body: None,
        true_body: BlockOrStatement::Statement(Box::new(Statement::Continue(Continue { id: 41, src: at() }))),
    };
    let mut recorder = Recorder::new();
    assert_eq!(node.visit(&mut recorder), Ok(()));
    assert_eq!(labels(&recorder.seen), vec!["identifier(c)", "continue"]);
}

#[test]
fn the_body_of_a_loop_is_a_block_without_a_callback_of_its_own() {
    let mut node = WhileStatement {
        id: 42,
        src: at(),
        body: BlockOrStatement::Block(block(vec![Statement::Break(Break { id: 43, src: at() })])),
        condition: name("c"),
    };
    let mut recorder = Recorder::new();
    assert_eq!(node.visit(&mut recorder), Ok(()));
    assert_eq!(labels(&recorder.seen), vec!["break", "identifier(c)"]);
}

#[test]
fn the_arguments_of_a_call_are_seen_before_the_callee() {
    let mut node = call(name("f"), vec![name("a"), number("1"), name("b")]);
    let mut recorder = Recorder::new();
    assert_eq!(node.visit(&mut recorder), Ok(()));
    assert_eq!(
        labels(&recorder.seen),
        vec!["identifier(a)", "literal", "identifier(b)", "identifier(f)"]
    );
}

#[test]
fn call_options_are_seen_after_the_callee() {
    let mut node = FunctionCallOptions {
        id: 44,
        src: at(),
        type_descriptions: described(),
        expression: Box::new(name("f")),
        names: vec!["value".to_string()],
        options: vec![number("1")],
    };
    let mut recorder = Recorder::new();
    assert_eq!(node.visit(&mut recorder), Ok(()));
    assert_eq!(labels(&recorder.seen), vec!["identifier(f)", "literal"]);
}

#[test]
fn an_index_access_is_walked_through_base_and_index() {
    let mut node = IndexAccess {
        id: 45,
        src: at(),
        type_descriptions: described(),
        base_expression: Box::new(name("base")),
        index_expression: Some(Box::new(name("i"))),
    };
    let mut recorder = Recorder::new();
    assert_eq!(node.visit(&mut recorder), Ok(()));
    assert_eq!(labels(&recorder.seen), vec!["identifier(base)", "identifier(i)"]);

    node.index_expression = None;
    let mut recorder = Recorder::new();
    assert_eq!(node.visit(&mut recorder), Ok(()));
    assert_eq!(labels(&recorder.seen), vec!["identifier(base)"]);
}

#[test]
fn an_index_range_access_is_walked_through_base_start_and_end() {
    let mut node = IndexRangeAccess {
        id: 46,
        src: at(),
        type_descriptions: described(),
        base_expression: Box::new(name("base")),
        start_expression: Some(Box::new(name("from"))),
        end_expression: Some(Box::new(name("to"))),
    };
    let mut recorder = Recorder::new();
    assert_eq!(node.visit(&mut recorder), Ok(()));
    assert_eq!(labels(&recorder.seen), vec!["identifier(base)", "identifier(from)", "identifier(to)"]);

    node.start_expression = None;
    let mut recorder = Recorder::new();
    assert_eq!(node.visit(&mut recorder), Ok(()));
    assert_eq!(labels(&recorder.seen), vec!["identifier(base)", "identifier(to)"]);
}

#[test]
fn single_inner_nodes_are_walked() {
    let mut member = MemberAccess {
        id: 47,
        src: at(),
        type_descriptions: described(),
        expression: Box::new(name("object")),
        member_name: "field".to_string(),
        referenced_declaration: None,
    };
    let mut recorder = Recorder::new();
    assert_eq!(member.visit(&mut recorder), Ok(()));
    assert_eq!(labels(&recorder.seen), vec!["identifier(object)"]);

    let mut unary = UnaryOperation {
        id: 48,
        src: at(),
        type_descriptions: described(),
        operator: UnaryOperator::Not,
        prefix: true,
        sub_expression: Box::new(name("flag")),
    };
    let mut recorder = Recorder::new();
    assert_eq!(unary.visit(&mut recorder), Ok(()));
    assert_eq!(labels(&recorder.seen), vec!["identifier(flag)"]);

    let mut created = NewExpression {
        id: 49,
        src: at(),
        type_descriptions: described(),
        created_type: TypeName::UserDefinedTypeName(user_type("Token")),
    };
    let mut recorder = Recorder::new();
    assert_eq!(created.visit(&mut recorder), Ok(()));
    assert_eq!(labels(&recorder.seen), vec!["user_defined_type_name"]);
}

#[test]
fn a_tuple_is_walked_through_the_components_that_are_there() {
    let mut node = TupleExpression {
        id: 50,
        src: at(),
        type_descriptions: described(),
        components: vec![None, Some(name("a")), None, Some(name("b"))],
        is_inline_array: false,
    };
    let mut recorder = Recorder::new();
    assert_eq!(node.visit(&mut recorder), Ok(()));
    assert_eq!(labels(&recorder.seen), vec!["identifier(a)", "identifier(b)"]);
}

#[test]
fn a_for_statement_is_walked_through_body_condition_first_slot_and_step() {
    let mut node = ForStatement {
        id: 51,
        src: at(),
        body: BlockOrStatement::Block(block(vec![Statement::Continue(Continue { id: 52, src: at() })])),
        condition: Some(name("c")),
        initialization_expression: Some(ExpressionOrVariableDeclarationStatement::ExpressionStatement(
            statement(name("first")),
        )),
        loop_expression: Some(statement(name("step"))),
    };
    let mut recorder = Recorder::new();
    assert_eq!(node.visit(&mut recorder), Ok(()));
    assert_eq!(
        labels(&recorder.seen),
        vec![
            "continue",
            "identifier(c)",
            "expression_statement",
            "identifier(first)",
            "identifier(step)",
        ]
    );
}

#[test]
fn a_function_is_walked_through_body_modifiers_overrides_parameters_and_results() {
    let mut node = function("f", Some(block(vec![Statement::Return(returning(None))])));
    node.modifiers = vec![ModifierInvocation {
        id: 53,
        src: at(),
        arguments: None,
        modifier_name: IdentifierOrIdentifierPath::IdentifierPath(path("only_owner")),
    }];
    node.overrides = Some(overriding(vec!["A", "B"]));
    node.parameters =
        parameters(vec![variable("p", Some(TypeName::ElementaryTypeName(elementary("bool"))), None)]);
    node.return_parameters =
        parameters(vec![variable("q", Some(TypeName::UserDefinedTypeName(user_type("T"))), None)]);
    let mut recorder = Recorder::new();
    assert_eq!(node.visit(&mut recorder), Ok(()));
    assert_eq!(
        labels(&recorder.seen),
        vec![
            "block",
            "return",
            "identifier_path(only_owner)",
            "identifier_path(A)",
            "identifier_path(B)",
            "elementary_type_name",
            "user_defined_type_name",
        ]
    );
}

#[test]
fn a_function_without_body_is_walked_through_the_rest() {
    let mut node = function("f", None);
    node.parameters = parameters(vec![variable("p", None, Some(number("1")))]);
    let mut recorder = Recorder::new();
    assert_eq!(node.visit(&mut recorder), Ok(()));
    assert_eq!(labels(&recorder.seen), vec!["literal"]);
}

#[test]
fn a_variable_is_walked_through_overrides_type_and_value() {
    let mut node = variable(
        "v",
        Some(TypeName::ElementaryTypeName(elementary("uint8"))),
        Some(name("start")),
    );
    node.overrides = Some(overriding(vec!["Base"]));
    let mut recorder = Recorder::new();
    assert_eq!(node.visit(&mut recorder), Ok(()));
    assert_eq!(
        labels(&recorder.seen),
        vec!["identifier_path(Base)", "elementary_type_name", "identifier(start)"]
    );
}

#[test]
fn an_array_type_is_walked_through_its_length_only() {
    let mut node = array_of(TypeName::UserDefinedTypeName(user_type("T")), Some(name("n")));
    let mut recorder = Recorder::new();
    assert_eq!(node.visit(&mut recorder), Ok(()));
    assert_eq!(labels(&recorder.seen), vec!["identifier(n)"]);
}

#[test]
fn a_contract_is_walked_through_its_bases_then_its_members() {
    let mut node = contract(
        "C",
        vec![ContractDefinitionPart::EnumDefinition(EnumDefinition {
            id: 54,
            src: at(),
            name: "E".to_string(),
            canonical_name: "C.E".to_string(),
            members: vec![EnumValue { id: 55, src: at(), name: "One".to_string() }],
        })],
    );
    node.base_contracts = vec![InheritanceSpecifier {
        id: 56,
        src: at(),
        arguments: Some(vec![number("1")]),
        base_name: UserDefinedTypeNameOrIdentifierPath::UserDefinedTypeName(user_type("Base")),
    }];
    let mut recorder = Recorder::new();
    assert_eq!(node.visit(&mut recorder), Ok(()));
    assert_eq!(labels(&recorder.seen), vec!["literal", "user_defined_type_name", "enum_definition"]);
}

#[test]
fn a_try_statement_is_walked_through_its_clauses_then_its_call() {
    let mut node = TryStatement {
        id: 57,
        src: at(),
        clauses: vec![
            TryCatchClause {
                id: 58,
                src: at(),
                block: block(vec![Statement::Break(Break { id: 59, src: at() })]),
                error_name: String::new(),
                parameters: Some(parameters(vec![variable("r", None, Some(name("first")))])),
            },
            TryCatchClause {
                id: 60,
                src: at(),
                block: block(Vec::new()),
                error_name: "Error".to_string(),
                parameters: None,
            },
        ],
        external_call: call(name("callee"), vec![name("arg")]),
    };
    let mut recorder = Recorder::new();
    assert_eq!(node.visit(&mut recorder), Ok(()));
    assert_eq!(
        labels(&recorder.seen),
        vec!["break", "identifier(first)", "identifier(arg)", "identifier(callee)"]
    );
}

#[test]
fn loops_and_simple_statements_are_walked_in_their_order() {
    let mut do_while = DoWhileStatement {
        id: 61,
        src: at(),
        block: block(vec![Statement::Continue(Continue { id: 62, src: at() })]),
        condition: name("c"),
    };
    let mut recorder = Recorder::new();
    assert_eq!(do_while.visit(&mut recorder), Ok(()));
    assert_eq!(labels(&recorder.seen), vec!["continue", "identifier(c)"]);

    let mut emit = EmitStatement { id: 63, src: at(), event_call: call(name("Event"), vec![name("x")]) };
    let mut recorder = Recorder::new();
    assert_eq!(emit.visit(&mut recorder), Ok(()));
    assert_eq!(labels(&recorder.seen), vec!["identifier(x)", "identifier(Event)"]);

    let mut revert = RevertStatement { id: 64, src: at(), error_call: call(name("Failure"), Vec::new()) };
    let mut recorder = Recorder::new();
    assert_eq!(revert.visit(&mut recorder), Ok(()));
    assert_eq!(labels(&recorder.seen), vec!["identifier(Failure)"]);

    let mut unchecked = UncheckedBlock {
        id: 65,
        src: at(),
        statements: vec![Statement::Return(returning(Some(name("r"))))],
    };
    let mut recorder = Recorder::new();
    assert_eq!(unchecked.visit(&mut recorder), Ok(()));
    assert_eq!(labels(&recorder.seen), vec!["return", "identifier(r)"]);
}

#[test]
fn a_declaration_statement_is_walked_through_its_declarations_then_its_value() {
    let mut node = VariableDeclarationStatement {
        id: 66,
        src: at(),
        assignments: vec![Some(1), None],
        declarations: vec![
            Some(variable("a", Some(TypeName::ElementaryTypeName(elementary("uint8"))), None)),
            None,
        ],
        initial_value: Some(name("source")),
    };
    let mut recorder = Recorder::new();
    assert_eq!(node.visit(&mut recorder), Ok(()));
    assert_eq!(labels(&recorder.seen), vec!["elementary_type_name", "identifier(source)"]);
}

#[test]
fn a_using_directive_is_walked_through_library_and_type() {
    let mut node = UsingForDirective {
        id: 67,
        src: at(),
        function_list: vec![FunctionIdentifierPath { function: path("helper") }],
        is_global: false,
        library_name: Some(UserDefinedTypeNameOrIdentifierPath::IdentifierPath(path("Library"))),
        target_type: Some(TypeName::ElementaryTypeName(elementary("uint256"))),
    };
    let mut recorder = Recorder::new();
    assert_eq!(node.visit(&mut recorder), Ok(()));
    assert_eq!(labels(&recorder.seen), vec!["identifier_path(Library)", "elementary_type_name"]);
}

#[test]
fn an_import_hands_each_imported_name_to_the_identifier_callback() {
    let mut node = ImportDirective {
        id: 68,
        src: at(),
        absolute_path: "lib.sol".to_string(),
        file: "./lib.sol".to_string(),
        unit_alias: String::new(),
        symbol_aliases: vec![
            SymbolAlias { foreign: ident("First"), local: None },
            SymbolAlias { foreign: ident("Second"), local: Some("Other".to_string()) },
        ],
    };
    let mut recorder = Recorder::new();
    assert_eq!(node.visit(&mut recorder), Ok(()));
    assert_eq!(labels(&recorder.seen), vec!["identifier(First)", "identifier(Second)"]);

    let mut recorder = Recorder::failing_at("identifier(First)");
    assert!(node.visit(&mut recorder).is_err());
    assert_eq!(labels(&recorder.seen), vec!["identifier(First)"]);
}

#[test]
fn definitions_with_members_are_walked_through_them() {
    let mut record = StructDefinition {
        id: 69,
        src: at(),
        name: "S".to_string(),
        canonical_name: "S".to_string(),
        members: vec![
            variable("a", Some(TypeName::ElementaryTypeName(elementary("uint8"))), None),
            variable("b", Some(TypeName::UserDefinedTypeName(user_type("T"))), None),
        ],
        visibility: Visibility::Public,
    };
    let mut recorder = Recorder::new();
    assert_eq!(record.visit(&mut recorder), Ok(()));
    assert_eq!(labels(&recorder.seen), vec!["elementary_type_name", "user_defined_type_name"]);

    let mut failure = ErrorDefinition {
        id: 70,
        src: at(),
        name: "Failure".to_string(),
        parameters: parameters(vec![variable("code", None, Some(number("1")))]),
    };
    let mut recorder = Recorder::new();
    assert_eq!(failure.visit(&mut recorder), Ok(()));
    assert_eq!(labels(&recorder.seen), vec!["literal"]);

    let mut value_type = UserDefinedValueTypeDefinition {
        id: 71,
        src: at(),
        name: "Price".to_string(),
        underlying_type: TypeName::ElementaryTypeName(elementary("uint128")),
    };
    let mut recorder = Recorder::new();
    assert_eq!(value_type.visit(&mut recorder), Ok(()));
    assert_eq!(labels(&recorder.seen), vec!["elementary_type_name"]);
}

// ---- nodes that the walk does not enter ----------------------------------------

fn modifier_definition() -> ModifierDefinition {
    ModifierDefinition {
        id: 72,
        src: at(),
        name: "guarded".to_string(),
        body: block(vec![Statement::PlaceholderStatement(PlaceholderStatement { id: 73, src: at() })]),
        overrides: None,
        parameters: parameters(vec![variable("limit", None, Some(number("1")))]),
        is_virtual: false,
        visibility: Visibility::Internal,
    }
}

fn event_definition() -> EventDefinition {
    EventDefinition {
        id: 74,
        src: at(),
        name: "Moved".to_string(),
        anonymous: false,
        parameters: parameters(vec![variable("to", None, Some(name("nobody")))]),
    }
}

fn mapping() -> Mapping {
    Mapping {
        id: 75,
        src: at(),
        type_descriptions: described(),
        key_type: Box::new(TypeName::ElementaryTypeName(elementary("address"))),
        value_type: Box::new(TypeName::ElementaryTypeName(elementary("uint256"))),
    }
}

fn function_type() -> FunctionTypeName {
    FunctionTypeName {
        id: 76,
        src: at(),
        type_descriptions: described(),
        parameter_types: parameters(vec![variable("a", None, Some(number("1")))]),
        return_parameter_types: parameters(Vec::new()),
        state_mutability: StateMutability::View,
        visibility: Visibility::External,
    }
}

#[test]
fn the_walk_does_not_enter_modifiers_events_mappings_and_function_types() {
    let mut recorder = Recorder::new();
    assert_eq!(modifier_definition().visit(&mut recorder), Ok(()));
    assert_eq!(event_definition().visit(&mut recorder), Ok(()));
    assert_eq!(mapping().visit(&mut recorder), Ok(()));
    assert_eq!(function_type().visit(&mut recorder), Ok(()));
    assert_eq!(recorder.seen.len(), 0);

    let mut tree = contract(
        "C",
        vec![
            ContractDefinitionPart::ModifierDefinition(modifier_definition()),
            ContractDefinitionPart::EventDefinition(event_definition()),
        ],
    );
    let mut recorder = Recorder::new();
    assert_eq!(tree.visit(&mut recorder), Ok(()));
    assert_eq!(labels(&recorder.seen), vec!["modifier_definition", "event_definition"]);
}

#[test]
fn visiting_a_node_without_children_calls_nothing() {
    let mut recorder = Recorder::new();
    assert_eq!(ident("x").visit(&mut recorder), Ok(()));
    assert_eq!(path("x").visit(&mut recorder), Ok(()));
    assert_eq!(elementary("uint8").visit(&mut recorder), Ok(()));
    assert_eq!(user_type("T").visit(&mut recorder), Ok(()));
    assert_eq!(Break { id: 1, src: at() }.visit(&mut recorder), Ok(()));
    assert_eq!(Continue { id: 1, src: at() }.visit(&mut recorder), Ok(()));
    assert_eq!(PlaceholderStatement { id: 1, src: at() }.visit(&mut recorder), Ok(()));
    assert_eq!(described().visit(&mut recorder), Ok(()));
    assert_eq!(AssignmentOperator::AddAssign.visit(&mut recorder), Ok(()));
    assert_eq!(BinaryOperator::Shl.visit(&mut recorder), Ok(()));
    assert_eq!(EnumValue { id: 1, src: at(), name: "One".to_string() }.visit(&mut recorder), Ok(()));
    assert_eq!(yul_name("x").visit(&mut recorder), Ok(()));
    assert_eq!(yul_number("1").visit(&mut recorder), Ok(()));
    assert_eq!(recorder.seen.len(), 0);
}

#[test]
fn the_operators_of_a_node_are_not_handed_to_their_callbacks() {
    let mut tree = Expression::Assignment(assignment(
        name("x"),
        Expression::BinaryOperation(binary(name("a"), name("b"))),
    ));
    let mut recorder = Recorder::new();
    assert_eq!(tree.visit(&mut recorder), Ok(()));
    assert_eq!(recorder.count("assignment_operator"), 0);
    assert_eq!(recorder.count("binary_operator"), 0);
    assert_eq!(recorder.count("type_descriptions"), 0);
    assert_eq!(recorder.count("expression"), 0);
}

// ---- accept --------------------------------------------------------------------

#[test]
fn accept_calls_the_callback_and_then_walks_the_children() {
    let mut node = binary(name("l"), name("r"));
    let mut recorder = Recorder::new();
    assert_eq!(node.accept(&mut recorder), Ok(()));
    assert_eq!(labels(&recorder.seen), vec!["binary_operation", "identifier(l)", "identifier(r)"]);
}

#[test]
fn accept_stops_after_a_pruning_answer() {
    let mut node = binary(name("l"), name("r"));
    let mut recorder = Recorder::pruning_at(&["binary_operation"]);
    assert_eq!(node.accept(&mut recorder), Ok(()));
    assert_eq!(labels(&recorder.seen), vec!["binary_operation"]);
}

#[test]
fn accept_hands_the_error_of_the_callback_on() {
    let mut node = binary(name("l"), name("r"));
    let mut recorder = Recorder::failing_at("binary_operation");
    assert_eq!(
        node.accept(&mut recorder),
        Err(VisitError::MsgError("stopped at binary_operation".to_string()))
    );
    assert_eq!(labels(&recorder.seen), vec!["binary_operation"]);
}

#[test]
fn accept_on_a_node_without_children_calls_its_callback_only() {
    let mut node = ident("x");
    let mut recorder = Recorder::new();
    assert_eq!(node.accept(&mut recorder), Ok(()));
    assert_eq!(labels(&recorder.seen), vec!["identifier(x)"]);
}

// ---- changing the tree ---------------------------------------------------------

#[test]
fn callbacks_change_the_nodes_in_place() {
    let mut tree = sum_unit();
    let mut renamer = Renamer { suffix: "_1".to_string(), stop_after: None, renamed: 0 };
    assert_eq!(walk(&mut tree, &mut renamer), Ok(()));
    assert_eq!(renamer.renamed, 4);
    let expected = unit(vec![SourceUnitPart::FunctionDefinition(function(
        "f",
        Some(block(vec![
            Statement::ExpressionStatement(statement(Expression::Assignment(assignment(
                name("x_1"),
                Expression::BinaryOperation(binary(name("a_1"), name("b_1"))),
            )))),
            Statement::Return(returning(Some(name("x_1")))),
        ])),
    ))]);
    assert_eq!(tree, expected);
}

#[test]
fn what_was_changed_before_a_failure_stays_changed() {
    let mut tree = sum_unit();
    let mut renamer = Renamer { suffix: "_1".to_string(), stop_after: Some(2), renamed: 0 };
    assert_eq!(walk(&mut tree, &mut renamer), Err(VisitError::MsgError("enough".to_string())));
    let expected = unit(vec![SourceUnitPart::FunctionDefinition(function(
        "f",
        Some(block(vec![
            Statement::ExpressionStatement(statement(Expression::Assignment(assignment(
                name("x_1"),
                Expression::BinaryOperation(binary(name("a_1"), name("b"))),
            )))),
            Statement::Return(returning(Some(name("x")))),
        ])),
    ))]);
    assert_eq!(tree, expected);
}

#[test]
fn a_visitor_that_overrides_some_callbacks_still_reaches_every_node() {
    let mut tree = Expression::FunctionCall(call(name("f"), vec![number("41"), number("42")]));
    let mut renamer = Renamer { suffix: String::new(), stop_after: None, renamed: 0 };
    assert_eq!(tree.visit(&mut renamer), Ok(()));
    assert_eq!(tree, Expression::FunctionCall(call(name("f"), vec![number("0"), number("0")])));
}

#[test]
fn a_callback_can_walk_the_children_itself_and_then_prune() {
    let mut tree = Expression::BinaryOperation(binary(
        Expression::BinaryOperation(binary(name("a"), name("b"))),
        name("c"),
    ));
    let mut visitor = AfterChildren::default();
    assert_eq!(tree.visit(&mut visitor), Ok(()));
    assert_eq!(labels(&visitor.seen), vec!["a", "b", "+", "c", "+"]);
}

#[test]
fn the_shared_data_can_be_read_from_a_callback() {
    let mut node = ident("x");
    let mut renamer = Renamer { suffix: "_shared".to_string(), stop_after: None, renamed: 0 };
    assert_eq!(node.accept(&mut renamer), Ok(()));
    assert_eq!(node.name, "x_shared");
}

// ---- vectors and optional slots ------------------------------------------------

#[test]
fn a_vector_is_walked_item_by_item() {
    let mut items = vec![name("a"), name("b"), name("c")];
    let mut recorder = Recorder::new();
    assert_eq!(items.visit(&mut recorder), Ok(()));
    assert_eq!(labels(&recorder.seen), vec!["identifier(a)", "identifier(b)", "identifier(c)"]);

    let mut recorder = Recorder::failing_at("identifier(b)");
    assert!(items.visit(&mut recorder).is_err());
    assert_eq!(labels(&recorder.seen), vec!["identifier(a)", "identifier(b)"]);

    let mut empty: Vec<Expression> = Vec::new();
    let mut recorder = Recorder::new();
    assert_eq!(empty.visit(&mut recorder), Ok(()));
    assert_eq!(recorder.seen.len(), 0);
}

#[test]
fn an_optional_slot_is_walked_if_it_is_filled() {
    let mut filled = Some(name("a"));
    let mut recorder = Recorder::new();
    assert_eq!(filled.visit(&mut recorder), Ok(()));
    assert_eq!(labels(&recorder.seen), vec!["identifier(a)"]);

    let mut empty: Option<Expression> = None;
    let mut recorder = Recorder::new();
    assert_eq!(empty.visit(&mut recorder), Ok(()));
    assert_eq!(recorder.seen.len(), 0);
    assert_eq!(empty, None);
}

#[test]
fn the_walks_of_sequences_can_be_called_on_their_own() {
    let mut expressions = vec![name("a"), Expression::BinaryOperation(binary(name("b"), name("c")))];
    let mut recorder = Recorder::new();
    assert_eq!(visit_expressions(&mut expressions, &mut recorder), Ok(()));
    assert_eq!(
        labels(&recorder.seen),
        vec!["identifier(a)", "binary_operation", "identifier(b)", "identifier(c)"]
    );

    let mut slots = vec![None, Some(name("x")), None];
    let mut recorder = Recorder::new();
    assert_eq!(visit_optional_expressions(&mut slots, &mut recorder), Ok(()));
    assert_eq!(labels(&recorder.seen), vec!["identifier(x)"]);

    let mut statements = vec![
        Statement::Return(returning(Some(name("r")))),
        Statement::Break(Break { id: 1, src: at() }),
        Statement::Continue(Continue { id: 1, src: at() }),
    ];
    let mut recorder = Recorder::failing_at("break");
    assert_eq!(
        visit_statements(&mut statements, &mut recorder),
        Err(VisitError::MsgError("stopped at break".to_string()))
    );
    assert_eq!(labels(&recorder.seen), vec!["return", "identifier(r)", "break"]);

    let mut declarations = vec![variable("a", None, Some(name("x"))), variable("b", None, Some(name("y")))];
    let mut recorder = Recorder::new();
    assert_eq!(visit_variable_declarations(&mut declarations, &mut recorder), Ok(()));
    assert_eq!(labels(&recorder.seen), vec!["identifier(x)", "identifier(y)"]);

    let mut aliases = vec![SymbolAlias { foreign: ident("A"), local: None }];
    let mut recorder = Recorder::new();
    assert_eq!(visit_symbol_aliases(&mut aliases, &mut recorder), Ok(()));
    assert_eq!(labels(&recorder.seen), vec!["identifier(A)"]);

    let mut nothing: Vec<Statement> = Vec::new();
    let mut recorder = Recorder::failing_at("break");
    assert_eq!(visit_statements(&mut nothing, &mut recorder), Ok(()));
    assert_eq!(recorder.seen.len(), 0);
}

#[test]
fn the_walks_of_optional_slots_can_be_called_on_their_own() {
    let mut filled = Some(name("a"));
    let mut recorder = Recorder::new();
    assert_eq!(visit_maybe_expression(&mut filled, &mut recorder), Ok(()));
    assert_eq!(labels(&recorder.seen), vec!["identifier(a)"]);

    let mut empty: Option<Expression> = None;
    let mut recorder = Recorder::failing_at("identifier(a)");
    assert_eq!(visit_maybe_expression(&mut empty, &mut recorder), Ok(()));
    assert_eq!(recorder.seen.len(), 0);

    let mut boxed = Some(Box::new(name("b")));
    let mut recorder = Recorder::failing_at("identifier(b)");
    assert_eq!(
        visit_maybe_boxed_expression(&mut boxed, &mut recorder),
        Err(VisitError::MsgError("stopped at identifier(b)".to_string()))
    );

    let mut body = Some(sum_body());
    let mut recorder = Recorder::pruning_at(&["block"]);
    assert_eq!(accept_maybe_block(&mut body, &mut recorder), Ok(()));
    assert_eq!(labels(&recorder.seen), vec!["block"]);

    let mut arguments = Some(vec![name("x"), name("y")]);
    let mut recorder = Recorder::new();
    assert_eq!(visit_maybe_expressions(&mut arguments, &mut recorder), Ok(()));
    assert_eq!(labels(&recorder.seen), vec!["identifier(x)", "identifier(y)"]);

    let mut no_arguments: Option<Vec<Expression>> = None;
    let mut recorder = Recorder::new();
    assert_eq!(visit_maybe_expressions(&mut no_arguments, &mut recorder), Ok(()));
    assert_eq!(recorder.seen.len(), 0);
}

#[test]
fn a_later_failure_in_a_node_is_handed_on_as_it_is() {
    let mut node = assignment(name("l"), name("r"));
    let mut recorder = Recorder::failing_at("identifier(r)");
    assert_eq!(
        node.visit(&mut recorder),
        Err(VisitError::MsgError("stopped at identifier(r)".to_string()))
    );
    assert_eq!(labels(&recorder.seen), vec!["identifier(l)", "identifier(r)"]);

    let mut node = binary(name("l"), name("r"));
    let mut recorder = Recorder::failing_at("identifier(r)");
    recorder.settings.fail_silently = true;
    assert_eq!(node.accept(&mut recorder), Err(VisitError::Unknown));
    assert_eq!(labels(&recorder.seen), vec!["binary_operation", "identifier(l)", "identifier(r)"]);
}

#[test]
fn a_single_child_is_walked_once() {
    let mut node = UnaryOperation {
        id: 1,
        src: at(),
        type_descriptions: described(),
        operator: UnaryOperator::Not,
        prefix: true,
        sub_expression: Box::new(name("flag")),
    };
    let mut renamer = Renamer { suffix: "!".to_string(), stop_after: None, renamed: 0 };
    assert_eq!(node.visit(&mut renamer), Ok(()));
    assert_eq!(renamer.renamed, 1);
    assert_eq!(*node.sub_expression, name("flag!"));
}

#[test]
fn a_failure_in_a_sequence_leaves_the_items_behind_it_alone() {
    let mut items = vec![name("a"), name("b"), name("c")];
    let mut renamer = Renamer { suffix: "!".to_string(), stop_after: Some(1), renamed: 0 };
    assert_eq!(
        visit_expressions(&mut items, &mut renamer),
        Err(VisitError::MsgError("enough".to_string()))
    );
    assert_eq!(items, vec![name("a!"), name("b"), name("c")]);
}

// ---- inline assembly -----------------------------------------------------------

fn assembly() -> InlineAssembly {
    let assign = YulStatement::YulAssignment(YulAssignment {
        src: at(),
        value: YulExpression::YulFunctionCall(yul_call(
            "add",
            vec![YulExpression::YulIdentifier(yul_name("a")), YulExpression::YulLiteral(yul_number("1"))],
        )),
        variable_names: vec![yul_name("x")],
    });
    let looping = YulStatement::YulForLoop(YulForLoop {
        src: at(),
        body: yul_block(vec![YulStatement::YulBreak(YulBreak { src: at() })]),
        condition: YulExpression::YulIdentifier(yul_name("c")),
        post: yul_block(vec![YulStatement::YulContinue(YulContinue { src: at() })]),
        pre: yul_block(vec![YulStatement::YulLeave(YulLeave { src: at() })]),
    });
    InlineAssembly { id: 80, src: at(), ast: yul_block(vec![assign, looping]), documentation: None }
}

#[test]
fn an_assembly_block_is_walked_in_order() {
    let mut tree = Statement::InlineAssembly(assembly());
    let mut recorder = Recorder::new();
    assert_eq!(tree.visit(&mut recorder), Ok(()));
    assert_eq!(
        labels(&recorder.seen),
        vec![
            "inline_assembly",
            "yul_assignment",
            "yul_function_call",
            "yul_identifier(a)",
            "yul_literal",
            "yul_for_loop",
            "yul_break",
            "yul_identifier(c)",
            "yul_continue",
            "yul_leave",
        ]
    );
    assert_eq!(tree, Statement::InlineAssembly(assembly()));
}

#[test]
fn the_walk_does_not_enter_the_assembly_statements_that_have_no_rule() {
    let inner = || yul_block(vec![YulStatement::YulBreak(YulBreak { src: at() })]);
    let mut tree = yul_block(vec![
        YulStatement::YulIf(YulIf { src: at(), condition: YulExpression::YulIdentifier(yul_name("c")), body: inner() }),
        YulStatement::YulSwitch(YulSwitch {
            src: at(),
            expression: YulExpression::YulIdentifier(yul_name("s")),
            cases: vec![YulCase { src: at(), value: None, body: inner() }],
        }),
        YulStatement::YulFunctionDefinition(YulFunctionDefinition {
            src: at(),
            name: "f".to_string(),
            parameters: vec![YulTypedName { src: at(), name: "p".to_string(), type_label: String::new() }],
            return_variables: Vec::new(),
            body: inner(),
        }),
        YulStatement::YulVariableDeclaration(YulVariableDeclaration {
            src: at(),
            variables: Vec::new(),
            value: Some(YulExpression::YulIdentifier(yul_name("v"))),
        }),
        YulStatement::YulExpressionStatement(YulExpressionStatement {
            src: at(),
            expression: YulExpression::YulIdentifier(yul_name("e")),
        }),
        YulStatement::YulBlock(inner()),
    ]);
    let mut recorder = Recorder::new();
    assert_eq!(tree.visit(&mut recorder), Ok(()));
    assert_eq!(
        labels(&recorder.seen),
        vec![
            "yul_if",
            "yul_switch",
            "yul_function_definition",
            "yul_variable_declaration",
            "yul_expression_statement",
            "yul_block",
            "yul_break",
        ]
    );
}

// ---- every variant of every sum type -------------------------------------------

fn seen_for<T: Visitable>(mut node: T) -> Vec<String> {
    let mut recorder = Recorder::pruning_at(&[
        "import_directive",
        "using_for_directive",
        "variable_declaration",
        "error_definition",
        "function_definition",
        "struct_definition",
        "user_defined_value_type_definition",
        "contract_definition",
        "assignment",
        "binary_operation",
        "conditional",
        "function_call",
        "function_call_options",
        "index_access",
        "index_range_access",
        "member_access",
        "new_expression",
        "tuple_expression",
        "unary_operation",
        "block",
        "do_while_statement",
        "emit_statement",
        "expression_statement",
        "for_statement",
        "if_statement",
        "inline_assembly",
        "return",
        "revert_statement",
        "try_statement",
        "unchecked_block",
        "variable_declaration_statement",
        "while_statement",
        "array_type_name",
        "yul_assignment",
        "yul_block",
        "yul_for_loop",
        "yul_function_call",
    ]);
    assert_eq!(node.visit(&mut recorder), Ok(()));
    recorder.seen
}

#[test]
fn every_top_level_part_is_handed_to_the_callback_of_its_kind() {
    let parts = vec![
        (
            SourceUnitPart::PragmaDirective(PragmaDirective { id: 1, src: at(), literals: Vec::new() }),
            "pragma_directive",
        ),
        (
            SourceUnitPart::ImportDirective(ImportDirective {
                id: 1,
                src: at(),
                absolute_path: String::new(),
                file: String::new(),
                unit_alias: String::new(),
                symbol_aliases: vec![SymbolAlias { foreign: ident("x"), local: None }],
            }),
            "import_directive",
        ),
        (
            SourceUnitPart::UsingForDirective(UsingForDirective {
                id: 1,
                src: at(),
                function_list: Vec::new(),
                is_global: true,
                library_name: None,
                target_type: Some(TypeName::ElementaryTypeName(elementary("uint8"))),
            }),
            "using_for_directive",
        ),
        (SourceUnitPart::VariableDeclaration(variable("v", None, Some(name("x")))), "variable_declaration"),
        (
            SourceUnitPart::EnumDefinition(EnumDefinition {
                id: 1,
                src: at(),
                name: "E".to_string(),
                canonical_name: "E".to_string(),
                members: Vec::new(),
            }),
            "enum_definition",
        ),
        (
            SourceUnitPart::ErrorDefinition(ErrorDefinition {
                id: 1,
                src: at(),
                name: "F".to_string(),
                parameters: parameters(vec![variable("v", None, Some(name("x")))]),
            }),
            "error_definition",
        ),
        (SourceUnitPart::FunctionDefinition(function("f", Some(sum_body()))), "function_definition"),
        (
            SourceUnitPart::StructDefinition(StructDefinition {
                id: 1,
                src: at(),
                name: "S".to_string(),
                canonical_name: "S".to_string(),
                members: vec![variable("v", None, Some(name("x")))],
                visibility: Visibility::Public,
            }),
            "struct_definition",
        ),
        (
            SourceUnitPart::UserDefinedValueTypeDefinition(UserDefinedValueTypeDefinition {
                id: 1,
                src: at(),
                name: "T".to_string(),
                underlying_type: TypeName::ElementaryTypeName(elementary("uint8")),
            }),
            "user_defined_value_type_definition",
        ),
        (
            SourceUnitPart::ContractDefinition(contract(
                "C",
                vec![ContractDefinitionPart::FunctionDefinition(function("f", Some(sum_body())))],
            )),
            "contract_definition",
        ),
    ];
    assert_eq!(parts.len(), 10);
    for (part, label) in parts {
        assert_eq!(seen_for(part), vec![label.to_string()]);
    }
}

#[test]
fn every_contract_member_is_handed_to_the_callback_of_its_kind() {
    let parts = vec![
        (
            ContractDefinitionPart::EnumDefinition(EnumDefinition {
                id: 1,
                src: at(),
                name: "E".to_string(),
                canonical_name: "E".to_string(),
                members: Vec::new(),
            }),
            "enum_definition",
        ),
        (
            ContractDefinitionPart::ErrorDefinition(ErrorDefinition {
                id: 1,
                src: at(),
                name: "F".to_string(),
                parameters: parameters(Vec::new()),
            }),
            "error_definition",
        ),
        (ContractDefinitionPart::EventDefinition(event_definition()), "event_definition"),
        (ContractDefinitionPart::FunctionDefinition(function("f", None)), "function_definition"),
        (ContractDefinitionPart::ModifierDefinition(modifier_definition()), "modifier_definition"),
        (
            ContractDefinitionPart::StructDefinition(StructDefinition {
                id: 1,
                src: at(),
                name: "S".to_string(),
                canonical_name: "S".to_string(),
                members: Vec::new(),
                visibility: Visibility::Public,
            }),
            "struct_definition",
        ),
        (
            ContractDefinitionPart::UserDefinedValueTypeDefinition(UserDefinedValueTypeDefinition {
                id: 1,
                src: at(),
                name: "T".to_string(),
                underlying_type: TypeName::ElementaryTypeName(elementary("uint8")),
            }),
            "user_defined_value_type_definition",
        ),
        (
            ContractDefinitionPart::UsingForDirective(UsingForDirective {
                id: 1,
                src: at(),
                function_list: Vec::new(),
                is_global: false,
                library_name: None,
                target_type: None,
            }),
            "using_for_directive",
        ),
        (ContractDefinitionPart::VariableDeclaration(variable("v", None, None)), "variable_declaration"),
    ];
    assert_eq!(parts.len(), 9);
    for (part, label) in parts {
        assert_eq!(seen_for(part), vec![label.to_string()]);
    }
}

#[test]
fn every_expression_is_handed_to_the_callback_of_its_kind() {
    let expressions = vec![
        (Expression::Assignment(assignment(name("a"), name("b"))), "assignment"),
        (Expression::BinaryOperation(binary(name("a"), name("b"))), "binary_operation"),
        (Expression::Conditional(conditional(name("c"), name("a"), name("b"))), "conditional"),
        (
            Expression::ElementaryTypeNameExpression(ElementaryTypeNameExpression {
                id: 1,
                src: at(),
                type_descriptions: described(),
                elementary_type: elementary("uint8"),
            }),
            "elementary_type_name_expression",
        ),
        (Expression::FunctionCall(call(name("f"), vec![name("a")])), "function_call"),
        (
            Expression::FunctionCallOptions(FunctionCallOptions {
                id: 1,
                src: at(),
                type_descriptions: described(),
                expression: Box::new(name("f")),
                names: Vec::new(),
                options: vec![name("a")],
            }),
            "function_call_options",
        ),
        (name("x"), "identifier(x)"),
        (
            Expression::IndexAccess(IndexAccess {
                id: 1,
                src: at(),
                type_descriptions: described(),
                base_expression: Box::new(name("a")),
                index_expression: None,
            }),
            "index_access",
        ),
        (
            Expression::IndexRangeAccess(IndexRangeAccess {
                id: 1,
                src: at(),
                type_descriptions: described(),
                base_expression: Box::new(name("a")),
                start_expression: None,
                end_expression: None,
            }),
            "index_range_access",
        ),
        (number("1"), "literal"),
        (
            Expression::MemberAccess(MemberAccess {
                id: 1,
                src: at(),
                type_descriptions: described(),
                expression: Box::new(name("a")),
                member_name: "m".to_string(),
                referenced_declaration: None,
            }),
            "member_access",
        ),
        (
            Expression::NewExpression(NewExpression {
                id: 1,
                src: at(),
                type_descriptions: described(),
                created_type: TypeName::UserDefinedTypeName(user_type("T")),
            }),
            "new_expression",
        ),
        (
            Expression::TupleExpression(TupleExpression {
                id: 1,
                src: at(),
                type_descriptions: described(),
                components: vec![Some(name("a"))],
                is_inline_array: true,
            }),
            "tuple_expression",
        ),
        (
            Expression::UnaryOperation(UnaryOperation {
                id: 1,
                src: at(),
                type_descriptions: described(),
                operator: UnaryOperator::Negate,
                prefix: true,
                sub_expression: Box::new(name("a")),
            }),
            "unary_operation",
        ),
    ];
    assert_eq!(expressions.len(), 14);
    for (expression, label) in expressions {
        assert_eq!(seen_for(expression), vec![label.to_string()]);
    }
}

#[test]
fn every_statement_is_handed_to_the_callback_of_its_kind() {
    let body = || BlockOrStatement::Block(block(vec![Statement::Break(Break { id: 1, src: at() })]));
    let statements = vec![
        (Statement::Block(sum_body()), "block"),
        (Statement::Break(Break { id: 1, src: at() }), "break"),
        (Statement::Continue(Continue { id: 1, src: at() }), "continue"),
        (
            Statement::DoWhileStatement(DoWhileStatement {
                id: 1,
                src: at(),
                block: sum_body(),
                condition: name("c"),
            }),
            "do_while_statement",
        ),
        (
            Statement::EmitStatement(EmitStatement { id: 1, src: at(), event_call: call(name("E"), Vec::new()) }),
            "emit_statement",
        ),
        (Statement::ExpressionStatement(statement(name("x"))), "expression_statement"),
        (
            Statement::ForStatement(ForStatement {
                id: 1,
                src: at(),
                body: body(),
                condition: None,
                initialization_expression: None,
                loop_expression: None,
            }),
            "for_statement",
        ),
        (
            Statement::IfStatement(IfStatement {
                id: 1,
                src: at(),
                condition: name("c"),
                false_body: None,
                true_body: body(),
            }),
            "if_statement",
        ),
        (Statement::InlineAssembly(assembly()), "inline_assembly"),
        (Statement::PlaceholderStatement(PlaceholderStatement { id: 1, src: at() }), "placeholder_statement"),
        (Statement::Return(returning(Some(name("x")))), "return"),
        (
            Statement::RevertStatement(RevertStatement {
                id: 1,
                src: at(),
                error_call: call(name("F"), Vec::new()),
            }),
            "revert_statement",
        ),
        (
            Statement::TryStatement(TryStatement {
                id: 1,
                src: at(),
                clauses: Vec::new(),
                external_call: call(name("f"), Vec::new()),
            }),
            "try_statement",
        ),
        (
            Statement::UncheckedBlock(UncheckedBlock {
                id: 1,
                src: at(),
                statements: vec![Statement::Break(Break { id: 1, src: at() })],
            }),
            "unchecked_block",
        ),
        (
            Statement::VariableDeclarationStatement(VariableDeclarationStatement {
                id: 1,
                src: at(),
                assignments: Vec::new(),
                declarations: vec![Some(variable("v", None, Some(name("x"))))],
                initial_value: Some(name("x")),
            }),
            "variable_declaration_statement",
        ),
        (
            Statement::WhileStatement(WhileStatement { id: 1, src: at(), body: body(), condition: name("c") }),
            "while_statement",
        ),
    ];
    assert_eq!(statements.len(), 16);
    for (statement, label) in statements {
        assert_eq!(seen_for(statement), vec![label.to_string()]);
    }
}

#[test]
fn every_type_name_is_handed_to_the_callback_of_its_kind() {
    let names = vec![
        (
            TypeName::ArrayTypeName(array_of(TypeName::ElementaryTypeName(elementary("uint8")), Some(name("n")))),
            "array_type_name",
        ),
        (TypeName::ElementaryTypeName(elementary("uint8")), "elementary_type_name"),
        (TypeName::FunctionTypeName(function_type()), "function_type_name"),
        (TypeName::Mapping(mapping()), "mapping"),
        (TypeName::UserDefinedTypeName(user_type("T")), "user_defined_type_name"),
    ];
    assert_eq!(names.len(), 5);
    for (name, label) in names {
        assert_eq!(seen_for(name), vec![label.to_string()]);
    }
}

#[test]
fn every_small_sum_type_is_routed_by_its_variant() {
    assert_eq!(
        seen_for(UserDefinedTypeNameOrIdentifierPath::UserDefinedTypeName(user_type("T"))),
        vec!["user_defined_type_name".to_string()]
    );
    assert_eq!(
        seen_for(UserDefinedTypeNameOrIdentifierPath::IdentifierPath(path("p"))),
        vec!["identifier_path(p)".to_string()]
    );
    assert_eq!(
        seen_for(IdentifierOrIdentifierPath::Identifier(ident("i"))),
        vec!["identifier(i)".to_string()]
    );
    assert_eq!(
        seen_for(IdentifierOrIdentifierPath::IdentifierPath(path("p"))),
        vec!["identifier_path(p)".to_string()]
    );
    assert_eq!(
        seen_for(ExpressionOrVariableDeclarationStatement::ExpressionStatement(statement(name("x")))),
        vec!["expression_statement".to_string()]
    );
    assert_eq!(
        seen_for(ExpressionOrVariableDeclarationStatement::VariableDeclarationStatement(
            VariableDeclarationStatement {
                id: 1,
                src: at(),
                assignments: Vec::new(),
                declarations: Vec::new(),
                initial_value: Some(name("x")),
            }
        )),
        vec!["variable_declaration_statement".to_string()]
    );
    assert_eq!(
        seen_for(BlockOrStatement::Block(block(vec![Statement::Break(Break { id: 1, src: at() })]))),
        vec!["break".to_string()]
    );
    assert_eq!(
        seen_for(BlockOrStatement::Statement(Box::new(Statement::Continue(Continue { id: 1, src: at() })))),
        vec!["continue".to_string()]
    );
}

#[test]
fn every_assembly_node_is_handed_to_the_callback_of_its_kind() {
    let inner = || yul_block(vec![YulStatement::YulBreak(YulBreak { src: at() })]);
    let statements = vec![
        (
            YulStatement::YulAssignment(YulAssignment {
                src: at(),
                value: YulExpression::YulIdentifier(yul_name("a")),
                variable_names: Vec::new(),
            }),
            "yul_assignment",
        ),
        (YulStatement::YulBlock(inner()), "yul_block"),
        (YulStatement::YulBreak(YulBreak { src: at() }), "yul_break"),
        (YulStatement::YulContinue(YulContinue { src: at() }), "yul_continue"),
        (
            YulStatement::YulExpressionStatement(YulExpressionStatement {
                src: at(),
                expression: YulExpression::YulIdentifier(yul_name("a")),
            }),
            "yul_expression_statement",
        ),
        (YulStatement::YulLeave(YulLeave { src: at() }), "yul_leave"),
        (
            YulStatement::YulForLoop(YulForLoop {
                src: at(),
                body: inner(),
                condition: YulExpression::YulIdentifier(yul_name("c")),
                post: inner(),
                pre: inner(),
            }),
            "yul_for_loop",
        ),
        (
            YulStatement::YulFunctionDefinition(YulFunctionDefinition {
                src: at(),
                name: "f".to_string(),
                parameters: Vec::new(),
                return_variables: Vec::new(),
                body: inner(),
            }),
            "yul_function_definition",
        ),
        (
            YulStatement::YulIf(YulIf {
                src: at(),
                condition: YulExpression::YulIdentifier(yul_name("c")),
                body: inner(),
            }),
            "yul_if",
        ),
        (
            YulStatement::YulSwitch(YulSwitch {
                src: at(),
                expression: YulExpression::YulIdentifier(yul_name("c")),
                cases: Vec::new(),
            }),
            "yul_switch",
        ),
        (
            YulStatement::YulVariableDeclaration(YulVariableDeclaration {
                src: at(),
                variables: Vec::new(),
                value: None,
            }),
            "yul_variable_declaration",
        ),
    ];
    assert_eq!(statements.len(), 11);
    for (statement, label) in statements {
        assert_eq!(seen_for(statement), vec![label.to_string()]);
    }
    assert_eq!(
        seen_for(YulExpression::YulFunctionCall(yul_call("f", vec![YulExpression::YulIdentifier(yul_name("a"))]))),
        vec!["yul_function_call".to_string()]
    );
    assert_eq!(seen_for(YulExpression::YulIdentifier(yul_name("a"))), vec!["yul_identifier(a)".to_string()]);
    assert_eq!(seen_for(YulExpression::YulLiteral(yul_number("1"))), vec!["yul_literal".to_string()]);
}

// ---- errors --------------------------------------------------------------------

#[test]
fn the_text_of_an_error_is_its_message_or_empty() {
    assert_eq!(VisitError::MsgError("no such name".to_string()).message(), "no such name");
    assert_eq!(VisitError::MsgError(String::new()).message(), "");
    assert_eq!(VisitError::Unknown.message(), "");
}
