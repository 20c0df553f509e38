//! The error taxonomy of the compiler: structural errors from the
//! instruction builder, grammar errors from the literal-expression compiler,
//! and semantic resolution errors enriched with the known names so that a
//! suggestion can be offered.

use vstd::prelude::*;

use crate::position::Position;
use vstd::string::{StrSliceExecFns, StringExecFns};

verus! {

/// Everything that can abort a compilation, each with the span of the
/// responsible construct.
#[derive(Debug, Clone)]
pub enum Errors {
    FunctionNotFound { function_name: String, function_names: Vec<String>, position: Position },
    VariableNotFound { variable_name: String, variable_names: Vec<String>, position: Position },
    LabelNotFound { label_name: String, label_names: Vec<String>, position: Position },
    EmptyVariable { varname: String, position: Position },
    UndefinedVariable { varname: String, position: Position },
    UnableToReadLitteral { litteral: String, position: Position },
    SelfExpressionMissingNumberBeforeQuestionMark { expression: String, position: Position },
    SelfExpressionMissingNumber { expression: String, position: Position },
    SelfExpressionYNotNumber { expression: String, position: Position },
    SelfExpressionXNotNumber { expression: String, position: Position },
    MalformedRange { position: Position },
    RecursionLimit { position: Position },
    EqualNotPrecededByLitteral { position: Position },
    LiteralAfterAssignement { literal: String, assignement: String, position: Position },
    BlockAfterAssignement { assignement: String, position: Position },
    BlockMustBePrecededByLiteral { position: Position },
    ParenthesisNotInAssignementOrFunctionCall { position: Position },
    AssignementFollowedByAnotherAssignement {
        assignement1: String,
        assignement2: String,
        position: Position,
    },
    ExpressionCompilingError { expression: String, position: Position },
}

/// The mathematical image of an error: strings as character sequences.
pub ghost enum ErrorView {
    FunctionNotFound {
        function_name: Seq<char>,
        function_names: Seq<Seq<char>>,
        position: Position,
    },
    VariableNotFound {
        variable_name: Seq<char>,
        variable_names: Seq<Seq<char>>,
        position: Position,
    },
    LabelNotFound { label_name: Seq<char>, label_names: Seq<Seq<char>>, position: Position },
    EmptyVariable { varname: Seq<char>, position: Position },
    UndefinedVariable { varname: Seq<char>, position: Position },
    UnableToReadLitteral { litteral: Seq<char>, position: Position },
    SelfExpressionMissingNumberBeforeQuestionMark { expression: Seq<char>, position: Position },
    SelfExpressionMissingNumber { expression: Seq<char>, position: Position },
    SelfExpressionYNotNumber { expression: Seq<char>, position: Position },
    SelfExpressionXNotNumber { expression: Seq<char>, position: Position },
    MalformedRange { position: Position },
    RecursionLimit { position: Position },
    EqualNotPrecededByLitteral { position: Position },
    LiteralAfterAssignement { literal: Seq<char>, assignement: Seq<char>, position: Position },
    BlockAfterAssignement { assignement: Seq<char>, position: Position },
    BlockMustBePrecededByLiteral { position: Position },
    ParenthesisNotInAssignementOrFunctionCall { position: Position },
    AssignementFollowedByAnotherAssignement {
        assignement1: Seq<char>,
        assignement2: Seq<char>,
        position: Position,
    },
    ExpressionCompilingError { expression: Seq<char>, position: Position },
}

impl View for Errors {
    type V = ErrorView;

    open spec fn view(&self) -> ErrorView {
        match self {
            Errors::FunctionNotFound { function_name, function_names, position } => {
                ErrorView::FunctionNotFound {
                    function_name: function_name@,
                    function_names: function_names.deep_view(),
                    position: *position,
                }
            },
            Errors::VariableNotFound { variable_name, variable_names, position } => {
                ErrorView::VariableNotFound {
                    variable_name: variable_name@,
                    variable_names: variable_names.deep_view(),
                    position: *position,
                }
            },
            Errors::LabelNotFound { label_name, label_names, position } => {
                ErrorView::LabelNotFound {
                    label_name: label_name@,
                    label_names: label_names.deep_view(),
                    position: *position,
                }
            },
            Errors::EmptyVariable { varname, position } => {
                ErrorView::EmptyVariable { varname: varname@, position: *position }
            },
            Errors::UndefinedVariable { varname, position } => {
                ErrorView::UndefinedVariable { varname: varname@, position: *position }
            },
            Errors::UnableToReadLitteral { litteral, position } => {
                ErrorView::UnableToReadLitteral { litteral: litteral@, position: *position }
            },
            Errors::SelfExpressionMissingNumberBeforeQuestionMark { expression, position } => {
                ErrorView::SelfExpressionMissingNumberBeforeQuestionMark {
                    expression: expression@,
                    position: *position,
                }
            },
            Errors::SelfExpressionMissingNumber { expression, position } => {
                ErrorView::SelfExpressionMissingNumber {
                    expression: expression@,
                    position: *position,
                }
            },
            Errors::SelfExpressionYNotNumber { expression, position } => {
                ErrorView::SelfExpressionYNotNumber {
                    expression: expression@,
                    position: *position,
                }
            },
            Errors::SelfExpressionXNotNumber { expression, position } => {
                ErrorView::SelfExpressionXNotNumber {
                    expression: expression@,
                    position: *position,
                }
            },
            Errors::MalformedRange { position } => {
                ErrorView::MalformedRange { position: *position }
            },
            Errors::RecursionLimit { position } => {
                ErrorView::RecursionLimit { position: *position }
            },
            Errors::EqualNotPrecededByLitteral { position } => {
                ErrorView::EqualNotPrecededByLitteral { position: *position }
            },
            Errors::LiteralAfterAssignement { literal, assignement, position } => {
                ErrorView::LiteralAfterAssignement {
                    literal: literal@,
                    assignement: assignement@,
                    position: *position,
                }
            },
            Errors::BlockAfterAssignement { assignement, position } => {
                ErrorView::BlockAfterAssignement {
                    assignement: assignement@,
                    position: *position,
                }
            },
            Errors::BlockMustBePrecededByLiteral { position } => {
                ErrorView::BlockMustBePrecededByLiteral { position: *position }
            },
            Errors::ParenthesisNotInAssignementOrFunctionCall { position } => {
                ErrorView::ParenthesisNotInAssignementOrFunctionCall { position: *position }
            },
            Errors::AssignementFollowedByAnotherAssignement {
                assignement1,
                assignement2,
                position,
            } => {
                ErrorView::AssignementFollowedByAnotherAssignement {
                    assignement1: assignement1@,
                    assignement2: assignement2@,
                    position: *position,
                }
            },
            Errors::ExpressionCompilingError { expression, position } => {
                ErrorView::ExpressionCompilingError {
                    expression: expression@,
                    position: *position,
                }
            },
        }
    }
}

impl DeepView for Errors {
    type V = ErrorView;

    open spec fn deep_view(&self) -> ErrorView {
        self.view()
    }
}


/// The reader-facing report for an error: its span and advice.
pub open spec fn spec_pretty_print(e: ErrorView) -> Seq<char> {
    match e {
        ErrorView::ExpressionCompilingError { expression, position, .. } => {
            crate::position::spec_position_text(position)
                + "\r\n"@
                + "Can't compile expression: `"@
                + expression
                + "`"@
        },
        ErrorView::FunctionNotFound { function_name, position, .. } => {
            crate::position::spec_position_text(position)
                + "\r\n"@
                + "Function `"@
                + function_name
                + "` was not found. \r\n"@
                + " - Verify that the function is created before used.\r\n"@
                + " - Check for similar names.\r\n"@
                + " - Create the function using:\r\n"@
                + " fn "@
                + function_name
                + " {\r\n"@
                + "    <code>\r\n"@
                + " }"@
        },
        ErrorView::VariableNotFound { variable_name, position, .. } => {
            crate::position::spec_position_text(position)
                + "\r\n"@
                + "Variable `"@
                + variable_name
                + "` was not found. \r\n"@
                + "Try to init your variable with a value:\r\n"@
                + " "@
                + variable_name
                + " = (<value>)\r\n"@
                + "Or check if:\r\n"@
                + " - The name is correct\r\n"@
                + " - This is not normally a label\r\n"@
                + "  Use: `'"@
                + variable_name
                + "` instead\r\n"@
                + " - This is not normally a function\r\n"@
                + "  Use: `"@
                + variable_name
                + "()` instead"@
        },
        ErrorView::LabelNotFound { label_name, position, .. } => {
            crate::position::spec_position_text(position)
                + "\r\n"@
                + "Label `'"@
                + label_name
                + "` was not found. \r\n"@
                + "Try to init your label at an index:\r\n"@
                + " '"@
                + label_name
                + ":<case value>\r\n"@
                + "Or check if:\r\n"@
                + " - The name is correct\r\n"@
                + " - The label is declared when this runs\r\n"@
                + " - The label is owned by a function\r\n"@
                + "  Use: `'#"@
                + label_name
                + "` instead\r\n"@
                + " - The label is not global\r\n"@
                + "  Use: `'#"@
                + label_name
                + "` instead"@
        },
        ErrorView::EmptyVariable { varname, position, .. } => {
            crate::position::spec_position_text(position)
                + "\r\n"@
                + "Variable `"@
                + varname
                + "` is empty \r\n"@
                + "Try to init your variable with a value:\r\n"@
                + " "@
                + varname
                + " = (<value>)"@
        },
        ErrorView::UndefinedVariable { varname, position, .. } => {
            crate::position::spec_position_text(position)
                + "\r\n"@
                + "Variable `"@
                + varname
                + "` is undefined \r\n"@
                + "Try to init your variable with a value:\r\n"@
                + " "@
                + varname
                + " = (<value>)"@
        },
        ErrorView::UnableToReadLitteral { litteral, position, .. } => {
            crate::position::spec_position_text(position)
                + "\r\n"@
                + "Can't compile litteral "@
                + litteral
                + " \r\n"@
                + "Is your synthax correct ?\r\n"@
                + "Examples of litterals:\r\n"@
                + " 0 \r\n"@
                + " ~-1 \r\n"@
                + " self.0..10?9 \r\n"@
                + " 'label:var1 \r\n"@
                + " 'label:'label2-1"@
        },
        ErrorView::SelfExpressionMissingNumberBeforeQuestionMark { expression, position, .. } => {
            crate::position::spec_position_text(position)
                + "\r\n"@
                + "Can't compute expression "@
                + expression
                + " \r\n"@
                + "You need to add a number before the `?`\r\n"@
                + "Examples:\r\n"@
                + " self.15?0\r\n"@
                + " self.15?\r\n"@
                + " self.15..32?1\r\n"@
                + " self...32?3\r\n"@
                + " self.15..?"@
        },
        ErrorView::SelfExpressionMissingNumber { expression, position, .. } => {
            crate::position::spec_position_text(position)
                + "\r\n"@
                + "Can't compute expression "@
                + expression
                + " \r\n"@
                + "You need to have a number after `self.`\r\n"@
                + "Examples:\r\n"@
                + " self.15\r\n"@
                + " self.15?0\r\n"@
                + " self.15?\r\n"@
                + " self.15..32?1\r\n"@
                + " self...32?3\r\n"@
                + " self.15..?"@
        },
        ErrorView::SelfExpressionYNotNumber { expression, position, .. } => {
            crate::position::spec_position_text(position)
                + "\r\n"@
                + "Can't compute expression "@
                + expression
                + " \r\n"@
                + "In a `self.x..y`, y must be a number\r\n"@
                + "Examples:\r\n"@
                + " self.15\r\n"@
                + " self.15?0\r\n"@
                + " self.15?\r\n"@
                + " self.15..32?1\r\n"@
                + " self...32?3\r\n"@
                + " self.15..?"@
        },
        ErrorView::SelfExpressionXNotNumber { expression, position, .. } => {
            crate::position::spec_position_text(position)
                + "\r\n"@
                + "Can't compute expression "@
                + expression
                + " \r\n"@
                + "In a `self.x..y`, x must be a number\r\n"@
                + "Examples:\r\n"@
                + " self.15\r\n"@
                + " self.15?0\r\n"@
                + " self.15?\r\n"@
                + " self.15..32?1\r\n"@
                + " self...32?3\r\n"@
                + " self.15..?"@
        },
        ErrorView::MalformedRange { position, .. } => {
            crate::position::spec_position_text(position)
                + "\r\n"@
                + "In a range x..y, x must be lower than y"@
        },
        ErrorView::RecursionLimit { position, .. } => {
            crate::position::spec_position_text(position)
                + "\r\n"@
                + "Too many nested function calls"@
        },
        ErrorView::EqualNotPrecededByLitteral { position, .. } => {
            crate::position::spec_position_text(position)
                + "\r\n"@
                + "a `=` must be followed by a litteral\r\n"@
                + "Example:\r\n"@
                + " var2 = (0 20 var1)\r\n"@
                + "Please add a name for the variable or remove the ="@
        },
        ErrorView::LiteralAfterAssignement { assignement, literal, position, .. } => {
            crate::position::spec_position_text(position)
                + "\r\n"@
                + "Can't place a literal after an assignement\r\n"@
                + "Have you forgotten parenthesis ?\r\n"@
                + "Try to replace this:\r\n"@
                + " "@
                + assignement
                + " = "@
                + literal
                + "\r\n"@
                + "By this:\r\n"@
                + " "@
                + assignement
                + " = ("@
                + literal
                + ")\r\n"@
                + "Or remove the `=`"@
        },
        ErrorView::BlockAfterAssignement { assignement, position, .. } => {
            crate::position::spec_position_text(position)
                + "\r\n"@
                + "Can't place a block after an assignement\r\n"@
                + " > "@
                + assignement
                + " = {\r\n"@
                + "Try removing the `=`:\r\n"@
                + " "@
                + assignement
                + " {\r\n"@
                + "Block example:\r\n"@
                + "test {\r\n"@
                + " 0 5 6 self\r\n}"@
        },
        ErrorView::BlockMustBePrecededByLiteral { position, .. } => {
            crate::position::spec_position_text(position)
                + "\r\n"@
                + "A block must have a name\r\n"@
                + "Please add a name to the block\r\n"@
                + "Block example:\r\n"@
                + "test {\r\n"@
                + " 0 5 6 self\r\n}"@
        },
        ErrorView::ParenthesisNotInAssignementOrFunctionCall { position, .. } => {
            crate::position::spec_position_text(position)
                + "\r\n"@
                + "A code function call must be preceded by a function name or add a = to make an assignement.\r\n"@
                + "Example:\r\n"@
                + " test(0 1 26 var1)\r\n"@
                + "Example:\r\n"@
                + " var1 = (0 1 26 var2)\r\n"@
                + "Please add a litteral to make a function call, add a litteral and a `=` to make a variable assignement or remove both parenthesis"@
        },
        ErrorView::AssignementFollowedByAnotherAssignement { assignement1, assignement2, position, .. } => {
            crate::position::spec_position_text(position)
                + "\r\n"@
                + "Can't place a assignement after an assignement\r\n"@
                + " HERE > "@
                + assignement1
                + " = "@
                + assignement2
                + " =\r\n"@
                + "Try to unwrap your statement\r\n"@
                + " "@
                + assignement1
                + " = ...\r\n"@
                + " "@
                + assignement2
                + " = ...\r\n"@
        },
    }
}

impl Errors {
    /// Renders this error for the user: the text promised by
    /// [`spec_pretty_print`].
    pub fn to_pretty_print(&self) -> (r: String)
        ensures
            r@ == spec_pretty_print(self@),
    {
        let mut out = String::new();
        match self {
            Errors::ExpressionCompilingError { expression, position, .. } => {
                let t = position.to_str();
                out.append(t.as_str());
                out.append("\r\n");
                out.append("Can't compile expression: `");
                out.append(expression.as_str());
                out.append("`");
            },
            Errors::FunctionNotFound { function_name, position, .. } => {
                let t = position.to_str();
                out.append(t.as_str());
                out.append("\r\n");
                out.append("Function `");
                out.append(function_name.as_str());
                out.append("` was not found. \r\n");
                out.append(" - Verify that the function is created before used.\r\n");
                out.append(" - Check for similar names.\r\n");
                out.append(" - Create the function using:\r\n");
                out.append(" fn ");
                out.append(function_name.as_str());
                out.append(" {\r\n");
                out.append("    <code>\r\n");
                out.append(" }");
            },
            Errors::VariableNotFound { variable_name, position, .. } => {
                let t = position.to_str();
                out.append(t.as_str());
                out.append("\r\n");
                out.append("Variable `");
                out.append(variable_name.as_str());
                out.append("` was not found. \r\n");
                out.append("Try to init your variable with a value:\r\n");
                out.append(" ");
                out.append(variable_name.as_str());
                out.append(" = (<value>)\r\n");
                out.append("Or check if:\r\n");
                out.append(" - The name is correct\r\n");
                out.append(" - This is not normally a label\r\n");
                out.append("  Use: `'");
                out.append(variable_name.as_str());
                out.append("` instead\r\n");
                out.append(" - This is not normally a function\r\n");
                out.append("  Use: `");
                out.append(variable_name.as_str());
                out.append("()` instead");
            },
            Errors::LabelNotFound { label_name, position, .. } => {
                let t = position.to_str();
                out.append(t.as_str());
                out.append("\r\n");
                out.append("Label `'");
                out.append(label_name.as_str());
                out.append("` was not found. \r\n");
                out.append("Try to init your label at an index:\r\n");
                out.append(" '");
                out.append(label_name.as_str());
                out.append(":<case value>\r\n");
                out.append("Or check if:\r\n");
                out.append(" - The name is correct\r\n");
                out.append(" - The label is declared when this runs\r\n");
                out.append(" - The label is owned by a function\r\n");
                out.append("  Use: `'#");
                out.append(label_name.as_str());
                out.append("` instead\r\n");
                out.append(" - The label is not global\r\n");
                out.append("  Use: `'#");
                out.append(label_name.as_str());
                out.append("` instead");
            },
            Errors::EmptyVariable { varname, position, .. } => {
                let t = position.to_str();
                out.append(t.as_str());
                out.append("\r\n");
                out.append("Variable `");
                out.append(varname.as_str());
                out.append("` is empty \r\n");
                out.append("Try to init your variable with a value:\r\n");
                out.append(" ");
                out.append(varname.as_str());
                out.append(" = (<value>)");
            },
            Errors::UndefinedVariable { varname, position, .. } => {
                let t = position.to_str();
                out.append(t.as_str());
                out.append("\r\n");
                out.append("Variable `");
                out.append(varname.as_str());
                out.append("` is undefined \r\n");
                out.append("Try to init your variable with a value:\r\n");
                out.append(" ");
                out.append(varname.as_str());
                out.append(" = (<value>)");
            },
            Errors::UnableToReadLitteral { litteral, position, .. } => {
                let t = position.to_str();
                out.append(t.as_str());
                out.append("\r\n");
                out.append("Can't compile litteral ");
                out.append(litteral.as_str());
                out.append(" \r\n");
                out.append("Is your synthax correct ?\r\n");
                out.append("Examples of litterals:\r\n");
                out.append(" 0 \r\n");
                out.append(" ~-1 \r\n");
                out.append(" self.0..10?9 \r\n");
                out.append(" 'label:var1 \r\n");
                out.append(" 'label:'label2-1");
            },
            Errors::SelfExpressionMissingNumberBeforeQuestionMark { expression, position, .. } => {
                let t = position.to_str();
                out.append(t.as_str());
                out.append("\r\n");
                out.append("Can't compute expression ");
                out.append(expression.as_str());
                out.append(" \r\n");
                out.append("You need to add a number before the `?`\r\n");
                out.append("Examples:\r\n");
                out.append(" self.15?0\r\n");
                out.append(" self.15?\r\n");
                out.append(" self.15..32?1\r\n");
                out.append(" self...32?3\r\n");
                out.append(" self.15..?");
            },
            Errors::SelfExpressionMissingNumber { expression, position, .. } => {
                let t = position.to_str();
                out.append(t.as_str());
                out.append("\r\n");
                out.append("Can't compute expression ");
                out.append(expression.as_str());
                out.append(" \r\n");
                out.append("You need to have a number after `self.`\r\n");
                out.append("Examples:\r\n");
                out.append(" self.15\r\n");
                out.append(" self.15?0\r\n");
                out.append(" self.15?\r\n");
                out.append(" self.15..32?1\r\n");
                out.append(" self...32?3\r\n");
                out.append(" self.15..?");
            },
            Errors::SelfExpressionYNotNumber { expression, position, .. } => {
                let t = position.to_str();
                out.append(t.as_str());
                out.append("\r\n");
                out.append("Can't compute expression ");
                out.append(expression.as_str());
                out.append(" \r\n");
                out.append("In a `self.x..y`, y must be a number\r\n");
                out.append("Examples:\r\n");
                out.append(" self.15\r\n");
                out.append(" self.15?0\r\n");
                out.append(" self.15?\r\n");
                out.append(" self.15..32?1\r\n");
                out.append(" self...32?3\r\n");
                out.append(" self.15..?");
            },
            Errors::SelfExpressionXNotNumber { expression, position, .. } => {
                let t = position.to_str();
                out.append(t.as_str());
                out.append("\r\n");
                out.append("Can't compute expression ");
                out.append(expression.as_str());
                out.append(" \r\n");
                out.append("In a `self.x..y`, x must be a number\r\n");
                out.append("Examples:\r\n");
                out.append(" self.15\r\n");
                out.append(" self.15?0\r\n");
                out.append(" self.15?\r\n");
                out.append(" self.15..32?1\r\n");
                out.append(" self...32?3\r\n");
                out.append(" self.15..?");
            },
            Errors::MalformedRange { position, .. } => {
                let t = position.to_str();
                out.append(t.as_str());
                out.append("\r\n");
                out.append("In a range x..y, x must be lower than y");
            },
            Errors::RecursionLimit { position, .. } => {
                let t = position.to_str();
                out.append(t.as_str());
                out.append("\r\n");
                out.append("Too many nested function calls");
            },
            Errors::EqualNotPrecededByLitteral { position, .. } => {
                let t = position.to_str();
                out.append(t.as_str());
                out.append("\r\n");
                out.append("a `=` must be followed by a litteral\r\n");
                out.append("Example:\r\n");
                out.append(" var2 = (0 20 var1)\r\n");
                out.append("Please add a name for the variable or remove the =");
            },
            Errors::LiteralAfterAssignement { assignement, literal, position, .. } => {
                let t = position.to_str();
                out.append(t.as_str());
                out.append("\r\n");
                out.append("Can't place a literal after an assignement\r\n");
                out.append("Have you forgotten parenthesis ?\r\n");
                out.append("Try to replace this:\r\n");
                out.append(" ");
                out.append(assignement.as_str());
                out.append(" = ");
                out.append(literal.as_str());
                out.append("\r\n");
                out.append("By this:\r\n");
                out.append(" ");
                out.append(assignement.as_str());
                out.append(" = (");
                out.append(literal.as_str());
                out.append(")\r\n");
                out.append("Or remove the `=`");
            },
            Errors::BlockAfterAssignement { assignement, position, .. } => {
                let t = position.to_str();
                out.append(t.as_str());
                out.append("\r\n");
                out.append("Can't place a block after an assignement\r\n");
                out.append(" > ");
                out.append(assignement.as_str());
                out.append(" = {\r\n");
                out.append("Try removing the `=`:\r\n");
                out.append(" ");
                out.append(assignement.as_str());
                out.append(" {\r\n");
                out.append("Block example:\r\n");
                out.append("test {\r\n");
                out.append(" 0 5 6 self\r\n}");
            },
            Errors::BlockMustBePrecededByLiteral { position, .. } => {
                let t = position.to_str();
                out.append(t.as_str());
                out.append("\r\n");
                out.append("A block must have a name\r\n");
                out.append("Please add a name to the block\r\n");
                out.append("Block example:\r\n");
                out.append("test {\r\n");
                out.append(" 0 5 6 self\r\n}");
            },
            Errors::ParenthesisNotInAssignementOrFunctionCall { position, .. } => {
                let t = position.to_str();
                out.append(t.as_str());
                out.append("\r\n");
                out.append("A code function call must be preceded by a function name or add a = to make an assignement.\r\n");
                out.append("Example:\r\n");
                out.append(" test(0 1 26 var1)\r\n");
                out.append("Example:\r\n");
                out.append(" var1 = (0 1 26 var2)\r\n");
                out.append("Please add a litteral to make a function call, add a litteral and a `=` to make a variable assignement or remove both parenthesis");
            },
            Errors::AssignementFollowedByAnotherAssignement { assignement1, assignement2, position, .. } => {
                let t = position.to_str();
                out.append(t.as_str());
                out.append("\r\n");
                out.append("Can't place a assignement after an assignement\r\n");
                out.append(" HERE > ");
                out.append(assignement1.as_str());
                out.append(" = ");
                out.append(assignement2.as_str());
                out.append(" =\r\n");
                out.append("Try to unwrap your statement\r\n");
                out.append(" ");
                out.append(assignement1.as_str());
                out.append(" = ...\r\n");
                out.append(" ");
                out.append(assignement2.as_str());
                out.append(" = ...\r\n");
            },
        }
        proof {
            assert(out@ =~= spec_pretty_print(self@));
        }
        out
    }
}


/// Whether `x` is close enough to `input` to suggest: within edit distance
/// three, on inputs small enough for the distance to be computed at all
/// (which covers every string that fits in memory).
pub open spec fn similar_ok(input: Seq<char>, x: Seq<char>) -> bool {
    (input.len() + 2) * (x.len() + 2) <= usize::MAX && crate::distance::spec_distance(input, x)
        < 3
}

/// The names among `names` close enough to `input` to suggest, in order.
pub open spec fn spec_get_similars(input: Seq<char>, names: Seq<Seq<char>>) -> Seq<Seq<char>>
    decreases names.len(),
{
    if names.len() == 0 {
        Seq::empty()
    } else {
        let head = if similar_ok(input, names[0]) {
            seq![names[0]]
        } else {
            Seq::empty()
        };
        head + spec_get_similars(input, names.drop_first())
    }
}

/// Keeps the names within edit distance three of `input`: the list promised
/// by [`spec_get_similars`].
pub fn get_similars(input: &str, discriminant: &[String]) -> (r: Vec<String>)
    ensures
        r.deep_view() == spec_get_similars(input@, discriminant.deep_view()),
{
    let ghost all = discriminant.deep_view();
    let li = input.unicode_len();
    let mut out: Vec<String> = Vec::new();
    let mut i: usize = 0;
    proof {
        assert(all.skip(0) =~= all);
        assert(out.deep_view() =~= Seq::<Seq<char>>::empty());
        assert(out.deep_view() + spec_get_similars(input@, all.skip(0)) =~= spec_get_similars(
            input@,
            all,
        ));
    }
    while i < discriminant.len()
        invariant
            i <= discriminant@.len(),
            all == discriminant.deep_view(),
            all.len() == discriminant@.len(),
            li == input@.len(),
            out.deep_view() + spec_get_similars(input@, all.skip(i as int)) == spec_get_similars(
                input@,
                all,
            ),
        decreases discriminant@.len() - i,
    {
        proof {
            assert(all.skip(i as int)[0] == all[i as int]);
            assert(all.skip(i as int).drop_first() =~= all.skip(i + 1));
        }
        let x = &discriminant[i];
        let lx = x.as_str().unicode_len();
        let small = match li.checked_add(2) {
            Some(a2) => match lx.checked_add(2) {
                Some(b2) => a2.checked_mul(b2).is_some(),
                None => false,
            },
            None => false,
        };
        let ghost dv0 = out.deep_view();
        if small {
            let d = crate::distance::generic_damerau_levenshtein(input, x.as_str());
            if d < 3 {
                out.push(x.clone());
                proof {
                    assert(out.deep_view() =~= dv0.push(all[i as int]));
                    assert(dv0.push(all[i as int]) =~= dv0 + seq![all[i as int]]);
                }
            } else {
                proof {
                    assert(!similar_ok(input@, all[i as int]));
                }
            }
        } else {
            proof {
                assert((input@.len() + 2) * (all[i as int].len() + 2) > usize::MAX)
                    by (nonlinear_arith)
                    requires
                        input@.len() + 2 > usize::MAX || all[i as int].len() + 2 > usize::MAX || (
                        input@.len() + 2) * (all[i as int].len() + 2) > usize::MAX,
                        input@.len() >= 0,
                        all[i as int].len() >= 0,
                ;
                assert(!similar_ok(input@, all[i as int]));
            }
        }
        i = i + 1;
    }
    proof {
        assert(all.skip(i as int).len() == 0);
        assert(out.deep_view() + spec_get_similars(input@, all.skip(i as int)) =~= out.deep_view());
    }
    out
}

/// The fixes for a missing name: one replacement per known name within edit
/// distance three, replacing the first so-many characters of the span.
pub open spec fn spec_fixes_for(
    name: Seq<char>,
    names: Seq<Seq<char>>,
    position: Position,
) -> Seq<crate::quick_fix::QuickFixView> {
    Seq::new(
        spec_get_similars(name, names).len(),
        |i: int|
            crate::quick_fix::QuickFixView {
                placement: crate::quick_fix::QuickFixPosition::ReplaceFirst(
                    name.len() as usize,
                ),
                position,
                text: spec_get_similars(name, names)[i],
            },
    )
}

/// The fixes an error offers: suggestions for the unknown function, variable
/// or label; nothing for other errors.
pub open spec fn spec_get_fixes(e: ErrorView) -> Seq<crate::quick_fix::QuickFixView> {
    match e {
        ErrorView::VariableNotFound { variable_name, variable_names, position } => spec_fixes_for(
            variable_name,
            variable_names,
            position,
        ),
        ErrorView::FunctionNotFound { function_name, function_names, position } => spec_fixes_for(
            function_name,
            function_names,
            position,
        ),
        ErrorView::LabelNotFound { label_name, label_names, position } => spec_fixes_for(
            label_name,
            label_names,
            position,
        ),
        _ => Seq::empty(),
    }
}

impl Errors {
    /// The machine-applicable fixes this error offers: the list promised by
    /// [`spec_get_fixes`].
    pub fn get_fixes(&self) -> (r: Vec<crate::quick_fix::QuickFix>)
        ensures
            r.deep_view() == spec_get_fixes(self@),
    {
        let mut fixes: Vec<crate::quick_fix::QuickFix> = Vec::new();
        proof {
            assert(fixes.deep_view() =~= Seq::<crate::quick_fix::QuickFixView>::empty());
        }
        match self {
            Errors::VariableNotFound { variable_name, variable_names, position } => {
                push_fixes(&mut fixes, variable_name, variable_names, position);
            },
            Errors::FunctionNotFound { function_name, function_names, position } => {
                push_fixes(&mut fixes, function_name, function_names, position);
            },
            Errors::LabelNotFound { label_name, label_names, position } => {
                push_fixes(&mut fixes, label_name, label_names, position);
            },
            _ => {},
        }
        fixes
    }
}

/// Appends one replacement fix per close-enough known name.
fn push_fixes(
    fixes: &mut Vec<crate::quick_fix::QuickFix>,
    name: &String,
    names: &Vec<String>,
    position: &Position,
)
    requires
        old(fixes)@.len() == 0,
    ensures
        final(fixes).deep_view() == spec_fixes_for(name@, names.deep_view(), *position),
{
    let names_slice = names.as_slice();
    proof {
        assert(names_slice.deep_view() =~= names.deep_view());
    }
    let similars = get_similars(name.as_str(), names_slice);
    let ghost sims = similars.deep_view();
    let n = name.as_str().unicode_len();
    let mut i: usize = 0;
    while i < similars.len()
        invariant
            i <= similars@.len(),
            sims == similars.deep_view(),
            sims.len() == similars@.len(),
            n == name@.len(),
            sims == spec_get_similars(name@, names.deep_view()),
            fixes@.len() == i,
            forall|j: int|
                0 <= j < i ==> fixes.deep_view()[j] == spec_fixes_for(
                    name@,
                    names.deep_view(),
                    *position,
                )[j],
        decreases similars@.len() - i,
    {
        let ghost dv0 = fixes.deep_view();
        fixes.push(
            crate::quick_fix::QuickFix {
                position: *position,
                placement: crate::quick_fix::QuickFixPosition::ReplaceFirst(n),
                text: similars[i].clone(),
            },
        );
        proof {
            assert forall|j: int|
                0 <= j < i + 1 implies fixes.deep_view()[j] == spec_fixes_for(
                name@,
                names.deep_view(),
                *position,
            )[j] by {
                if j < i {
                    assert(fixes.deep_view()[j] == dv0[j]);
                } else {
                    assert(fixes@[j as int]@.text == sims[j]);
                }
            }
        }
        i = i + 1;
    }
    proof {
        assert(fixes.deep_view() =~= spec_fixes_for(name@, names.deep_view(), *position));
    }
}

} // verus!
