//! Formula text: its leading sign, its syntax tree, and the canonical text of a
//! tree.

use crate::error::{backend_error, io_view, IoError, IoErrorView};
use vstd::prelude::*;
use vstd::string::*;

verus! {

/// The syntax tree of a formula, as `formualizer_parse` builds it.
#[verifier::external_type_specification]
#[verifier::external_body]
pub struct ExAstNode(formualizer_parse::ASTNode);

/// What `formualizer_parse` makes of a formula text: its tree, or why it has none.
pub uninterp spec fn parsed_text(text: Seq<char>) -> Result<formualizer_parse::ASTNode, Seq<char>>;

/// The text that `formualizer_parse` prints for a tree.
pub uninterp spec fn printed_tree(tree: formualizer_parse::ASTNode) -> Seq<char>;

/// A parse with the text of its error as a character sequence.
pub open spec fn parse_view(r: Result<formualizer_parse::ASTNode, String>) -> Result<
    formualizer_parse::ASTNode,
    Seq<char>,
> {
    match r {
        Ok(tree) => Ok(tree),
        Err(text) => Err(text@),
    }
}

/// `formualizer_parse::parser::parse` in its default dialect and limits; an error
/// is given by its text. Tree and error are functions of the text alone.
#[verifier::external_body]
fn parse_text(text: &str) -> (r: Result<formualizer_parse::ASTNode, String>)
    ensures
        parse_view(r) == parsed_text(text@),
{
    formualizer_parse::parser::parse(text).map_err(|err| err.to_string())
}

/// `formualizer_parse::pretty::canonical_formula`: the canonical text of a tree,
/// a function of the tree alone, which starts with its sign. It recurses to the height
/// of the tree; every tree that the parser returns is within the height that it
/// supports.
#[verifier::external_body]
pub(crate) fn canonical_formula(tree: &formualizer_parse::ASTNode) -> (r: String)
    ensures
        r@ == printed_tree(*tree),
        r@.len() > 0,
        r@[0] == '=',
{
    formualizer_parse::pretty::canonical_formula(tree)
}

/// `formula` with the sign in front that marks a formula.
pub open spec fn with_sign(formula: Seq<char>) -> Seq<char> {
    if formula.len() > 0 && formula[0] == '=' {
        formula
    } else {
        "="@ + formula
    }
}

/// See [`with_sign`].
pub fn sign_formula(formula: &str) -> (r: String)
    ensures
        r@ == with_sign(formula@),
{
    if formula.unicode_len() > 0 && formula.get_char(0) == '=' {
        formula.to_owned()
    } else {
        let mut text = "=".to_owned();
        text.append(formula);
        text
    }
}

/// What a formula given with or without its sign comes to: the tree of the signed
/// text, or the refusal of the parser.
pub open spec fn formula_tree(parsed: Result<formualizer_parse::ASTNode, Seq<char>>) -> Result<
    formualizer_parse::ASTNode,
    IoErrorView,
> {
    match parsed {
        Ok(tree) => Ok(tree),
        Err(text) => Err(backend_error("parser"@, text)),
    }
}

/// The outcome of parsing `formula`.
pub open spec fn parsed_formula(formula: Seq<char>) -> Result<
    formualizer_parse::ASTNode,
    IoErrorView,
> {
    formula_tree(parsed_text(with_sign(formula)))
}

/// The refusal of the parser, or the tree.
pub fn accept_parse(parsed: Result<formualizer_parse::ASTNode, String>) -> (r: Result<
    formualizer_parse::ASTNode,
    IoError,
>)
    ensures
        io_view(r) == formula_tree(parse_view(parsed)),
{
    match parsed {
        Ok(tree) => Ok(tree),
        Err(text) => Err(IoError::from_backend("parser", text)),
    }
}

/// The tree of `formula`, given with or without its sign.
pub fn parse_formula(formula: &str) -> (r: Result<formualizer_parse::ASTNode, IoError>)
    ensures
        io_view(r) == parsed_formula(formula@),
{
    accept_parse(parse_text(&sign_formula(formula)))
}

/// The sign in front of a formula is optional: with or without it, a formula is the
/// same one.
pub proof fn law_sign_is_optional(formula: Seq<char>)
    ensures
        with_sign(with_sign(formula)) == with_sign(formula),
        parsed_formula(with_sign(formula)) == parsed_formula(formula),
{
    reveal_strlit("=");
    assert(with_sign(formula)[0] == '=');
}

} // verus!
