//! What the engine asks of the application that embeds it.
//!
//! The engine holds numbers as bit patterns and host objects as handles. What
//! needs the numbers' arithmetic or the host's objects is asked of the host,
//! through [`FyfthHost`]. The engine promises nothing of the answers: its
//! contracts say what it does with each of them.

use vstd::prelude::*;
use crate::environment::FyfthEnvironment;
use crate::language::FyfthLanguageExtension;
use crate::num::FyfthNum;
use crate::variant::FyfthVariant;

verus! {

/// Why a run, or the reading of a source text, stopped.
#[derive(Debug, Clone, Copy, PartialEq, Eq, Structural)]
pub enum FyfthError {
    /// A prefix character with no word behind it, or a prefix that could not
    /// be expanded.
    LexError,
    /// Too few arguments, or a control word used out of place.
    SyntaxError,
    /// A command was given arguments of kinds that it does not take.
    TypeError,
    /// An index out of range, sequences of different lengths, a name that
    /// names nothing or more than one thing, a host object that is gone.
    DomainError,
    /// The run was stopped because it took too many steps.
    IterationLimitExceeded,
}

/// Why a command failed.
#[derive(Debug, Clone, Copy, PartialEq, Eq, Structural)]
pub enum FyfthCommandError {
    SyntaxError,
    TypeError,
    DomainError,
}

/// The error that a run ends with when a command fails.
pub open spec fn run_error(error: FyfthCommandError) -> FyfthError {
    match error {
        FyfthCommandError::SyntaxError => FyfthError::SyntaxError,
        FyfthCommandError::TypeError => FyfthError::TypeError,
        FyfthCommandError::DomainError => FyfthError::DomainError,
    }
}

impl FyfthCommandError {
    /// The error that a run ends with when a command fails with `self`.
    pub fn into_run_error(self) -> (error: FyfthError)
        ensures
            error == run_error(self),
            error != FyfthError::IterationLimitExceeded,
            error != FyfthError::LexError,
    {
        match self {
            FyfthCommandError::SyntaxError => FyfthError::SyntaxError,
            FyfthCommandError::TypeError => FyfthError::TypeError,
            FyfthCommandError::DomainError => FyfthError::DomainError,
        }
    }
}

/// An operation on two numbers.
#[derive(Debug, Clone, Copy, PartialEq, Eq, Structural)]
pub enum FyfthBinaryOp {
    Add,
    Sub,
    Mul,
    Div,
    Atan2,
}

/// An operation on one number.
#[derive(Debug, Clone, Copy, PartialEq, Eq, Structural)]
pub enum FyfthUnaryOp {
    Sin,
    Cos,
    Tan,
    Atan,
}

/// A component type that the host has registered: its full type path and,
/// where it has one, the last segment of that path.
#[derive(Debug)]
pub struct FyfthComponentInfo {
    pub full_path: String,
    pub type_ident: Option<String>,
}

/// What reading a field of a component gave.
#[derive(Debug)]
pub enum FyfthFieldRead {
    /// The component is no struct.
    NotAStruct,
    /// It has no field of that name.
    NoSuchField,
    /// The field holds what no value of the language stands for.
    Unsupported,
    Value(FyfthVariant),
}

/// What writing a field of a component gave.
#[derive(Debug, Clone, Copy, PartialEq, Eq, Structural)]
pub enum FyfthFieldWrite {
    /// The component is no struct.
    NotAStruct,
    /// It has no field of that name.
    NoSuchField,
    /// The field does not take the value.
    Rejected,
    /// The key of the component with the field changed.
    Written(u64),
}

/// The application that embeds the engine: the arithmetic of its numbers, its
/// objects, and the commands and prefixes that it adds to the vocabulary.
pub trait FyfthHost {
    /// The number that `text` writes, if it writes one.
    fn parse_number(&self, text: &str) -> Option<FyfthNum>;

    /// The text that writes `number`.
    fn format_number(&self, number: FyfthNum) -> String;

    /// The number nearest to `whole`.
    fn number_from_integer(&self, whole: i64) -> FyfthNum;

    /// `op` applied to `left` and `right`.
    fn binary(&self, op: FyfthBinaryOp, left: FyfthNum, right: FyfthNum) -> FyfthNum;

    /// `op` applied to `operand`.
    fn unary(&self, op: FyfthUnaryOp, operand: FyfthNum) -> FyfthNum;

    /// The product of two rotations, each given as `x`, `y`, `z`, `w`.
    fn quat_mul(
        &self,
        left: (FyfthNum, FyfthNum, FyfthNum, FyfthNum),
        right: (FyfthNum, FyfthNum, FyfthNum, FyfthNum),
    ) -> (FyfthNum, FyfthNum, FyfthNum, FyfthNum);

    /// The rotation `quat` scaled to length one.
    fn quat_normalize(&self, quat: (FyfthNum, FyfthNum, FyfthNum, FyfthNum)) -> (
        FyfthNum,
        FyfthNum,
        FyfthNum,
        FyfthNum,
    );

    /// The handles of the objects that the language may see.
    fn entities(&mut self) -> Vec<u64>;

    /// The name of an object that the language may see, if it has one.
    fn visible_entity_name(&mut self, entity: u64) -> Option<String>;

    /// The name of an object, if it exists and has one.
    fn entity_name(&self, entity: u64) -> Option<String>;

    /// The component types that the host has registered, by index.
    fn component_types(&self) -> Vec<FyfthComponentInfo>;

    /// The key of a copy of the component of the type registered under
    /// `type_index` that `entity` holds, if it holds one.
    fn extract_component(&mut self, type_index: usize, entity: u64) -> Option<u64>;

    /// Gives `entity` a copy of `component`.
    fn insert_component(&mut self, entity: u64, component: u64);

    /// The full type path of a component.
    fn component_type_path(&self, component: u64) -> String;

    /// The last segment of the type path of a component, if it has one.
    fn component_type_ident(&self, component: u64) -> Option<String>;

    /// The text that writes a component.
    fn component_text(&self, component: u64) -> String;

    /// Reads the field `field` of `component`.
    fn read_field(&mut self, component: u64, field: &str) -> FyfthFieldRead;

    /// Makes a copy of `component` in which the field `field` holds `value`.
    fn write_field(&mut self, component: u64, field: &str, value: &FyfthVariant) -> FyfthFieldWrite;

    /// Carries out the command that the host registered with `code`.
    fn call(
        &mut self,
        code: u32,
        output: &mut String,
        vars: &mut FyfthEnvironment,
        lang: &FyfthLanguageExtension,
        args: &[FyfthVariant],
    ) -> Result<Option<FyfthVariant>, FyfthCommandError>;

    /// Expands `word` by the prefix that the host registered with `code`.
    fn expand_prefix(&self, code: u32, word: &str, lang: &FyfthLanguageExtension) -> Result<
        Vec<FyfthVariant>,
        (),
    >;
}

/// What a command works with: the text that the run has produced so far, the
/// host, the variables and the vocabulary.
pub struct FyfthContext<'a, H> {
    pub output: &'a mut String,
    pub world: &'a mut H,
    pub vars: &'a mut FyfthEnvironment,
    pub lang: &'a FyfthLanguageExtension,
}

} // verus!
