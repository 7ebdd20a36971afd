//! Mutants: a source file, a mutation operator, and the place in the file
//! where the operator replaces a function body.

use vstd::prelude::*;

use crate::path::TreeRelativePath;
use crate::text::{chars_to_string, spec_dec, str_to_chars};

verus! {

/// The closed set of mutation operators.
#[derive(Clone, Copy, PartialEq, Eq, Structural, Debug)]
pub enum MutationOp {
    /// Replace the body with `()`.
    Unit,
    /// Replace the body with the return type's default value.
    Default,
    /// Replace a `bool` body with `true`.
    True,
    /// Replace a `bool` body with `false`.
    False,
    /// Replace a `String` body with the empty string.
    EmptyString,
    /// Replace a `String` body with the literal `"xyzzy"`.
    Xyzzy,
    /// Replace a `Result` body with `Ok(Default::default())`.
    OkDefault,
}

/// The text spliced in place of a function body for each operator.
pub open spec fn spec_replacement(op: MutationOp) -> Seq<char> {
    match op {
        MutationOp::Unit => "()"@,
        MutationOp::Default => "Default::default()"@,
        MutationOp::True => "true"@,
        MutationOp::False => "false"@,
        MutationOp::EmptyString => "\"\".into()"@,
        MutationOp::Xyzzy => "\"xyzzy\".into()"@,
        MutationOp::OkDefault => "Ok(Default::default())"@,
    }
}

pub fn replacement_text(op: MutationOp) -> (r: String)
    ensures
        r@ == spec_replacement(op),
{
    match op {
        MutationOp::Unit => String::from_str("()"),
        MutationOp::Default => String::from_str("Default::default()"),
        MutationOp::True => String::from_str("true"),
        MutationOp::False => String::from_str("false"),
        MutationOp::EmptyString => String::from_str("\"\".into()"),
        MutationOp::Xyzzy => String::from_str("\"xyzzy\".into()"),
        MutationOp::OkDefault => String::from_str("Ok(Default::default())"),
    }
}

/// A source file under the workspace root: its tree-relative path, the name
/// of the package that owns it, and its full text. Immutable once created.
pub struct SourceFile {
    pub tree_relative_path: TreeRelativePath,
    pub package_name: String,
    pub code: String,
}

/// The mathematical content of a `SourceFile`.
pub ghost struct SourceFileV {
    pub path: Seq<char>,
    pub package: Seq<char>,
    pub code: Seq<char>,
}

impl View for SourceFile {
    type V = SourceFileV;

    open spec fn view(&self) -> SourceFileV {
        SourceFileV {
            path: self.tree_relative_path@,
            package: self.package_name@,
            code: self.code@,
        }
    }
}

impl Clone for SourceFile {
    fn clone(&self) -> (r: Self)
        ensures
            r@ == self@,
    {
        SourceFile {
            tree_relative_path: self.tree_relative_path.clone(),
            package_name: self.package_name.clone(),
            code: self.code.clone(),
        }
    }
}

impl SourceFile {
    pub fn new(tree_relative_path: TreeRelativePath, package_name: String, code: String) -> (r:
        SourceFile)
        ensures
            r@.path == tree_relative_path@,
            r@.package == package_name@,
            r@.code == code@,
    {
        SourceFile { tree_relative_path, package_name, code }
    }
}

/// The place of a function body's opening brace: its one-based line, its
/// zero-based column in characters, and its offset into the file's
/// character sequence. The offset counts characters, not bytes; a caller
/// splicing by byte position must convert it where the file holds
/// multi-byte characters.
#[derive(Clone, Copy, PartialEq, Eq, Structural)]
pub struct MutantSpan {
    pub line: usize,
    pub column: usize,
    pub offset: usize,
}

/// One discovered mutation site: a file, an operator, the fully qualified
/// name of the mutated function, the text of its return type, and the span
/// of the body's opening brace.
pub struct Mutant {
    pub source_file: SourceFile,
    pub op: MutationOp,
    pub full_function_name: String,
    pub return_type_text: String,
    pub span: MutantSpan,
}

/// The mathematical content of a `Mutant`.
pub ghost struct MutantV {
    pub file: SourceFileV,
    pub op: MutationOp,
    pub name: Seq<char>,
    pub return_type: Seq<char>,
    pub line: nat,
    pub column: nat,
    pub offset: nat,
}

impl View for Mutant {
    type V = MutantV;

    open spec fn view(&self) -> MutantV {
        MutantV {
            file: self.source_file@,
            op: self.op,
            name: self.full_function_name@,
            return_type: self.return_type_text@,
            line: self.span.line as nat,
            column: self.span.column as nat,
            offset: self.span.offset as nat,
        }
    }
}

/// A well-formed mutant's span offset lies inside its file's text.
pub open spec fn spec_mutant_wf(m: MutantV) -> bool {
    m.offset < m.file.code.len()
}

/// `file:line`, the location of a mutant for display.
pub open spec fn spec_location(m: MutantV) -> Seq<char> {
    m.file.path.add(seq![':']).add(spec_dec(m.line))
}

/// The one-line description of a mutant: where it is, what is replaced, and
/// the replacement text.
pub open spec fn spec_describe(m: MutantV) -> Seq<char> {
    spec_location(m).add(": replace "@).add(m.name).add(
        if m.return_type.len() == 0 {
            Seq::<char>::empty()
        } else {
            seq![' '].add(m.return_type)
        },
    ).add(" with "@).add(spec_replacement(m.op))
}

impl Clone for Mutant {
    fn clone(&self) -> (r: Self)
        ensures
            r@ == self@,
    {
        Mutant {
            source_file: self.source_file.clone(),
            op: self.op,
            full_function_name: self.full_function_name.clone(),
            return_type_text: self.return_type_text.clone(),
            span: self.span,
        }
    }
}

impl Mutant {
    /// Two mutants are equal iff all their fields match.
    pub fn eq_mutant(&self, other: &Mutant) -> (r: bool)
        ensures
            r == (self@ == other@),
    {
        let files_eq = self.source_file.tree_relative_path.eq_path(
            &other.source_file.tree_relative_path,
        ) && self.source_file.package_name.eq(&other.source_file.package_name)
            && self.source_file.code.eq(&other.source_file.code);
        files_eq && self.op == other.op && self.full_function_name.eq(&other.full_function_name)
            && self.return_type_text.eq(&other.return_type_text) && self.span == other.span
    }

    /// The `file:line` location of this mutant.
    pub fn describe_location(&self) -> (r: String)
        ensures
            r@ == spec_location(self@),
    {
        let mut v = self.source_file.tree_relative_path.chars().clone();
        v.push(':');
        let mut line = crate::text::dec_chars(self.span.line as u64);
        v.append(&mut line);
        proof {
            assert(v@ =~= spec_location(self@));
        }
        chars_to_string(&v)
    }

    pub fn function_name(&self) -> (r: &String)
        ensures
            r@ == self@.name,
    {
        &self.full_function_name
    }

    pub fn return_type(&self) -> (r: &String)
        ensures
            r@ == self@.return_type,
    {
        &self.return_type_text
    }

    pub fn replacement_text(&self) -> (r: String)
        ensures
            r@ == spec_replacement(self@.op),
    {
        replacement_text(self.op)
    }

    /// The one-line description of this mutant, used for listings and for
    /// matching name filters.
    pub fn describe(&self) -> (r: String)
        ensures
            r@ == spec_describe(self@),
    {
        let loc = self.describe_location();
        let mut v = str_to_chars(loc.as_str());
        let mut part = str_to_chars(": replace ");
        v.append(&mut part);
        let mut name = str_to_chars(self.full_function_name.as_str());
        v.append(&mut name);
        if self.return_type_text.as_str().is_empty() {
        } else {
            v.push(' ');
            let mut rt = str_to_chars(self.return_type_text.as_str());
            v.append(&mut rt);
        }
        let mut with = str_to_chars(" with ");
        v.append(&mut with);
        let repl = replacement_text(self.op);
        let mut replv = str_to_chars(repl.as_str());
        v.append(&mut replv);
        proof {
            assert(v@ =~= spec_describe(self@));
        }
        chars_to_string(&v)
    }
}

} // verus!
