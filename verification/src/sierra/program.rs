//! Sierra programs.
use vstd::prelude::*;

use crate::duplicate::{duplicates, viewed, Duplicate};
use crate::integer::Integer;
use crate::sierra::ids::{
    id_text, user_type_text, ConcreteLibfuncId, ConcreteTypeId, FunctionId, IdView, UserTypeId,
    UserTypeView, VarId,
};
use crate::text::{decimal, int_text, join, joined, texts};

verus! {

/// Possible arguments for generic type.
#[derive(Debug)]
pub enum GenericArg {
    UserType(UserTypeId),
    Type(ConcreteTypeId),
    Value(Integer),
    UserFunc(FunctionId),
    Libfunc(ConcreteLibfuncId),
}

#[verifier::ext_equal]
pub enum GenericArgView {
    UserType(UserTypeView),
    Type(IdView),
    Value(int),
    UserFunc(IdView),
    Libfunc(IdView),
}

impl View for GenericArg {
    type V = GenericArgView;

    open spec fn view(&self) -> GenericArgView {
        match *self {
            GenericArg::UserType(id) => GenericArgView::UserType(id@),
            GenericArg::Type(id) => GenericArgView::Type(id@),
            GenericArg::Value(value) => GenericArgView::Value(value@),
            GenericArg::UserFunc(id) => GenericArgView::UserFunc(id@),
            GenericArg::Libfunc(id) => GenericArgView::Libfunc(id@),
        }
    }
}

impl Duplicate for GenericArg {
    fn duplicate(&self) -> (r: Self) {
        match self {
            GenericArg::UserType(id) => GenericArg::UserType(id.duplicate()),
            GenericArg::Type(id) => GenericArg::Type(id.duplicate()),
            GenericArg::Value(value) => GenericArg::Value(value.clone()),
            GenericArg::UserFunc(id) => GenericArg::UserFunc(id.duplicate()),
            GenericArg::Libfunc(id) => GenericArg::Libfunc(id.duplicate()),
        }
    }
}

/// The text of a generic argument.
pub open spec fn arg_text(arg: GenericArgView) -> Seq<char> {
    match arg {
        GenericArgView::Type(id) => id_text(id),
        GenericArgView::UserType(id) => "ut@"@ + user_type_text(id),
        GenericArgView::Value(value) => int_text(value),
        GenericArgView::UserFunc(id) => "user@"@ + id_text(id),
        GenericArgView::Libfunc(id) => "lib@"@ + id_text(id),
    }
}

impl GenericArg {
    /// The text of the argument.
    pub fn text(&self) -> (r: String)
        ensures
            r@ == arg_text(self@),
    {
        match self {
            GenericArg::Type(id) => id.text(),
            GenericArg::UserType(id) => {
                let mut text = "ut@".to_owned();
                text.append(id.text().as_str());
                text
            },
            GenericArg::Value(value) => value.text(),
            GenericArg::UserFunc(id) => {
                let mut text = "user@".to_owned();
                text.append(id.text().as_str());
                text
            },
            GenericArg::Libfunc(id) => {
                let mut text = "lib@".to_owned();
                text.append(id.text().as_str());
                text
            },
        }
    }
}

/// A concrete type or library function: the generic one, and its arguments.
#[derive(Debug)]
pub struct LongId {
    /// The id of the used generic type or library function.
    pub generic_id: String,
    pub generic_args: Vec<GenericArg>,
}

#[verifier::ext_equal]
pub struct LongIdView {
    pub generic_id: Seq<char>,
    pub generic_args: Seq<GenericArgView>,
}

impl View for LongId {
    type V = LongIdView;

    open spec fn view(&self) -> LongIdView {
        LongIdView { generic_id: self.generic_id@, generic_args: viewed(self.generic_args@) }
    }
}

impl Duplicate for LongId {
    fn duplicate(&self) -> (r: Self) {
        LongId {
            generic_id: self.generic_id.clone(),
            generic_args: duplicates(&self.generic_args),
        }
    }
}

pub open spec fn arg_texts(args: Seq<GenericArgView>) -> Seq<Seq<char>> {
    args.map_values(|arg: GenericArgView| arg_text(arg))
}

/// The text of a concrete type or library function: the generic one, and its arguments in angle
/// brackets where it has any.
pub open spec fn long_id_text(long_id: LongIdView) -> Seq<char> {
    if long_id.generic_args.len() == 0 {
        long_id.generic_id
    } else {
        long_id.generic_id + "<"@ + joined(arg_texts(long_id.generic_args), ", "@) + ">"@
    }
}

impl LongId {
    /// The text of the type or library function.
    pub fn text(&self) -> (r: String)
        ensures
            r@ == long_id_text(self@),
    {
        if self.generic_args.len() == 0 {
            return self.generic_id.clone();
        }
        let mut parts: Vec<String> = Vec::new();
        let mut i: usize = 0;
        while i < self.generic_args.len()
            invariant
                i <= self.generic_args@.len(),
                parts@.len() == i,
                forall|j: int|
                    0 <= j < i ==> (#[trigger] parts@[j])@ == arg_text(self.generic_args@[j]@),
            decreases self.generic_args@.len() - i,
        {
            parts.push(self.generic_args[i].text());
            i += 1;
        }
        assert(texts(parts@) =~= arg_texts(self@.generic_args));
        let mut text = self.generic_id.clone();
        text.append("<");
        text.append(join(&parts, ", ").as_str());
        text.append(">");
        text
    }
}

/// Declaration of a concrete type info.
#[derive(Clone, Copy, Debug, PartialEq, Eq, Structural)]
pub struct DeclaredTypeInfo {
    /// Can the type be stored by any of the store commands.
    pub storable: bool,
    /// Can the type be (trivially) dropped.
    pub droppable: bool,
    /// Can the type be (trivially) duplicated.
    pub duplicatable: bool,
    /// The size of an element of this type.
    pub zero_sized: bool,
}

/// Declaration of a concrete type.
#[derive(Debug)]
pub struct TypeDeclaration {
    pub id: ConcreteTypeId,
    pub long_id: LongId,
    pub declared_type_info: Option<DeclaredTypeInfo>,
}

#[verifier::ext_equal]
pub struct TypeDeclarationView {
    pub id: IdView,
    pub long_id: LongIdView,
    pub declared_type_info: Option<DeclaredTypeInfo>,
}

impl View for TypeDeclaration {
    type V = TypeDeclarationView;

    open spec fn view(&self) -> TypeDeclarationView {
        TypeDeclarationView {
            id: self.id@,
            long_id: self.long_id@,
            declared_type_info: self.declared_type_info,
        }
    }
}

/// Declaration of a concrete library function.
#[derive(Debug)]
pub struct LibfuncDeclaration {
    pub id: ConcreteLibfuncId,
    pub long_id: LongId,
}

#[verifier::ext_equal]
pub struct LibfuncDeclarationView {
    pub id: IdView,
    pub long_id: LongIdView,
}

impl View for LibfuncDeclaration {
    type V = LibfuncDeclarationView;

    open spec fn view(&self) -> LibfuncDeclarationView {
        LibfuncDeclarationView { id: self.id@, long_id: self.long_id@ }
    }
}

/// Represents the index of a Sierra statement.
#[derive(Clone, Copy, Debug, PartialEq, Eq, Structural)]
pub struct StatementIdx(pub usize);

#[derive(Debug)]
pub enum BranchTarget<S> {
    /// Continues a run to the next statement.
    Fallthrough,
    /// Continues the run to provided statement.
    Statement(S),
}

/// Describes the flow of a chosen libfunc's branch.
#[derive(Debug)]
pub struct BranchInfo<S> {
    /// The target the branch continues the run through.
    pub target: BranchTarget<S>,
    /// The resulting identifiers from the libfunc call.
    pub results: Vec<VarId>,
}

#[verifier::ext_equal]
pub struct BranchInfoView<S> {
    pub target: BranchTarget<S>,
    pub results: Seq<IdView>,
}

impl<S> View for BranchInfo<S> {
    type V = BranchInfoView<S>;

    open spec fn view(&self) -> BranchInfoView<S> {
        BranchInfoView { target: self.target, results: viewed(self.results@) }
    }
}

/// An invocation statement.
#[derive(Debug)]
pub struct Invocation<S> {
    /// The called libfunc.
    pub libfunc_id: ConcreteLibfuncId,
    /// The arguments consumed by the libfunc's invocation.
    pub args: Vec<VarId>,
    /// The possible branches to continue to after the invocation.
    /// The program would continue to exactly one of the branches.
    pub branches: Vec<BranchInfo<S>>,
}

#[verifier::ext_equal]
pub struct InvocationView<S> {
    pub libfunc_id: IdView,
    pub args: Seq<IdView>,
    pub branches: Seq<BranchInfoView<S>>,
}

impl<S> View for Invocation<S> {
    type V = InvocationView<S>;

    open spec fn view(&self) -> InvocationView<S> {
        InvocationView {
            libfunc_id: self.libfunc_id@,
            args: viewed(self.args@),
            branches: viewed(self.branches@),
        }
    }
}

/// A possible statement. Its branches continue to statements that `S` stands for.
#[derive(Debug)]
pub enum Statement<S> {
    Invocation(Invocation<S>),
    Return(Vec<VarId>),
}

#[verifier::ext_equal]
pub enum StatementView<S> {
    Invocation(InvocationView<S>),
    Return(Seq<IdView>),
}

impl<S> View for Statement<S> {
    type V = StatementView<S>;

    open spec fn view(&self) -> StatementView<S> {
        match *self {
            Statement::Invocation(invocation) => StatementView::Invocation(invocation@),
            Statement::Return(vars) => StatementView::Return(viewed(vars@)),
        }
    }
}

/// Descriptor of a variable.
#[derive(Debug)]
pub struct Param {
    pub id: VarId,
    pub ty: ConcreteTypeId,
}

#[verifier::ext_equal]
pub struct ParamView {
    pub id: IdView,
    pub ty: IdView,
}

impl View for Param {
    type V = ParamView;

    open spec fn view(&self) -> ParamView {
        ParamView { id: self.id@, ty: self.ty@ }
    }
}

/// Represents the signature of a function.
#[derive(Debug)]
pub struct FunctionSignature {
    /// The types of the parameters of the function.
    pub param_types: Vec<ConcreteTypeId>,
    /// The return types.
    pub ret_types: Vec<ConcreteTypeId>,
}

#[verifier::ext_equal]
pub struct FunctionSignatureView {
    pub param_types: Seq<IdView>,
    pub ret_types: Seq<IdView>,
}

impl View for FunctionSignature {
    type V = FunctionSignatureView;

    open spec fn view(&self) -> FunctionSignatureView {
        FunctionSignatureView {
            param_types: viewed(self.param_types@),
            ret_types: viewed(self.ret_types@),
        }
    }
}

impl Duplicate for FunctionSignature {
    fn duplicate(&self) -> (r: Self) {
        FunctionSignature {
            param_types: duplicates(&self.param_types),
            ret_types: duplicates(&self.ret_types),
        }
    }
}

/// Represents a function (its name, signature and entry point).
#[derive(Debug)]
pub struct Function {
    /// The name of the function.
    pub id: FunctionId,
    /// The parameter types and return types.
    pub signature: FunctionSignature,
    /// The parameters of the function.
    pub params: Vec<Param>,
    /// The statement id where the function starts.
    pub entry_point: StatementIdx,
}

#[verifier::ext_equal]
pub struct FunctionView {
    pub id: IdView,
    pub signature: FunctionSignatureView,
    pub params: Seq<ParamView>,
    pub entry_point: StatementIdx,
}

impl View for Function {
    type V = FunctionView;

    open spec fn view(&self) -> FunctionView {
        FunctionView {
            id: self.id@,
            signature: self.signature@,
            params: viewed(self.params@),
            entry_point: self.entry_point,
        }
    }
}

/// A full Sierra program.
#[derive(Debug)]
pub struct Program {
    /// Declarations for all the used types.
    pub type_declarations: Vec<TypeDeclaration>,
    /// Declarations for all the used library functions.
    pub libfunc_declarations: Vec<LibfuncDeclaration>,
    /// The code of the program.
    pub statements: Vec<Statement<StatementIdx>>,
    /// Descriptions of the functions - signatures and entry points.
    pub funcs: Vec<Function>,
}

#[verifier::ext_equal]
pub struct ProgramView {
    pub type_declarations: Seq<TypeDeclarationView>,
    pub libfunc_declarations: Seq<LibfuncDeclarationView>,
    pub statements: Seq<StatementView<StatementIdx>>,
    pub funcs: Seq<FunctionView>,
}

impl View for Program {
    type V = ProgramView;

    open spec fn view(&self) -> ProgramView {
        ProgramView {
            type_declarations: viewed(self.type_declarations@),
            libfunc_declarations: viewed(self.libfunc_declarations@),
            statements: viewed(self.statements@),
            funcs: viewed(self.funcs@),
        }
    }
}

impl<S: Copy> Duplicate for BranchInfo<S> {
    fn duplicate(&self) -> (r: Self) {
        let target = match &self.target {
            BranchTarget::Fallthrough => BranchTarget::Fallthrough,
            BranchTarget::Statement(to) => BranchTarget::Statement(*to),
        };
        BranchInfo { target, results: duplicates(&self.results) }
    }
}

impl<S: Copy> Duplicate for Invocation<S> {
    fn duplicate(&self) -> (r: Self) {
        Invocation {
            libfunc_id: self.libfunc_id.duplicate(),
            args: duplicates(&self.args),
            branches: duplicates(&self.branches),
        }
    }
}

/// An argument is written by the name of what it stands for, or by its number in brackets where it
/// has no name, with a mark of its kind; a value is written in decimal.
pub proof fn texts_of_arguments(id: IdView, user_type: UserTypeView, value: int, name: Seq<char>)
    ensures
        id.debug_name == Some(name) ==> {
            &&& arg_text(GenericArgView::Type(id)) == name
            &&& arg_text(GenericArgView::UserFunc(id)) == "user@"@ + name
            &&& arg_text(GenericArgView::Libfunc(id)) == "lib@"@ + name
        },
        id.debug_name is None ==> {
            let number = "["@ + decimal(id.id as nat) + "]"@;
            &&& arg_text(GenericArgView::Type(id)) == number
            &&& arg_text(GenericArgView::UserFunc(id)) == "user@"@ + number
            &&& arg_text(GenericArgView::Libfunc(id)) == "lib@"@ + number
        },
        user_type.debug_name == Some(name) ==> arg_text(GenericArgView::UserType(user_type))
            == "ut@"@ + name,
        user_type.debug_name is None ==> arg_text(GenericArgView::UserType(user_type)) == "ut@"@ + (
        "["@ + int_text(user_type.id) + "]"@),
        arg_text(GenericArgView::Value(value)) == int_text(value),
{
}

/// A type or a library function is written as the generic one, with its arguments, in their order,
/// in angle brackets where it has any.
pub proof fn texts_of_long_ids(long_id: LongIdView, texts: Seq<Seq<char>>)
    requires
        texts.len() == long_id.generic_args.len(),
        forall|i: int|
            0 <= i < texts.len() ==> #[trigger] texts[i] == arg_text(long_id.generic_args[i]),
    ensures
        long_id_text(long_id) == (if texts.len() == 0 {
            long_id.generic_id
        } else {
            long_id.generic_id + "<"@ + joined(texts, ", "@) + ">"@
        }),
{
    assert(arg_texts(long_id.generic_args) =~= texts);
}

} // verus!
