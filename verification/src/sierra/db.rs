//! The tables of the types, library functions and functions that a Sierra program is made of.
use vstd::prelude::*;

use crate::duplicate::Duplicate;
use crate::semantic::ids::Maybe;
use crate::sierra::program::{FunctionSignature, GenericArgView, LongId, LongIdView};

verus! {

/// A concrete type.
#[derive(Debug)]
pub enum SierraTypeLongId {
    /// A type that is no type of Sierra, by its text.
    Phantom(String),
    /// A type inside its own definition, by its text.
    CycleBreaker(String),
    Regular(LongId),
}

/// What is known of a concrete type.
#[derive(Debug)]
pub struct TypeInfo {
    pub long_id: LongId,
    /// Can the type be stored by any of the store commands.
    pub storable: bool,
    /// Can the type be (trivially) dropped.
    pub droppable: bool,
    /// Can the type be (trivially) duplicated.
    pub duplicatable: bool,
    /// Is the type of size zero.
    pub zero_sized: bool,
}

#[verifier::ext_equal]
pub struct TypeInfoView {
    pub long_id: LongIdView,
    pub storable: bool,
    pub droppable: bool,
    pub duplicatable: bool,
    pub zero_sized: bool,
}

impl View for TypeInfo {
    type V = TypeInfoView;

    open spec fn view(&self) -> TypeInfoView {
        TypeInfoView {
            long_id: self.long_id@,
            storable: self.storable,
            droppable: self.droppable,
            duplicatable: self.duplicatable,
            zero_sized: self.zero_sized,
        }
    }
}

impl Duplicate for TypeInfo {
    fn duplicate(&self) -> (r: Self) {
        TypeInfo {
            long_id: self.long_id.duplicate(),
            storable: self.storable,
            droppable: self.droppable,
            duplicatable: self.duplicatable,
            zero_sized: self.zero_sized,
        }
    }
}

#[derive(Debug)]
pub struct TypeEntry {
    pub long_id: SierraTypeLongId,
    /// When the entry was created.
    pub created: u64,
    pub info: Maybe<TypeInfo>,
}

#[derive(Debug)]
pub struct LibfuncEntry {
    pub long_id: LongId,
    /// When the entry was created.
    pub created: u64,
}

/// How an invocation changes the allocation pointer.
#[derive(Clone, Copy, Debug, PartialEq, Eq, Structural)]
pub enum SierraApChange {
    /// The change is not known at compile time.
    Unknown,
    /// The change is known at compile time.
    Known { new_vars_only: bool },
    /// The branch is aligned with others.
    BranchAlign,
    /// The change is that of the function with this number.
    FunctionCall(u64),
}

#[derive(Debug)]
pub struct FunctionEntry {
    /// The full name of the function.
    pub name: String,
    pub signature: Maybe<FunctionSignature>,
    /// The change of the allocation pointer, where the function has a body.
    pub ap_change: Option<Maybe<SierraApChange>>,
}

/// The tables of a Sierra program. The number of an id is the place of its entry.
#[derive(Debug)]
pub struct SierraGenDb {
    pub types: Vec<TypeEntry>,
    pub libfuncs: Vec<LibfuncEntry>,
    pub functions: Vec<FunctionEntry>,
}

impl SierraGenDb {
    pub open spec fn knows_type(self, id: u64) -> bool {
        id < self.types@.len()
    }

    pub open spec fn knows_libfunc(self, id: u64) -> bool {
        id < self.libfuncs@.len()
    }

    pub open spec fn knows_function(self, id: u64) -> bool {
        id < self.functions@.len()
    }

    /// The argument is one of the tables, and was created before `bound`.
    pub open spec fn arg_below(self, arg: GenericArgView, bound: u64) -> bool {
        match arg {
            GenericArgView::Type(id) => self.knows_type(id.id) && self.types@[id.id as int].created
                < bound,
            GenericArgView::Libfunc(id) => self.knows_libfunc(id.id)
                && self.libfuncs@[id.id as int].created < bound,
            GenericArgView::UserFunc(id) => self.knows_function(id.id),
            _ => true,
        }
    }

    pub open spec fn args_below(self, args: Seq<GenericArgView>, bound: u64) -> bool {
        forall|i: int| 0 <= i < args.len() ==> self.arg_below(#[trigger] args[i], bound)
    }

    /// A type that is created at `created` can be opened: its arguments were created before it, and
    /// enums and structs say which user type they are.
    pub open spec fn long_id_ok(self, long_id: LongIdView, created: u64) -> bool {
        &&& self.args_below(long_id.generic_args, created)
        &&& is_user_type(long_id.generic_id) ==> long_id.generic_args.len() > 0
            && long_id.generic_args[0] is UserType
    }

    /// The type can be opened.
    pub open spec fn type_ok(self, at: int) -> bool {
        match self.types@[at].long_id {
            SierraTypeLongId::Regular(long_id) => self.long_id_ok(
                long_id@,
                self.types@[at].created,
            ),
            _ => true,
        }
    }

    /// The library function was created after its arguments.
    pub open spec fn libfunc_ok(self, at: int) -> bool {
        self.args_below(self.libfuncs@[at].long_id@.generic_args, self.libfuncs@[at].created)
    }

    pub open spec fn wf(self) -> bool {
        &&& forall|at: int| 0 <= at < self.types@.len() ==> #[trigger] self.type_ok(at)
        &&& forall|at: int| 0 <= at < self.libfuncs@.len() ==> #[trigger] self.libfunc_ok(at)
    }

    /// All types and library functions were created before `bound`.
    pub open spec fn created_before(self, bound: int) -> bool {
        &&& forall|at: int|
            0 <= at < self.types@.len() ==> (#[trigger] self.types@[at]).created < bound
        &&& forall|at: int|
            0 <= at < self.libfuncs@.len() ==> (#[trigger] self.libfuncs@[at]).created < bound
    }

    /// The argument is one of the tables.
    pub open spec fn knows_arg(self, arg: GenericArgView) -> bool {
        match arg {
            GenericArgView::Type(id) => self.knows_type(id.id),
            GenericArgView::Libfunc(id) => self.knows_libfunc(id.id),
            GenericArgView::UserFunc(id) => self.knows_function(id.id),
            _ => true,
        }
    }

    /// What is created after all that is in the tables is created after its arguments.
    pub proof fn known_args_are_below(self, args: Seq<GenericArgView>, created: u64)
        requires
            self.created_before(created as int),
            forall|i: int| 0 <= i < args.len() ==> self.knows_arg(#[trigger] args[i]),
        ensures
            self.args_below(args, created),
    {
        assert forall|i: int| 0 <= i < args.len() implies self.arg_below(
            #[trigger] args[i],
            created,
        ) by {
            assert(self.knows_arg(args[i]));
        }
    }

    /// The least number for something that is created after all that is in the tables, if there is
    /// one.
    pub fn next_created(&self) -> (r: Option<u64>)
        ensures
            match r {
                Some(next) => self.created_before(next as int) && forall|bound: int|
                    0 <= bound < next ==> !#[trigger] self.created_before(bound),
                None => !self.created_before(u64::MAX as int),
            },
    {
        let mut next: u64 = 0;
        let mut i: usize = 0;
        while i < self.types.len()
            invariant
                i <= self.types@.len(),
                forall|at: int| 0 <= at < i ==> (#[trigger] self.types@[at]).created < next,
                forall|bound: int| 0 <= bound < next ==> !#[trigger] self.created_before(bound),
            decreases self.types@.len() - i,
        {
            let created: u64 = self.types[i].created;
            if created == u64::MAX {
                assert(self.types@[i as int].created == u64::MAX);
                return None;
            }
            if created >= next {
                next = created + 1;
                assert forall|bound: int| 0 <= bound < next implies !#[trigger] self.created_before(
                    bound,
                ) by {
                    assert(self.types@[i as int].created >= bound);
                }
            }
            i += 1;
        }
        let mut j: usize = 0;
        while j < self.libfuncs.len()
            invariant
                j <= self.libfuncs@.len(),
                forall|at: int|
                    0 <= at < self.types@.len() ==> (#[trigger] self.types@[at]).created < next,
                forall|at: int| 0 <= at < j ==> (#[trigger] self.libfuncs@[at]).created < next,
                forall|bound: int| 0 <= bound < next ==> !#[trigger] self.created_before(bound),
            decreases self.libfuncs@.len() - j,
        {
            let created: u64 = self.libfuncs[j].created;
            if created == u64::MAX {
                assert(self.libfuncs@[j as int].created == u64::MAX);
                return None;
            }
            if created >= next {
                next = created + 1;
                assert forall|bound: int| 0 <= bound < next implies !#[trigger] self.created_before(
                    bound,
                ) by {
                    assert(self.libfuncs@[j as int].created >= bound);
                }
            }
            j += 1;
        }
        Some(next)
    }
}

/// Whether the generic type is one of user defined types.
pub open spec fn is_user_type(generic_id: Seq<char>) -> bool {
    generic_id == "Enum"@ || generic_id == "Struct"@
}

} // verus!
