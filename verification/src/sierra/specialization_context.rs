//! What the specialization of library functions asks of the tables of a program.
use vstd::prelude::*;

use crate::duplicate::{duplicates, viewed, Duplicate};
use crate::semantic::ids::DiagnosticAdded;
use crate::sierra::db::{
    SierraApChange, SierraGenDb, SierraTypeLongId, TypeEntry, TypeInfo, TypeInfoView,
};
use crate::sierra::ids::{ConcreteTypeId, FunctionId, IdView, UserTypeView};
use crate::sierra::program::{
    FunctionSignature, FunctionSignatureView, GenericArg, GenericArgView, LongId, LongIdView,
};

verus! {

/// What two arguments have in common where they stand for the same: the names of ids are left out.
pub open spec fn arg_key(arg: GenericArgView) -> GenericArgView {
    match arg {
        GenericArgView::UserType(id) => GenericArgView::UserType(
            UserTypeView { debug_name: None, ..id },
        ),
        GenericArgView::Type(id) => GenericArgView::Type(IdView { debug_name: None, ..id }),
        GenericArgView::Value(value) => GenericArgView::Value(value),
        GenericArgView::UserFunc(id) => GenericArgView::UserFunc(
            IdView { debug_name: None, ..id },
        ),
        GenericArgView::Libfunc(id) => GenericArgView::Libfunc(IdView { debug_name: None, ..id }),
    }
}

/// What two types have in common where they are the same.
pub open spec fn long_id_key(long_id: LongIdView) -> LongIdView {
    LongIdView {
        generic_id: long_id.generic_id,
        generic_args: long_id.generic_args.map_values(|arg: GenericArgView| arg_key(arg)),
    }
}

fn same_arg(a: &GenericArg, b: &GenericArg) -> (r: bool)
    ensures
        r == (arg_key(a@) == arg_key(b@)),
{
    match (a, b) {
        (GenericArg::UserType(a), GenericArg::UserType(b)) => a.id == b.id,
        (GenericArg::Type(a), GenericArg::Type(b)) => a.id == b.id,
        (GenericArg::Value(a), GenericArg::Value(b)) => *a == *b,
        (GenericArg::UserFunc(a), GenericArg::UserFunc(b)) => a.id == b.id,
        (GenericArg::Libfunc(a), GenericArg::Libfunc(b)) => a.id == b.id,
        _ => false,
    }
}

/// Whether the two are the same type.
fn same_long_id(a: &LongId, b: &LongId) -> (r: bool)
    ensures
        r == (long_id_key(a@) == long_id_key(b@)),
{
    if !(a.generic_id == b.generic_id) || a.generic_args.len() != b.generic_args.len() {
        assert(long_id_key(a@).generic_args.len() == a.generic_args@.len());
        assert(long_id_key(b@).generic_args.len() == b.generic_args@.len());
        return false;
    }
    let mut i: usize = 0;
    while i < a.generic_args.len()
        invariant
            i <= a.generic_args@.len(),
            a.generic_args@.len() == b.generic_args@.len(),
            forall|j: int|
                0 <= j < i ==> arg_key((#[trigger] a.generic_args@[j])@) == arg_key(
                    b.generic_args@[j]@,
                ),
        decreases a.generic_args@.len() - i,
    {
        if !same_arg(&a.generic_args[i], &b.generic_args[i]) {
            assert(long_id_key(a@).generic_args[i as int] == arg_key(
                a.generic_args@[i as int]@,
            ));
            assert(long_id_key(b@).generic_args[i as int] == arg_key(
                b.generic_args@[i as int]@,
            ));
            return false;
        }
        i += 1;
    }
    assert(long_id_key(a@).generic_args =~= long_id_key(b@).generic_args);
    true
}

/// The entry is that of the given type; it was created at `created`, and nothing is known of its
/// type yet.
pub open spec fn is_new(entry: TypeEntry, long_id: LongIdView, created: u64) -> bool {
    &&& entry.long_id matches SierraTypeLongId::Regular(other) && other@ == long_id
    &&& entry.created == created
    &&& entry.info is Err
}

impl SierraGenDb {
    /// Whether the entry is the given type.
    pub open spec fn is_type(self, at: int, long_id: LongIdView) -> bool {
        self.types@[at].long_id matches SierraTypeLongId::Regular(other) && long_id_key(other@)
            == long_id_key(long_id)
    }

    /// Whether one of the entries is the given type.
    pub open spec fn has_type(self, long_id: LongIdView) -> bool {
        exists|i: int| 0 <= i < self.types@.len() && #[trigger] self.is_type(i, long_id)
    }

    /// The table of types was only extended, and the other tables are the same.
    pub open spec fn extended_by_types(self, earlier: SierraGenDb) -> bool {
        &&& self == (SierraGenDb { types: self.types, ..earlier })
        &&& earlier.types@.len() <= self.types@.len()
        &&& forall|i: int|
            0 <= i < earlier.types@.len() ==> (#[trigger] self.types@[i]) == earlier.types@[i]
    }

    /// What could be opened, or be created, can still be after the table of types was extended.
    proof fn lemma_extended(self, later: SierraGenDb)
        requires
            later.extended_by_types(self),
        ensures
            forall|args: Seq<GenericArgView>, bound: u64|
                self.args_below(args, bound) ==> #[trigger] later.args_below(args, bound),
            forall|at: int|
                0 <= at < self.types@.len() && self.type_ok(at) ==> #[trigger] later.type_ok(at),
            forall|at: int| self.libfunc_ok(at) ==> #[trigger] later.libfunc_ok(at),
    {
        assert forall|args: Seq<GenericArgView>, bound: u64|
            self.args_below(args, bound) implies #[trigger] later.args_below(args, bound) by {
            assert forall|i: int| 0 <= i < args.len() implies later.arg_below(
                #[trigger] args[i],
                bound,
            ) by {
                assert(self.arg_below(args[i], bound));
            }
        }
        assert forall|at: int|
            0 <= at < self.types@.len() && self.type_ok(at) implies #[trigger] later.type_ok(
            at,
        ) by {
            assert(later.types@[at] == self.types@[at]);
        }
    }

    /// The id of a type; the same types have the same id. A new entry is created at `created`.
    pub fn intern_concrete_type(&mut self, long_id: LongId, created: u64) -> (r: ConcreteTypeId)
        ensures
            final(self).extended_by_types(*old(self)),
            r@.debug_name is None,
            r@.id < final(self).types@.len(),
            final(self).is_type(r@.id as int, long_id@),
            forall|i: int| 0 <= i < r@.id ==> !#[trigger] final(self).is_type(i, long_id@),
            final(self).types@.len() == (if old(self).has_type(long_id@) {
                old(self).types@.len()
            } else {
                old(self).types@.len() + 1
            }),
            final(self).types@.len() > old(self).types@.len() ==> is_new(
                final(self).types@.last(),
                long_id@,
                created,
            ),
            old(self).wf() && (old(self).has_type(long_id@) || old(self).long_id_ok(
                long_id@,
                created,
            )) ==> final(self).wf(),
    {
        let mut i: usize = 0;
        while i < self.types.len()
            invariant
                i <= self.types@.len(),
                *self == *old(self),
                forall|j: int| 0 <= j < i ==> !#[trigger] self.is_type(j, long_id@),
            decreases self.types@.len() - i,
        {
            if let SierraTypeLongId::Regular(other) = &self.types[i].long_id {
                if same_long_id(other, &long_id) {
                    assert(old(self).is_type(i as int, long_id@));
                    return ConcreteTypeId { id: i as u64, debug_name: None };
                }
            }
            i += 1;
        }
        let ghost wanted = long_id@;
        self.types.push(
            TypeEntry {
                long_id: SierraTypeLongId::Regular(long_id),
                created,
                info: Err(DiagnosticAdded {  }),
            },
        );
        assert forall|j: int| 0 <= j < i implies !#[trigger] self.is_type(j, wanted) by {
            assert(!old(self).is_type(j, wanted));
        }
        proof {
            if old(self).wf() && old(self).long_id_ok(wanted, created) {
                old(self).lemma_extended(*self);
                assert(self.types@.last() == self.types@[i as int]);
            }
        }
        ConcreteTypeId { id: i as u64, debug_name: None }
    }
}

/// The tables of a program, as the specialization of library functions sees them.
pub struct SierraSignatureSpecializationContext(pub SierraGenDb);

pub open spec fn type_info_of(db: SierraGenDb, id: IdView) -> Option<TypeInfoView> {
    match db.types@[id.id as int].info {
        Ok(info) => Some(info@),
        Err(_) => None,
    }
}

pub open spec fn signature_of(db: SierraGenDb, id: IdView) -> Option<FunctionSignatureView> {
    match db.functions@[id.id as int].signature {
        Ok(signature) => Some(signature@),
        Err(_) => None,
    }
}

impl SierraSignatureSpecializationContext {
    /// What is known of the type, if anything is.
    pub fn try_get_type_info(&self, id: &ConcreteTypeId) -> (r: Option<TypeInfo>)
        requires
            self.0.knows_type(id@.id),
        ensures
            match r {
                Some(info) => type_info_of(self.0, id@) == Some(info@),
                None => type_info_of(self.0, id@) is None,
            },
    {
        assert(id.id < self.0.types.len());
        match &self.0.types[id.id as usize].info {
            Ok(info) => Some(info.duplicate()),
            Err(_) => None,
        }
    }

    /// The id of the type with these arguments. A new entry is created at `created`.
    pub fn try_get_concrete_type(
        &mut self,
        generic_id: String,
        generic_args: &Vec<GenericArg>,
        created: u64,
    ) -> (r: Option<ConcreteTypeId>)
        ensures
            r matches Some(id) && {
                let long_id = LongIdView {
                    generic_id: generic_id@,
                    generic_args: viewed(generic_args@),
                };
                &&& final(self).0.extended_by_types(old(self).0)
                &&& id@.debug_name is None
                &&& id@.id < final(self).0.types@.len()
                &&& final(self).0.is_type(id@.id as int, long_id)
                &&& forall|i: int|
                    0 <= i < id@.id ==> !#[trigger] final(self).0.is_type(i, long_id)
                &&& final(self).0.types@.len() == (if old(self).0.has_type(long_id) {
                    old(self).0.types@.len()
                } else {
                    old(self).0.types@.len() + 1
                })
                &&& final(self).0.types@.len() > old(self).0.types@.len() ==> is_new(
                    final(self).0.types@.last(),
                    long_id,
                    created,
                )
                &&& old(self).0.wf() && (old(self).0.has_type(long_id) || old(self).0.long_id_ok(
                    long_id,
                    created,
                )) ==> final(self).0.wf()
            },
    {
        let long_id = LongId { generic_id, generic_args: duplicates(generic_args) };
        Some(self.0.intern_concrete_type(long_id, created))
    }

    /// The signature of the function, if it has a valid one.
    pub fn try_get_function_signature(&self, function_id: &FunctionId) -> (r: Option<
        FunctionSignature,
    >)
        requires
            self.0.knows_function(function_id@.id),
        ensures
            match r {
                Some(signature) => signature_of(self.0, function_id@) == Some(signature@),
                None => signature_of(self.0, function_id@) is None,
            },
    {
        assert(function_id.id < self.0.functions.len());
        match &self.0.functions[function_id.id as usize].signature {
            Ok(signature) => Some(signature.duplicate()),
            Err(_) => None,
        }
    }

    /// The change of the allocation pointer by the function, which has a body.
    pub fn try_get_function_ap_change(&self, function_id: &FunctionId) -> (r: Option<
        SierraApChange,
    >)
        requires
            self.0.knows_function(function_id@.id),
            self.0.functions@[function_id@.id as int].ap_change is Some,
        ensures
            r == (match self.0.functions@[function_id@.id as int].ap_change->Some_0 {
                Ok(ap_change) => Some(ap_change),
                Err(_) => None,
            }),
    {
        assert(function_id.id < self.0.functions.len());
        match self.0.functions[function_id.id as usize].ap_change {
            Some(Ok(ap_change)) => Some(ap_change),
            _ => None,
        }
    }
}

/// Two arguments stand for the same where they are of the same kind and have the same number,
/// whatever their names are.
pub open spec fn stand_for_the_same(a: GenericArgView, b: GenericArgView) -> bool {
    match (a, b) {
        (GenericArgView::UserType(a), GenericArgView::UserType(b)) => a.id == b.id,
        (GenericArgView::Type(a), GenericArgView::Type(b)) => a.id == b.id,
        (GenericArgView::Value(a), GenericArgView::Value(b)) => a == b,
        (GenericArgView::UserFunc(a), GenericArgView::UserFunc(b)) => a.id == b.id,
        (GenericArgView::Libfunc(a), GenericArgView::Libfunc(b)) => a.id == b.id,
        _ => false,
    }
}

/// Two types are the same exactly where they have the same generic type, and arguments that stand
/// for the same, one by one.
pub proof fn types_are_the_same_where_their_arguments_are(a: LongIdView, b: LongIdView)
    ensures
        long_id_key(a) == long_id_key(b) <==> {
            &&& a.generic_id == b.generic_id
            &&& a.generic_args.len() == b.generic_args.len()
            &&& forall|i: int|
                0 <= i < a.generic_args.len() ==> stand_for_the_same(
                    #[trigger] a.generic_args[i],
                    b.generic_args[i],
                )
        },
{
    let x = long_id_key(a);
    let y = long_id_key(b);
    assert(x.generic_args.len() == a.generic_args.len());
    assert(y.generic_args.len() == b.generic_args.len());
    assert forall|i: int|
        0 <= i < a.generic_args.len() && i < b.generic_args.len() implies (stand_for_the_same(
        #[trigger] a.generic_args[i],
        b.generic_args[i],
    ) <==> x.generic_args[i] == y.generic_args[i]) by {}
    if x == y {
        assert forall|i: int| 0 <= i < a.generic_args.len() implies stand_for_the_same(
            #[trigger] a.generic_args[i],
            b.generic_args[i],
        ) by {
            assert(x.generic_args[i] == y.generic_args[i]);
        }
    }
    if a.generic_id == b.generic_id && a.generic_args.len() == b.generic_args.len() && forall|
        i: int,
    |
        0 <= i < a.generic_args.len() ==> stand_for_the_same(
            #[trigger] a.generic_args[i],
            b.generic_args[i],
        ) {
        assert forall|i: int| 0 <= i < x.generic_args.len() implies #[trigger] x.generic_args[i]
            == y.generic_args[i] by {
            assert(stand_for_the_same(a.generic_args[i], b.generic_args[i]));
        }
        assert(x.generic_args =~= y.generic_args);
    }
}

/// Two types that were interned one after the other have the same number exactly where they are the
/// same.
pub proof fn interned_types_are_told_apart(
    db: SierraGenDb,
    a: LongIdView,
    a_id: int,
    b: LongIdView,
    b_id: int,
)
    requires
        0 <= a_id < db.types@.len(),
        0 <= b_id < db.types@.len(),
        db.is_type(a_id, a),
        db.is_type(b_id, b),
        forall|i: int| 0 <= i < a_id ==> !#[trigger] db.is_type(i, a),
        forall|i: int| 0 <= i < b_id ==> !#[trigger] db.is_type(i, b),
    ensures
        a_id == b_id <==> long_id_key(a) == long_id_key(b),
{
    if long_id_key(a) == long_id_key(b) {
        assert(db.is_type(a_id, b));
        assert(db.is_type(b_id, a));
    }
}

/// What is known of a type or a function is what its entry says.
pub proof fn entries_say_what_is_known(db: SierraGenDb, id: IdView)
    ensures
        match db.types@[id.id as int].info {
            Ok(info) => type_info_of(db, id) matches Some(known) && {
                &&& known.long_id == info.long_id@
                &&& known.storable == info.storable
                &&& known.droppable == info.droppable
                &&& known.duplicatable == info.duplicatable
                &&& known.zero_sized == info.zero_sized
            },
            Err(_) => type_info_of(db, id) is None,
        },
        match db.functions@[id.id as int].signature {
            Ok(signature) => signature_of(db, id) matches Some(known) && {
                &&& known.param_types == viewed(signature.param_types@)
                &&& known.ret_types == viewed(signature.ret_types@)
            },
            Err(_) => signature_of(db, id) is None,
        },
{
}

} // verus!
