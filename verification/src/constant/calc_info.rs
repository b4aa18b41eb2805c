//! What the constant calculation knows of the core library.
use vstd::prelude::*;

use crate::constant::value::{lemma_struct_view, views, ConstValue, ConstView};
use crate::containers::{flags, id_set, ids, new_flags, set_flag, IdFlags, IdSet};
use crate::search::{first_where, lemma_first_where};
use crate::semantic::db::{CoreInfo, SemanticDb};
use crate::semantic::ids::{ExternFunctionId, FunctionId};

verus! {

/// A module of the core library.
#[derive(Debug)]
pub struct CoreModule {
    pub extern_functions: Vec<(String, ExternFunctionId)>,
}

/// The modules of the core library whose functions the constant calculation knows.
#[derive(Debug)]
pub struct CoreModules {
    /// `core::internal::bounded_int`.
    pub bounded_int: CoreModule,
    /// `core::integer`.
    pub integer: CoreModule,
    /// `core::zeroable`.
    pub zeroable: CoreModule,
    /// `core::starknet::class_hash`.
    pub class_hash: CoreModule,
    /// `core::starknet::contract_address`.
    pub contract_address: CoreModule,
    /// The function `core::panic_with_felt252`.
    pub panic_with_felt252: FunctionId,
}

pub open spec fn function_named(name: Seq<char>) -> spec_fn((String, ExternFunctionId)) -> bool {
    |entry: (String, ExternFunctionId)| entry.0@ == name
}

impl CoreModule {
    pub open spec fn find(self, name: Seq<char>) -> Option<int> {
        first_where(self.extern_functions@, function_named(name), 0)
    }

    pub open spec fn has(self, name: Seq<char>) -> bool {
        self.find(name) is Some
    }

    /// The id of the first function with the given name.
    pub open spec fn id_of(self, name: Seq<char>) -> u64 {
        self.extern_functions@[self.find(name)->Some_0].1.0
    }

    /// The id of the extern function with the given name.
    pub fn extern_function_id(&self, name: &str) -> (r: u64)
        requires
            self.has(name@),
        ensures
            r == self.id_of(name@),
    {
        let wanted = name.to_owned();
        let ghost p = function_named(name@);
        let mut i: usize = 0;
        while i < self.extern_functions.len()
            invariant
                i <= self.extern_functions@.len(),
                p == function_named(name@),
                wanted@ == name@,
                self.has(name@),
                first_where(self.extern_functions@, p, 0) == first_where(
                    self.extern_functions@,
                    p,
                    i as int,
                ),
            decreases self.extern_functions@.len() - i,
        {
            if self.extern_functions[i].0 == wanted {
                return self.extern_functions[i].1.0;
            }
            i += 1;
        }
        0
    }
}

impl CoreModules {
    /// The functions of the core library that the calculation knows are there.
    pub open spec fn complete(self) -> bool {
        &&& self.bounded_int.has("upcast"@)
        &&& self.bounded_int.has("downcast"@)
        &&& self.bounded_int.has("bounded_int_trim_min"@)
        &&& self.bounded_int.has("bounded_int_trim_max"@)
        &&& self.integer.has("u8_to_felt252"@)
        &&& self.integer.has("u16_to_felt252"@)
        &&& self.integer.has("u32_to_felt252"@)
        &&& self.integer.has("u64_to_felt252"@)
        &&& self.integer.has("u128_to_felt252"@)
        &&& self.integer.has("i8_to_felt252"@)
        &&& self.integer.has("i16_to_felt252"@)
        &&& self.integer.has("i32_to_felt252"@)
        &&& self.integer.has("i64_to_felt252"@)
        &&& self.integer.has("i128_to_felt252"@)
        &&& self.integer.has("u8_try_from_felt252"@)
        &&& self.integer.has("u16_try_from_felt252"@)
        &&& self.integer.has("u32_try_from_felt252"@)
        &&& self.integer.has("u64_try_from_felt252"@)
        &&& self.integer.has("i8_try_from_felt252"@)
        &&& self.integer.has("i16_try_from_felt252"@)
        &&& self.integer.has("i32_try_from_felt252"@)
        &&& self.integer.has("i64_try_from_felt252"@)
        &&& self.integer.has("i128_try_from_felt252"@)
        &&& self.class_hash.has("class_hash_to_felt252"@)
        &&& self.class_hash.has("class_hash_try_from_felt252"@)
        &&& self.contract_address.has("contract_address_to_felt252"@)
        &&& self.contract_address.has("contract_address_try_from_felt252"@)
        &&& self.zeroable.has("unwrap_non_zero"@)
    }

    /// The known functions are there, and differ from each other.
    pub open spec fn wf(self) -> bool {
        &&& self.complete()
        &&& forall|i: int, j: int|
            0 <= i < j < self.known_functions().len() ==> #[trigger] self.known_functions()[i]
                != #[trigger] self.known_functions()[j]
    }

    /// All the functions that are known: casts, and the unwrapping of a `NonZero`.
    pub open spec fn known_functions(self) -> Seq<u64> {
        self.upcasts() + self.downcasts().map_values(|entry: (u64, bool)| entry.0) + seq![
            self.zeroable.id_of("unwrap_non_zero"@),
        ]
    }

    /// The integer `upcast` style functions.
    pub open spec fn upcasts(self) -> Seq<u64> {
        seq![
            self.bounded_int.id_of("upcast"@),
            self.integer.id_of("u8_to_felt252"@),
            self.integer.id_of("u16_to_felt252"@),
            self.integer.id_of("u32_to_felt252"@),
            self.integer.id_of("u64_to_felt252"@),
            self.integer.id_of("u128_to_felt252"@),
            self.integer.id_of("i8_to_felt252"@),
            self.integer.id_of("i16_to_felt252"@),
            self.integer.id_of("i32_to_felt252"@),
            self.integer.id_of("i64_to_felt252"@),
            self.integer.id_of("i128_to_felt252"@),
            self.class_hash.id_of("class_hash_to_felt252"@),
            self.contract_address.id_of("contract_address_to_felt252"@),
        ]
    }

    /// The integer `downcast` style functions, each with whether it returns a reversed `Option`.
    pub open spec fn downcasts(self) -> Seq<(u64, bool)> {
        seq![
            (self.bounded_int.id_of("downcast"@), false),
            (self.bounded_int.id_of("bounded_int_trim_min"@), true),
            (self.bounded_int.id_of("bounded_int_trim_max"@), true),
            (self.integer.id_of("u8_try_from_felt252"@), false),
            (self.integer.id_of("u16_try_from_felt252"@), false),
            (self.integer.id_of("u32_try_from_felt252"@), false),
            (self.integer.id_of("u64_try_from_felt252"@), false),
            (self.integer.id_of("i8_try_from_felt252"@), false),
            (self.integer.id_of("i16_try_from_felt252"@), false),
            (self.integer.id_of("i32_try_from_felt252"@), false),
            (self.integer.id_of("i64_try_from_felt252"@), false),
            (self.integer.id_of("i128_try_from_felt252"@), false),
            (self.class_hash.id_of("class_hash_try_from_felt252"@), false),
            (self.contract_address.id_of("contract_address_try_from_felt252"@), false),
        ]
    }

    fn upcast_fns(&self) -> (r: IdSet)
        requires
            self.complete(),
        ensures
            ids(r) == self.upcasts().to_set(),
    {
        let fns: Vec<u64> = vec![
            self.bounded_int.extern_function_id("upcast"),
            self.integer.extern_function_id("u8_to_felt252"),
            self.integer.extern_function_id("u16_to_felt252"),
            self.integer.extern_function_id("u32_to_felt252"),
            self.integer.extern_function_id("u64_to_felt252"),
            self.integer.extern_function_id("u128_to_felt252"),
            self.integer.extern_function_id("i8_to_felt252"),
            self.integer.extern_function_id("i16_to_felt252"),
            self.integer.extern_function_id("i32_to_felt252"),
            self.integer.extern_function_id("i64_to_felt252"),
            self.integer.extern_function_id("i128_to_felt252"),
            self.class_hash.extern_function_id("class_hash_to_felt252"),
            self.contract_address.extern_function_id("contract_address_to_felt252"),
        ];
        assert(fns@ =~= self.upcasts());
        id_set(fns)
    }

    fn downcast_fns(&self) -> (r: IdFlags)
        requires
            self.complete(),
        ensures
            flags(r) == entries_map(self.downcasts(), self.downcasts().len()),
    {
        let fns: Vec<(u64, bool)> = vec![
            (self.bounded_int.extern_function_id("downcast"), false),
            (self.bounded_int.extern_function_id("bounded_int_trim_min"), true),
            (self.bounded_int.extern_function_id("bounded_int_trim_max"), true),
            (self.integer.extern_function_id("u8_try_from_felt252"), false),
            (self.integer.extern_function_id("u16_try_from_felt252"), false),
            (self.integer.extern_function_id("u32_try_from_felt252"), false),
            (self.integer.extern_function_id("u64_try_from_felt252"), false),
            (self.integer.extern_function_id("i8_try_from_felt252"), false),
            (self.integer.extern_function_id("i16_try_from_felt252"), false),
            (self.integer.extern_function_id("i32_try_from_felt252"), false),
            (self.integer.extern_function_id("i64_try_from_felt252"), false),
            (self.integer.extern_function_id("i128_try_from_felt252"), false),
            (self.class_hash.extern_function_id("class_hash_try_from_felt252"), false),
            (self.contract_address.extern_function_id("contract_address_try_from_felt252"), false),
        ];
        assert(fns@ =~= self.downcasts());
        let mut map = new_flags();
        let mut i: usize = 0;
        while i < fns.len()
            invariant
                i <= fns@.len(),
                flags(map) == entries_map(fns@, i as nat),
            decreases fns@.len() - i,
        {
            set_flag(&mut map, fns[i].0, fns[i].1);
            i += 1;
        }
        map
    }
}

/// The map of the first `n` entries; a later entry of a key replaces an earlier one.
pub open spec fn entries_map(entries: Seq<(u64, bool)>, n: nat) -> Map<u64, bool>
    decreases n,
{
    if n == 0 {
        Map::empty()
    } else {
        entries_map(entries, (n - 1) as nat).insert(entries[n - 1].0, entries[n - 1].1)
    }
}

proof fn lemma_entries_map(entries: Seq<(u64, bool)>, n: nat, key: u64)
    requires
        n <= entries.len(),
        entries_map(entries, n).contains_key(key),
    ensures
        exists|i: int| 0 <= i < n && (#[trigger] entries[i]).0 == key,
    decreases n,
{
    if n > 0 && entries[n - 1].0 != key {
        lemma_entries_map(entries, (n - 1) as nat, key);
    }
}

/// No function is known for two things.
proof fn lemma_known_functions(core: CoreModules)
    requires
        core.wf(),
    ensures
        ({
            let downcasts = entries_map(core.downcasts(), core.downcasts().len());
            let unwrap = core.zeroable.id_of("unwrap_non_zero"@);
            &&& forall|id: u64| #[trigger]
                core.upcasts().to_set().contains(id) ==> !downcasts.contains_key(id)
            &&& !core.upcasts().to_set().contains(unwrap)
            &&& !downcasts.contains_key(unwrap)
        }),
{
    let all = core.known_functions();
    let up = core.upcasts();
    let down = core.downcasts();
    let downcasts = entries_map(down, down.len());
    let unwrap = core.zeroable.id_of("unwrap_non_zero"@);
    assert(all.len() == up.len() + down.len() + 1);
    assert(all[(up.len() + down.len()) as int] == unwrap);
    assert forall|id: u64| #[trigger] up.to_set().contains(id) implies !downcasts.contains_key(
        id,
    ) && id != unwrap by {
        assert(up.contains(id));
        let i = choose|i: int| 0 <= i < up.len() && up[i] == id;
        assert(all[i] == id);
        if downcasts.contains_key(id) {
            lemma_entries_map(down, down.len(), id);
            let j = choose|j: int| 0 <= j < down.len() && (#[trigger] down[j]).0 == id;
            assert(all[up.len() + j] == id);
        }
    }
    if downcasts.contains_key(unwrap) {
        lemma_entries_map(down, down.len(), unwrap);
        let j = choose|j: int| 0 <= j < down.len() && (#[trigger] down[j]).0 == unwrap;
        assert(all[up.len() + j] == unwrap);
    }
}

/// The traits that are allowed for constants if their impl is in the core library.
pub open spec fn const_trait_ids(core_info: CoreInfo) -> Seq<u64> {
    seq![
        core_info.neg_trt.0,
        core_info.add_trt.0,
        core_info.sub_trt.0,
        core_info.mul_trt.0,
        core_info.div_trt.0,
        core_info.rem_trt.0,
        core_info.div_rem_trt.0,
        core_info.bitand_trt.0,
        core_info.bitor_trt.0,
        core_info.bitxor_trt.0,
        core_info.partialeq_trt.0,
        core_info.partialord_trt.0,
        core_info.not_trt.0,
    ]
}

fn const_traits(core_info: &CoreInfo) -> (r: IdSet)
    ensures
        ids(r) == const_trait_ids(*core_info).to_set(),
{
    let traits: Vec<u64> = vec![
        core_info.neg_trt.0,
        core_info.add_trt.0,
        core_info.sub_trt.0,
        core_info.mul_trt.0,
        core_info.div_trt.0,
        core_info.rem_trt.0,
        core_info.div_rem_trt.0,
        core_info.bitand_trt.0,
        core_info.bitor_trt.0,
        core_info.bitxor_trt.0,
        core_info.partialeq_trt.0,
        core_info.partialord_trt.0,
        core_info.not_trt.0,
    ];
    assert(traits@ =~= const_trait_ids(*core_info));
    id_set(traits)
}

/// The constant of the unit type `()`.
pub open spec fn unit_view(db: SemanticDb) -> ConstView {
    ConstView::Struct(Seq::empty(), db.core_info.unit)
}

/// The constant of `true` or `false`.
pub open spec fn bool_view(db: SemanticDb, value: bool) -> ConstView {
    ConstView::Enum(
        if value {
            db.core_info.true_variant
        } else {
            db.core_info.false_variant
        },
        Box::new(unit_view(db)),
    )
}

/// Holds static information about extern functions required for const calculations.
#[derive(Debug)]
pub struct ConstCalcInfo {
    /// Traits that are allowed for consts if their impls is in the corelib.
    pub const_traits: IdSet,
    /// The const value for the unit type `()`.
    pub unit_const: ConstValue,
    /// The const value for `true`.
    pub true_const: ConstValue,
    /// The const value for `false`.
    pub false_const: ConstValue,
    /// The function for panicking with a felt252.
    pub panic_with_felt252: FunctionId,
    /// The integer `upcast` style functions.
    pub upcast_fns: IdSet,
    /// The integer `downcast` style functions, mapping to whether it returns a reversed Option
    /// enum.
    pub downcast_fns: IdFlags,
    /// The `unwrap_non_zero` function.
    pub unwrap_non_zero: ExternFunctionId,
}

fn unit_value(db: &SemanticDb) -> (r: ConstValue)
    ensures
        r@ == unit_view(*db),
{
    let members: Vec<ConstValue> = Vec::new();
    proof {
        lemma_struct_view(members, db.core_info.unit);
        assert(views(members@) =~= Seq::empty());
    }
    ConstValue::Struct(members, db.core_info.unit.clone())
}

impl ConstCalcInfo {
    /// No extern function is known for two things.
    pub open spec fn casts_differ(self) -> bool {
        &&& forall|id: u64| #[trigger]
            ids(self.upcast_fns).contains(id) ==> !flags(self.downcast_fns).contains_key(id)
        &&& !ids(self.upcast_fns).contains(self.unwrap_non_zero.0)
        &&& !flags(self.downcast_fns).contains_key(self.unwrap_non_zero.0)
    }

    /// The constants are those of the core library of `db`, and no extern function is known for two
    /// things.
    pub open spec fn wf(self, db: SemanticDb) -> bool {
        &&& self.casts_differ()
        &&& self.unit_const@ == unit_view(db)
        &&& self.true_const@ == bool_view(db, true)
        &&& self.false_const@ == bool_view(db, false)
    }

    /// Creates a new ConstCalcInfo.
    pub fn new(db: &SemanticDb, core: &CoreModules) -> (r: Self)
        requires
            core.wf(),
        ensures
            r.wf(*db),
            ids(r.const_traits) == const_trait_ids(db.core_info).to_set(),
            r.panic_with_felt252 == core.panic_with_felt252,
            ids(r.upcast_fns) == core.upcasts().to_set(),
            flags(r.downcast_fns) == entries_map(core.downcasts(), core.downcasts().len()),
            r.unwrap_non_zero.0 == core.zeroable.id_of("unwrap_non_zero"@),
    {
        proof {
            lemma_known_functions(*core);
        }
        ConstCalcInfo {
            const_traits: const_traits(&db.core_info),
            unit_const: unit_value(db),
            true_const: ConstValue::Enum(
                db.core_info.true_variant.clone(),
                Box::new(unit_value(db)),
            ),
            false_const: ConstValue::Enum(
                db.core_info.false_variant.clone(),
                Box::new(unit_value(db)),
            ),
            panic_with_felt252: core.panic_with_felt252,
            upcast_fns: core.upcast_fns(),
            downcast_fns: core.downcast_fns(),
            unwrap_non_zero: ExternFunctionId(core.zeroable.extern_function_id("unwrap_non_zero")),
        }
    }
}

/// Query implementation of the information for const calculations.
pub fn const_calc_info(db: &SemanticDb, core: &CoreModules) -> (r: std::sync::Arc<ConstCalcInfo>)
    requires
        core.wf(),
    ensures
        r.wf(*db),
        ids(r.const_traits) == const_trait_ids(db.core_info).to_set(),
        r.panic_with_felt252 == core.panic_with_felt252,
        ids(r.upcast_fns) == core.upcasts().to_set(),
        flags(r.downcast_fns) == entries_map(core.downcasts(), core.downcasts().len()),
        r.unwrap_non_zero.0 == core.zeroable.id_of("unwrap_non_zero"@),
{
    std::sync::Arc::new(ConstCalcInfo::new(db, core))
}

/// The operators that constants may use are those of these traits, and no others.
pub proof fn const_traits_are_those_of_operators(core_info: CoreInfo, id: u64)
    ensures
        const_trait_ids(core_info).to_set().contains(id) <==> {
            ||| id == core_info.neg_trt.0
            ||| id == core_info.add_trt.0
            ||| id == core_info.sub_trt.0
            ||| id == core_info.mul_trt.0
            ||| id == core_info.div_trt.0
            ||| id == core_info.rem_trt.0
            ||| id == core_info.div_rem_trt.0
            ||| id == core_info.bitand_trt.0
            ||| id == core_info.bitor_trt.0
            ||| id == core_info.bitxor_trt.0
            ||| id == core_info.partialeq_trt.0
            ||| id == core_info.partialord_trt.0
            ||| id == core_info.not_trt.0
        },
{
    let all = const_trait_ids(core_info);
    assert(all[0] == core_info.neg_trt.0);
    assert(all[1] == core_info.add_trt.0);
    assert(all[2] == core_info.sub_trt.0);
    assert(all[3] == core_info.mul_trt.0);
    assert(all[4] == core_info.div_trt.0);
    assert(all[5] == core_info.rem_trt.0);
    assert(all[6] == core_info.div_rem_trt.0);
    assert(all[7] == core_info.bitand_trt.0);
    assert(all[8] == core_info.bitor_trt.0);
    assert(all[9] == core_info.bitxor_trt.0);
    assert(all[10] == core_info.partialeq_trt.0);
    assert(all[11] == core_info.partialord_trt.0);
    assert(all[12] == core_info.not_trt.0);
    if all.contains(id) {
        let i = choose|i: int| 0 <= i < all.len() && all[i] == id;
        assert(all[i] == id);
    }
}

/// The upcasts are these functions of the core library, and no others.
pub proof fn upcasts_are_those_of_the_core_library(core: CoreModules, id: u64)
    ensures
        core.upcasts().to_set().contains(id) <==> {
            ||| id == core.bounded_int.id_of("upcast"@)
            ||| id == core.integer.id_of("u8_to_felt252"@)
            ||| id == core.integer.id_of("u16_to_felt252"@)
            ||| id == core.integer.id_of("u32_to_felt252"@)
            ||| id == core.integer.id_of("u64_to_felt252"@)
            ||| id == core.integer.id_of("u128_to_felt252"@)
            ||| id == core.integer.id_of("i8_to_felt252"@)
            ||| id == core.integer.id_of("i16_to_felt252"@)
            ||| id == core.integer.id_of("i32_to_felt252"@)
            ||| id == core.integer.id_of("i64_to_felt252"@)
            ||| id == core.integer.id_of("i128_to_felt252"@)
            ||| id == core.class_hash.id_of("class_hash_to_felt252"@)
            ||| id == core.contract_address.id_of("contract_address_to_felt252"@)
        },
{
    let all = core.upcasts();
    assert(all[0] == core.bounded_int.id_of("upcast"@));
    assert(all[1] == core.integer.id_of("u8_to_felt252"@));
    assert(all[2] == core.integer.id_of("u16_to_felt252"@));
    assert(all[3] == core.integer.id_of("u32_to_felt252"@));
    assert(all[4] == core.integer.id_of("u64_to_felt252"@));
    assert(all[5] == core.integer.id_of("u128_to_felt252"@));
    assert(all[6] == core.integer.id_of("i8_to_felt252"@));
    assert(all[7] == core.integer.id_of("i16_to_felt252"@));
    assert(all[8] == core.integer.id_of("i32_to_felt252"@));
    assert(all[9] == core.integer.id_of("i64_to_felt252"@));
    assert(all[10] == core.integer.id_of("i128_to_felt252"@));
    assert(all[11] == core.class_hash.id_of("class_hash_to_felt252"@));
    assert(all[12] == core.contract_address.id_of("contract_address_to_felt252"@));
    if all.contains(id) {
        let i = choose|i: int| 0 <= i < all.len() && all[i] == id;
        assert(all[i] == id);
    }
}

proof fn lemma_entry(entries: Seq<(u64, bool)>, n: nat, at: int)
    requires
        0 <= at < n <= entries.len(),
        forall|i: int, j: int|
            0 <= i < j < entries.len() ==> (#[trigger] entries[i]).0 != (#[trigger] entries[j]).0,
    ensures
        entries_map(entries, n).contains_key(entries[at].0),
        entries_map(entries, n)[entries[at].0] == entries[at].1,
    decreases n,
{
    if at < n - 1 {
        lemma_entry(entries, (n - 1) as nat, at);
        assert(entries[at].0 != entries[n - 1].0);
    }
}

/// The downcasts are these functions of the core library, and no others. Only those that trim a
/// bounded integer return a reversed `Option`.
pub proof fn downcasts_are_those_of_the_core_library(core: CoreModules, id: u64)
    requires
        core.wf(),
    ensures
        ({
            let downcasts = entries_map(core.downcasts(), core.downcasts().len());
            let trims = {
                ||| id == core.bounded_int.id_of("bounded_int_trim_min"@)
                ||| id == core.bounded_int.id_of("bounded_int_trim_max"@)
            };
            &&& downcasts.contains_key(id) <==> trims || {
                ||| id == core.bounded_int.id_of("downcast"@)
                ||| id == core.integer.id_of("u8_try_from_felt252"@)
                ||| id == core.integer.id_of("u16_try_from_felt252"@)
                ||| id == core.integer.id_of("u32_try_from_felt252"@)
                ||| id == core.integer.id_of("u64_try_from_felt252"@)
                ||| id == core.integer.id_of("i8_try_from_felt252"@)
                ||| id == core.integer.id_of("i16_try_from_felt252"@)
                ||| id == core.integer.id_of("i32_try_from_felt252"@)
                ||| id == core.integer.id_of("i64_try_from_felt252"@)
                ||| id == core.integer.id_of("i128_try_from_felt252"@)
                ||| id == core.class_hash.id_of("class_hash_try_from_felt252"@)
                ||| id == core.contract_address.id_of("contract_address_try_from_felt252"@)
            }
            &&& downcasts.contains_key(id) ==> downcasts[id] == trims
        }),
{
    let all = core.downcasts();
    let known = core.known_functions();
    let up = core.upcasts();
    assert forall|i: int, j: int| 0 <= i < j < all.len() implies (#[trigger] all[i]).0 != (
    #[trigger] all[j]).0 by {
        assert(known[up.len() + i] == all[i].0);
        assert(known[up.len() + j] == all[j].0);
    }
    assert forall|i: int| 0 <= i < all.len() implies entries_map(all, all.len()).contains_key(
        (#[trigger] all[i]).0,
    ) && entries_map(all, all.len())[all[i].0] == all[i].1 by {
        lemma_entry(all, all.len(), i);
    }
    assert(all[0] == (core.bounded_int.id_of("downcast"@), false));
    assert(all[1] == (core.bounded_int.id_of("bounded_int_trim_min"@), true));
    assert(all[2] == (core.bounded_int.id_of("bounded_int_trim_max"@), true));
    assert(all[3] == (core.integer.id_of("u8_try_from_felt252"@), false));
    assert(all[4] == (core.integer.id_of("u16_try_from_felt252"@), false));
    assert(all[5] == (core.integer.id_of("u32_try_from_felt252"@), false));
    assert(all[6] == (core.integer.id_of("u64_try_from_felt252"@), false));
    assert(all[7] == (core.integer.id_of("i8_try_from_felt252"@), false));
    assert(all[8] == (core.integer.id_of("i16_try_from_felt252"@), false));
    assert(all[9] == (core.integer.id_of("i32_try_from_felt252"@), false));
    assert(all[10] == (core.integer.id_of("i64_try_from_felt252"@), false));
    assert(all[11] == (core.integer.id_of("i128_try_from_felt252"@), false));
    assert(all[12] == (core.class_hash.id_of("class_hash_try_from_felt252"@), false));
    assert(all[13] == (core.contract_address.id_of("contract_address_try_from_felt252"@), false));
    if entries_map(all, all.len()).contains_key(id) {
        lemma_entries_map(all, all.len(), id);
        let i = choose|i: int| 0 <= i < all.len() && (#[trigger] all[i]).0 == id;
        assert(all[i].0 == id);
    }
}

/// A function of a module is found by its name: it is the first of that name.
pub proof fn functions_are_found_by_their_names(module: CoreModule, name: Seq<char>, at: int)
    requires
        0 <= at < module.extern_functions@.len(),
        module.extern_functions@[at].0@ == name,
        forall|i: int| 0 <= i < at ==> (#[trigger] module.extern_functions@[i]).0@ != name,
    ensures
        module.has(name),
        module.id_of(name) == module.extern_functions@[at].1.0,
{
    lemma_first_where(module.extern_functions@, function_named(name), 0);
}

/// The constants of booleans hold the unit in the variants of `bool`, and differ.
pub proof fn booleans_are_variants_with_the_unit(db: SemanticDb)
    requires
        db.core_info.wf(),
    ensures
        bool_view(db, true) == ConstView::Enum(
            db.core_info.true_variant,
            Box::new(ConstView::Struct(Seq::empty(), db.core_info.unit)),
        ),
        bool_view(db, false) == ConstView::Enum(
            db.core_info.false_variant,
            Box::new(ConstView::Struct(Seq::empty(), db.core_info.unit)),
        ),
        bool_view(db, true) != bool_view(db, false),
        unit_view(db) == ConstView::Struct(Seq::empty(), db.core_info.unit),
{
    assert(bool_view(db, true)->Enum_0 != bool_view(db, false)->Enum_0);
}

} // verus!
