//! Texts of constant values.
use vstd::prelude::*;

use crate::constant::value::{lemma_struct_view, views, ConstValue, ConstView, ImplConstantId};
use crate::search::{first_where, lemma_first_where};
use crate::semantic::db::{param_with_id, SemanticDb};
use crate::semantic::ids::{ConcreteVariant, ConstVarId, TypeId, VariantId};
use crate::text::{decimal, int_text, joined, number};

verus! {

/// The text of a type.
pub open spec fn type_text(db: SemanticDb, ty: TypeId) -> Option<Seq<char>>
    decreases ty,
{
    match ty {
        TypeId::Named(idx) => if idx < db.types@.len() {
            Some(db.types@[idx as int].name@)
        } else {
            None
        },
        TypeId::NonZero(inner) => match type_text(db, *inner) {
            Some(text) => Some(db.nonzero_path@ + "::<"@ + text + ">"@),
            None => None,
        },
        TypeId::Boxed(inner) => match type_text(db, *inner) {
            Some(text) => Some(db.box_path@ + "::<"@ + text + ">"@),
            None => None,
        },
    }
}

pub open spec fn variant_named(id: VariantId) -> spec_fn((VariantId, String)) -> bool {
    |entry: (VariantId, String)| entry.0 == id
}

/// The text of a variant: the names of its enum and of the variant.
pub open spec fn variant_text(db: SemanticDb, variant: ConcreteVariant) -> Option<Seq<char>> {
    let id = variant.concrete_enum_id.0;
    if id < db.enums@.len() {
        let names = db.enums@[id as int].variant_names@;
        match first_where(names, variant_named(variant.id), 0) {
            Some(at) => Some(db.enums@[id as int].name@ + "::"@ + names[at].1@),
            None => None,
        }
    } else {
        None
    }
}

/// The text of a constant value; `None` where it holds something that the tables do not know.
pub open spec fn value_text(db: SemanticDb, value: ConstView) -> Option<Seq<char>>
    decreases value, 0nat,
{
    match value {
        ConstView::Int(value, _) => Some(int_text(value)),
        ConstView::Struct(members, _) => match members_text(db, members, members.len()) {
            Some(text) => Some("{"@ + text + "}"@),
            None => None,
        },
        ConstView::Enum(variant, inner) => match (
            variant_text(db, variant),
            value_text(db, *inner),
        ) {
            (Some(variant), Some(inner)) => Some(variant + "("@ + inner + ")"@),
            _ => None,
        },
        ConstView::NonZero(inner) => match value_text(db, *inner) {
            Some(text) => Some("NonZero("@ + text + ")"@),
            None => None,
        },
        ConstView::Boxed(inner) => match value_text(db, *inner) {
            Some(text) => Some(text + ".into_box()"@),
            None => None,
        },
        ConstView::Generic(param) => match first_where(
            db.generic_const_params@,
            param_with_id(param),
            0,
        ) {
            Some(at) => Some(db.generic_const_params@[at].name@),
            None => None,
        },
        ConstView::Var(var, _) => Some("?"@ + decimal(var.0 as nat)),
        ConstView::Missing => Some("missing"@),
        ConstView::ImplConstant(id) => if id.spec_impl_id().0 < db.impls@.len()
            && id.spec_trait_constant_id().0 < db.trait_constants@.len() {
            Some(id.spec_format(db))
        } else {
            None
        },
    }
}

/// The text of a member of a struct, with its type.
pub open spec fn member_text(text: Seq<char>, ty: Seq<char>, last: bool) -> Seq<char> {
    " "@ + text + ": "@ + ty + (if last {
        " "@
    } else {
        ","@
    })
}

/// The text of the first `n` members of a struct, each with its type.
pub open spec fn members_text(db: SemanticDb, members: Seq<ConstView>, n: nat) -> Option<Seq<char>>
    decreases members, n,
{
    if n == 0 || n > members.len() {
        Some(Seq::empty())
    } else {
        let value = members[n - 1];
        match (
            members_text(db, members, (n - 1) as nat),
            value_text(db, value),
            db.spec_const_ty(value),
        ) {
            (Some(before), Some(text), Ok(ty)) => match type_text(db, ty) {
                Some(ty) => Some(before + member_text(text, ty, n == members.len())),
                None => None,
            },
            _ => None,
        }
    }
}

/// Where one of the members has no text, the members as a whole have none.
proof fn lemma_members_text(db: SemanticDb, members: Seq<ConstView>, n: nat, m: nat)
    requires
        n <= m <= members.len(),
        members_text(db, members, m) is Some,
    ensures
        members_text(db, members, n) is Some,
    decreases m - n,
{
    if n < m {
        lemma_members_text(db, members, n, (m - 1) as nat);
    }
}

impl TypeId {
    /// The text of the type.
    pub fn format(&self, db: &SemanticDb) -> (r: String)
        requires
            type_text(*db, *self) is Some,
        ensures
            type_text(*db, *self) == Some(r@),
        decreases *self,
    {
        match self {
            TypeId::Named(idx) => db.types[*idx].name.clone(),
            TypeId::NonZero(inner) => {
                let mut text = db.nonzero_path.clone();
                text.append("::<");
                text.append(inner.format(db).as_str());
                text.append(">");
                text
            },
            TypeId::Boxed(inner) => {
                let mut text = db.box_path.clone();
                text.append("::<");
                text.append(inner.format(db).as_str());
                text.append(">");
                text
            },
        }
    }
}

impl ConcreteVariant {
    /// The text of the variant.
    pub fn debug(&self, db: &SemanticDb) -> (r: String)
        requires
            variant_text(*db, *self) is Some,
        ensures
            variant_text(*db, *self) == Some(r@),
    {
        let info = &db.enums[self.concrete_enum_id.0];
        let ghost p = variant_named(self.id);
        let mut text = info.name.clone();
        text.append("::");
        let mut i: usize = 0;
        while i < info.variant_names.len() && !(info.variant_names[i].0 == self.id)
            invariant
                i <= info.variant_names@.len(),
                p == variant_named(self.id),
                first_where(info.variant_names@, p, 0) == first_where(
                    info.variant_names@,
                    p,
                    i as int,
                ),
            decreases info.variant_names@.len() - i,
        {
            i += 1;
        }
        text.append(info.variant_names[i].1.as_str());
        text
    }
}

impl ConstValue {
    /// The text of the constant.
    pub fn debug(&self, db: &SemanticDb) -> (r: String)
        requires
            value_text(*db, self@) is Some,
        ensures
            value_text(*db, self@) == Some(r@),
        decreases *self,
    {
        match self {
            ConstValue::Int(value, _) => value.text(),
            ConstValue::Struct(members, ty) => {
                proof {
                    lemma_struct_view(*members, *ty);
                }
                let mut text = "{".to_owned();
                let mut i: usize = 0;
                assert(text@ =~= "{"@ + Seq::<char>::empty());
                while i < members.len()
                    invariant
                        i <= members@.len(),
                        *self == ConstValue::Struct(*members, *ty),
                        members_text(*db, views(members@), members@.len()) is Some,
                        members_text(*db, views(members@), i as nat) is Some,
                        text@ == "{"@ + members_text(*db, views(members@), i as nat)->Some_0,
                    decreases members@.len() - i,
                {
                    let ghost before = members_text(*db, views(members@), i as nat)->Some_0;
                    assert(views(members@)[i as int] == members@[i as int]@);
                    assert(decreases_to!(*self => self->Struct_0));
                    assert(decreases_to!(members@ => members@[i as int]));
                    proof {
                        lemma_members_text(
                            *db,
                            views(members@),
                            (i + 1) as nat,
                            members@.len(),
                        );
                        reveal_with_fuel(members_text, 2);
                    }
                    let mut member = " ".to_owned();
                    member.append(members[i].debug(db).as_str());
                    member.append(": ");
                    if let Ok(ty) = members[i].ty(db) {
                        member.append(ty.format(db).as_str());
                    }
                    i += 1;
                    if i < members.len() {
                        member.append(",");
                    } else {
                        member.append(" ");
                    }
                    text.append(member.as_str());
                    assert(text@ =~= "{"@ + (before + member@));
                }
                text.append("}");
                text
            },
            ConstValue::Enum(variant, inner) => {
                let mut text = variant.debug(db);
                text.append("(");
                text.append(inner.debug(db).as_str());
                text.append(")");
                text
            },
            ConstValue::NonZero(value) => {
                let mut text = "NonZero(".to_owned();
                text.append(value.debug(db).as_str());
                text.append(")");
                text
            },
            ConstValue::Boxed(value) => {
                let mut text = value.debug(db);
                text.append(".into_box()");
                text
            },
            ConstValue::Generic(param) => {
                let ghost p = param_with_id(*param);
                let mut i: usize = 0;
                while i < db.generic_const_params.len() && !(db.generic_const_params[i].id
                    == *param)
                    invariant
                        i <= db.generic_const_params@.len(),
                        p == param_with_id(*param),
                        first_where(db.generic_const_params@, p, 0) == first_where(
                            db.generic_const_params@,
                            p,
                            i as int,
                        ),
                    decreases db.generic_const_params@.len() - i,
                {
                    i += 1;
                }
                db.generic_const_params[i].name.clone()
            },
            ConstValue::Var(var, _) => {
                let mut text = "?".to_owned();
                text.append(number(var.0).as_str());
                text
            },
            ConstValue::Missing(_) => "missing".to_owned(),
            ConstValue::ImplConstant(id) => id.format(db),
        }
    }
}

/// The selector of an arm of a match.
#[derive(Debug)]
pub enum MatchArmSelector {
    /// A variant of an enum.
    VariantId(ConcreteVariant),
    /// A number.
    Value(ValueSelectorArm),
}

/// The selector of an arm by a number.
#[derive(Clone, Copy, Debug)]
pub struct ValueSelectorArm {
    pub value: u64,
}

impl MatchArmSelector {
    pub open spec fn spec_debug(self, db: SemanticDb) -> Option<Seq<char>> {
        match self {
            MatchArmSelector::VariantId(variant) => variant_text(db, variant),
            MatchArmSelector::Value(arm) => Some(decimal(arm.value as nat)),
        }
    }

    /// The text of the selector.
    pub fn debug(&self, db: &SemanticDb) -> (r: String)
        requires
            self.spec_debug(*db) is Some,
        ensures
            self.spec_debug(*db) == Some(r@),
    {
        match self {
            MatchArmSelector::VariantId(variant) => variant.debug(db),
            MatchArmSelector::Value(arm) => number(arm.value),
        }
    }
}

/// The texts of the values with their types: `1: core::integer::u8`.
pub open spec fn are_member_texts(
    db: SemanticDb,
    members: Seq<ConstView>,
    texts: Seq<Seq<char>>,
) -> bool {
    &&& texts.len() == members.len()
    &&& forall|i: int|
        0 <= i < members.len() ==> {
            &&& value_text(db, #[trigger] members[i]) matches Some(value)
            &&& db.spec_const_ty(members[i]) matches Ok(ty)
            &&& type_text(db, ty) matches Some(ty)
            &&& texts[i] == value + ": "@ + ty
        }
}

/// A struct is written as the list of its members with their types, in braces.
pub proof fn structs_list_their_members(
    db: SemanticDb,
    members: Seq<ConstView>,
    ty: TypeId,
    texts: Seq<Seq<char>>,
)
    requires
        are_member_texts(db, members, texts),
    ensures
        value_text(db, ConstView::Struct(members, ty)) == Some(
            if members.len() == 0 {
                "{}"@
            } else {
                "{ "@ + joined(texts, ", "@) + " }"@
            },
        ),
{
    reveal_with_fuel(value_text, 2);
    reveal_strlit("{");
    reveal_strlit("}");
    reveal_strlit("{}");
    reveal_strlit("{ ");
    reveal_strlit(" }");
    reveal_strlit(" ");
    lemma_members_joined(db, members, texts, members.len());
    let text = members_text(db, members, members.len())->Some_0;
    if members.len() == 0 {
        assert("{"@ + text + "}"@ =~= "{}"@);
    } else {
        assert(texts.take(members.len() as int) =~= texts);
        assert("{"@ + text + "}"@ =~= "{ "@ + joined(texts, ", "@) + " }"@);
    }
}

proof fn lemma_members_joined(
    db: SemanticDb,
    members: Seq<ConstView>,
    texts: Seq<Seq<char>>,
    n: nat,
)
    requires
        are_member_texts(db, members, texts),
        n <= members.len(),
    ensures
        members_text(db, members, n) == Some(
            if n == 0 {
                Seq::empty()
            } else {
                " "@ + joined(texts.take(n as int), ", "@) + (if n == members.len() {
                    " "@
                } else {
                    ","@
                })
            },
        ),
    decreases n,
{
    reveal_with_fuel(members_text, 2);
    reveal_with_fuel(joined, 2);
    reveal_strlit(" ");
    reveal_strlit(",");
    reveal_strlit(", ");
    if n > 0 {
        lemma_members_joined(db, members, texts, (n - 1) as nat);
        let value = value_text(db, members[n - 1])->Some_0;
        let ty = type_text(db, db.spec_const_ty(members[n - 1])->Ok_0)->Some_0;
        let last = n == members.len();
        let end = if last {
            " "@
        } else {
            ","@
        };
        assert(texts[n - 1] == value + ": "@ + ty);
        let part = member_text(value, ty, last);
        assert(part =~= " "@ + texts[n - 1] + end);
        let all = texts.take(n as int);
        assert(all.drop_last() =~= texts.take(n - 1));
        assert(all.last() == texts[n - 1]);
        if n == 1 {
            assert(joined(all, ", "@) == texts[0]);
            assert(Seq::<char>::empty() + part =~= " "@ + joined(all, ", "@) + end);
        } else {
            let before = joined(texts.take(n - 1), ", "@);
            assert((" "@ + before + ","@) + part =~= " "@ + (before + ", "@ + texts[n - 1]) + end);
        }
    }
}

/// An enum is written as its variant around its value, and a wrapper with its own text around what
/// it wraps. Numbers are written in decimal.
pub proof fn texts_of_constants(
    db: SemanticDb,
    value: ConstView,
    text: Seq<char>,
    variant: ConcreteVariant,
    variant_name: Seq<char>,
    number: int,
    ty: TypeId,
    var: ConstVarId,
)
    requires
        value_text(db, value) == Some(text),
        variant_text(db, variant) == Some(variant_name),
    ensures
        value_text(db, ConstView::Int(number, ty)) == Some(int_text(number)),
        value_text(db, ConstView::Enum(variant, Box::new(value))) == Some(
            variant_name + "("@ + text + ")"@,
        ),
        value_text(db, ConstView::NonZero(Box::new(value))) == Some("NonZero("@ + text + ")"@),
        value_text(db, ConstView::Boxed(Box::new(value))) == Some(text + ".into_box()"@),
        value_text(db, ConstView::Var(var, ty)) == Some("?"@ + decimal(var.0 as nat)),
        value_text(db, ConstView::Missing) == Some("missing"@),
{
    reveal_with_fuel(value_text, 2);
}

/// A variant is written with the name of its enum, and a generic parameter and a constant of an
/// impl with their own names.
pub proof fn texts_of_names(
    db: SemanticDb,
    variant: ConcreteVariant,
    at: int,
    id: ImplConstantId,
)
    ensures
        ({
            let names = db.enums@[variant.concrete_enum_id.0 as int].variant_names@;
            variant.concrete_enum_id.0 < db.enums@.len() && 0 <= at < names.len() && names[at].0
                == variant.id && (forall|i: int|
                0 <= i < at ==> (#[trigger] names[i]).0 != variant.id) ==> variant_text(db, variant)
                == Some(
                db.enums@[variant.concrete_enum_id.0 as int].name@ + "::"@ + names[at].1@,
            )
        }),
        0 <= at < db.generic_const_params@.len() && (forall|i: int|
            0 <= i < at ==> (#[trigger] db.generic_const_params@[i]).id
                != db.generic_const_params@[at].id) ==> value_text(
            db,
            ConstView::Generic(db.generic_const_params@[at].id),
        ) == Some(db.generic_const_params@[at].name@),
        id.spec_impl_id().0 < db.impls@.len() && id.spec_trait_constant_id().0
            < db.trait_constants@.len() ==> value_text(db, ConstView::ImplConstant(id)) == Some(
            db.impls@[id.spec_impl_id().0 as int].name@ + "::"@
                + db.trait_constants@[id.spec_trait_constant_id().0 as int].name@,
        ),
{
    lemma_first_where(
        db.enums@[variant.concrete_enum_id.0 as int].variant_names@,
        variant_named(variant.id),
        0,
    );
    lemma_first_where(
        db.generic_const_params@,
        param_with_id(db.generic_const_params@[at].id),
        0,
    );
}

} // verus!
