//! Ids of Sierra programs.
use vstd::prelude::*;
use vstd::utf8::encode_utf8;

use crate::duplicate::{duplicate_text, optional_view, Duplicate};
use crate::integer::Integer;
use crate::text::{concat3, decimal, int_text, number};

verus! {

/// An id as mathematics sees it.
#[verifier::ext_equal]
pub struct IdView {
    pub id: u64,
    pub debug_name: Option<Seq<char>>,
}

/// The text of an id: its name, or its number in brackets.
pub open spec fn id_text(id: IdView) -> Seq<char> {
    match id.debug_name {
        Some(name) => name,
        None => "["@ + decimal(id.id as nat) + "]"@,
    }
}

/// The 64-bit FNV-1a hash of the first `n` bytes.
pub open spec fn fnv1a(bytes: Seq<u8>, n: nat) -> u64
    decreases n,
{
    if n == 0 {
        0xcbf2_9ce4_8422_2325
    } else {
        let mixed = fnv1a(bytes, (n - 1) as nat) ^ (bytes[n - 1] as u64);
        (mixed * 0x100_0000_01b3 % 0x1_0000_0000_0000_0000) as u64
    }
}

/// The number of an id that is made of a name: the hash of the name in UTF-8.
pub open spec fn id_of_name(name: Seq<char>) -> u64 {
    fnv1a(encode_utf8(name), encode_utf8(name).len())
}

fn name_or_number(id: u64, debug_name: &Option<String>) -> (r: String)
    ensures
        r@ == id_text(IdView { id, debug_name: optional_view(*debug_name) }),
{
    match debug_name {
        Some(name) => name.clone(),
        None => concat3("[", number(id).as_str(), "]"),
    }
}

/// The identity of a concrete library function.
#[derive(Debug)]
pub struct ConcreteLibfuncId {
    pub id: u64,
    /// Optional name for testing and debugging.
    pub debug_name: Option<String>,
}

impl View for ConcreteLibfuncId {
    type V = IdView;

    open spec fn view(&self) -> IdView {
        IdView { id: self.id, debug_name: optional_view(self.debug_name) }
    }
}

impl Duplicate for ConcreteLibfuncId {
    fn duplicate(&self) -> (r: Self) {
        ConcreteLibfuncId { id: self.id, debug_name: duplicate_text(&self.debug_name) }
    }
}

impl ConcreteLibfuncId {
    /// The text of the id.
    pub fn text(&self) -> (r: String)
        ensures
            r@ == id_text(self@),
    {
        name_or_number(self.id, &self.debug_name)
    }
}

/// The identity of a user function.
#[derive(Debug)]
pub struct FunctionId {
    pub id: u64,
    /// Optional name for testing and debugging.
    pub debug_name: Option<String>,
}

impl View for FunctionId {
    type V = IdView;

    open spec fn view(&self) -> IdView {
        IdView { id: self.id, debug_name: optional_view(self.debug_name) }
    }
}

impl Duplicate for FunctionId {
    fn duplicate(&self) -> (r: Self) {
        FunctionId { id: self.id, debug_name: duplicate_text(&self.debug_name) }
    }
}

impl FunctionId {
    /// The text of the id.
    pub fn text(&self) -> (r: String)
        ensures
            r@ == id_text(self@),
    {
        name_or_number(self.id, &self.debug_name)
    }
}

/// The identity of a concrete type.
#[derive(Debug)]
pub struct ConcreteTypeId {
    pub id: u64,
    /// Optional name for testing and debugging.
    pub debug_name: Option<String>,
}

impl View for ConcreteTypeId {
    type V = IdView;

    open spec fn view(&self) -> IdView {
        IdView { id: self.id, debug_name: optional_view(self.debug_name) }
    }
}

impl Duplicate for ConcreteTypeId {
    fn duplicate(&self) -> (r: Self) {
        ConcreteTypeId { id: self.id, debug_name: duplicate_text(&self.debug_name) }
    }
}

impl ConcreteTypeId {
    /// The text of the id.
    pub fn text(&self) -> (r: String)
        ensures
            r@ == id_text(self@),
    {
        name_or_number(self.id, &self.debug_name)
    }
}

/// The identity of a variable.
#[derive(Debug)]
pub struct VarId {
    pub id: u64,
    /// Optional name for testing and debugging.
    pub debug_name: Option<String>,
}

impl View for VarId {
    type V = IdView;

    open spec fn view(&self) -> IdView {
        IdView { id: self.id, debug_name: optional_view(self.debug_name) }
    }
}

impl Duplicate for VarId {
    fn duplicate(&self) -> (r: Self) {
        VarId { id: self.id, debug_name: duplicate_text(&self.debug_name) }
    }
}

/// The identity of a user type.
#[derive(Debug)]
pub struct UserTypeId {
    pub id: Integer,
    /// Optional name for testing and debugging.
    pub debug_name: Option<String>,
}

#[verifier::ext_equal]
pub struct UserTypeView {
    pub id: int,
    pub debug_name: Option<Seq<char>>,
}

impl View for UserTypeId {
    type V = UserTypeView;

    open spec fn view(&self) -> UserTypeView {
        UserTypeView { id: self.id@, debug_name: optional_view(self.debug_name) }
    }
}

impl Duplicate for UserTypeId {
    fn duplicate(&self) -> (r: Self) {
        UserTypeId { id: self.id.clone(), debug_name: duplicate_text(&self.debug_name) }
    }
}

/// The text of a user type: its name, or its number in brackets.
pub open spec fn user_type_text(id: UserTypeView) -> Seq<char> {
    match id.debug_name {
        Some(name) => name,
        None => "["@ + int_text(id.id) + "]"@,
    }
}

impl UserTypeId {
    /// The text of the id.
    pub fn text(&self) -> (r: String)
        ensures
            r@ == user_type_text(self@),
    {
        match &self.debug_name {
            Some(name) => name.clone(),
            None => concat3("[", self.id.text().as_str(), "]"),
        }
    }
}

} // verus!
