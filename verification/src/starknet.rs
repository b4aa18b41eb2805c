//! What the Starknet plugin notes about the files that it generates.
use vstd::prelude::*;

verus! {

/// Contract related auxiliary data of the Starknet plugin.
#[derive(Debug)]
pub struct StarknetContractAuxData {
    /// A list of contracts that were processed by the plugin.
    pub contract_name: String,
}

impl PartialEq for StarknetContractAuxData {
    fn eq(&self, other: &Self) -> (r: bool) {
        self.contract_name == other.contract_name
    }
}

impl Eq for StarknetContractAuxData {

}

impl vstd::std_specs::cmp::PartialEqSpecImpl for StarknetContractAuxData {
    open spec fn obeys_eq_spec() -> bool {
        true
    }

    open spec fn eq_spec(&self, other: &Self) -> bool {
        self.contract_name@ == other.contract_name@
    }
}

/// How a field of an event is written.
#[derive(Clone, Copy, Debug, PartialEq, Eq, Structural)]
pub enum EventFieldKind {
    KeySerde,
    DataSerde,
    Nested,
    Flat,
}

/// The fields of an event, each with its name.
#[derive(Debug)]
pub enum EventData {
    Struct { members: Vec<(String, EventFieldKind)> },
    Enum { variants: Vec<(String, EventFieldKind)> },
}

/// The names and kinds of fields.
pub open spec fn field_views(fields: Seq<(String, EventFieldKind)>) -> Seq<
    (Seq<char>, EventFieldKind),
> {
    fields.map_values(|field: (String, EventFieldKind)| (field.0@, field.1))
}

fn same_fields(a: &Vec<(String, EventFieldKind)>, b: &Vec<(String, EventFieldKind)>) -> (r: bool)
    ensures
        r == (field_views(a@) == field_views(b@)),
{
    if a.len() != b.len() {
        assert(field_views(a@).len() == a@.len() && field_views(b@).len() == b@.len());
        return false;
    }
    let mut i: usize = 0;
    while i < a.len()
        invariant
            i <= a@.len(),
            a@.len() == b@.len(),
            forall|j: int|
                0 <= j < i ==> (#[trigger] a@[j]).0@ == b@[j].0@ && a@[j].1 == b@[j].1,
        decreases a@.len() - i,
    {
        if !(a[i].0 == b[i].0 && a[i].1 == b[i].1) {
            assert(field_views(a@)[i as int] != field_views(b@)[i as int]);
            return false;
        }
        i += 1;
    }
    assert(field_views(a@) =~= field_views(b@));
    true
}

/// The events have the same fields.
pub open spec fn same_event(a: EventData, b: EventData) -> bool {
    match (a, b) {
        (EventData::Struct { members: a }, EventData::Struct { members: b }) => field_views(a@)
            == field_views(b@),
        (EventData::Enum { variants: a }, EventData::Enum { variants: b }) => field_views(a@)
            == field_views(b@),
        _ => false,
    }
}

impl PartialEq for EventData {
    fn eq(&self, other: &Self) -> (r: bool) {
        match (self, other) {
            (EventData::Struct { members: a }, EventData::Struct { members: b }) => same_fields(
                a,
                b,
            ),
            (EventData::Enum { variants: a }, EventData::Enum { variants: b }) => same_fields(a, b),
            _ => false,
        }
    }
}

impl Eq for EventData {

}

impl vstd::std_specs::cmp::PartialEqSpecImpl for EventData {
    open spec fn obeys_eq_spec() -> bool {
        true
    }

    open spec fn eq_spec(&self, other: &Self) -> bool {
        same_event(*self, *other)
    }
}

/// Event related auxiliary data of the Starknet plugin.
#[derive(Debug)]
pub struct StarknetEventAuxData {
    pub event_data: EventData,
}

impl PartialEq for StarknetEventAuxData {
    fn eq(&self, other: &Self) -> (r: bool) {
        self.event_data == other.event_data
    }
}

impl Eq for StarknetEventAuxData {

}

impl vstd::std_specs::cmp::PartialEqSpecImpl for StarknetEventAuxData {
    open spec fn obeys_eq_spec() -> bool {
        true
    }

    open spec fn eq_spec(&self, other: &Self) -> bool {
        same_event(self.event_data, other.event_data)
    }
}

/// The auxiliary data of a file.
pub enum AuxData<'a> {
    Contract(&'a StarknetContractAuxData),
    Event(&'a StarknetEventAuxData),
    /// The data of another plugin.
    Other,
}

impl StarknetContractAuxData {
    /// Whether the other data is of the same kind, and equal.
    pub fn eq_aux(&self, other: AuxData<'_>) -> (r: bool)
        ensures
            r == (other matches AuxData::Contract(other) && self.contract_name@
                == other.contract_name@),
    {
        match other {
            AuxData::Contract(other) => *self == *other,
            _ => false,
        }
    }
}

impl StarknetEventAuxData {
    /// Whether the other data is of the same kind, and equal.
    pub fn eq_aux(&self, other: AuxData<'_>) -> (r: bool)
        ensures
            r == (other matches AuxData::Event(other) && same_event(
                self.event_data,
                other.event_data,
            )),
    {
        match other {
            AuxData::Event(other) => *self == *other,
            _ => false,
        }
    }
}

// Laws.

/// Events are equal exactly where they are of the same kind, and have the same names and kinds of
/// fields, one by one.
pub proof fn events_are_equal_where_their_fields_are(
    a: Vec<(String, EventFieldKind)>,
    b: Vec<(String, EventFieldKind)>,
)
    ensures
        ({
            let same = a@.len() == b@.len() && forall|i: int|
                0 <= i < a@.len() ==> (#[trigger] a@[i]).0@ == b@[i].0@ && a@[i].1 == b@[i].1;
            &&& same_event(EventData::Struct { members: a }, EventData::Struct { members: b })
                == same
            &&& same_event(EventData::Enum { variants: a }, EventData::Enum { variants: b }) == same
            &&& !same_event(EventData::Struct { members: a }, EventData::Enum { variants: b })
            &&& !same_event(EventData::Enum { variants: a }, EventData::Struct { members: b })
        }),
{
    assert(field_views(a@).len() == a@.len() && field_views(b@).len() == b@.len());
    if field_views(a@) == field_views(b@) {
        assert forall|i: int| 0 <= i < a@.len() implies (#[trigger] a@[i]).0@ == b@[i].0@ && a@[i].1
            == b@[i].1 by {
            assert(field_views(a@)[i] == field_views(b@)[i]);
        }
    }
    if a@.len() == b@.len() && forall|i: int|
        0 <= i < a@.len() ==> (#[trigger] a@[i]).0@ == b@[i].0@ && a@[i].1 == b@[i].1 {
        assert(field_views(a@) =~= field_views(b@));
    }
}

/// Equality of events is reflexive, symmetric and transitive.
pub proof fn equality_of_events_is_an_equivalence(a: EventData, b: EventData, c: EventData)
    ensures
        same_event(a, a),
        same_event(a, b) == same_event(b, a),
        same_event(a, b) && same_event(b, c) ==> same_event(a, c),
{
}

} // verus!
