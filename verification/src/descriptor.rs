//! The interface descriptor: the callable methods a contract declares,
//! each with a four-byte selector, parameter types and an optional return
//! type, plus the event definitions it may emit.

use vstd::prelude::*;

use crate::error::Error;
use crate::strutil::{bytes_eq, str_eq};
use crate::types::{type_model, type_models, TypeModel, TypeSpec};

verus! {

/// Spec-level model of [`MethodSpec`].
pub struct MethodModel {
    pub name: Seq<char>,
    pub selector: Seq<u8>,
    pub params: Seq<TypeModel>,
    pub return_type: Option<TypeModel>,
}

/// One callable method: its name, four-byte selector, ordered parameter
/// types and optional return type.
#[derive(Debug)]
pub struct MethodSpec {
    pub name: String,
    pub selector: Vec<u8>,
    pub params: Vec<TypeSpec>,
    pub return_type: Option<TypeSpec>,
}

impl DeepView for MethodSpec {
    type V = MethodModel;

    open spec fn deep_view(&self) -> MethodModel {
        MethodModel {
            name: self.name@,
            selector: self.selector@,
            params: type_models(self.params@),
            return_type: match self.return_type {
                Some(t) => Some(type_model(t)),
                None => None,
            },
        }
    }
}

/// Spec-level model of [`EventSpec`].
pub struct EventModel {
    pub name: Seq<char>,
    pub signature: Seq<u8>,
    pub fields: Seq<TypeModel>,
}

/// One event definition: its name, four-byte signature and ordered field
/// types.
#[derive(Debug)]
pub struct EventSpec {
    pub name: String,
    pub signature: Vec<u8>,
    pub fields: Vec<TypeSpec>,
}

impl DeepView for EventSpec {
    type V = EventModel;

    open spec fn deep_view(&self) -> EventModel {
        EventModel {
            name: self.name@,
            signature: self.signature@,
            fields: type_models(self.fields@),
        }
    }
}

/// Spec-level model of [`InterfaceDescriptor`].
pub struct DescriptorModel {
    pub methods: Seq<MethodModel>,
    pub events: Seq<EventModel>,
}

/// A loaded contract interface: immutable after construction, with unique
/// method names and unique selectors.
#[derive(Debug)]
pub struct InterfaceDescriptor {
    methods: Vec<MethodSpec>,
    events: Vec<EventSpec>,
}

impl DeepView for InterfaceDescriptor {
    type V = DescriptorModel;

    closed spec fn deep_view(&self) -> DescriptorModel {
        DescriptorModel { methods: self.methods.deep_view(), events: self.events.deep_view() }
    }
}

/// The well-formedness a descriptor establishes at load time: method names
/// and selectors are unique, and selectors and event signatures are exactly
/// four bytes.
pub open spec fn descriptor_wf(d: DescriptorModel) -> bool {
    &&& forall|i: int, j: int|
        #![trigger d.methods[i], d.methods[j]]
        0 <= i < j < d.methods.len() ==> d.methods[i].name != d.methods[j].name
    &&& forall|i: int, j: int|
        #![trigger d.methods[i], d.methods[j]]
        0 <= i < j < d.methods.len() ==> d.methods[i].selector != d.methods[j].selector
    &&& forall|i: int| 0 <= i < d.methods.len() ==> (#[trigger] d.methods[i]).selector.len() == 4
    &&& forall|i: int| 0 <= i < d.events.len() ==> (#[trigger] d.events[i]).signature.len() == 4
}

/// The first method of `methods[i..]` named `name`.
pub open spec fn lookup_from(methods: Seq<MethodModel>, name: Seq<char>, i: int) -> Option<
    MethodModel,
>
    decreases methods.len() - i,
{
    if i < 0 || i >= methods.len() {
        None
    } else if methods[i].name == name {
        Some(methods[i])
    } else {
        lookup_from(methods, name, i + 1)
    }
}

/// The method a descriptor declares under `name`, if any.
pub open spec fn lookup_spec(d: DescriptorModel, name: Seq<char>) -> Option<MethodModel> {
    lookup_from(d.methods, name, 0)
}

/// The first event of `events[i..]` whose signature is `sig`.
pub open spec fn lookup_event_from(events: Seq<EventModel>, sig: Seq<u8>, i: int) -> Option<
    EventModel,
>
    decreases events.len() - i,
{
    if i < 0 || i >= events.len() {
        None
    } else if events[i].signature == sig {
        Some(events[i])
    } else {
        lookup_event_from(events, sig, i + 1)
    }
}

/// The event definition a descriptor carries under signature `sig`, if any.
pub open spec fn lookup_event_spec(d: DescriptorModel, sig: Seq<u8>) -> Option<EventModel> {
    lookup_event_from(d.events, sig, 0)
}

impl InterfaceDescriptor {
    /// Validates and assembles a descriptor. A duplicated method name, a
    /// duplicated selector, or a selector or event signature that is not
    /// exactly four bytes is a load-time error, never resolved by ordering.
    #[verifier::loop_isolation(false)]
    pub fn new(methods: Vec<MethodSpec>, events: Vec<EventSpec>) -> (r: Result<
        InterfaceDescriptor,
        Error,
    >)
        ensures
            r matches Ok(d) ==> d.deep_view() == (DescriptorModel {
                methods: methods.deep_view(),
                events: events.deep_view(),
            }) && descriptor_wf(d.deep_view()),
            r is Err ==> !descriptor_wf(
                DescriptorModel { methods: methods.deep_view(), events: events.deep_view() },
            ) && r == Err::<InterfaceDescriptor, Error>(Error::InvalidDescriptor),
    {
        let ghost dm = DescriptorModel {
            methods: methods.deep_view(),
            events: events.deep_view(),
        };
        let mut i: usize = 0;
        while i < methods.len()
            invariant
                i <= methods@.len(),
                dm.methods.len() == methods@.len(),
                forall|k: int| 0 <= k < methods@.len() ==> #[trigger] dm.methods[k]
                    == methods@[k].deep_view(),
                forall|k: int| 0 <= k < i ==> (#[trigger] dm.methods[k]).selector.len() == 4,
                forall|k: int, j: int|
                    #![trigger dm.methods[k], dm.methods[j]]
                    0 <= k < j < i ==> dm.methods[k].name != dm.methods[j].name
                        && dm.methods[k].selector != dm.methods[j].selector,
            decreases methods@.len() - i,
        {
            if methods[i].selector.len() != 4 {
                return Err(Error::InvalidDescriptor);
            }
            let mut j: usize = 0;
            while j < i
                invariant
                    j <= i < methods@.len(),
                    dm.methods.len() == methods@.len(),
                    forall|k: int| 0 <= k < methods@.len() ==> #[trigger] dm.methods[k]
                        == methods@[k].deep_view(),
                    forall|k: int|
                        #![trigger dm.methods[k]]
                        0 <= k < j ==> dm.methods[k].name != dm.methods[i as int].name
                            && dm.methods[k].selector != dm.methods[i as int].selector,
                decreases i - j,
            {
                if str_eq(methods[j].name.as_str(), methods[i].name.as_str()) {
                    proof {
                        assert(dm.methods[j as int].name == dm.methods[i as int].name);
                        assert(!descriptor_wf(dm));
                    }
                    return Err(Error::InvalidDescriptor);
                }
                if bytes_eq(&methods[j].selector, &methods[i].selector) {
                    proof {
                        assert(dm.methods[j as int].selector == dm.methods[i as int].selector);
                        assert(!descriptor_wf(dm));
                    }
                    return Err(Error::InvalidDescriptor);
                }
                j = j + 1;
            }
            i = i + 1;
        }
        let mut e: usize = 0;
        while e < events.len()
            invariant
                e <= events@.len(),
                dm.events.len() == events@.len(),
                forall|k: int| 0 <= k < events@.len() ==> #[trigger] dm.events[k]
                    == events@[k].deep_view(),
                forall|k: int| 0 <= k < e ==> (#[trigger] dm.events[k]).signature.len() == 4,
            decreases events@.len() - e,
        {
            if events[e].signature.len() != 4 {
                proof {
                    assert(dm.events[e as int].signature.len() != 4);
                    assert(!descriptor_wf(dm));
                }
                return Err(Error::InvalidDescriptor);
            }
            e = e + 1;
        }
        Ok(InterfaceDescriptor { methods, events })
    }

    /// Resolves a method by name, case-sensitively, with no fuzzy matching;
    /// an absent name is reported verbatim to the caller.
    pub fn lookup(&self, name: &str) -> (r: Result<&MethodSpec, Error>)
        ensures
            match lookup_spec(self.deep_view(), name@) {
                Some(m) => r matches Ok(ms) && ms.deep_view() == m,
                None => r matches Err(Error::UnknownMethod { name: n }) && n@ == name@,
            },
    {
        let mut i: usize = 0;
        while i < self.methods.len()
            invariant
                i <= self.methods@.len(),
                lookup_from(self.deep_view().methods, name@, 0) == lookup_from(
                    self.deep_view().methods,
                    name@,
                    i as int,
                ),
            decreases self.methods@.len() - i,
        {
            if str_eq(self.methods[i].name.as_str(), name) {
                return Ok(&self.methods[i]);
            }
            i = i + 1;
        }
        Err(Error::UnknownMethod { name: name.to_owned() })
    }

    /// Resolves an event definition by its four-byte signature.
    pub fn lookup_event(&self, sig: &Vec<u8>) -> (r: Option<&EventSpec>)
        ensures
            match lookup_event_spec(self.deep_view(), sig@) {
                Some(ev) => r matches Some(es) && es.deep_view() == ev,
                None => r is None,
            },
    {
        let mut i: usize = 0;
        while i < self.events.len()
            invariant
                i <= self.events@.len(),
                lookup_event_from(self.deep_view().events, sig@, 0) == lookup_event_from(
                    self.deep_view().events,
                    sig@,
                    i as int,
                ),
            decreases self.events@.len() - i,
        {
            if bytes_eq(&self.events[i].signature, sig) {
                return Some(&self.events[i]);
            }
            i = i + 1;
        }
        None
    }
}

} // verus!
