//! The message transcoder: turns `(method name, textual arguments)` into
//! the binary call payload a contract expects, and binary return data and
//! event records back into structured values.

use vstd::prelude::*;
use vstd::string::StringExecFns;

use crate::descriptor::{
    lookup_event_spec, lookup_spec, DescriptorModel, InterfaceDescriptor,
};
use crate::encoding::{
    append_bytes, copy_range, decode_fields, decode_fields_from, decode_value, decode_value_spec,
    encode_value, encoded_fields, encoded_value, lemma_fields_round_trip,
    lemma_has_type_encodable,
};
use crate::error::{Error, ErrorModel};
use crate::parse::{lemma_parse_sound, parse_arg, parse_argument};
use crate::strutil::str_eq;
use crate::types::{has_type, TypeModel, TypeSpec, Value, ValueModel};

verus! {

/// The textual description of a declared type, used in argument errors.
pub open spec fn describe_spec(t: TypeModel) -> Seq<char> {
    match t {
        TypeModel::Bool => "bool"@,
        TypeModel::U8 => "u8"@,
        TypeModel::U16 => "u16"@,
        TypeModel::U32 => "u32"@,
        TypeModel::U64 => "u64"@,
        TypeModel::U128 => "u128"@,
        TypeModel::AccountId => "account"@,
        TypeModel::Bytes => "bytes"@,
        TypeModel::Composite(_) => "composite"@,
    }
}

impl TypeSpec {
    /// A short textual name for this declared type.
    pub fn describe(&self) -> (r: String)
        ensures
            r@ == describe_spec(self.deep_view()),
    {
        match self {
            TypeSpec::Bool => String::from_str("bool"),
            TypeSpec::U8 => String::from_str("u8"),
            TypeSpec::U16 => String::from_str("u16"),
            TypeSpec::U32 => String::from_str("u32"),
            TypeSpec::U64 => String::from_str("u64"),
            TypeSpec::U128 => String::from_str("u128"),
            TypeSpec::AccountId => String::from_str("account"),
            TypeSpec::Bytes => String::from_str("bytes"),
            TypeSpec::Composite(_) => String::from_str("composite"),
        }
    }
}

/// Whether every argument string parses at its declared parameter type.
pub open spec fn all_args_parse(params: Seq<TypeModel>, args: Seq<Seq<char>>) -> bool {
    forall|i: int| 0 <= i < args.len() ==> parse_arg(params[i], #[trigger] args[i]) is Some
}

/// The parsed argument values, defined where they all parse.
pub open spec fn parsed_values(params: Seq<TypeModel>, args: Seq<Seq<char>>) -> Seq<ValueModel> {
    Seq::new(
        args.len(),
        |i: int|
            if 0 <= i < args.len() {
                parse_arg(params[i], args[i])->Some_0
            } else {
                ValueModel::Unit
            },
    )
}

/// The index of the first argument of `args[i..]` that does not parse, or
/// `args.len()` when they all do.
pub open spec fn first_unparsable(params: Seq<TypeModel>, args: Seq<Seq<char>>, i: int) -> int
    decreases args.len() - i,
{
    if i < 0 || i >= args.len() {
        i
    } else if parse_arg(params[i], args[i]) is None {
        i
    } else {
        first_unparsable(params, args, i + 1)
    }
}

/// What `encode` returns: the selector followed by the concatenated
/// encodings of the parsed arguments, or the first error in the order
/// unknown method, arity mismatch, unparsable argument.
pub open spec fn encode_spec(d: DescriptorModel, name: Seq<char>, args: Seq<Seq<char>>) -> Result<
    Seq<u8>,
    ErrorModel,
> {
    match lookup_spec(d, name) {
        None => Err(ErrorModel::UnknownMethod { name }),
        Some(m) => if args.len() != m.params.len() {
            Err(ErrorModel::ArityMismatch { expected: m.params.len(), actual: args.len() })
        } else if !all_args_parse(m.params, args) {
            let i = first_unparsable(m.params, args, 0);
            Err(
                ErrorModel::ArgumentDecodeError {
                    index: i as nat,
                    expected_type: describe_spec(m.params[i]),
                    raw_value: args[i],
                },
            )
        } else {
            Ok(m.selector + encoded_fields(parsed_values(m.params, args)))
        },
    }
}

/// What `decode_return` returns: the unit value for a method without a
/// return type and an empty buffer, the decoded value when the buffer holds
/// exactly one encoding of the declared return type, and otherwise the
/// matching error.
pub open spec fn decode_return_spec(d: DescriptorModel, name: Seq<char>, data: Seq<u8>) -> Result<
    ValueModel,
    ErrorModel,
> {
    match lookup_spec(d, name) {
        None => Err(ErrorModel::UnknownMethod { name }),
        Some(m) => match m.return_type {
            None => if data.len() == 0 {
                Ok(ValueModel::Unit)
            } else {
                Err(ErrorModel::DecodeError)
            },
            Some(t) => match decode_value_spec(t, data) {
                Some((v, n)) => if n == data.len() {
                    Ok(v)
                } else {
                    Err(ErrorModel::TrailingDataError)
                },
                None => Err(ErrorModel::DecodeError),
            },
        },
    }
}

/// Spec-level model of [`EventRecord`].
pub struct RecordModel {
    pub module: Seq<char>,
    pub name: Seq<char>,
    pub data: Seq<u8>,
}

/// One raw event record as observed at the ledger boundary: the emitting
/// module, the event name, and the undecoded payload bytes.
#[derive(Debug, PartialEq, Eq)]
pub struct EventRecord {
    pub module: String,
    pub name: String,
    pub data: Vec<u8>,
}

impl DeepView for EventRecord {
    type V = RecordModel;

    open spec fn deep_view(&self) -> RecordModel {
        RecordModel { module: self.module@, name: self.name@, data: self.data@ }
    }
}

/// Spec-level model of [`HumanEvent`].
pub enum HumanEventModel {
    Ledger { module: Seq<char>, name: Seq<char>, data: Seq<u8> },
    Contract { name: Seq<char>, fields: Seq<ValueModel> },
    Raw { data: Seq<u8> },
}

/// One rendered event: a generic ledger-level record, a fully decoded
/// contract event, or the raw bytes of a contract event whose signature or
/// payload did not decode.
#[derive(Debug, PartialEq, Eq)]
pub enum HumanEvent {
    Ledger { module: String, name: String, data: Vec<u8> },
    Contract { name: String, fields: Vec<Value> },
    Raw { data: Vec<u8> },
}

impl DeepView for HumanEvent {
    type V = HumanEventModel;

    open spec fn deep_view(&self) -> HumanEventModel {
        match self {
            HumanEvent::Ledger { module, name, data } => HumanEventModel::Ledger {
                module: module@,
                name: name@,
                data: data@,
            },
            HumanEvent::Contract { name, fields } => HumanEventModel::Contract {
                name: name@,
                fields: fields.deep_view(),
            },
            HumanEvent::Raw { data } => HumanEventModel::Raw { data: data@ },
        }
    }
}

/// Whether a record is a contract-emitted event rather than a generic
/// ledger event.
pub open spec fn is_contract_event(r: RecordModel) -> bool {
    r.module == "Contracts"@ && r.name == "ContractEmitted"@
}

/// What `decode_events` yields for one record: a generic rendering for
/// ledger events; for contract events, the fully decoded fields when the
/// payload starts with a known four-byte signature and decodes completely,
/// and the raw bytes otherwise.
pub open spec fn decode_event_spec(d: DescriptorModel, r: RecordModel) -> HumanEventModel {
    if !is_contract_event(r) {
        HumanEventModel::Ledger { module: r.module, name: r.name, data: r.data }
    } else if r.data.len() < 4 {
        HumanEventModel::Raw { data: r.data }
    } else {
        match lookup_event_spec(d, r.data.subrange(0, 4)) {
            None => HumanEventModel::Raw { data: r.data },
            Some(ev) => match decode_fields_from(ev.fields, 0, r.data, 4) {
                Some((vs, end)) => if end == r.data.len() {
                    HumanEventModel::Contract { name: ev.name, fields: vs }
                } else {
                    HumanEventModel::Raw { data: r.data }
                },
                None => HumanEventModel::Raw { data: r.data },
            },
        }
    }
}

/// The message transcoder: owns the interface descriptor for the duration
/// of one invocation.
#[derive(Debug)]
pub struct MessageTranscoder {
    descriptor: InterfaceDescriptor,
}

impl DeepView for MessageTranscoder {
    type V = DescriptorModel;

    closed spec fn deep_view(&self) -> DescriptorModel {
        self.descriptor.deep_view()
    }
}

impl MessageTranscoder {
    /// Wraps a loaded descriptor.
    pub fn new(descriptor: InterfaceDescriptor) -> (r: MessageTranscoder)
        ensures
            r.deep_view() == descriptor.deep_view(),
    {
        MessageTranscoder { descriptor }
    }

    /// The wrapped descriptor.
    pub fn descriptor(&self) -> (r: &InterfaceDescriptor)
        ensures
            r.deep_view() == self.deep_view(),
    {
        &self.descriptor
    }

    /// Builds the call payload for `name` applied to `args`: the method's
    /// selector followed by the canonical encodings of the parsed
    /// arguments, byte for byte as [`encode_spec`] states. An unknown
    /// name, a wrong argument count or an unparsable argument is reported
    /// with its exact cause; the argument error names the first failing
    /// index, the expected type and the raw text.
    #[verifier::loop_isolation(false)]
    #[verifier::rlimit(60)]
    pub fn encode(&self, name: &str, args: &Vec<String>) -> (r: Result<Vec<u8>, Error>)
        ensures
            match encode_spec(self.deep_view(), name@, args.deep_view()) {
                Ok(bytes) => r matches Ok(b) && b@ == bytes,
                Err(em) => r matches Err(e) && e.deep_view() == em,
            },
            (lookup_spec(self.deep_view(), name@) is Some && args.deep_view().len() != lookup_spec(
                self.deep_view(),
                name@,
            )->Some_0.params.len()) ==> (r matches Err(Error::ArityMismatch { expected, actual })
                && expected == lookup_spec(self.deep_view(), name@)->Some_0.params.len() && actual
                == args.deep_view().len()),
    {
        let ghost am = args.deep_view();
        let m = match self.descriptor.lookup(name) {
            Ok(m) => m,
            Err(e) => {
                return Err(e);
            },
        };
        let ghost mm = m.deep_view();
        if args.len() != m.params.len() {
            return Err(Error::ArityMismatch { expected: m.params.len(), actual: args.len() });
        }
        let ghost pm = mm.params;
        let ghost vals = parsed_values(pm, am);
        let mut out: Vec<u8> = Vec::new();
        append_bytes(&m.selector, &mut out);
        let mut i: usize = 0;
        while i < args.len()
            invariant
                i <= args@.len(),
                forall|j: int| 0 <= j < i ==> parse_arg(pm[j], #[trigger] am[j]) is Some,
                first_unparsable(pm, am, 0) == first_unparsable(pm, am, i as int),
                out@ == mm.selector + encoded_fields(vals.subrange(0, i as int)),
            decreases args@.len() - i,
        {
            proof {
                assert(am[i as int] == args@[i as int]@);
                assert(pm[i as int] == m.params@[i as int].deep_view());
            }
            match parse_argument(&m.params[i], args[i].as_str()) {
                Some(v) => {
                    proof {
                        lemma_parse_sound(pm[i as int], am[i as int], 0);
                        assert(has_type(v.deep_view(), pm[i as int]));
                        lemma_has_type_encodable(v.deep_view(), pm[i as int]);
                        assert(vals[i as int] == v.deep_view());
                    }
                    encode_value(&v, &mut out);
                    proof {
                        let pre = vals.subrange(0, i as int);
                        crate::encoding::lemma_encoded_fields_push(pre, vals[i as int]);
                        assert(pre.push(vals[i as int]) =~= vals.subrange(0, i + 1));
                        assert(mm.selector + encoded_fields(pre) + encoded_value(vals[i as int])
                            =~= mm.selector + (encoded_fields(pre) + encoded_value(
                            vals[i as int],
                        )));
                    }
                    i = i + 1;
                },
                None => {
                    proof {
                        assert(first_unparsable(pm, am, 0) == i);
                        assert(!all_args_parse(pm, am));
                    }
                    return Err(
                        Error::ArgumentDecodeError {
                            index: i,
                            expected_type: m.params[i].describe(),
                            raw_value: args[i].clone(),
                        },
                    );
                },
            }
        }
        proof {
            assert(vals.subrange(0, vals.len() as int) =~= vals);
            assert(all_args_parse(pm, am));
        }
        Ok(out)
    }

    /// Decodes the raw bytes a simulated call returned against the
    /// method's declared return type. A method without a return type owes
    /// an empty buffer; unconsumed trailing bytes are an error of their
    /// own.
    pub fn decode_return(&self, name: &str, data: &Vec<u8>) -> (r: Result<Value, Error>)
        ensures
            match decode_return_spec(self.deep_view(), name@, data@) {
                Ok(vm) => r matches Ok(v) && v.deep_view() == vm,
                Err(em) => r matches Err(e) && e.deep_view() == em,
            },
            (lookup_spec(self.deep_view(), name@) is Some && lookup_spec(
                self.deep_view(),
                name@,
            )->Some_0.return_type is None) ==> ({
                &&& data@.len() == 0 ==> (r matches Ok(v) && v == Value::Unit)
                &&& data@.len() != 0 ==> r == Err::<Value, Error>(Error::DecodeError)
            }),
    {
        let m = match self.descriptor.lookup(name) {
            Ok(m) => m,
            Err(e) => {
                return Err(e);
            },
        };
        match &m.return_type {
            None => {
                if data.len() == 0 {
                    Ok(Value::Unit)
                } else {
                    Err(Error::DecodeError)
                }
            },
            Some(t) => {
                match decode_value(t, data, 0) {
                    Ok((v, p)) => {
                        proof {
                            assert(data@.subrange(0, data@.len() as int) =~= data@);
                        }
                        if p == data.len() {
                            Ok(v)
                        } else {
                            Err(Error::TrailingDataError)
                        }
                    },
                    Err(_) => {
                        proof {
                            assert(data@.subrange(0, data@.len() as int) =~= data@);
                        }
                        Err(Error::DecodeError)
                    },
                }
            },
        }
    }

    /// Renders one raw event record, as [`decode_event_spec`] states; a
    /// record that does not decode is rendered as raw bytes, never an
    /// error.
    pub fn decode_event(&self, record: &EventRecord) -> (r: HumanEvent)
        ensures
            r.deep_view() == decode_event_spec(self.deep_view(), record.deep_view()),
    {
        proof {
            assert(record.data@.subrange(0, record.data@.len() as int) =~= record.data@);
        }
        let is_contract = str_eq(record.module.as_str(), "Contracts") && str_eq(
            record.name.as_str(),
            "ContractEmitted",
        );
        if !is_contract {
            return HumanEvent::Ledger {
                module: record.module.clone(),
                name: record.name.clone(),
                data: copy_range(&record.data, 0, record.data.len()),
            };
        }
        if record.data.len() < 4 {
            return HumanEvent::Raw { data: copy_range(&record.data, 0, record.data.len()) };
        }
        let sig = copy_range(&record.data, 0, 4);
        match self.descriptor.lookup_event(&sig) {
            None => HumanEvent::Raw { data: copy_range(&record.data, 0, record.data.len()) },
            Some(ev) => {
                match decode_fields(&ev.fields, &record.data, 4) {
                    Ok((vs, end)) => {
                        if end == record.data.len() {
                            HumanEvent::Contract { name: ev.name.clone(), fields: vs }
                        } else {
                            HumanEvent::Raw {
                                data: copy_range(&record.data, 0, record.data.len()),
                            }
                        }
                    },
                    Err(_) => HumanEvent::Raw { data: copy_range(&record.data, 0, record.data.len()) },
                }
            },
        }
    }

    /// Renders every raw event record independently: one rendered event
    /// per record, in order, and a record that fails to decode never
    /// blocks its siblings.
    pub fn decode_events(&self, records: &Vec<EventRecord>) -> (r: Vec<HumanEvent>)
        ensures
            r.deep_view().len() == records.deep_view().len(),
            forall|i: int| 0 <= i < records.deep_view().len() ==> r.deep_view()[i]
                == decode_event_spec(self.deep_view(), #[trigger] records.deep_view()[i]),
    {
        let mut out: Vec<HumanEvent> = Vec::new();
        let mut i: usize = 0;
        while i < records.len()
            invariant
                i <= records@.len(),
                out.deep_view().len() == i,
                forall|j: int| 0 <= j < i ==> out.deep_view()[j] == decode_event_spec(
                    self.deep_view(),
                    #[trigger] records.deep_view()[j],
                ),
            decreases records@.len() - i,
        {
            let ev = self.decode_event(&records[i]);
            out.push(ev);
            i = i + 1;
        }
        out
    }
}

/// The round-trip law: whenever `encode` succeeds, the produced buffer
/// starts with the resolved method's selector, and a reference decoder
/// applied at the declared parameter types recovers exactly the parsed
/// argument values, consuming the buffer completely.
pub proof fn lemma_encode_round_trip(d: DescriptorModel, name: Seq<char>, args: Seq<Seq<char>>)
    requires
        encode_spec(d, name, args) is Ok,
    ensures
        lookup_spec(d, name) is Some,
        ({
            let m = lookup_spec(d, name)->Some_0;
            let buf = encode_spec(d, name, args)->Ok_0;
            &&& buf.subrange(0, m.selector.len() as int) == m.selector
            &&& decode_fields_from(m.params, 0, buf, m.selector.len() as int) == Some(
                (parsed_values(m.params, args), buf.len() as int),
            )
        }),
{
    let m = lookup_spec(d, name)->Some_0;
    let buf = encode_spec(d, name, args)->Ok_0;
    let vals = parsed_values(m.params, args);
    assert(buf == m.selector + encoded_fields(vals));
    assert forall|j: int| 0 <= j < vals.len() implies has_type(#[trigger] vals[j], m.params[j]) by {
        assert(parse_arg(m.params[j], args[j]) is Some);
        lemma_parse_sound(m.params[j], args[j], 0);
    };
    assert(buf.subrange(0, m.selector.len() as int) =~= m.selector);
    assert(buf.subrange(m.selector.len() as int, buf.len() as int) =~= encoded_fields(
        vals.subrange(0, vals.len() as int),
    ) + Seq::<u8>::empty()) by {
        assert(vals.subrange(0, vals.len() as int) =~= vals);
        assert(encoded_fields(vals) + Seq::<u8>::empty() =~= encoded_fields(vals));
    };
    lemma_fields_round_trip(
        vals,
        m.params,
        0,
        buf,
        m.selector.len() as int,
        Seq::<u8>::empty(),
    );
    assert(vals.subrange(0, vals.len() as int) =~= vals);
}

} // verus!
