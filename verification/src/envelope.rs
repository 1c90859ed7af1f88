//! A payload paired with the linked-data context that it is to be read in.

use vstd::prelude::*;
use core::fmt::Debug;
use crate::document::parsed;
use crate::error::{CodecError, ErrorKind, Failure, FailureKind};
use crate::json::{fields_model, lookup, push_field, Fields, Json, JsonModel};
use crate::schema::{
    context_key, mismatch, Normal, NormalFields,
};

verus! {

/// A payload and its context. On the wire the context stands under the key
/// `@context`, after the payload's own fields and at their level.
#[derive(Debug, PartialEq)]
pub struct LinkedData<T: Debug, C: Debug> {
    pub data: T,
    pub context: C,
}

/// A payload that knows the context it is to be read in.
pub trait AsLinkedData: Sized + Debug {
    type ContextType: Debug;

    /// The context of this payload.
    fn get_ld_context(&self) -> Self::ContextType;

    /// Wraps the payload together with its own context.
    fn into_linked_data(self) -> (r: LinkedData<Self, Self::ContextType>)
        ensures
            r.data == self,
    {
        let context = self.get_ld_context();
        LinkedData::new(self, context)
    }
}

/// A value that is written as fields of an object, so that it can share the
/// object with a context.
pub trait Payload: Sized + Debug {
    /// The fields that the value is written as.
    spec fn payload_fields(&self) -> Fields;

    /// What a document decodes to as a payload: the fields of the canonical
    /// form, or the failure that decoding reports.
    spec fn payload_normal(j: JsonModel) -> Result<Fields, Failure>;

    /// Reads the payload from the fields of an object, passing over fields
    /// that it does not know.
    fn read_payload(j: &Json) -> (r: Result<Self, CodecError>)
        ensures
            match r {
                Ok(value) => Self::payload_normal(j@) == NormalFields::Ok(value.payload_fields()),
                Err(e) => Self::payload_normal(j@) == NormalFields::Err(e@),
            },
    ;

    /// Appends the fields of the payload to the fields of an object.
    fn write_payload(&self, out: &mut Vec<(String, Json)>)
        ensures
            fields_model(final(out)@) == fields_model(old(out)@) + self.payload_fields(),
    ;
}

/// A value that can stand as the context of an envelope.
pub trait Context: Sized + Debug {
    /// The document that the context is written as.
    spec fn context_wire(&self) -> JsonModel;

    /// What a document decodes to as a context: the canonical form, or the
    /// failure that decoding reports.
    spec fn context_normal(j: JsonModel) -> Result<JsonModel, Failure>;

    /// Reads the context.
    fn read_context(j: &Json) -> (r: Result<Self, CodecError>)
        ensures
            match r {
                Ok(value) => Self::context_normal(j@) == Normal::Ok(value.context_wire()),
                Err(e) => Self::context_normal(j@) == Normal::Err(e@),
            },
    ;

    /// Writes the context.
    fn write_context(&self) -> (r: Json)
        ensures
            r@ == self.context_wire(),
    ;
}

/// Any document can be a context, and stands for itself.
impl Context for Json {
    open spec fn context_wire(&self) -> JsonModel {
        self@
    }

    open spec fn context_normal(j: JsonModel) -> Result<JsonModel, Failure> {
        Ok(j)
    }

    fn read_context(j: &Json) -> (r: Result<Json, CodecError>) {
        Ok(j.copy())
    }

    fn write_context(&self) -> (r: Json) {
        self.copy()
    }
}

/// A context that is given by its address alone.
impl Context for String {
    open spec fn context_wire(&self) -> JsonModel {
        JsonModel::Text(self@)
    }

    open spec fn context_normal(j: JsonModel) -> Result<JsonModel, Failure> {
        if j is Text {
            Ok(j)
        } else {
            Err(mismatch())
        }
    }

    fn read_context(j: &Json) -> (r: Result<String, CodecError>) {
        match j {
            Json::Text(text) => Ok(text.clone()),
            _ => Err(CodecError::at_root(ErrorKind::FieldTypeMismatch)),
        }
    }

    fn write_context(&self) -> (r: Json) {
        Json::Text(self.clone())
    }
}

/// The failure of an envelope without a context.
pub open spec fn context_missing() -> Failure {
    Failure::at_root(FailureKind::MissingRequiredField).within(context_key())
}

/// What a document decodes to as an envelope of a payload `T` and a context
/// `C`: the payload's fields as the payload alone decodes them, then the
/// context under its key. The payload is decoded first; the context must be
/// present.
pub open spec fn normal_envelope<T: Payload, C: Context>(j: JsonModel) -> Result<Fields, Failure> {
    match j {
        JsonModel::Object(fields) => match T::payload_normal(j) {
            Ok(payload) => match lookup(fields, context_key()) {
                Some(given) => match C::context_normal(given) {
                    Ok(context) => Ok(payload.push((context_key(), context))),
                    Err(e) => Err(e.within(context_key())),
                },
                None => Err(context_missing()),
            },
            Err(e) => Err(e),
        },
        _ => Err(mismatch()),
    }
}

/// What a text decodes to as an envelope: a text that is no JSON fails as
/// such, and any other is decoded as the document that it holds.
pub open spec fn normal_envelope_text<T: Payload, C: Context>(text: Seq<char>) -> Result<
    Fields,
    Failure,
> {
    match parsed(text) {
        Ok(document) => normal_envelope::<T, C>(document),
        Err(e) => Err(e),
    }
}

impl<T: Debug, C: Debug> LinkedData<T, C> {
    /// Pairs a payload with a context.
    pub fn new(data: T, context: C) -> (r: LinkedData<T, C>)
        ensures
            r.data == data,
            r.context == context,
    {
        LinkedData { data, context }
    }
}

impl<T: Payload, C: Context> LinkedData<T, C> {
    /// The fields that the envelope is written as: those of the payload, then
    /// the context.
    pub open spec fn wire_fields(&self) -> Fields {
        self.data.payload_fields().push((context_key(), self.context.context_wire()))
    }

    /// The object that the envelope is written as.
    pub open spec fn wire(&self) -> JsonModel {
        JsonModel::Object(self.wire_fields())
    }

    /// Reads an envelope from an object: the payload from the fields that it
    /// knows, the context from the field `@context`.
    pub fn decode(j: &Json) -> (r: Result<LinkedData<T, C>, CodecError>)
        ensures
            match r {
                Ok(value) => normal_envelope::<T, C>(j@) == NormalFields::Ok(value.wire_fields()),
                Err(e) => normal_envelope::<T, C>(j@) == NormalFields::Err(e@),
            },
    {
        match j {
            Json::Object(_) => {},
            _ => {
                return Err(CodecError::at_root(ErrorKind::FieldTypeMismatch));
            },
        }
        let data = match T::read_payload(j) {
            Ok(data) => data,
            Err(e) => {
                return Err(e);
            },
        };
        match j.get("@context") {
            Some(given) => match C::read_context(given) {
                Ok(context) => Ok(LinkedData { data, context }),
                Err(e) => Err(e.within("@context")),
            },
            None => Err(CodecError::at_root(ErrorKind::MissingRequiredField).within("@context")),
        }
    }

    /// Writes the envelope as one object.
    pub fn encode(&self) -> (r: Json)
        ensures
            r@ == self.wire(),
    {
        let mut fields: Vec<(String, Json)> = Vec::new();
        assert(fields_model(fields@) =~= Seq::empty());
        self.data.write_payload(&mut fields);
        assert(Seq::empty() + self.data.payload_fields() =~= self.data.payload_fields());
        push_field(&mut fields, "@context", self.context.write_context());
        Json::Object(fields)
    }

    /// Reads an envelope from JSON text.
    pub fn parse(text: &str) -> (r: Result<LinkedData<T, C>, CodecError>)
        ensures
            match r {
                Ok(value) => normal_envelope_text::<T, C>(text@) == NormalFields::Ok(
                    value.wire_fields(),
                ),
                Err(e) => normal_envelope_text::<T, C>(text@) == NormalFields::Err(e@),
            },
    {
        match Json::parse(text) {
            Ok(document) => LinkedData::decode(&document),
            Err(e) => Err(e),
        }
    }
}

} // verus!
