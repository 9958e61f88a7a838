//! Schema resolution: what each channel advertises so that viewers can
//! decode its messages.

use prost_reflect::{DescriptorPool, MessageDescriptor};
use vstd::prelude::*;
use vstd::string::StrSliceExecFns;

verus! {

#[verifier::external_type_specification]
#[verifier::external_body]
pub struct ExDescriptorPool(DescriptorPool);

#[verifier::external_type_specification]
#[verifier::external_body]
pub struct ExMessageDescriptor(MessageDescriptor);

/// The fully-qualified names (without a leading dot) of the message types
/// that a descriptor pool holds.
pub uninterp spec fn pool_message_names(p: DescriptorPool) -> Set<Seq<char>>;

/// The serialized file descriptor set of a whole descriptor pool.
pub uninterp spec fn pool_encoding(p: DescriptorPool) -> Seq<u8>;

/// The fully-qualified name of a message type.
pub uninterp spec fn descriptor_full_name(d: MessageDescriptor) -> Seq<char>;

/// A type name as the pool keys it: one leading dot is not part of it.
pub open spec fn without_leading_dot(name: Seq<char>) -> Seq<char> {
    if name.len() > 0 && name[0] == '.' {
        name.drop_first()
    } else {
        name
    }
}

/// Relies on `DescriptorPool::get_message_by_name`: it strips one leading dot
/// and looks the rest up among the names of the pool's definitions, yielding a
/// descriptor only for a message type, whose full name is that key.
#[verifier::external_body]
fn find_message(pool: &DescriptorPool, name: &str) -> (r: Option<MessageDescriptor>)
    ensures
        r.is_some() == pool_message_names(*pool).contains(without_leading_dot(name@)),
        r matches Some(d) ==> descriptor_full_name(d) == without_leading_dot(name@),
{
    pool.get_message_by_name(name)
}

/// Relies on `MessageDescriptor::full_name`.
#[verifier::external_body]
fn full_name_of(d: &MessageDescriptor) -> (r: String)
    ensures
        r@ == descriptor_full_name(*d),
{
    d.full_name().to_owned()
}

/// Relies on `DescriptorPool::encode_to_vec`: the whole pool as a serialized
/// file descriptor set, a function of the pool alone.
#[verifier::external_body]
fn encode_pool(pool: &DescriptorPool) -> (r: Vec<u8>)
    ensures
        r@ == pool_encoding(*pool),
{
    pool.encode_to_vec()
}

/// Message encoding label of structured (protobuf) channels; also the label
/// of their schema encoding.
pub const PROTOBUF_ENCODING: &'static str = "protobuf";

/// Message encoding label of JSON channels.
pub const JSON_ENCODING: &'static str = "json";

/// Schema encoding label of JSON channels.
pub const JSON_SCHEMA_ENCODING: &'static str = "jsonschema";

/// The wire encoding of a channel's messages.
#[derive(Clone, Copy, Debug, PartialEq, Eq, Structural)]
pub enum MessageEncoding {
    Protobuf,
    Json,
}

impl MessageEncoding {
    pub open spec fn label(self) -> Seq<char> {
        match self {
            MessageEncoding::Protobuf => PROTOBUF_ENCODING@,
            MessageEncoding::Json => JSON_ENCODING@,
        }
    }

    /// The label under which the encoding is advertised.
    pub fn as_str(&self) -> (r: &'static str)
        ensures
            r@ == self.label(),
    {
        match self {
            MessageEncoding::Protobuf => PROTOBUF_ENCODING,
            MessageEncoding::Json => JSON_ENCODING,
        }
    }
}

/// What a channel advertises about its messages.
pub struct ResolvedSchema {
    pub encoding: MessageEncoding,
    /// The type name shown to viewers.
    pub schema_name: String,
    /// The schema itself: a serialized descriptor set or JSON Schema text.
    pub schema: Vec<u8>,
    /// How to read `schema`.
    pub schema_encoding: Option<String>,
}

/// The mathematical content of a [`ResolvedSchema`].
pub struct SchemaView {
    pub encoding: MessageEncoding,
    pub schema_name: Seq<char>,
    pub schema: Seq<u8>,
    pub schema_encoding: Option<Seq<char>>,
}

pub open spec fn option_string_view(o: Option<String>) -> Option<Seq<char>> {
    match o {
        Some(s) => Some(s@),
        None => None,
    }
}

pub open spec fn option_ref_view(o: Option<&String>) -> Option<Seq<char>> {
    match o {
        Some(s) => Some(s@),
        None => None,
    }
}

impl View for ResolvedSchema {
    type V = SchemaView;

    open spec fn view(&self) -> SchemaView {
        SchemaView {
            encoding: self.encoding,
            schema_name: self.schema_name@,
            schema: self.schema@,
            schema_encoding: option_string_view(self.schema_encoding),
        }
    }
}

/// Why a subscription's schema could not be resolved.
#[derive(Clone, Copy, Debug, PartialEq, Eq, Structural)]
pub enum ResolveError {
    /// The structured message type is not in the descriptor pool.
    DescriptorNotFound,
    /// The named JSON schema is not in the schema table.
    JsonSchemaNotFound,
}

/// The schema advertised for a structured type name, if the pool knows it:
/// the whole pool, serialized.
pub open spec fn structured_schema(pool: DescriptorPool, message_type: Seq<char>) -> Option<
    SchemaView,
> {
    if pool_message_names(pool).contains(without_leading_dot(message_type)) {
        Some(
            SchemaView {
                encoding: MessageEncoding::Protobuf,
                schema_name: without_leading_dot(message_type),
                schema: pool_encoding(pool),
                schema_encoding: Some(PROTOBUF_ENCODING@),
            },
        )
    } else {
        None
    }
}

/// Resolves the schema of a structured subscription by its fully-qualified
/// message type.
pub fn resolve_structured(pool: &DescriptorPool, message_type: &str) -> (r: Result<
    ResolvedSchema,
    ResolveError,
>)
    ensures
        r is Ok <==> structured_schema(*pool, message_type@) is Some,
        r matches Ok(s) ==> Some(s@) == structured_schema(*pool, message_type@),
        r matches Err(e) ==> e == ResolveError::DescriptorNotFound,
{
    match find_message(pool, message_type) {
        Some(d) => {
            let schema_name = full_name_of(&d);
            let schema = encode_pool(pool);
            let r = ResolvedSchema {
                encoding: MessageEncoding::Protobuf,
                schema_name,
                schema,
                schema_encoding: Some(PROTOBUF_ENCODING.to_owned()),
            };
            Ok(r)
        },
        None => Err(ResolveError::DescriptorNotFound),
    }
}


/// Resolving structured types against one pool always yields the same schema
/// payload, the serialized pool, whatever type is named; resolving the same
/// name twice yields the same schema altogether.
pub proof fn lemma_structured_schema_stable(
    pool: DescriptorPool,
    first: Seq<char>,
    second: Seq<char>,
    s1: SchemaView,
    s2: SchemaView,
)
    requires
        Some(s1) == structured_schema(pool, first),
        Some(s2) == structured_schema(pool, second),
    ensures
        s1.schema == s2.schema,
        s1.schema == pool_encoding(pool),
        first == second ==> s1 == s2,
{
}

/// Table name of the generic schema.
pub const GENERIC_JSON: &'static str = "GENERIC_JSON";

/// Table name of the dimmer schema.
pub const IKEA_DIMMER: &'static str = "IKEA_DIMMER_JSON_SCHEMA";

/// Table name of the motion sensor schema.
pub const MOTION_SENSOR: &'static str = "MOTION_SENSOR_JSON_SCHEMA";

/// Table name of the contact sensor schema.
pub const CONTACT_SENSOR: &'static str = "CONTACT_SENSOR_JSON_SCHEMA";

/// Table name of the climate sensor schema.
pub const CLIMATE_SENSOR: &'static str = "CLIMATE_SENSOR_JSON_SCHEMA";

/// The schemas shipped with the bridge, by name.
pub open spec fn standard_schemas() -> Seq<(Seq<char>, Seq<char>)> {
    seq![
        (GENERIC_JSON@, GENERIC_JSON_SCHEMA@),
        (IKEA_DIMMER@, IKEA_DIMMER_JSON_SCHEMA@),
        (MOTION_SENSOR@, MOTION_SENSOR_JSON_SCHEMA@),
        (CONTACT_SENSOR@, CONTACT_SENSOR_JSON_SCHEMA@),
        (CLIMATE_SENSOR@, CLIMATE_SENSOR_JSON_SCHEMA@),
    ]
}

/// The text of the first entry named `name`, if any.
pub open spec fn lookup_schema(entries: Seq<(Seq<char>, Seq<char>)>, name: Seq<char>) -> Option<
    Seq<char>,
>
    decreases entries.len(),
{
    if entries.len() == 0 {
        None
    } else if entries[0].0 == name {
        Some(entries[0].1)
    } else {
        lookup_schema(entries.drop_first(), name)
    }
}

/// An immutable table from schema names to JSON Schema texts, built once and
/// shared by every subscription.
pub struct JsonSchemaTable {
    entries: Vec<(String, String)>,
}

impl View for JsonSchemaTable {
    type V = Seq<(Seq<char>, Seq<char>)>;

    closed spec fn view(&self) -> Seq<(Seq<char>, Seq<char>)> {
        self.entries@.map_values(|e: (String, String)| (e.0@, e.1@))
    }
}

impl JsonSchemaTable {
    /// The table of the schemas shipped with the bridge.
    pub fn standard() -> (t: JsonSchemaTable)
        ensures
            t@ == standard_schemas(),
    {
        let mut entries: Vec<(String, String)> = Vec::new();
        entries.push((GENERIC_JSON.to_owned(), GENERIC_JSON_SCHEMA.to_owned()));
        entries.push((IKEA_DIMMER.to_owned(), IKEA_DIMMER_JSON_SCHEMA.to_owned()));
        entries.push((MOTION_SENSOR.to_owned(), MOTION_SENSOR_JSON_SCHEMA.to_owned()));
        entries.push((CONTACT_SENSOR.to_owned(), CONTACT_SENSOR_JSON_SCHEMA.to_owned()));
        entries.push((CLIMATE_SENSOR.to_owned(), CLIMATE_SENSOR_JSON_SCHEMA.to_owned()));
        let t = JsonSchemaTable { entries };
        assert(t@ =~= standard_schemas());
        t
    }

    /// The schema text registered under `name`.
    pub fn get(&self, name: &String) -> (r: Option<&String>)
        ensures
            option_ref_view(r) == lookup_schema(self@, name@),
    {
        let mut i: usize = 0;
        assert(self@.subrange(0, self@.len() as int) =~= self@);
        while i < self.entries.len()
            invariant
                i <= self.entries@.len(),
                lookup_schema(self@, name@) == lookup_schema(self@.subrange(i as int, self@.len() as int), name@),
            decreases self.entries@.len() - i,
        {
            let ghost rest = self@.subrange(i as int, self@.len() as int);
            assert(rest.drop_first() =~= self@.subrange(i + 1, self@.len() as int));
            if self.entries[i].0 == *name {
                return Some(&self.entries[i].1);
            }
            i = i + 1;
        }
        None
    }
}

/// The schema advertised for a JSON subscription: the generic one when no
/// schema is named, else the named entry of the table.
pub open spec fn json_schema(
    table: Seq<(Seq<char>, Seq<char>)>,
    message_type: Seq<char>,
    schema_name: Option<Seq<char>>,
) -> Option<SchemaView> {
    let text = match schema_name {
        None => Some(GENERIC_JSON_SCHEMA@),
        Some(n) => lookup_schema(table, n),
    };
    match text {
        Some(t) => Some(
            SchemaView {
                encoding: MessageEncoding::Json,
                schema_name: message_type,
                schema: vstd::utf8::encode_utf8(t),
                schema_encoding: Some(JSON_SCHEMA_ENCODING@),
            },
        ),
        None => None,
    }
}

/// Resolves the schema of a JSON subscription from its optional schema name.
pub fn resolve_json(table: &JsonSchemaTable, message_type: &str, schema_name: Option<&String>) -> (r:
    Result<ResolvedSchema, ResolveError>)
    ensures
        r is Ok <==> json_schema(table@, message_type@, option_ref_view(schema_name)) is Some,
        r matches Ok(s) ==> Some(s@) == json_schema(table@, message_type@, option_ref_view(schema_name)),
        r matches Err(e) ==> e == ResolveError::JsonSchemaNotFound,
{
    let text: &str = match schema_name {
        None => GENERIC_JSON_SCHEMA,
        Some(n) => match table.get(n) {
            Some(t) => t.as_str(),
            None => {
                return Err(ResolveError::JsonSchemaNotFound);
            },
        },
    };
    let schema = text.as_bytes_vec();
    Ok(
        ResolvedSchema {
            encoding: MessageEncoding::Json,
            schema_name: message_type.to_owned(),
            schema,
            schema_encoding: Some(JSON_SCHEMA_ENCODING.to_owned()),
        },
    )
}

pub const GENERIC_JSON_SCHEMA: &'static str = r#"
{
"title": "GenericJsonSchema",
"description": "Generic JSON Schema",
"type": "object",
"properties": {}
}
"#;

pub const IKEA_DIMMER_JSON_SCHEMA: &'static str = r#"
{
    "$schema": "http://json-schema.org/draft-04/schema#",
    "type": "object",
    "properties": {
      "action": {
        "type": "string"
      },
      "battery": {
        "type": "integer"
      },
      "brightness": {
        "type": "integer"
      },
      "linkquality": {
        "type": "integer"
      }
    },
    "required": [
      "action",
      "battery",
      "brightness",
      "linkquality"
    ]
}
"#;

pub const MOTION_SENSOR_JSON_SCHEMA: &'static str = r#"
{
    "$schema": "http://json-schema.org/draft-04/schema#",
    "type": "object",
    "properties": {
      "battery": {
        "type": "integer"
      },
      "battery_low": {
        "type": "boolean"
      },
      "linkquality": {
        "type": "integer"
      },
      "occupancy": {
        "type": "boolean"
      },
      "tamper": {
        "type": "boolean"
      },
      "voltage": {
        "type": "integer"
      }
    },
    "required": [
      "battery",
      "battery_low",
      "linkquality",
      "occupancy",
      "tamper",
      "voltage"
    ]
  }
"#;

pub const CONTACT_SENSOR_JSON_SCHEMA: &'static str = r#"
{
"$schema": "http://json-schema.org/draft-04/schema#",
"type": "object",
"properties": {
    "battery": {
    "type": "integer"
    },
    "battery_low": {
    "type": "boolean"
    },
    "contact": {
    "type": "boolean"
    },
    "linkquality": {
    "type": "integer"
    },
    "tamper": {
    "type": "boolean"
    },
    "voltage": {
    "type": "integer"
    }
},
"required": [
    "battery",
    "battery_low",
    "contact",
    "linkquality",
    "tamper",
    "voltage"
]
}
"#;

pub const CLIMATE_SENSOR_JSON_SCHEMA: &'static str = r#"
{
"$schema": "http://json-schema.org/draft-04/schema#",
"type": "object",
"properties": {
    "battery": {
    "type": "integer"
    },
    "humidity": {
    "type": "number"
    },
    "linkquality": {
    "type": "integer"
    },
    "temperature": {
    "type": "number"
    },
    "voltage": {
    "type": "integer"
    }
},
"required": [
    "battery",
    "humidity",
    "linkquality",
    "temperature",
    "voltage"
]
}
"#;

/// A JSON subscription that names no schema advertises the generic
/// empty-object schema, whatever the table holds.
pub proof fn lemma_unnamed_json_schema_is_generic(
    table: Seq<(Seq<char>, Seq<char>)>,
    message_type: Seq<char>,
)
    ensures
        json_schema(table, message_type, None) == Some(
            SchemaView {
                encoding: MessageEncoding::Json,
                schema_name: message_type,
                schema: vstd::utf8::encode_utf8(GENERIC_JSON_SCHEMA@),
                schema_encoding: Some(JSON_SCHEMA_ENCODING@),
            },
        ),
{
}

/// A JSON subscription that names a schema the shipped table does not hold
/// has no schema: its resolution fails.
pub proof fn lemma_unknown_json_schema_fails(message_type: Seq<char>, name: Seq<char>)
    requires
        name != GENERIC_JSON@,
        name != IKEA_DIMMER@,
        name != MOTION_SENSOR@,
        name != CONTACT_SENSOR@,
        name != CLIMATE_SENSOR@,
    ensures
        lookup_schema(standard_schemas(), name) is None,
        json_schema(standard_schemas(), message_type, Some(name)) is None,
{
    let t = standard_schemas();
    assert(t.drop_first().drop_first().drop_first().drop_first().drop_first().len() == 0);
    reveal_with_fuel(lookup_schema, 6);
}

} // verus!
