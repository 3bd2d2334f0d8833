//! State variables: the typed schema behind every action argument.
//!
//! A `stateVariable` element declares a name, a data type, optional
//! default, and exactly one of three kinds: a plain data type, an
//! enumeration of allowed strings, or an integer range.  Declaring both
//! an `allowedValueList` and an `allowedValueRange` is a parse error.

use vstd::prelude::*;

use crate::dec::{parse_i64, parse_signed_spec};
use crate::error::Error;
use crate::strutil::str_eq;
use crate::xml::{find_child, find_node_attribute, first_attr_named, last_child_named, node_text,
    text_of, XmlElement};

verus! {

/// A `StateVariable` is the type of every argument of a UPnP action: a
/// single value, an enumeration of strings, or an integer range.
#[derive(Debug)]
pub struct StateVariable {
    pub name: String,
    pub default: Option<String>,
    pub kind: StateVariableKind,
    pub send_events: bool,
    pub multicast: bool,
    pub optional: bool,
}

/// The range of a state variable, with the step the document gives or 1
/// when it gives none.
#[derive(Debug, Clone, Copy, PartialEq, Eq, Structural)]
pub struct StateVariableRange {
    pub minimum: i64,
    pub maximum: i64,
    pub step: i64,
}

impl StateVariableRange {
    pub fn minimum(&self) -> (r: i64)
        ensures
            r == self.minimum,
    {
        self.minimum
    }

    pub fn maximum(&self) -> (r: i64)
        ensures
            r == self.maximum,
    {
        self.maximum
    }

    pub fn step(&self) -> (r: i64)
        ensures
            r == self.step,
    {
        self.step
    }
}

/// The kind of a state variable.
#[derive(Debug)]
pub enum StateVariableKind {
    /// Just a value of some data type.
    Simple(DataType),
    /// An enumeration of possible strings.
    Enum(Vec<String>),
    /// A range of values.
    Range(StateVariableRange),
}

/// The data types the UPnP schema knows.
#[derive(Debug, Clone, Copy, PartialEq, Eq, Structural)]
#[allow(non_camel_case_types)]
pub enum DataType {
    ui1,
    ui2,
    ui4,
    ui8,
    i1,
    i2,
    i4,
    Int,
    r4,
    r8,
    Number,
    Float,
    Fixed14_4,
    Char,
    String,
    Date,
    DateTime,
    DateTimeTz,
    Time,
    TimeTz,
    Boolean,
    BinBase64,
    BinHex,
    Uri,
}

/// The text was not one of the data type names of the UPnP schema.
#[derive(Debug)]
pub struct ParseDataTypeErr(pub String);

/// The data type a piece of `dataType` text denotes, if any.
pub open spec fn data_type_of(s: Seq<char>) -> Option<DataType> {
    if s == "ui1"@ {
        Some(DataType::ui1)
    } else if s == "ui2"@ {
        Some(DataType::ui2)
    } else if s == "ui4"@ {
        Some(DataType::ui4)
    } else if s == "ui8"@ {
        Some(DataType::ui8)
    } else if s == "i1"@ {
        Some(DataType::i1)
    } else if s == "i2"@ {
        Some(DataType::i2)
    } else if s == "i4"@ {
        Some(DataType::i4)
    } else if s == "int"@ {
        Some(DataType::Int)
    } else if s == "r4"@ {
        Some(DataType::r4)
    } else if s == "r8"@ {
        Some(DataType::r8)
    } else if s == "number"@ {
        Some(DataType::Number)
    } else if s == "float"@ {
        Some(DataType::Float)
    } else if s == "fixed14_4"@ {
        Some(DataType::Fixed14_4)
    } else if s == "char"@ {
        Some(DataType::Char)
    } else if s == "string"@ {
        Some(DataType::String)
    } else if s == "date"@ {
        Some(DataType::Date)
    } else if s == "dateTime"@ {
        Some(DataType::DateTime)
    } else if s == "dateTimeTz"@ {
        Some(DataType::DateTimeTz)
    } else if s == "time"@ {
        Some(DataType::Time)
    } else if s == "timeTz"@ {
        Some(DataType::TimeTz)
    } else if s == "boolean"@ {
        Some(DataType::Boolean)
    } else if s == "bin.base64"@ {
        Some(DataType::BinBase64)
    } else if s == "bin.hex"@ {
        Some(DataType::BinHex)
    } else if s == "uri"@ {
        Some(DataType::Uri)
    } else {
        None
    }
}

impl DataType {
    /// Reads a `dataType` text into the data type it names.
    pub fn from_str(s: &str) -> (r: Result<DataType, ParseDataTypeErr>)
        ensures
            match r {
                Ok(d) => data_type_of(s@) == Some(d),
                Err(e) => data_type_of(s@) is None && e.0@ == s@,
            },
    {
        if str_eq(s, "ui1") {
            Ok(DataType::ui1)
        } else if str_eq(s, "ui2") {
            Ok(DataType::ui2)
        } else if str_eq(s, "ui4") {
            Ok(DataType::ui4)
        } else if str_eq(s, "ui8") {
            Ok(DataType::ui8)
        } else if str_eq(s, "i1") {
            Ok(DataType::i1)
        } else if str_eq(s, "i2") {
            Ok(DataType::i2)
        } else if str_eq(s, "i4") {
            Ok(DataType::i4)
        } else if str_eq(s, "int") {
            Ok(DataType::Int)
        } else if str_eq(s, "r4") {
            Ok(DataType::r4)
        } else if str_eq(s, "r8") {
            Ok(DataType::r8)
        } else if str_eq(s, "number") {
            Ok(DataType::Number)
        } else if str_eq(s, "float") {
            Ok(DataType::Float)
        } else if str_eq(s, "fixed14_4") {
            Ok(DataType::Fixed14_4)
        } else if str_eq(s, "char") {
            Ok(DataType::Char)
        } else if str_eq(s, "string") {
            Ok(DataType::String)
        } else if str_eq(s, "date") {
            Ok(DataType::Date)
        } else if str_eq(s, "dateTime") {
            Ok(DataType::DateTime)
        } else if str_eq(s, "dateTimeTz") {
            Ok(DataType::DateTimeTz)
        } else if str_eq(s, "time") {
            Ok(DataType::Time)
        } else if str_eq(s, "timeTz") {
            Ok(DataType::TimeTz)
        } else if str_eq(s, "boolean") {
            Ok(DataType::Boolean)
        } else if str_eq(s, "bin.base64") {
            Ok(DataType::BinBase64)
        } else if str_eq(s, "bin.hex") {
            Ok(DataType::BinHex)
        } else if str_eq(s, "uri") {
            Ok(DataType::Uri)
        } else {
            Err(ParseDataTypeErr(String::from_str(s)))
        }
    }
}

/// The texts directly under each element of `s`, in order.
pub open spec fn texts_of(s: Seq<XmlElement>) -> Seq<Seq<char>> {
    s.map_values(|c: XmlElement| text_of(c))
}

/// An `allowedValueRange` element is well-formed: required `minimum` and
/// `maximum` with signed decimal text, and decimal text in `step` when
/// one is present.
pub open spec fn range_wf(e: XmlElement) -> bool {
    &&& match last_child_named(e.children@, "minimum"@) {
        Some(c) => parse_signed_spec(text_of(c)) is Some,
        None => false,
    }
    &&& match last_child_named(e.children@, "maximum"@) {
        Some(c) => parse_signed_spec(text_of(c)) is Some,
        None => false,
    }
    &&& match last_child_named(e.children@, "step"@) {
        Some(c) => parse_signed_spec(text_of(c)) is Some,
        None => true,
    }
}

/// The range a well-formed `allowedValueRange` element denotes.
pub open spec fn spec_range_of(e: XmlElement) -> StateVariableRange {
    (StateVariableRange {
        minimum: parse_signed_spec(text_of(last_child_named(e.children@, "minimum"@)->Some_0))
            ->Some_0 as i64,
        maximum: parse_signed_spec(text_of(last_child_named(e.children@, "maximum"@)->Some_0))
            ->Some_0 as i64,
        step: match last_child_named(e.children@, "step"@) {
            Some(c) => parse_signed_spec(text_of(c))->Some_0 as i64,
            None => 1,
        },
    })
}

/// The error a malformed `allowedValueRange` element produces.
pub open spec fn range_err_matches(err: Error, e: XmlElement) -> bool {
    if last_child_named(e.children@, "minimum"@) is None {
        err.is_missing_element(e.name@, "minimum"@)
    } else if last_child_named(e.children@, "maximum"@) is None {
        err.is_missing_element(e.name@, "maximum"@)
    } else {
        err matches Error::InvalidResponse(_)
    }
}

/// Reads an `allowedValueRange` element: required `minimum`/`maximum`,
/// optional `step` with a default of 1.
pub fn range_from_xml(e: &XmlElement) -> (r: Result<StateVariableRange, Error>)
    ensures
        r is Ok <==> range_wf(*e),
        r matches Ok(v) ==> v == spec_range_of(*e),
        r matches Err(err) ==> !range_wf(*e) && range_err_matches(err, *e),
{
    let min_child = match find_child(e, "minimum") {
        Some(c) => c,
        None => {
            return Err(Error::XmlMissingElement(e.name.clone(), String::from_str("minimum")));
        },
    };
    let max_child = match find_child(e, "maximum") {
        Some(c) => c,
        None => {
            return Err(Error::XmlMissingElement(e.name.clone(), String::from_str("maximum")));
        },
    };
    let step: i64 = match find_child(e, "step") {
        Some(c) => match parse_i64(node_text(c)) {
            Some(v) => v,
            None => {
                return Err(Error::invalid_response(String::from_str("invalid range step")));
            },
        },
        None => 1,
    };
    let minimum = match parse_i64(node_text(min_child)) {
        Some(v) => v,
        None => {
            return Err(Error::invalid_response(String::from_str("invalid range minimum")));
        },
    };
    let maximum = match parse_i64(node_text(max_child)) {
        Some(v) => v,
        None => {
            return Err(Error::invalid_response(String::from_str("invalid range maximum")));
        },
    };
    Ok(StateVariableRange { minimum, maximum, step })
}

/// A `stateVariable` element is well-formed: required `name` and
/// `dataType` (whose text names a known type), a well-formed range when
/// one is declared, and not both an `allowedValueList` and an
/// `allowedValueRange`.
pub open spec fn sv_wf(e: XmlElement) -> bool {
    &&& last_child_named(e.children@, "name"@) is Some
    &&& last_child_named(e.children@, "dataType"@) is Some
    &&& match last_child_named(e.children@, "allowedValueRange"@) {
        Some(r) => range_wf(r),
        None => true,
    }
    &&& data_type_of(text_of(last_child_named(e.children@, "dataType"@)->Some_0)) is Some
    &&& !(last_child_named(e.children@, "allowedValueList"@) is Some && last_child_named(
        e.children@,
        "allowedValueRange"@,
    ) is Some)
}

/// The kind a parsed variable must carry, decided by which of the two
/// optional declarations the element holds.
pub open spec fn sv_kind_matches(k: StateVariableKind, e: XmlElement) -> bool {
    match last_child_named(e.children@, "allowedValueList"@) {
        Some(l) => match last_child_named(e.children@, "allowedValueRange"@) {
            Some(_) => false,
            None => k matches StateVariableKind::Enum(vs) && vs@.map_values(|s: String| s@)
                == texts_of(l.children@),
        },
        None => match last_child_named(e.children@, "allowedValueRange"@) {
            Some(r) => k matches StateVariableKind::Range(rg) && rg == spec_range_of(r),
            None => k matches StateVariableKind::Simple(d) && data_type_of(
                text_of(last_child_named(e.children@, "dataType"@)->Some_0),
            ) == Some(d),
        },
    }
}

/// What `sendEvents` (or `multicast`) evaluates to: the attribute's value
/// compared with `yes`, with the given default when the attribute is absent.
pub open spec fn yes_attr(e: XmlElement, name: Seq<char>, default: bool) -> bool {
    match first_attr_named(e.attributes@, name) {
        Some(v) => v@ == "yes"@,
        None => default,
    }
}

/// The parsed variable `v` is exactly what the element `e` declares.
pub open spec fn sv_matches(v: StateVariable, e: XmlElement) -> bool {
    &&& v.name@ == text_of(last_child_named(e.children@, "name"@)->Some_0)
    &&& match last_child_named(e.children@, "defaultValue"@) {
        Some(d) => v.default matches Some(s) && s@ == text_of(d),
        None => v.default is None,
    }
    &&& v.optional == (last_child_named(e.children@, "optional"@) is Some)
    &&& v.send_events == yes_attr(e, "sendEvents"@, true)
    &&& v.multicast == yes_attr(e, "multicast"@, false)
    &&& sv_kind_matches(v.kind, e)
}

/// The error a malformed `stateVariable` element produces.
pub open spec fn sv_err_matches(err: Error, e: XmlElement) -> bool {
    if last_child_named(e.children@, "name"@) is None {
        err.is_missing_element(e.name@, "name"@)
    } else if last_child_named(e.children@, "dataType"@) is None {
        err.is_missing_element(e.name@, "dataType"@)
    } else if (match last_child_named(e.children@, "allowedValueRange"@) {
        Some(rn) => !range_wf(rn),
        None => false,
    }) {
        range_err_matches(err, last_child_named(e.children@, "allowedValueRange"@)->Some_0)
    } else if data_type_of(text_of(last_child_named(e.children@, "dataType"@)->Some_0)) is None {
        err matches Error::InvalidResponse(_)
    } else {
        err matches Error::ParseError(m) && m@
            == "both `AllowedValues` and `AllowedValueRange` is set"@
    }
}

impl StateVariable {
    /// Reads one `stateVariable` element.  Exactly one of the three kinds
    /// is accepted: a plain `dataType`, an `allowedValueList`, or an
    /// `allowedValueRange`; declaring the latter two together fails.
    /// `sendEvents` defaults to `yes`, `multicast` to `no`.
    pub fn from_xml(e: &XmlElement) -> (r: Result<StateVariable, Error>)
        ensures
            r is Ok <==> sv_wf(*e),
            r matches Ok(v) ==> sv_matches(v, *e),
            r matches Err(err) ==> sv_err_matches(err, *e),
    {
        let name_child = match find_child(e, "name") {
            Some(c) => c,
            None => {
                return Err(Error::XmlMissingElement(e.name.clone(), String::from_str("name")));
            },
        };
        let dt_child = match find_child(e, "dataType") {
            Some(c) => c,
            None => {
                return Err(Error::XmlMissingElement(e.name.clone(), String::from_str("dataType")));
            },
        };
        let variants: Option<Vec<String>> = match find_child(e, "allowedValueList") {
            Some(l) => Some(child_texts(l)),
            None => None,
        };
        let default: Option<String> = match find_child(e, "defaultValue") {
            Some(d) => Some(String::from_str(node_text(d))),
            None => None,
        };
        let range: Option<StateVariableRange> = match find_child(e, "allowedValueRange") {
            Some(rn) => match range_from_xml(rn) {
                Ok(v) => Some(v),
                Err(err) => {
                    return Err(err);
                },
            },
            None => None,
        };
        let name = String::from_str(node_text(name_child));
        let datatype = match DataType::from_str(node_text(dt_child)) {
            Ok(d) => d,
            Err(pe) => {
                let msg = String::from_str("invalid data type: ").concat(pe.0.as_str());
                return Err(Error::invalid_response(msg));
            },
        };
        let optional = match find_child(e, "optional") {
            Some(_) => true,
            None => false,
        };
        let send_events = match find_node_attribute(e, "sendEvents") {
            Some(v) => str_eq(v, "yes"),
            None => true,
        };
        let multicast = match find_node_attribute(e, "multicast") {
            Some(v) => str_eq(v, "yes"),
            None => false,
        };
        let kind = match variants {
            Some(vs) => {
                match range {
                    Some(_) => {
                        return Err(Error::ParseError(
                            String::from_str("both `AllowedValues` and `AllowedValueRange` is set"),
                        ));
                    },
                    None => StateVariableKind::Enum(vs),
                }
            },
            None => match range {
                Some(rg) => StateVariableKind::Range(rg),
                None => StateVariableKind::Simple(datatype),
            },
        };
        Ok(StateVariable { name, kind, default, optional, send_events, multicast })
    }

    /// The variable's name.
    pub fn name(&self) -> (r: &str)
        ensures
            r@ == self.name@,
    {
        self.name.as_str()
    }

    /// The default value the document declares, if any.
    pub fn default(&self) -> (r: Option<&str>)
        ensures
            match r {
                Some(s) => self.default matches Some(d) && d@ == s@,
                None => self.default is None,
            },
    {
        match &self.default {
            Some(d) => Some(d.as_str()),
            None => None,
        }
    }

    /// Whether the variable is marked optional.
    pub fn optional(&self) -> (r: bool)
        ensures
            r == self.optional,
    {
        self.optional
    }

    /// Whether changes of the variable are evented.
    pub fn sends_events(&self) -> (r: bool)
        ensures
            r == self.send_events,
    {
        self.send_events
    }

    /// Whether events for the variable are multicast.
    pub fn is_multicast(&self) -> (r: bool)
        ensures
            r == self.multicast,
    {
        self.multicast
    }

    /// The kind of the variable.
    pub fn kind(&self) -> (r: &StateVariableKind)
        ensures
            r == self.kind,
    {
        &self.kind
    }
}

/// Collects the text under each child of `l`, in document order.
fn child_texts(l: &XmlElement) -> (r: Vec<String>)
    ensures
        r@.map_values(|s: String| s@) == texts_of(l.children@),
{
    let mut out: Vec<String> = Vec::new();
    let mut i: usize = 0;
    proof {
        assert(out@.map_values(|s: String| s@) =~= texts_of(l.children@.subrange(0, 0)));
    }
    while i < l.children.len()
        invariant
            0 <= i <= l.children.len(),
            out@.map_values(|s: String| s@) =~= texts_of(l.children@.subrange(0, i as int)),
        decreases l.children@.len() - i,
    {
        let ghost prev = out@;
        out.push(String::from_str(node_text(&l.children[i])));
        proof {
            prev.lemma_push_map_commute(|s: String| s@, out@.last());
            assert(l.children@.subrange(0, i + 1).drop_last() =~= l.children@.subrange(0, i as int));
            l.children@.subrange(0, i + 1).drop_last().lemma_push_map_commute(
                |c: XmlElement| text_of(c),
                l.children@[i as int],
            );
            assert(l.children@.subrange(0, i + 1) =~= l.children@.subrange(0, i as int).push(
                l.children@[i as int],
            ));
            assert(out@.map_values(|s: String| s@) =~= texts_of(
                l.children@.subrange(0, i + 1),
            ));
        }
        i = i + 1;
    }
    proof {
        assert(l.children@.subrange(0, l.children@.len() as int) =~= l.children@);
    }
    out
}

} // verus!
