//! The error taxonomy shared by every component of the crate.
//!
//! Protocol faults ([`UPnPError`]) carry the raw fault strings together
//! with the numeric code, and resolve that code to a human-readable
//! description through the static table of the UPnP specification.

use vstd::prelude::*;

use crate::dec::{dec_str, parse_u16, parse_unsigned_spec, u32_to_string};
use crate::xml::{find_named, last_child_named, node_text, text_of, XmlElement};

verus! {

/// The UPnP error type.
#[derive(Debug)]
pub enum Error {
    /// A remote action answered with a protocol fault.
    UPnPError(UPnPError),
    /// The discovery collaborator failed; its report is passed through.
    SSDPError(String),
    /// The transport layer failed to reach the device.
    NetworkError(String),
    /// No local interface is open on which a device could call back.
    NoLocalInterfaceOpen,
    /// Reading a response failed.
    IO(String),
    /// A location or endpoint was not a valid URL.
    InvalidUrl(String),
    /// A response body was not valid UTF-8.
    InvalidUtf8,
    /// A document or header did not have the expected shape.
    ParseError(String),
    /// The control point answered with a status that no fault body explains.
    HttpErrorCode(u16),
    /// A document was not well-formed XML.
    XmlError,
    /// A required element or attribute is absent: parent, then child.
    XmlMissingElement(String, String),
    /// An element that must carry text is empty; the element is named.
    XmlMissingText(String),
    /// A scalar failed to decode into its expected type.
    InvalidResponse(String),
}

/// The human-readable report of an error, variant by variant.
pub open spec fn error_message(e: Error) -> Seq<char> {
    match e {
        Error::UPnPError(err) => upnp_error_message(err),
        Error::SSDPError(m) => "error trying to discover devices: "@ + m@,
        Error::NetworkError(m) => "An error occurred trying to connect to device: "@ + m@,
        Error::NoLocalInterfaceOpen =>
            "could not subscribe to events: no local ipv4 interface open"@,
        Error::IO(m) => "error reading response: "@ + m@,
        Error::InvalidUrl(m) => "invalid url: "@ + m@,
        Error::InvalidUtf8 => "invalid utf8"@,
        Error::ParseError(m) => m@,
        Error::HttpErrorCode(code) => "The control point responded with status code "@ + dec_str(
            code as int,
        ),
        Error::XmlError => "failed to parse xml"@,
        Error::XmlMissingElement(parent, child) => "`"@ + parent@
            + "` does not contain a `"@ + child@ + "` element or attribute"@,
        Error::XmlMissingText(name) => "`"@ + name@ + "` does not contain text"@,
        Error::InvalidResponse(m) => "Invalid response: "@ + m@,
    }
}

/// The report of a protocol fault: the raw fault string, the numeric
/// code, and its resolved description.
pub open spec fn upnp_error_message(e: UPnPError) -> Seq<char> {
    e.fault_string@ + " "@ + dec_str(e.err_code as int) + ": "@ + err_description(e.err_code)
}

impl Error {
    /// Describes the error for a human reader.
    pub fn message(&self) -> (r: String)
        ensures
            r@ == error_message(*self),
    {
        let r = match self {
            Error::UPnPError(err) => err.message(),
            Error::SSDPError(m) => String::from_str("error trying to discover devices: ").concat(
                m.as_str(),
            ),
            Error::NetworkError(m) => String::from_str(
                "An error occurred trying to connect to device: ",
            ).concat(m.as_str()),
            Error::NoLocalInterfaceOpen => String::from_str(
                "could not subscribe to events: no local ipv4 interface open",
            ),
            Error::IO(m) => String::from_str("error reading response: ").concat(m.as_str()),
            Error::InvalidUrl(m) => String::from_str("invalid url: ").concat(m.as_str()),
            Error::InvalidUtf8 => String::from_str("invalid utf8"),
            Error::ParseError(m) => m.clone(),
            Error::HttpErrorCode(code) => {
                let v = u32_to_string(*code as u32);
                String::from_str("The control point responded with status code ").concat(
                    v.as_str(),
                )
            },
            Error::XmlError => String::from_str("failed to parse xml"),
            Error::XmlMissingElement(parent, child) => String::from_str("`").concat(
                parent.as_str(),
            ).concat("` does not contain a `").concat(child.as_str()).concat(
                "` element or attribute",
            ),
            Error::XmlMissingText(name) => String::from_str("`").concat(name.as_str()).concat(
                "` does not contain text",
            ),
            Error::InvalidResponse(m) => String::from_str("Invalid response: ").concat(m.as_str()),
        };
        proof {
            assert(r@ =~= error_message(*self));
        }
        r
    }

    /// The error is a structural one naming exactly this parent and child.
    pub open spec fn is_missing_element(self, parent: Seq<char>, child: Seq<char>) -> bool {
        match self {
            Error::XmlMissingElement(p, c) => p@ == parent && c@ == child,
            _ => false,
        }
    }

    /// Wraps the report of a failed scalar conversion.
    pub fn invalid_response(message: String) -> (r: Error)
        ensures
            r == Error::InvalidResponse(message),
    {
        Error::InvalidResponse(message)
    }
}

/// A protocol fault returned by a device in answer to an action.
#[derive(Debug)]
pub struct UPnPError {
    pub fault_code: String,
    pub fault_string: String,
    pub err_code: u16,
}

/// The description the static UPnP table assigns to a numeric error code.
pub open spec fn err_description(code: u16) -> Seq<char> {
    if code == 401 {
        "No action by that name at this service."@
    } else if code == 402 {
        "Invalid Arguments"@
    } else if code == 403 {
        "(deprecated error code)"@
    } else if code == 501 {
        "Action failed"@
    } else if code == 600 {
        "Argument value invalid"@
    } else if code == 601 {
        "Argument Value Out of Range"@
    } else if code == 602 {
        "Optional Action Not Implemented"@
    } else if code == 603 {
        "Out of Memory"@
    } else if code == 604 {
        "Human Intervention Required"@
    } else if code == 605 {
        "String Argument Too Long"@
    } else if 606 <= code && code <= 612 {
        "(error code reserved for UPnP DeviceSecurity)"@
    } else if 613 <= code && code <= 699 {
        "Common action error. Defined by UPnP Forum Technical Committee."@
    } else if 700 <= code && code <= 799 {
        "Action-specific error defined by UPnP Forum working committee."@
    } else if 800 <= code && code <= 899 {
        "Action-specific error for non-standard actions. Defined by UPnP vendor."@
    } else {
        "Invalid Error Code"@
    }
}

/// A fault element holds everything needed to build a [`UPnPError`]:
/// `faultcode`, `faultstring` and `detail` children, an `errorCode`
/// somewhere below `detail`, and a numeric code in it.
pub open spec fn fault_wf(node: XmlElement) -> bool {
    &&& last_child_named(node.children@, "faultcode"@) is Some
    &&& last_child_named(node.children@, "faultstring"@) is Some
    &&& match last_child_named(node.children@, "detail"@) {
        Some(d) => match find_named_err_code(d) {
            Some(ec) => parse_unsigned_spec(text_of(ec), u16::MAX as int) is Some,
            None => false,
        },
        None => false,
    }
}

/// The first pre-order, case-insensitive `errorCode` element below (or at) `d`.
pub open spec fn find_named_err_code(d: XmlElement) -> Option<XmlElement> {
    find_named(d, "errorCode"@)
}

/// The parsed fault `u` is exactly what the `Fault` element `node` declares.
pub open spec fn fault_matches(u: UPnPError, node: XmlElement) -> bool {
    &&& last_child_named(node.children@, "faultcode"@) matches Some(fc) && u.fault_code@
        == text_of(fc)
    &&& last_child_named(node.children@, "faultstring"@) matches Some(fs) && u.fault_string@
        == text_of(fs)
    &&& last_child_named(node.children@, "detail"@) matches Some(d) && find_named_err_code(d)
        matches Some(ec) && parse_unsigned_spec(text_of(ec), u16::MAX as int) == Some(
        u.err_code as int,
    )
}

/// The error a malformed `Fault` element produces.
pub open spec fn fault_err_matches(err: Error, node: XmlElement) -> bool {
    if last_child_named(node.children@, "faultcode"@) is None {
        err.is_missing_element(node.name@, "faultcode"@)
    } else if last_child_named(node.children@, "faultstring"@) is None {
        err.is_missing_element(node.name@, "faultstring"@)
    } else if last_child_named(node.children@, "detail"@) is None {
        err.is_missing_element(node.name@, "detail"@)
    } else if find_named_err_code(last_child_named(node.children@, "detail"@)->Some_0) is None {
        err.is_missing_element("detail"@, "errorCode"@)
    } else {
        err matches Error::InvalidResponse(_)
    }
}

impl UPnPError {
    /// The numeric code carried by the fault.
    pub fn err_code(&self) -> (r: u16)
        ensures
            r == self.err_code,
    {
        self.err_code
    }

    /// The raw `faultcode` text of the fault.
    pub fn fault_code(&self) -> (r: &str)
        ensures
            r@ == self.fault_code@,
    {
        self.fault_code.as_str()
    }

    /// The raw `faultstring` text of the fault.
    pub fn fault_string(&self) -> (r: &str)
        ensures
            r@ == self.fault_string@,
    {
        self.fault_string.as_str()
    }

    /// Resolves the numeric code against the static description table of
    /// the UPnP specification; codes outside the table are reported as
    /// invalid.
    pub fn err_code_description(&self) -> (r: &'static str)
        ensures
            r@ == err_description(self.err_code),
    {
        let code = self.err_code;
        if code == 401 {
            "No action by that name at this service."
        } else if code == 402 {
            "Invalid Arguments"
        } else if code == 403 {
            "(deprecated error code)"
        } else if code == 501 {
            "Action failed"
        } else if code == 600 {
            "Argument value invalid"
        } else if code == 601 {
            "Argument Value Out of Range"
        } else if code == 602 {
            "Optional Action Not Implemented"
        } else if code == 603 {
            "Out of Memory"
        } else if code == 604 {
            "Human Intervention Required"
        } else if code == 605 {
            "String Argument Too Long"
        } else if 606 <= code && code <= 612 {
            "(error code reserved for UPnP DeviceSecurity)"
        } else if 613 <= code && code <= 699 {
            "Common action error. Defined by UPnP Forum Technical Committee."
        } else if 700 <= code && code <= 799 {
            "Action-specific error defined by UPnP Forum working committee."
        } else if 800 <= code && code <= 899 {
            "Action-specific error for non-standard actions. Defined by UPnP vendor."
        } else {
            "Invalid Error Code"
        }
    }

    /// Describes the fault for a human reader: the raw fault string, the
    /// numeric code, and the code's description from the static table.
    pub fn message(&self) -> (r: String)
        ensures
            r@ == upnp_error_message(*self),
    {
        let mut out = self.fault_string.clone();
        out.append(" ");
        let code = u32_to_string(self.err_code as u32);
        out.append(code.as_str());
        out.append(": ");
        out.append(self.err_code_description());
        proof {
            assert(out@ =~= upnp_error_message(*self));
        }
        out
    }

    /// Decodes a SOAP `Fault` element: the raw `faultcode`/`faultstring`
    /// texts are kept as they stand, and the numeric `errorCode` is found
    /// anywhere below `detail` (tag matched up to ASCII case) and parsed.
    pub fn from_fault_node(node: &XmlElement) -> (r: Result<UPnPError, Error>)
        ensures
            r is Ok <==> fault_wf(*node),
            r matches Ok(u) ==> fault_matches(u, *node),
            r matches Err(e) ==> fault_err_matches(e, *node),
    {
        let fault_code = match crate::xml::find_child(node, "faultcode") {
            Some(fc) => String::from_str(node_text(fc)),
            None => {
                return Err(Error::XmlMissingElement(
                    self_name(node),
                    String::from_str("faultcode"),
                ));
            },
        };
        let fault_string = match crate::xml::find_child(node, "faultstring") {
            Some(fs) => String::from_str(node_text(fs)),
            None => {
                return Err(Error::XmlMissingElement(
                    self_name(node),
                    String::from_str("faultstring"),
                ));
            },
        };
        let detail = match crate::xml::find_child(node, "detail") {
            Some(d) => d,
            None => {
                return Err(Error::XmlMissingElement(self_name(node), String::from_str("detail")));
            },
        };
        let err_code_node = match find_err_code(detail) {
            Some(ec) => ec,
            None => {
                return Err(Error::XmlMissingElement(
                    String::from_str("detail"),
                    String::from_str("errorCode"),
                ));
            },
        };
        let err_code = match parse_u16(node_text(err_code_node)) {
            Some(v) => v,
            None => {
                return Err(Error::invalid_response(String::from_str("invalid error code")));
            },
        };
        Ok(UPnPError { fault_code, fault_string, err_code })
    }
}

fn self_name(node: &XmlElement) -> (r: String)
    ensures
        r@ == node.name@,
{
    node.name.clone()
}

fn find_err_code<'a>(d: &'a XmlElement) -> (r: Option<&'a XmlElement>)
    ensures
        match r {
            Some(x) => find_named_err_code(*d) == Some(*x),
            None => find_named_err_code(*d) is None,
        },
{
    crate::xml::find_root(d, "errorCode", "detail").ok()
}

} // verus!
