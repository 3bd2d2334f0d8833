//! Services, their endpoints, and the control protocol.
//!
//! A service carries its type URN, its identifier, and three endpoint
//! paths relative to the device's base URL.  Invoking an action means
//! posting a SOAP-style envelope to the control endpoint and decoding
//! the answer, which is either a map of named outputs or a protocol
//! fault; both request building and response decoding are verified here,
//! while the caller performs the HTTP exchange itself.

use vstd::prelude::*;

use crate::error::{fault_err_matches, fault_matches, fault_wf, Error, UPnPError};
use crate::strutil::{is_prefix, seq_ieq, starts_with, str_ieq};
use crate::urn::{urn_text_domain, urn_text_kind, urn_text_typ, urn_text_version, urn_text_wf,
    parse_urn, URN};
use crate::xml::{find_child, find_named, find_root, last_child_named, node_text, parse_xml,
    text_of, xml_tree_of, XmlElement};

verus! {

/// A UPnP service: its type, its identifier, and the three endpoints on
/// which its description, control and eventing are reached.
#[derive(Debug)]
pub struct Service {
    pub service_type: URN,
    pub service_id: String,
    pub scpd_endpoint: String,
    pub control_endpoint: String,
    pub event_sub_endpoint: String,
}

/// A `service` element is well-formed: all five children present, and a
/// URN in `serviceType`.
pub open spec fn service_wf(e: XmlElement) -> bool {
    &&& last_child_named(e.children@, "serviceType"@) is Some
    &&& last_child_named(e.children@, "serviceId"@) is Some
    &&& last_child_named(e.children@, "SCPDURL"@) is Some
    &&& last_child_named(e.children@, "controlURL"@) is Some
    &&& last_child_named(e.children@, "eventSubURL"@) is Some
    &&& urn_text_wf(text_of(last_child_named(e.children@, "serviceType"@)->Some_0))
}

/// The parsed service is exactly what the element declares.
pub open spec fn service_matches(sv: Service, e: XmlElement) -> bool {
    let st = text_of(last_child_named(e.children@, "serviceType"@)->Some_0);
    &&& sv.service_type.spec_domain() == urn_text_domain(st)
    &&& sv.service_type.spec_typ() == urn_text_typ(st)
    &&& sv.service_type.spec_is_service() == seq_ieq(urn_text_kind(st), "service"@)
    &&& Some(sv.service_type.spec_version() as int) == urn_text_version(st)
    &&& sv.service_id@ == text_of(last_child_named(e.children@, "serviceId"@)->Some_0)
    &&& sv.scpd_endpoint@ == text_of(last_child_named(e.children@, "SCPDURL"@)->Some_0)
    &&& sv.control_endpoint@ == text_of(last_child_named(e.children@, "controlURL"@)->Some_0)
    &&& sv.event_sub_endpoint@ == text_of(last_child_named(e.children@, "eventSubURL"@)->Some_0)
}

/// The error a malformed `service` element produces.
pub open spec fn service_err_matches(err: Error, e: XmlElement) -> bool {
    if last_child_named(e.children@, "serviceType"@) is None {
        err.is_missing_element(e.name@, "serviceType"@)
    } else if last_child_named(e.children@, "serviceId"@) is None {
        err.is_missing_element(e.name@, "serviceId"@)
    } else if last_child_named(e.children@, "SCPDURL"@) is None {
        err.is_missing_element(e.name@, "SCPDURL"@)
    } else if last_child_named(e.children@, "controlURL"@) is None {
        err.is_missing_element(e.name@, "controlURL"@)
    } else if last_child_named(e.children@, "eventSubURL"@) is None {
        err.is_missing_element(e.name@, "eventSubURL"@)
    } else {
        err matches Error::InvalidResponse(_)
    }
}

impl Service {
    /// Reads one `service` element: `serviceType` (a URN), `serviceId`,
    /// and the `SCPDURL`/`controlURL`/`eventSubURL` endpoint paths, all
    /// required.
    pub fn from_xml(e: &XmlElement) -> (r: Result<Service, Error>)
        ensures
            r is Ok <==> service_wf(*e),
            r matches Ok(sv) ==> service_matches(sv, *e),
            r matches Err(err) ==> service_err_matches(err, *e),
    {
        let st_child = match find_child(e, "serviceType") {
            Some(c) => c,
            None => {
                return Err(Error::XmlMissingElement(
                    e.name.clone(),
                    String::from_str("serviceType"),
                ));
            },
        };
        let id_child = match find_child(e, "serviceId") {
            Some(c) => c,
            None => {
                return Err(Error::XmlMissingElement(e.name.clone(), String::from_str("serviceId")));
            },
        };
        let scpd_child = match find_child(e, "SCPDURL") {
            Some(c) => c,
            None => {
                return Err(Error::XmlMissingElement(e.name.clone(), String::from_str("SCPDURL")));
            },
        };
        let control_child = match find_child(e, "controlURL") {
            Some(c) => c,
            None => {
                return Err(Error::XmlMissingElement(
                    e.name.clone(),
                    String::from_str("controlURL"),
                ));
            },
        };
        let event_child = match find_child(e, "eventSubURL") {
            Some(c) => c,
            None => {
                return Err(Error::XmlMissingElement(
                    e.name.clone(),
                    String::from_str("eventSubURL"),
                ));
            },
        };
        let service_type = match parse_urn(node_text(st_child)) {
            Ok(u) => u,
            Err(err) => {
                return Err(err);
            },
        };
        Ok(
            Service {
                service_type,
                service_id: String::from_str(node_text(id_child)),
                scpd_endpoint: String::from_str(node_text(scpd_child)),
                control_endpoint: String::from_str(node_text(control_child)),
                event_sub_endpoint: String::from_str(node_text(event_child)),
            },
        )
    }

    /// The URN of this service.
    pub fn service_type(&self) -> (r: &URN)
        ensures
            r == self.service_type,
    {
        &self.service_type
    }

    /// The service identifier.
    pub fn service_id(&self) -> (r: &str)
        ensures
            r@ == self.service_id@,
    {
        self.service_id.as_str()
    }

    /// The absolute URL of the control endpoint, on the device's base URL.
    pub fn control_url(&self, url: &str) -> (r: String)
        ensures
            r@ == replace_url_path_spec(url@, self.control_endpoint@),
    {
        replace_url_path(url, self.control_endpoint.as_str())
    }

    /// The absolute URL of the service-description endpoint.
    pub fn scpd_url(&self, url: &str) -> (r: String)
        ensures
            r@ == replace_url_path_spec(url@, self.scpd_endpoint@),
    {
        replace_url_path(url, self.scpd_endpoint.as_str())
    }

    /// The absolute URL of the event-subscription endpoint.
    pub fn event_sub_url(&self, url: &str) -> (r: String)
        ensures
            r@ == replace_url_path_spec(url@, self.event_sub_endpoint@),
    {
        replace_url_path(url, self.event_sub_endpoint.as_str())
    }

    /// The SOAP envelope that invokes `action` with the given
    /// pre-serialized argument elements.
    pub fn action_envelope(&self, action: &str, payload: &str) -> (r: String)
        ensures
            r@ == action_envelope_spec(self.service_type.spec_str(), action@, payload@),
    {
        let mut out = String::from_str(
            "<s:Envelope xmlns:s=\"http://schemas.xmlsoap.org/soap/envelope/\" s:encodingStyle=\"http://schemas.xmlsoap.org/soap/encoding/\"><s:Body><u:",
        );
        out.append(action);
        out.append(" xmlns:u=\"");
        let st = self.service_type.to_string();
        out.append(st.as_str());
        out.append("\">");
        out.append(payload);
        out.append("</u:");
        out.append(action);
        out.append("></s:Body></s:Envelope>");
        proof {
            assert(out@ =~= action_envelope_spec(self.service_type.spec_str(), action@, payload@));
        }
        out
    }

    /// The `SOAPAction` header value: the quoted service type and action
    /// name, joined by `#`.
    pub fn soap_action_header(&self, action: &str) -> (r: String)
        ensures
            r@ == soap_action_spec(self.service_type.spec_str(), action@),
    {
        let mut out = String::from_str("\"");
        let st = self.service_type.to_string();
        out.append(st.as_str());
        out.append("#");
        out.append(action);
        out.append("\"");
        proof {
            assert(out@ =~= soap_action_spec(self.service_type.spec_str(), action@));
        }
        out
    }
}

/// The SOAP envelope for one action call.
pub open spec fn action_envelope_spec(service: Seq<char>, action: Seq<char>, payload: Seq<char>)
    -> Seq<char> {
    "<s:Envelope xmlns:s=\"http://schemas.xmlsoap.org/soap/envelope/\" s:encodingStyle=\"http://schemas.xmlsoap.org/soap/encoding/\"><s:Body><u:"@
        + action + " xmlns:u=\""@ + service + "\">"@ + payload + "</u:"@ + action
        + "></s:Body></s:Envelope>"@
}

/// The `SOAPAction` header for one action call.
pub open spec fn soap_action_spec(service: Seq<char>, action: Seq<char>) -> Seq<char> {
    "\""@ + service + "#"@ + action + "\""@
}

/// The first position at or after `from` where `p` occurs in `s`.
pub open spec fn find_sub(s: Seq<char>, p: Seq<char>, from: int) -> Option<int>
    decreases s.len() - from + 1,
{
    if from < 0 || from + p.len() > s.len() {
        None
    } else if s.subrange(from, from + p.len() as int) == p {
        Some(from)
    } else {
        find_sub(s, p, from + 1)
    }
}

/// The scheme-and-authority prefix of an absolute URL: everything before
/// the first `/` that follows `://`.  Text without that shape is kept
/// whole.
pub open spec fn url_origin(s: Seq<char>) -> Seq<char> {
    match find_sub(s, "://"@, 0) {
        None => s,
        Some(i) => match find_sub(s, "/"@, i + 3) {
            None => s,
            Some(j) => s.subrange(0, j),
        },
    }
}

/// The URL with only its path-and-query replaced: scheme and authority
/// are preserved.
pub open spec fn replace_url_path_spec(url: Seq<char>, path: Seq<char>) -> Seq<char> {
    url_origin(url) + path
}

/// Swaps the path-and-query of `url` for `path`, keeping scheme and
/// authority.
pub fn replace_url_path(url: &str, path: &str) -> (r: String)
    ensures
        r@ == replace_url_path_spec(url@, path@),
{
    let len = url.unicode_len();
    let sep = find_marker(url, 0);
    let origin_end: usize = match sep {
        Some(i) => match find_slash(url, i + 3) {
            Some(j) => j,
            None => len,
        },
        None => len,
    };
    let mut out = String::from_str(url.substring_char(0, origin_end));
    out.append(path);
    proof {
        if origin_end == len {
            assert(url@.subrange(0, len as int) =~= url@);
        }
        assert(out@ =~= replace_url_path_spec(url@, path@));
    }
    out
}

/// Finds the first occurrence of `://` at or after `from`.
fn find_marker(s: &str, from: usize) -> (r: Option<usize>)
    requires
        from <= s@.len(),
    ensures
        match r {
            Some(i) => find_sub(s@, "://"@, from as int) == Some(i as int) && from <= i && i + 3
                <= s@.len(),
            None => find_sub(s@, "://"@, from as int) is None,
        },
{
    proof {
        reveal_strlit("://");
    }
    let len = s.unicode_len();
    let mut i: usize = from;
    while i < len && 3 <= len - i
        invariant
            from <= i,
            i <= len,
            len == s@.len(),
            find_sub(s@, "://"@, from as int) == find_sub(s@, "://"@, i as int),
        decreases len - i,
    {
        proof {
            reveal_strlit("://");
        }
        let c0 = s.get_char(i);
        let c1 = s.get_char(i + 1);
        let c2 = s.get_char(i + 2);
        if c0 == ':' && c1 == '/' && c2 == '/' {
            proof {
                assert(s@.subrange(i as int, i + 3) =~= "://"@);
            }
            return Some(i);
        }
        proof {
            assert(s@.subrange(i as int, i + 3) != "://"@) by {
                if s@.subrange(i as int, i + 3) == "://"@ {
                    assert(s@.subrange(i as int, i + 3)[0] == ':' && s@.subrange(i as int, i + 3)[1]
                        == '/' && s@.subrange(i as int, i + 3)[2] == '/');
                }
            }
        }
        i = i + 1;
    }
    proof {
        reveal_strlit("://");
    }
    None
}

/// Finds the first `/` at or after `from`.
fn find_slash(s: &str, from: usize) -> (r: Option<usize>)
    requires
        from <= s@.len(),
    ensures
        match r {
            Some(i) => find_sub(s@, "/"@, from as int) == Some(i as int) && from <= i && i
                < s@.len(),
            None => find_sub(s@, "/"@, from as int) is None,
        },
{
    proof {
        reveal_strlit("/");
    }
    let len = s.unicode_len();
    let mut i: usize = from;
    while i < len
        invariant
            from <= i,
            i <= len,
            len == s@.len(),
            find_sub(s@, "/"@, from as int) == find_sub(s@, "/"@, i as int),
        decreases len - i,
    {
        proof {
            reveal_strlit("/");
        }
        if s.get_char(i) == '/' {
            proof {
                assert(s@.subrange(i as int, i + 1) =~= "/"@);
            }
            return Some(i);
        }
        proof {
            assert(s@.subrange(i as int, i + 1) != "/"@) by {
                if s@.subrange(i as int, i + 1) == "/"@ {
                    assert(s@.subrange(i as int, i + 1)[0] == '/');
                }
            }
        }
        i = i + 1;
    }
    None
}

/// The name/text pairs of the element children that carry text, in
/// document order; children without text are skipped.
pub open spec fn response_pairs(s: Seq<XmlElement>) -> Seq<(Seq<char>, Seq<char>)>
    decreases s.len(),
{
    if s.len() == 0 {
        Seq::empty()
    } else {
        response_pairs(s.drop_last()) + match s.last().text {
            Some(t) => seq![(s.last().name@, t@)],
            None => Seq::empty(),
        }
    }
}

/// What decoding a control-response `Body` yields for a given action.
pub open spec fn action_response_matches(
    r: Result<Vec<(String, String)>, Error>,
    body: XmlElement,
    action: Seq<char>,
) -> bool {
    if body.children@.len() == 0 {
        r matches Err(e) && e matches Error::XmlMissingElement(p, c) && p@ == "Body"@ && c@
            == action + "Response"@
    } else {
        let resp = body.children@[0];
        if seq_ieq(resp.name@, "Fault"@) {
            &&& r is Err
            &&& fault_wf(resp) ==> (r matches Err(e) && e matches Error::UPnPError(u)
                && fault_matches(u, resp))
            &&& !fault_wf(resp) ==> (r matches Err(e) && fault_err_matches(e, resp))
        } else if is_prefix(resp.name@, action) {
            r matches Ok(pairs) && pairs@.map_values(|p: (String, String)| (p.0@, p.1@))
                == response_pairs(resp.children@)
        } else {
            r matches Err(e) && e matches Error::ParseError(_)
        }
    }
}

/// Decodes the `Body` element of a control response for `action`: a
/// `Fault` child (matched up to ASCII case) becomes a protocol fault, a
/// child whose tag starts with the action name yields the name/text map
/// of its children, and anything else is a parse error.
pub fn decode_action_body(body: &XmlElement, action: &str) -> (r: Result<
    Vec<(String, String)>,
    Error,
>)
    ensures
        action_response_matches(r, *body, action@),
{
    if body.children.len() == 0 {
        return Err(Error::XmlMissingElement(
            String::from_str("Body"),
            String::from_str(action).concat("Response"),
        ));
    }
    let resp = &body.children[0];
    if str_ieq(resp.name.as_str(), "Fault") {
        match UPnPError::from_fault_node(resp) {
            Ok(u) => Err(Error::UPnPError(u)),
            Err(e) => Err(e),
        }
    } else if starts_with(resp.name.as_str(), action) {
        Ok(collect_pairs(resp))
    } else {
        return Err(Error::ParseError(
            String::from_str("response contains neither fault nor `").concat(action).concat(
                "Response`",
            ),
        ));
    }
}

/// Collects the name/text pairs of the children of `resp`, in order.
fn collect_pairs(resp: &XmlElement) -> (r: Vec<(String, String)>)
    ensures
        r@.map_values(|p: (String, String)| (p.0@, p.1@)) == response_pairs(resp.children@),
{
    let mut out: Vec<(String, String)> = Vec::new();
    let mut i: usize = 0;
    proof {
        assert(out@.map_values(|p: (String, String)| (p.0@, p.1@)) =~= response_pairs(
            resp.children@.subrange(0, 0),
        ));
    }
    while i < resp.children.len()
        invariant
            0 <= i <= resp.children@.len(),
            out@.map_values(|p: (String, String)| (p.0@, p.1@)) =~= response_pairs(
                resp.children@.subrange(0, i as int),
            ),
        decreases resp.children@.len() - i,
    {
        let c = &resp.children[i];
        let ghost pre = resp.children@.subrange(0, i as int);
        let ghost ext = resp.children@.subrange(0, i + 1);
        proof {
            assert(ext.drop_last() =~= pre);
            assert(ext.last() == resp.children@[i as int]);
        }
        match &c.text {
            Some(t) => {
                out.push((c.name.clone(), t.clone()));
            },
            None => {},
        }
        proof {
            assert(out@.map_values(|p: (String, String)| (p.0@, p.1@)) =~= response_pairs(ext));
        }
        i = i + 1;
    }
    proof {
        assert(resp.children@.subrange(0, resp.children@.len() as int) =~= resp.children@);
    }
    out
}

/// Decodes a whole control response: the body text is parsed as XML even
/// when the HTTP status was not a success (a protocol fault is a
/// well-formed response), the `Body` element is located, and its first
/// child decides between outputs and fault.
pub fn decode_action_response(action: &str, text: &str) -> (r: Result<
    Vec<(String, String)>,
    Error,
>)
    ensures
        match xml_tree_of(text@) {
            None => r matches Err(e) && e is XmlError,
            Some(root) => match find_named(root, "Body"@) {
                None => r matches Err(e) && e.is_missing_element("UPnP Response"@, "Body"@),
                Some(body) => action_response_matches(r, body, action@),
            },
        },
{
    let root = match parse_xml(text) {
        Some(root) => root,
        None => {
            return Err(Error::XmlError);
        },
    };
    let body = match find_root(&root, "Body", "UPnP Response") {
        Ok(b) => b,
        Err(err) => {
            return Err(err);
        },
    };
    decode_action_body(body, action)
}

} // verus!
