//! The GENA eventing handshake and the decoding of notifications.
//!
//! Subscribing, renewing and unsubscribing are plain HTTP exchanges with
//! exactly specified headers; the caller sends them and hands the status
//! and headers of the answer back.  Notification bodies arrive line by
//! line on a callback connection: [`NotifyState`] accumulates the
//! `propertyset` document, and [`propertyset_to_map`] decodes it.  A
//! decode failure concerns that delivery alone — the result is a function
//! of the one body text, so one bad notification never poisons the next.

use vstd::prelude::*;

use crate::dec::{dec_str, u32_to_string};
use crate::error::Error;
use crate::strutil::{ends_with, is_prefix, is_suffix, starts_with};
use crate::xml::{parse_xml, xml_tree_of, XmlElement};

verus! {

/// The `TIMEOUT` header value for a subscription of `n` seconds.
pub open spec fn timeout_header(n: u32) -> Seq<char> {
    "Second-"@ + dec_str(n as int)
}

/// The headers of an initial `SUBSCRIBE` request: the callback URL in
/// angle brackets, the `upnp:event` notification type, and the timeout.
pub fn subscribe_headers(callback: &str, timeout_secs: u32) -> (r: Vec<(String, String)>)
    ensures
        r@.len() == 3,
        r@[0].0@ == "CALLBACK"@ && r@[0].1@ == "<"@ + callback@ + ">"@,
        r@[1].0@ == "NT"@ && r@[1].1@ == "upnp:event"@,
        r@[2].0@ == "TIMEOUT"@ && r@[2].1@ == timeout_header(timeout_secs),
{
    let mut cb = String::from_str("<");
    cb.append(callback);
    cb.append(">");
    let mut out: Vec<(String, String)> = Vec::new();
    out.push((String::from_str("CALLBACK"), cb));
    out.push((String::from_str("NT"), String::from_str("upnp:event")));
    out.push((String::from_str("TIMEOUT"), second_value(timeout_secs)));
    out
}

/// The headers of a renewal: the SID of the running subscription and a
/// fresh timeout; no callback is repeated.
pub fn renew_headers(sid: &str, timeout_secs: u32) -> (r: Vec<(String, String)>)
    ensures
        r@.len() == 2,
        r@[0].0@ == "SID"@ && r@[0].1@ == sid@,
        r@[1].0@ == "TIMEOUT"@ && r@[1].1@ == timeout_header(timeout_secs),
{
    let mut out: Vec<(String, String)> = Vec::new();
    out.push((String::from_str("SID"), String::from_str(sid)));
    out.push((String::from_str("TIMEOUT"), second_value(timeout_secs)));
    out
}

/// The single header of an `UNSUBSCRIBE` request: the SID.
pub fn unsubscribe_headers(sid: &str) -> (r: Vec<(String, String)>)
    ensures
        r@.len() == 1,
        r@[0].0@ == "SID"@ && r@[0].1@ == sid@,
{
    let mut out: Vec<(String, String)> = Vec::new();
    out.push((String::from_str("SID"), String::from_str(sid)));
    out
}

fn second_value(timeout_secs: u32) -> (r: String)
    ensures
        r@ == timeout_header(timeout_secs),
{
    let mut out = String::from_str("Second-");
    let v = u32_to_string(timeout_secs);
    out.append(v.as_str());
    out
}

/// Accepts a response status: anything outside the 2xx range is an HTTP
/// status error carrying that status.  A stale or mismatched SID is
/// answered by the device with 412 and therefore lands here.
pub fn check_status(status: u16) -> (r: Result<(), Error>)
    ensures
        r is Ok <==> 200 <= status < 300,
        r matches Err(e) ==> e == Error::HttpErrorCode(status),
{
    if 200 <= status && status < 300 {
        Ok(())
    } else {
        Err(Error::HttpErrorCode(status))
    }
}

/// Extracts the subscription identifier from a `SUBSCRIBE` response: the
/// status must be a success and the `SID` header must be present, else
/// the subscription did not happen.
pub fn sid_from_response(status: u16, sid_header: Option<&str>) -> (r: Result<String, Error>)
    ensures
        !(200 <= status < 300) ==> (r matches Err(e) && e == Error::HttpErrorCode(status)),
        200 <= status < 300 ==> match sid_header {
            Some(s) => r matches Ok(sid) && sid@ == s@,
            None => r matches Err(e) && e matches Error::ParseError(m) && m@
                == "missing http header `SID`"@,
        },
{
    if !(200 <= status && status < 300) {
        return Err(Error::HttpErrorCode(status));
    }
    match sid_header {
        Some(s) => Ok(String::from_str(s)),
        None => Err(Error::ParseError(String::from_str("missing http header `SID`"))),
    }
}

/// Accumulates one notification body from the lines of a callback
/// connection.  Everything before the `propertyset` root is HTTP chatter
/// and is dropped; from the line that opens the root to the line that
/// closes it, the text is kept.
pub struct NotifyState {
    pub buf: String,
    pub in_body: bool,
}

impl NotifyState {
    /// An accumulator with nothing read yet.
    pub fn new() -> (r: NotifyState)
        ensures
            r.buf@ == Seq::<char>::empty(),
            !r.in_body,
    {
        NotifyState { buf: String::new(), in_body: false }
    }

    /// Feeds one line.  The line is kept when the body has started — at
    /// the line beginning `<e:propertyset` — and the result says whether
    /// a line ending `</e:propertyset>` has closed the body.
    pub fn push_line(&mut self, line: &str) -> (done: bool)
        ensures
            (old(self).in_body || is_prefix(line@, "<e:propertyset"@)) ==> {
                &&& final(self).buf@ == old(self).buf@ + line@
                &&& final(self).in_body
            },
            !(old(self).in_body || is_prefix(line@, "<e:propertyset"@)) ==> *final(self) == *old(
                self,
            ),
            done == is_suffix(line@, "</e:propertyset>"@),
    {
        if self.in_body || starts_with(line, "<e:propertyset") {
            self.buf.append(line);
            self.in_body = true;
        }
        ends_with(line, "</e:propertyset>")
    }

    /// The accumulated body text.
    pub fn body(&self) -> (r: &str)
        ensures
            r@ == self.buf@,
    {
        self.buf.as_str()
    }
}

/// The variable/value pairs a `propertyset` element carries: for each
/// `property` child, its first child element's tag and text; properties
/// without text are skipped.
pub open spec fn property_pairs(properties: Seq<XmlElement>) -> Seq<(Seq<char>, Seq<char>)>
    decreases properties.len(),
{
    if properties.len() == 0 {
        Seq::empty()
    } else {
        property_pairs(properties.drop_last()) + (if properties.last().children@.len() > 0 {
            match properties.last().children@[0].text {
                Some(t) => seq![(properties.last().children@[0].name@, t@)],
                None => Seq::empty(),
            }
        } else {
            Seq::empty()
        })
    }
}

/// Decodes the children of a `propertyset` root into the variable/value
/// pairs of the notification, in document order.
pub fn decode_property_element(root: &XmlElement) -> (r: Vec<(String, String)>)
    ensures
        r@.map_values(|p: (String, String)| (p.0@, p.1@)) == property_pairs(root.children@),
{
    let mut out: Vec<(String, String)> = Vec::new();
    let mut i: usize = 0;
    proof {
        assert(out@.map_values(|p: (String, String)| (p.0@, p.1@)) =~= property_pairs(
            root.children@.subrange(0, 0),
        ));
    }
    while i < root.children.len()
        invariant
            0 <= i <= root.children@.len(),
            out@.map_values(|p: (String, String)| (p.0@, p.1@)) =~= property_pairs(
                root.children@.subrange(0, i as int),
            ),
        decreases root.children@.len() - i,
    {
        let prop = &root.children[i];
        let ghost pre = root.children@.subrange(0, i as int);
        let ghost ext = root.children@.subrange(0, i + 1);
        proof {
            assert(ext.drop_last() =~= pre);
            assert(ext.last() == root.children@[i as int]);
        }
        if prop.children.len() > 0 {
            let inner = &prop.children[0];
            match &inner.text {
                Some(t) => {
                    out.push((inner.name.clone(), t.clone()));
                },
                None => {},
            }
        }
        proof {
            assert(out@.map_values(|p: (String, String)| (p.0@, p.1@)) =~= property_pairs(ext));
        }
        i = i + 1;
    }
    proof {
        assert(root.children@.subrange(0, root.children@.len() as int) =~= root.children@);
    }
    out
}

/// Decodes one accumulated notification body: the text is parsed as a
/// `propertyset` document and each property becomes one variable/value
/// pair.  The outcome depends on this body alone, so a malformed
/// delivery yields one error item and says nothing about any other
/// delivery.
pub fn propertyset_to_map(text: &str) -> (r: Result<Vec<(String, String)>, Error>)
    ensures
        match xml_tree_of(text@) {
            None => r matches Err(e) && e is XmlError,
            Some(root) => r matches Ok(pairs) && pairs@.map_values(
                |p: (String, String)| (p.0@, p.1@),
            ) == property_pairs(root.children@),
        },
{
    match parse_xml(text) {
        Some(root) => Ok(decode_property_element(&root)),
        None => Err(Error::XmlError),
    }
}

} // verus!
