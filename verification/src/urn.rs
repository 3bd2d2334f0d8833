//! The three-part type identifier of UPnP devices and services.
//!
//! A URN is written `urn:{domain}:device:{type}:{version}` or
//! `urn:{domain}:service:{type}:{version}`.  Parsing splits on `:` and
//! accepts exactly five segments, matching the kind segment up to ASCII
//! case; rendering produces the canonical form.

use vstd::prelude::*;

use crate::dec::{dec_str, parse_u32, parse_unsigned_spec, u32_to_string};
use crate::error::Error;
use crate::strutil::{seq_ieq, str_eq, str_ieq};

verus! {

/// Uniform Resource Name of a device or service type: its vendor domain,
/// its type name, and its version.
#[derive(Debug)]
pub enum URN {
    Device(String, String, u32),
    Service(String, String, u32),
}

impl URN {
    /// Creates a device URN.
    pub fn device(domain: &str, typ: &str, version: u32) -> (r: URN)
        ensures
            r matches URN::Device(d, t, v) && d@ == domain@ && t@ == typ@ && v == version,
    {
        URN::Device(String::from_str(domain), String::from_str(typ), version)
    }

    /// Creates a service URN.
    pub fn service(domain: &str, typ: &str, version: u32) -> (r: URN)
        ensures
            r matches URN::Service(d, t, v) && d@ == domain@ && t@ == typ@ && v == version,
    {
        URN::Service(String::from_str(domain), String::from_str(typ), version)
    }

    /// The `schemas-upnp-org` part of `urn:schemas-upnp-org:service:RenderingControl:1`.
    pub fn domain_name(&self) -> (r: &str)
        ensures
            r@ == self.spec_domain(),
    {
        match self {
            URN::Device(d, _, _) => d.as_str(),
            URN::Service(d, _, _) => d.as_str(),
        }
    }

    /// The `RenderingControl` part of `urn:schemas-upnp-org:service:RenderingControl:1`.
    pub fn typ(&self) -> (r: &str)
        ensures
            r@ == self.spec_typ(),
    {
        match self {
            URN::Device(_, t, _) => t.as_str(),
            URN::Service(_, t, _) => t.as_str(),
        }
    }

    /// The `1` part of `urn:schemas-upnp-org:service:RenderingControl:1`.
    pub fn version(&self) -> (r: u32)
        ensures
            r == self.spec_version(),
    {
        match self {
            URN::Device(_, _, v) => *v,
            URN::Service(_, _, v) => *v,
        }
    }

    pub open spec fn spec_domain(&self) -> Seq<char> {
        match self {
            URN::Device(d, _, _) => d@,
            URN::Service(d, _, _) => d@,
        }
    }

    pub open spec fn spec_typ(&self) -> Seq<char> {
        match self {
            URN::Device(_, t, _) => t@,
            URN::Service(_, t, _) => t@,
        }
    }

    pub open spec fn spec_version(&self) -> u32 {
        match self {
            URN::Device(_, _, v) => *v,
            URN::Service(_, _, v) => *v,
        }
    }

    pub open spec fn spec_is_service(&self) -> bool {
        self is Service
    }

    /// The canonical text of the URN.
    pub open spec fn spec_str(&self) -> Seq<char> {
        "urn:"@ + self.spec_domain() + ":"@ + (if self.spec_is_service() {
            "service"@
        } else {
            "device"@
        }) + ":"@ + self.spec_typ() + ":"@ + dec_str(self.spec_version() as int)
    }

    /// Renders the URN in its canonical text form.
    pub fn to_string(&self) -> (r: String)
        ensures
            r@ == self.spec_str(),
    {
        let mut out = String::from_str("urn:");
        out.append(self.domain_name());
        out.append(":");
        if matches!(self, URN::Service(_, _, _)) {
            out.append("service");
        } else {
            out.append("device");
        }
        out.append(":");
        out.append(self.typ());
        out.append(":");
        let v = u32_to_string(self.version());
        out.append(v.as_str());
        proof {
            assert(out@ =~= self.spec_str());
        }
        out
    }
}

impl PartialEq for URN {
    /// Two URNs are equal when kind, domain, type and version all agree.
    fn eq(&self, other: &URN) -> (r: bool) {
        match (self, other) {
            (URN::Device(d1, t1, v1), URN::Device(d2, t2, v2)) => str_eq(
                d1.as_str(),
                d2.as_str(),
            ) && str_eq(t1.as_str(), t2.as_str()) && *v1 == *v2,
            (URN::Service(d1, t1, v1), URN::Service(d2, t2, v2)) => str_eq(
                d1.as_str(),
                d2.as_str(),
            ) && str_eq(t1.as_str(), t2.as_str()) && *v1 == *v2,
            _ => false,
        }
    }
}

impl Eq for URN {

}

impl vstd::std_specs::cmp::PartialEqSpecImpl for URN {
    open spec fn obeys_eq_spec() -> bool {
        true
    }

    open spec fn eq_spec(&self, other: &URN) -> bool {
        urn_matches(*self, *other)
    }
}

/// Two URNs denote the same type: same kind, domain, type name and version.
pub open spec fn urn_matches(a: URN, b: URN) -> bool {
    &&& a.spec_is_service() == b.spec_is_service()
    &&& a.spec_domain() == b.spec_domain()
    &&& a.spec_typ() == b.spec_typ()
    &&& a.spec_version() == b.spec_version()
}

/// The positions, in order, of every `:` in `s`.
pub open spec fn colon_positions(s: Seq<char>) -> Seq<int>
    decreases s.len(),
{
    if s.len() == 0 {
        Seq::empty()
    } else if s.last() == ':' {
        colon_positions(s.drop_last()).push(s.len() - 1)
    } else {
        colon_positions(s.drop_last())
    }
}

/// URN text is well-formed when it has exactly five `:`-separated
/// segments: `urn`, any domain, a kind matching `device` or `service` up
/// to ASCII case, any type name, and an unsigned decimal version.
pub open spec fn urn_text_wf(s: Seq<char>) -> bool {
    let ps = colon_positions(s);
    &&& ps.len() == 4
    &&& s.subrange(0, ps[0]) == "urn"@
    &&& (seq_ieq(urn_text_kind(s), "device"@) || seq_ieq(urn_text_kind(s), "service"@))
    &&& parse_unsigned_spec(s.subrange(ps[3] + 1, s.len() as int), u32::MAX as int) is Some
}

pub open spec fn urn_text_domain(s: Seq<char>) -> Seq<char> {
    let ps = colon_positions(s);
    s.subrange(ps[0] + 1, ps[1])
}

pub open spec fn urn_text_kind(s: Seq<char>) -> Seq<char> {
    let ps = colon_positions(s);
    s.subrange(ps[1] + 1, ps[2])
}

pub open spec fn urn_text_typ(s: Seq<char>) -> Seq<char> {
    let ps = colon_positions(s);
    s.subrange(ps[2] + 1, ps[3])
}

pub open spec fn urn_text_version(s: Seq<char>) -> Option<int> {
    let ps = colon_positions(s);
    parse_unsigned_spec(s.subrange(ps[3] + 1, s.len() as int), u32::MAX as int)
}

/// Parses URN text: exactly five `:`-separated segments, `urn` first, a
/// kind of `device` or `service` up to ASCII case, and a decimal version.
pub fn parse_urn(s: &str) -> (r: Result<URN, Error>)
    ensures
        r is Ok <==> urn_text_wf(s@),
        r matches Ok(u) ==> {
            &&& u.spec_domain() == urn_text_domain(s@)
            &&& u.spec_typ() == urn_text_typ(s@)
            &&& u.spec_is_service() == seq_ieq(urn_text_kind(s@), "service"@)
            &&& Some(u.spec_version() as int) == urn_text_version(s@)
        },
        r matches Err(e) ==> e matches Error::InvalidResponse(_),
{
    let len = s.unicode_len();
    let mut pos: Vec<usize> = Vec::new();
    let mut i: usize = 0;
    proof {
        assert(s@.subrange(0, 0) =~= Seq::<char>::empty());
    }
    while i < len
        invariant
            0 <= i <= len,
            len == s@.len(),
            colon_positions(s@.subrange(0, i as int)) =~= pos@.map_values(|p: usize| p as int),
            forall|j: int| 0 <= j < pos@.len() ==> #[trigger] pos@[j] < i,
            forall|j: int, k: int| 0 <= j < k < pos@.len() ==> pos@[j] < pos@[k],
        decreases len - i,
    {
        let ghost pre = s@.subrange(0, i as int);
        let ghost ext = s@.subrange(0, i + 1);
        proof {
            assert(ext.drop_last() =~= pre);
            assert(ext.last() == s@[i as int]);
        }
        let c = s.get_char(i);
        if c == ':' {
            pos.push(i);
            proof {
                assert(colon_positions(ext) =~= pos@.map_values(|p: usize| p as int));
            }
        }
        i = i + 1;
    }
    proof {
        assert(s@.subrange(0, len as int) =~= s@);
    }
    if pos.len() != 4 {
        return Err(Error::invalid_response(String::from_str("invalid URN")));
    }
    let c0 = pos[0];
    let c1 = pos[1];
    let c2 = pos[2];
    let c3 = pos[3];
    let seg0 = s.substring_char(0, c0);
    if !str_eq(seg0, "urn") {
        return Err(Error::invalid_response(String::from_str("invalid URN")));
    }
    let domain = s.substring_char(c0 + 1, c1);
    let kind = s.substring_char(c1 + 1, c2);
    let typ = s.substring_char(c2 + 1, c3);
    let vtxt = s.substring_char(c3 + 1, len);
    let version = match parse_u32(vtxt) {
        Some(v) => v,
        None => {
            return Err(Error::invalid_response(String::from_str("invalid URN")));
        },
    };
    if str_ieq(kind, "service") {
        Ok(URN::Service(String::from_str(domain), String::from_str(typ), version))
    } else if str_ieq(kind, "device") {
        Ok(URN::Device(String::from_str(domain), String::from_str(typ), version))
    } else {
        Err(Error::invalid_response(String::from_str("invalid URN")))
    }
}


/// Concatenation shifts the colon positions of the right part by the
/// length of the left part.
proof fn lemma_cp_concat(a: Seq<char>, b: Seq<char>)
    ensures
        colon_positions(a + b) =~= colon_positions(a) + colon_positions(b).map_values(
            |p: int| p + a.len(),
        ),
    decreases b.len(),
{
    if b.len() == 0 {
        assert(a + b =~= a);
        assert(colon_positions(b) =~= Seq::<int>::empty());
        assert(colon_positions(b).map_values(|p: int| p + a.len()) =~= Seq::<int>::empty());
    } else {
        assert((a + b).drop_last() =~= a + b.drop_last());
        assert((a + b).last() == b.last());
        lemma_cp_concat(a, b.drop_last());
        if b.last() == ':' {
            assert(colon_positions(b) =~= colon_positions(b.drop_last()).push(b.len() - 1));
            colon_positions(b.drop_last()).lemma_push_map_commute(
                |p: int| p + a.len(),
                b.len() - 1,
            );
        } else {
            assert(colon_positions(b) =~= colon_positions(b.drop_last()));
        }
    }
}

/// A text without colons has no colon positions.
proof fn lemma_cp_free(s: Seq<char>)
    requires
        forall|i: int| 0 <= i < s.len() ==> s[i] != ':',
    ensures
        colon_positions(s) =~= Seq::<int>::empty(),
    decreases s.len(),
{
    if s.len() > 0 {
        assert(forall|i: int| 0 <= i < s.drop_last().len() ==> #[trigger] s.drop_last()[i] != ':');
        lemma_cp_free(s.drop_last());
    }
}

/// Case-insensitive equality holds of every sequence and itself.
proof fn lemma_seq_ieq_refl(s: Seq<char>)
    ensures
        seq_ieq(s, s),
{
}

impl URN {
    /// Rendering a URN and parsing the text back reads off the same
    /// domain, kind, type name and version.  The domain and type name
    /// must be free of `:`; with a colon inside either, the text form
    /// would split into more than five segments and not parse.
    pub proof fn lemma_display_parse_round_trip(self)
        requires
            forall|i: int| 0 <= i < self.spec_domain().len() ==> self.spec_domain()[i] != ':',
            forall|i: int| 0 <= i < self.spec_typ().len() ==> self.spec_typ()[i] != ':',
        ensures
            urn_text_wf(self.spec_str()),
            urn_text_domain(self.spec_str()) == self.spec_domain(),
            urn_text_typ(self.spec_str()) == self.spec_typ(),
            seq_ieq(urn_text_kind(self.spec_str()), "service"@) == self.spec_is_service(),
            urn_text_version(self.spec_str()) == Some(self.spec_version() as int),
    {
        reveal_strlit("urn:");
        reveal_strlit("urn");
        reveal_strlit(":");
        reveal_strlit("service");
        reveal_strlit("device");
        let d = self.spec_domain();
        let t = self.spec_typ();
        let k: Seq<char> = if self.spec_is_service() {
            "service"@
        } else {
            "device"@
        };
        let v = dec_str(self.spec_version() as int);
        let colon: Seq<char> = ":"@;
        crate::dec::lemma_dec_str_digits(self.spec_version() as int);
        assert(forall|i: int| 0 <= i < v.len() ==> #[trigger] v[i] != ':') by {
            assert(forall|i: int|
                0 <= i < v.len() ==> crate::dec::is_digit(#[trigger] v[i]));
        }
        assert(colon_positions(colon) =~= seq![0int]) by {
            reveal_with_fuel(colon_positions, 2);
            assert(colon.len() == 1 && colon.last() == ':');
            assert(colon.drop_last() =~= Seq::<char>::empty());
            assert(colon_positions(colon.drop_last()) =~= Seq::<int>::empty());
        }
        assert(colon_positions("urn"@) =~= Seq::<int>::empty()) by {
            assert(forall|i: int| 0 <= i < "urn"@.len() ==> #[trigger] "urn"@[i] != ':');
            lemma_cp_free("urn"@);
        }
        assert("urn:"@ =~= "urn"@ + colon);
        lemma_cp_concat("urn"@, colon);
        assert(colon_positions("urn:"@) =~= seq![3int]);
        lemma_cp_free(d);
        lemma_cp_free(t);
        assert(colon_positions(k) =~= Seq::<int>::empty()) by {
            assert(forall|i: int| 0 <= i < k.len() ==> #[trigger] k[i] != ':');
            lemma_cp_free(k);
        }
        lemma_cp_free(v);
        let dl = d.len() as int;
        let kl = k.len() as int;
        let tl = t.len() as int;
        let s1 = "urn:"@ + d;
        lemma_cp_concat("urn:"@, d);
        assert(colon_positions(s1) =~= seq![3int]);
        let s2 = s1 + colon;
        lemma_cp_concat(s1, colon);
        assert(colon_positions(s2) =~= seq![3int, 4 + dl]);
        let s3 = s2 + k;
        lemma_cp_concat(s2, k);
        assert(colon_positions(s3) =~= seq![3int, 4 + dl]);
        let s4 = s3 + colon;
        lemma_cp_concat(s3, colon);
        assert(colon_positions(s4) =~= seq![3int, 4 + dl, 5 + dl + kl]);
        let s5 = s4 + t;
        lemma_cp_concat(s4, t);
        assert(colon_positions(s5) =~= seq![3int, 4 + dl, 5 + dl + kl]);
        let s6 = s5 + colon;
        lemma_cp_concat(s5, colon);
        assert(colon_positions(s6) =~= seq![3int, 4 + dl, 5 + dl + kl, 6 + dl + kl + tl]);
        let s7 = s6 + v;
        lemma_cp_concat(s6, v);
        assert(colon_positions(s7) =~= seq![3int, 4 + dl, 5 + dl + kl, 6 + dl + kl + tl]);
        assert(self.spec_str() == s7);
        let ps = colon_positions(s7);
        assert(ps.len() == 4 && ps[0] == 3 && ps[1] == 4 + dl && ps[2] == 5 + dl + kl && ps[3] == 6
            + dl + kl + tl);
        assert(s7.subrange(0, 3) =~= "urn"@);
        assert(s7.subrange(4, 4 + dl) =~= d);
        assert(s7.subrange(5 + dl, 5 + dl + kl) =~= k);
        assert(s7.subrange(6 + dl + kl, 6 + dl + kl + tl) =~= t);
        assert(s7.subrange(7 + dl + kl + tl, s7.len() as int) =~= v);
        crate::dec::lemma_dec_str_round_trip(self.spec_version() as int);
        lemma_seq_ieq_refl(k);
        if self.spec_is_service() {
            assert(seq_ieq(urn_text_kind(s7), "service"@));
        } else {
            assert(seq_ieq(urn_text_kind(s7), "device"@));
            assert(!seq_ieq(urn_text_kind(s7), "service"@)) by {
                reveal_strlit("service");
                reveal_strlit("device");
                assert("device"@.len() != "service"@.len());
            }
        }
    }
}

} // verus!
