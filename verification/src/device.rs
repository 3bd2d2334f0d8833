//! The recursive device model.
//!
//! A device description is a strict tree: a device owns its services and
//! its child devices.  Lookup by URN walks that tree pre-order and depth
//! first, a node's own services before its descendants, and returns the
//! first match.

use vstd::prelude::*;

use crate::error::Error;
use crate::service::{service_matches, service_wf, Service};
use crate::urn::{urn_matches, urn_text_domain, urn_text_kind, urn_text_typ, urn_text_version,
    urn_text_wf, parse_urn, URN};
use crate::strutil::seq_ieq;
use crate::xml::{find_child, find_named, find_root, last_child_named, node_text, parse_xml,
    text_of, xml_tree_of, XmlElement};

verus! {

/// A device bound to the URL its description was fetched from.
#[derive(Debug)]
pub struct Device {
    pub url: String,
    pub device_spec: DeviceSpec,
}

impl Device {
    /// Binds a parsed description to the URL it came from.
    pub fn new(url: String, device_spec: DeviceSpec) -> (r: Device)
        ensures
            r.url == url && r.device_spec == device_spec,
    {
        Device { url, device_spec }
    }

    /// The URL the description was fetched from.
    pub fn url(&self) -> (r: &str)
        ensures
            r@ == self.url@,
    {
        self.url.as_str()
    }

    /// The description of the device.
    pub fn description(&self) -> (r: &DeviceSpec)
        ensures
            r == self.device_spec,
    {
        &self.device_spec
    }
}

/// Information about a device: its type, its friendly name, its services
/// and child devices in document order, and the captured extra elements.
#[derive(Debug)]
pub struct DeviceSpec {
    pub device_type: URN,
    pub friendly_name: String,
    pub devices: Vec<DeviceSpec>,
    pub services: Vec<Service>,
    pub extra_elements: Vec<(String, Option<String>)>,
}

/// The `service` children of the device's `serviceList`, or none.
pub open spec fn service_elems(e: XmlElement) -> Seq<XmlElement> {
    match last_child_named(e.children@, "serviceList"@) {
        Some(l) => l.children@,
        None => Seq::empty(),
    }
}

/// The `device` children of the device's `deviceList`, or none.
pub open spec fn device_elems(e: XmlElement) -> Seq<XmlElement> {
    match last_child_named(e.children@, "deviceList"@) {
        Some(l) => l.children@,
        None => Seq::empty(),
    }
}

/// A child picked by [`last_child_named`] is an element of the sequence.
proof fn lemma_last_child_elem(s: Seq<XmlElement>, name: Seq<char>)
    ensures
        last_child_named(s, name) matches Some(x) ==> exists|i: int| 0 <= i < s.len() && s[i] == x,
    decreases s.len(),
{
    if s.len() > 0 && s.last().name@ != name {
        lemma_last_child_elem(s.drop_last(), name);
        match last_child_named(s, name) {
            Some(x) => {
                let i = choose|i: int| 0 <= i < s.drop_last().len() && s.drop_last()[i] == x;
                assert(s[i] == x);
            },
            None => {},
        }
    }
}

/// The children of a device's `deviceList` stand below the device in the
/// ordering that justifies recursion over the tree.
proof fn lemma_device_elems_smaller(e: XmlElement)
    ensures
        last_child_named(e.children@, "deviceList"@) matches Some(l) ==> decreases_to!(
            e => l.children@),
{
    match last_child_named(e.children@, "deviceList"@) {
        Some(l) => {
            lemma_last_child_elem(e.children@, "deviceList"@);
            let i = choose|i: int| 0 <= i < e.children@.len() && e.children@[i] == l;
            assert(decreases_to!(e => e.children@[i]));
            assert(decreases_to!(e.children@[i] => e.children@[i].children@));
            assert(decreases_to!(e => l.children@));
        },
        None => {},
    }
}

/// A `device` element is well-formed: a parseable `deviceType` URN, a
/// `friendlyName`, well-formed services, and well-formed child devices.
pub open spec fn device_wf(e: XmlElement) -> bool
    decreases e,
    via device_wf_decreases
{
    &&& match last_child_named(e.children@, "deviceType"@) {
        Some(c) => urn_text_wf(text_of(c)),
        None => false,
    }
    &&& last_child_named(e.children@, "friendlyName"@) is Some
    &&& forall|j: int|
        0 <= j < service_elems(e).len() ==> service_wf(#[trigger] service_elems(e)[j])
    &&& match last_child_named(e.children@, "deviceList"@) {
        Some(l) => devices_wf(l.children@),
        None => true,
    }
}

pub open spec fn devices_wf(s: Seq<XmlElement>) -> bool
    decreases s,
{
    forall|j: int| 0 <= j < s.len() ==> device_wf(#[trigger] s[j])
}

#[via_fn]
proof fn device_wf_decreases(e: XmlElement) {
    lemma_device_elems_smaller(e);
}

/// What a requested extra tag captures: the text of the last child with
/// that tag, or nothing when the tag never occurs.
pub open spec fn extra_capture(e: XmlElement, key: Seq<char>) -> Option<Seq<char>> {
    match last_child_named(e.children@, key) {
        Some(c) => Some(text_of(c)),
        None => None,
    }
}

/// The views of a requested extra-field list.
pub open spec fn field_keys(fs: Seq<&str>) -> Seq<Seq<char>> {
    fs.map_values(|f: &str| f@)
}

/// The captured extra elements correspond one-to-one, in order, to the
/// requested keys.
pub open spec fn extras_match(
    ext: Seq<(String, Option<String>)>,
    e: XmlElement,
    keys: Seq<Seq<char>>,
) -> bool {
    &&& ext.len() == keys.len()
    &&& forall|j: int|
        0 <= j < keys.len() ==> {
            &&& (#[trigger] ext[j]).0@ == keys[j]
            &&& match extra_capture(e, keys[j]) {
                Some(t) => ext[j].1 matches Some(s) && s@ == t,
                None => ext[j].1 is None,
            }
        }
}

/// The parsed device is exactly what the element declares, recursively.
pub open spec fn device_matches(d: DeviceSpec, e: XmlElement, keys: Seq<Seq<char>>) -> bool
    decreases e,
    via device_matches_decreases
{
    &&& {
        let dt = text_of(last_child_named(e.children@, "deviceType"@)->Some_0);
        &&& d.device_type.spec_domain() == urn_text_domain(dt)
        &&& d.device_type.spec_typ() == urn_text_typ(dt)
        &&& d.device_type.spec_is_service() == seq_ieq(urn_text_kind(dt), "service"@)
        &&& Some(d.device_type.spec_version() as int) == urn_text_version(dt)
    }
    &&& d.friendly_name@ == text_of(last_child_named(e.children@, "friendlyName"@)->Some_0)
    &&& d.services@.len() == service_elems(e).len()
    &&& forall|j: int|
        0 <= j < service_elems(e).len() ==> service_matches(
            #[trigger] d.services@[j],
            service_elems(e)[j],
        )
    &&& extras_match(d.extra_elements@, e, keys)
    &&& match last_child_named(e.children@, "deviceList"@) {
        Some(l) => devices_match(d.devices@, l.children@, keys),
        None => d.devices@.len() == 0,
    }
}

pub open spec fn devices_match(
    ds: Seq<DeviceSpec>,
    es: Seq<XmlElement>,
    keys: Seq<Seq<char>>,
) -> bool
    decreases es,
{
    &&& ds.len() == es.len()
    &&& forall|j: int| 0 <= j < es.len() ==> device_matches(ds[j], #[trigger] es[j], keys)
}

#[via_fn]
proof fn device_matches_decreases(d: DeviceSpec, e: XmlElement, keys: Seq<Seq<char>>) {
    lemma_device_elems_smaller(e);
}

impl DeviceSpec {
    /// Reads one `device` element: required `deviceType` (a URN) and
    /// `friendlyName`, the optional `serviceList` and `deviceList`
    /// (recursing per child), and the caller's extra tag names captured
    /// in the same pass.
    pub fn from_xml(e: &XmlElement, extra_fields: &[&str]) -> (r: Result<DeviceSpec, Error>)
        ensures
            r is Ok <==> device_wf(*e),
            r matches Ok(d) ==> device_matches(d, *e, field_keys(extra_fields@)),
            r matches Err(err) ==> {
                if last_child_named(e.children@, "deviceType"@) is None {
                    err.is_missing_element(e.name@, "deviceType"@)
                } else if last_child_named(e.children@, "friendlyName"@) is None {
                    err.is_missing_element(e.name@, "friendlyName"@)
                } else {
                    true
                }
            },
        decreases *e,
    {
        let dt_child = match find_child(e, "deviceType") {
            Some(c) => c,
            None => {
                return Err(Error::XmlMissingElement(
                    e.name.clone(),
                    String::from_str("deviceType"),
                ));
            },
        };
        let fn_child = match find_child(e, "friendlyName") {
            Some(c) => c,
            None => {
                return Err(Error::XmlMissingElement(
                    e.name.clone(),
                    String::from_str("friendlyName"),
                ));
            },
        };
        let mut devices: Vec<DeviceSpec> = Vec::new();
        match find_child(e, "deviceList") {
            Some(l) => {
                let mut i: usize = 0;
                while i < l.children.len()
                    invariant
                        last_child_named(e.children@, "deviceType"@) is Some,
                        last_child_named(e.children@, "friendlyName"@) is Some,
                        last_child_named(e.children@, "deviceList"@) == Some(*l),
                        0 <= i <= l.children@.len(),
                        devices@.len() == i,
                        forall|j: int| 0 <= j < i ==> device_wf(#[trigger] l.children@[j]),
                        forall|j: int|
                            0 <= j < i ==> device_matches(
                                devices@[j],
                                #[trigger] l.children@[j],
                                field_keys(extra_fields@),
                            ),
                    decreases l.children@.len() - i,
                {
                    proof {
                        lemma_device_elems_smaller(*e);
                        assert(decreases_to!(*e => l.children@));
                        assert(decreases_to!(l.children@ => l.children@[i as int]));
                    }
                    match Self::from_xml(&l.children[i], extra_fields) {
                        Ok(d) => {
                            devices.push(d);
                        },
                        Err(err) => {
                            proof {
                                assert(!device_wf(l.children@[i as int]));
                            }
                            return Err(err);
                        },
                    }
                    i = i + 1;
                }
            },
            None => {},
        }
        let mut services: Vec<Service> = Vec::new();
        match find_child(e, "serviceList") {
            Some(l) => {
                let mut i: usize = 0;
                while i < l.children.len()
                    invariant
                        last_child_named(e.children@, "deviceType"@) is Some,
                        last_child_named(e.children@, "friendlyName"@) is Some,
                        last_child_named(e.children@, "serviceList"@) == Some(*l),
                        0 <= i <= l.children@.len(),
                        services@.len() == i,
                        forall|j: int| 0 <= j < i ==> service_wf(#[trigger] l.children@[j]),
                        forall|j: int|
                            0 <= j < i ==> service_matches(
                                services@[j],
                                #[trigger] l.children@[j],
                            ),
                    decreases l.children@.len() - i,
                {
                    match Service::from_xml(&l.children[i]) {
                        Ok(sv) => {
                            services.push(sv);
                        },
                        Err(err) => {
                            proof {
                                assert(!service_wf(service_elems(*e)[i as int]));
                            }
                            return Err(err);
                        },
                    }
                    i = i + 1;
                }
            },
            None => {},
        }
        let extra_elements = capture_extras(e, extra_fields);
        let device_type = match parse_urn(node_text(dt_child)) {
            Ok(u) => u,
            Err(err) => {
                return Err(err);
            },
        };
        Ok(
            DeviceSpec {
                device_type,
                friendly_name: String::from_str(node_text(fn_child)),
                devices,
                services,
                extra_elements,
            },
        )
    }

    /// The device's type URN.
    pub fn device_type(&self) -> (r: &URN)
        ensures
            r == self.device_type,
    {
        &self.device_type
    }

    /// The device's friendly name.
    pub fn friendly_name(&self) -> (r: &str)
        ensures
            r@ == self.friendly_name@,
    {
        self.friendly_name.as_str()
    }

    /// The value captured for a requested extra tag: the tag's text, or
    /// nothing when the tag was not requested or never occurred.
    pub fn get_extra_element(&self, elem: &str) -> (r: Option<&str>)
        ensures
            match r {
                Some(v) => lookup_extra(self.extra_elements@, elem@) matches Some(t) && v@ == t,
                None => lookup_extra(self.extra_elements@, elem@) is None,
            },
    {
        let mut i: usize = 0;
        proof {
            assert(self.extra_elements@.subrange(0, self.extra_elements@.len() as int)
                =~= self.extra_elements@);
        }
        while i < self.extra_elements.len()
            invariant
                0 <= i <= self.extra_elements@.len(),
                lookup_extra(self.extra_elements@, elem@) == lookup_extra(
                    self.extra_elements@.subrange(i as int, self.extra_elements@.len() as int),
                    elem@,
                ),
            decreases self.extra_elements@.len() - i,
        {
            let ghost rest = self.extra_elements@.subrange(
                i as int,
                self.extra_elements@.len() as int,
            );
            proof {
                assert(rest[0] == self.extra_elements@[i as int]);
                assert(rest.drop_first() =~= self.extra_elements@.subrange(
                    i + 1,
                    self.extra_elements@.len() as int,
                ));
            }
            if crate::strutil::str_eq(self.extra_elements[i].0.as_str(), elem) {
                return match &self.extra_elements[i].1 {
                    Some(v) => Some(v.as_str()),
                    None => None,
                };
            }
            i = i + 1;
        }
        proof {
            assert(self.extra_elements@.subrange(
                self.extra_elements@.len() as int,
                self.extra_elements@.len() as int,
            ) =~= Seq::<(String, Option<String>)>::empty());
        }
        None
    }

    /// This device's direct subdevices, in document order.
    pub fn devices(&self) -> (r: &Vec<DeviceSpec>)
        ensures
            r@ == self.devices@,
    {
        &self.devices
    }

    /// This device's own services, in document order.
    pub fn services(&self) -> (r: &Vec<Service>)
        ensures
            r@ == self.services@,
    {
        &self.services
    }

    /// Every service reachable from this device, pre-order: its own
    /// services first, then each subdevice's, depth first.
    pub fn services_iter(&self) -> (r: Vec<&Service>)
        ensures
            r@.map_values(|s: &Service| *s) == preorder_services(*self),
        decreases *self,
    {
        let mut out: Vec<&Service> = Vec::new();
        let mut i: usize = 0;
        proof {
            assert(out@.map_values(|s: &Service| *s) =~= self.services@.subrange(0, 0));
        }
        while i < self.services.len()
            invariant
                0 <= i <= self.services@.len(),
                out@.map_values(|s: &Service| *s) =~= self.services@.subrange(0, i as int),
            decreases self.services@.len() - i,
        {
            let ghost prev = out@;
            out.push(&self.services[i]);
            proof {
                prev.lemma_push_map_commute(|s: &Service| *s, out@.last());
                assert(self.services@.subrange(0, i + 1) =~= self.services@.subrange(
                    0,
                    i as int,
                ).push(self.services@[i as int]));
                assert(out@.map_values(|s: &Service| *s) =~= self.services@.subrange(0, i + 1));
            }
            i = i + 1;
        }
        proof {
            assert(self.services@.subrange(0, self.services@.len() as int) =~= self.services@);
            assert(forest_services(self.devices@.subrange(0, 0)) =~= Seq::<Service>::empty());
            assert(out@.map_values(|s: &Service| *s) =~= self.services@ + forest_services(
                self.devices@.subrange(0, 0),
            ));
        }
        let mut i: usize = 0;
        while i < self.devices.len()
            invariant
                0 <= i <= self.devices@.len(),
                out@.map_values(|s: &Service| *s) =~= self.services@ + forest_services(
                    self.devices@.subrange(0, i as int),
                ),
            decreases self.devices@.len() - i,
        {
            proof {
                assert(decreases_to!(*self => self.devices@[i as int]));
            }
            let mut sub = self.devices[i].services_iter();
            let ghost prev = out@;
            let ghost subview = sub@;
            out.append(&mut sub);
            proof {
                lemma_map_add(prev, subview, |s: &Service| *s);
                assert(out@ == prev + subview);
                lemma_forest_services_push(
                    self.devices@.subrange(0, i as int),
                    self.devices@[i as int],
                );
                assert(self.devices@.subrange(0, i + 1) =~= self.devices@.subrange(
                    0,
                    i as int,
                ).push(self.devices@[i as int]));
                assert(out@.map_values(|s: &Service| *s) =~= self.services@ + forest_services(
                    self.devices@.subrange(0, i + 1),
                ));
            }
            i = i + 1;
        }
        proof {
            assert(self.devices@.subrange(0, self.devices@.len() as int) =~= self.devices@);
        }
        out
    }

    /// The first service in pre-order whose type equals the given URN.
    pub fn find_service(&self, service_type: &URN) -> (r: Option<&Service>)
        ensures
            match r {
                Some(s) => first_matching_service(preorder_services(*self), *service_type) == Some(
                    *s,
                ),
                None => first_matching_service(preorder_services(*self), *service_type) is None,
            },
    {
        let all = self.services_iter();
        let mut i: usize = 0;
        proof {
            assert(preorder_services(*self).subrange(0, preorder_services(*self).len() as int)
                =~= preorder_services(*self));
        }
        while i < all.len()
            invariant
                0 <= i <= all@.len(),
                all@.map_values(|s: &Service| *s) == preorder_services(*self),
                first_matching_service(preorder_services(*self), *service_type)
                    == first_matching_service(
                    preorder_services(*self).subrange(
                        i as int,
                        preorder_services(*self).len() as int,
                    ),
                    *service_type,
                ),
            decreases all@.len() - i,
        {
            let ghost rest = preorder_services(*self).subrange(
                i as int,
                preorder_services(*self).len() as int,
            );
            proof {
                assert(rest[0] == preorder_services(*self)[i as int]);
                assert(rest.drop_first() =~= preorder_services(*self).subrange(
                    i + 1,
                    preorder_services(*self).len() as int,
                ));
                assert(all@.map_values(|s: &Service| *s)[i as int] == *all@[i as int]);
            }
            if all[i].service_type == *service_type {
                return Some(all[i]);
            }
            i = i + 1;
        }
        proof {
            assert(preorder_services(*self).subrange(
                preorder_services(*self).len() as int,
                preorder_services(*self).len() as int,
            ) =~= Seq::<Service>::empty());
        }
        None
    }

    /// Every device below this one, pre-order: each subdevice before its
    /// own subtree, depth first.
    pub fn devices_iter(&self) -> (r: Vec<&DeviceSpec>)
        ensures
            r@.map_values(|d: &DeviceSpec| *d) == forest_devices(self.devices@),
        decreases *self,
    {
        let mut out: Vec<&DeviceSpec> = Vec::new();
        let mut i: usize = 0;
        proof {
            assert(forest_devices(self.devices@.subrange(0, 0)) =~= Seq::<DeviceSpec>::empty());
            assert(out@.map_values(|d: &DeviceSpec| *d) =~= forest_devices(
                self.devices@.subrange(0, 0),
            ));
        }
        while i < self.devices.len()
            invariant
                0 <= i <= self.devices@.len(),
                out@.map_values(|d: &DeviceSpec| *d) =~= forest_devices(
                    self.devices@.subrange(0, i as int),
                ),
            decreases self.devices@.len() - i,
        {
            proof {
                assert(decreases_to!(*self => self.devices@[i as int]));
            }
            let ghost prev0 = out@;
            out.push(&self.devices[i]);
            let ghost prev = out@;
            let mut sub = self.devices[i].devices_iter();
            let ghost subview = sub@;
            out.append(&mut sub);
            proof {
                prev0.lemma_push_map_commute(|d: &DeviceSpec| *d, prev.last());
                lemma_map_add(prev, subview, |d: &DeviceSpec| *d);
                assert(out@ == prev + subview);
                lemma_forest_devices_push(
                    self.devices@.subrange(0, i as int),
                    self.devices@[i as int],
                );
                assert(self.devices@.subrange(0, i + 1) =~= self.devices@.subrange(
                    0,
                    i as int,
                ).push(self.devices@[i as int]));
                assert(out@.map_values(|d: &DeviceSpec| *d) =~= forest_devices(
                    self.devices@.subrange(0, i + 1),
                ));
            }
            i = i + 1;
        }
        proof {
            assert(self.devices@.subrange(0, self.devices@.len() as int) =~= self.devices@);
        }
        out
    }

    /// The first device in pre-order below this one whose type equals the
    /// given URN; the device itself is not considered.
    pub fn find_device(&self, device_type: &URN) -> (r: Option<&DeviceSpec>)
        ensures
            match r {
                Some(d) => first_matching_device(forest_devices(self.devices@), *device_type)
                    == Some(*d),
                None => first_matching_device(forest_devices(self.devices@), *device_type)
                    is None,
            },
    {
        let all = self.devices_iter();
        let ghost whole = forest_devices(self.devices@);
        let mut i: usize = 0;
        proof {
            assert(whole.subrange(0, whole.len() as int) =~= whole);
        }
        while i < all.len()
            invariant
                0 <= i <= all@.len(),
                whole == forest_devices(self.devices@),
                all@.map_values(|d: &DeviceSpec| *d) == whole,
                first_matching_device(whole, *device_type) == first_matching_device(
                    whole.subrange(i as int, whole.len() as int),
                    *device_type,
                ),
            decreases all@.len() - i,
        {
            let ghost rest = whole.subrange(i as int, whole.len() as int);
            proof {
                assert(rest[0] == whole[i as int]);
                assert(rest.drop_first() =~= whole.subrange(i + 1, whole.len() as int));
                assert(all@.map_values(|d: &DeviceSpec| *d)[i as int] == *all@[i as int]);
            }
            if all[i].device_type == *device_type {
                return Some(all[i]);
            }
            i = i + 1;
        }
        proof {
            assert(whole.subrange(whole.len() as int, whole.len() as int)
                =~= Seq::<DeviceSpec>::empty());
        }
        None
    }
}

/// All services of a device's subtree, pre-order.
pub open spec fn preorder_services(d: DeviceSpec) -> Seq<Service>
    decreases d,
{
    d.services@ + forest_services(d.devices@)
}

/// All services of a forest of device subtrees, in order.
pub open spec fn forest_services(ds: Seq<DeviceSpec>) -> Seq<Service>
    decreases ds,
{
    if ds.len() == 0 {
        Seq::empty()
    } else {
        preorder_services(ds[0]) + forest_services(ds.drop_first())
    }
}

/// All devices of a forest of device subtrees, pre-order.
pub open spec fn forest_devices(ds: Seq<DeviceSpec>) -> Seq<DeviceSpec>
    decreases ds,
{
    if ds.len() == 0 {
        Seq::empty()
    } else {
        seq![ds[0]] + forest_devices(ds[0].devices@) + forest_devices(ds.drop_first())
    }
}

/// The first service of the sequence whose type equals the URN.
pub open spec fn first_matching_service(s: Seq<Service>, u: URN) -> Option<Service>
    decreases s.len(),
{
    if s.len() == 0 {
        None
    } else if urn_matches(s[0].service_type, u) {
        Some(s[0])
    } else {
        first_matching_service(s.drop_first(), u)
    }
}

/// The first device of the sequence whose type equals the URN.
pub open spec fn first_matching_device(s: Seq<DeviceSpec>, u: URN) -> Option<DeviceSpec>
    decreases s.len(),
{
    if s.len() == 0 {
        None
    } else if urn_matches(s[0].device_type, u) {
        Some(s[0])
    } else {
        first_matching_device(s.drop_first(), u)
    }
}

/// Mapping a function over a concatenation maps it over each part.
proof fn lemma_map_add<A, B>(a: Seq<A>, b: Seq<A>, f: spec_fn(A) -> B)
    ensures
        (a + b).map_values(f) =~= a.map_values(f) + b.map_values(f),
{
}

proof fn lemma_forest_services_push(ds: Seq<DeviceSpec>, x: DeviceSpec)
    ensures
        forest_services(ds.push(x)) =~= forest_services(ds) + preorder_services(x),
    decreases ds.len(),
{
    if ds.len() == 0 {
        assert(ds.push(x)[0] == x);
        assert(ds.push(x).drop_first() =~= Seq::<DeviceSpec>::empty());
        assert(forest_services(Seq::<DeviceSpec>::empty()) == Seq::<Service>::empty());
        assert(forest_services(ds.push(x)) == preorder_services(x) + forest_services(
            ds.push(x).drop_first(),
        ));
    } else {
        assert(ds.push(x)[0] == ds[0]);
        assert(ds.push(x).drop_first() =~= ds.drop_first().push(x));
        lemma_forest_services_push(ds.drop_first(), x);
        assert(forest_services(ds.push(x)) == preorder_services(ds[0]) + forest_services(
            ds.drop_first().push(x),
        ));
        assert(forest_services(ds) == preorder_services(ds[0]) + forest_services(ds.drop_first()));
    }
}

proof fn lemma_forest_devices_push(ds: Seq<DeviceSpec>, x: DeviceSpec)
    ensures
        forest_devices(ds.push(x)) =~= forest_devices(ds) + (seq![x] + forest_devices(x.devices@)),
    decreases ds.len(),
{
    if ds.len() == 0 {
        assert(ds.push(x)[0] == x);
        assert(ds.push(x).drop_first() =~= Seq::<DeviceSpec>::empty());
        assert(forest_devices(Seq::<DeviceSpec>::empty()) == Seq::<DeviceSpec>::empty());
        assert(forest_devices(ds.push(x)) == seq![x] + forest_devices(x.devices@)
            + forest_devices(ds.push(x).drop_first()));
    } else {
        assert(ds.push(x)[0] == ds[0]);
        assert(ds.push(x).drop_first() =~= ds.drop_first().push(x));
        lemma_forest_devices_push(ds.drop_first(), x);
        assert(forest_devices(ds.push(x)) == seq![ds[0]] + forest_devices(ds[0].devices@)
            + forest_devices(ds.drop_first().push(x)));
        assert(forest_devices(ds) == seq![ds[0]] + forest_devices(ds[0].devices@)
            + forest_devices(ds.drop_first()));
    }
}

/// The lookup of a captured extra value by key: the first entry with that
/// key, when it captured text.
pub open spec fn lookup_extra(ext: Seq<(String, Option<String>)>, key: Seq<char>) -> Option<
    Seq<char>,
>
    decreases ext.len(),
{
    if ext.len() == 0 {
        None
    } else if ext[0].0@ == key {
        match ext[0].1 {
            Some(s) => Some(s@),
            None => None,
        }
    } else {
        lookup_extra(ext.drop_first(), key)
    }
}

/// Captures the requested extra tags: for each key, in order, the text of
/// the last child with that tag, or nothing when the tag never occurs.
fn capture_extras(e: &XmlElement, extra_fields: &[&str]) -> (r: Vec<(String, Option<String>)>)
    ensures
        extras_match(r@, *e, field_keys(extra_fields@)),
{
    let mut out: Vec<(String, Option<String>)> = Vec::new();
    let mut i: usize = 0;
    while i < extra_fields.len()
        invariant
            0 <= i <= extra_fields@.len(),
            out@.len() == i,
            forall|j: int|
                0 <= j < i ==> {
                    &&& (#[trigger] out@[j]).0@ == field_keys(extra_fields@)[j]
                    &&& match extra_capture(*e, field_keys(extra_fields@)[j]) {
                        Some(t) => out@[j].1 matches Some(s) && s@ == t,
                        None => out@[j].1 is None,
                    }
                },
        decreases extra_fields@.len() - i,
    {
        let key = extra_fields[i];
        let captured: Option<String> = match find_child(e, key) {
            Some(c) => Some(String::from_str(node_text(c))),
            None => None,
        };
        out.push((String::from_str(key), captured));
        i = i + 1;
    }
    out
}

/// Reads a whole device description: the text is parsed as XML, the
/// `device` element is located by a case-insensitive pre-order search,
/// and the element is decoded by [`DeviceSpec::from_xml`] with the
/// caller's extra tag names captured along the way.
pub fn parse_device_description(text: &str, extra_fields: &[&str]) -> (r: Result<
    DeviceSpec,
    Error,
>)
    ensures
        match xml_tree_of(text@) {
            None => r matches Err(e) && e is XmlError,
            Some(root) => match find_named(root, "device"@) {
                None => r matches Err(e) && e.is_missing_element(
                    "Device Description"@,
                    "device"@,
                ),
                Some(dev_el) => {
                    &&& r is Ok <==> device_wf(dev_el)
                    &&& (r matches Ok(d) ==> device_matches(d, dev_el, field_keys(extra_fields@)))
                },
            },
        },
{
    let root = match parse_xml(text) {
        Some(root) => root,
        None => {
            return Err(Error::XmlError);
        },
    };
    let dev_el = match find_root(&root, "device", "Device Description") {
        Ok(el) => el,
        Err(err) => {
            return Err(err);
        },
    };
    DeviceSpec::from_xml(dev_el, extra_fields)
}

} // verus!
