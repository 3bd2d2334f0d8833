//! Tests of the description model: device trees, services, SCPDs, URNs.

use rupnp::device::DeviceSpec;
use rupnp::device::parse_device_description;
use rupnp::error::Error;
use rupnp::scpd::{parse_scpd, DataType, StateVariableKind};
use rupnp::scpd::{Bool, ParseBoolError};
use rupnp::shared::SpecVersion;
use rupnp::urn::{parse_urn, URN};
use rupnp::xml::{find_child, find_root, node_text, parse_xml};

const MEDIA_SERVER_DOC: &str = r#"
<root>
  <specVersion><major>1</major><minor>0</minor></specVersion>
  <device>
    <deviceType>urn:schemas-upnp-org:device:MediaServer:1</deviceType>
    <friendlyName>My Media Server</friendlyName>
    <serviceList>
      <service>
        <serviceType>urn:schemas-upnp-org:service:ContentDirectory:1</serviceType>
        <serviceId>urn:upnp-org:serviceId:ContentDirectory</serviceId>
        <SCPDURL>/cd/scpd.xml</SCPDURL>
        <controlURL>/cd/control</controlURL>
        <eventSubURL>/cd/events</eventSubURL>
      </service>
      <service>
        <serviceType>urn:schemas-upnp-org:service:ConnectionManager:1</serviceType>
        <serviceId>urn:upnp-org:serviceId:ConnectionManager</serviceId>
        <SCPDURL>/cm/scpd.xml</SCPDURL>
        <controlURL>/cm/control</controlURL>
        <eventSubURL>/cm/events</eventSubURL>
      </service>
    </serviceList>
    <deviceList>
      <device>
        <deviceType>urn:schemas-upnp-org:device:MediaRenderer:1</deviceType>
        <friendlyName>Embedded Renderer</friendlyName>
        <serviceList>
          <service>
            <serviceType>urn:schemas-upnp-org:service:ContentDirectory:1</serviceType>
            <serviceId>urn:upnp-org:serviceId:NestedDirectory</serviceId>
            <SCPDURL>/nested/scpd.xml</SCPDURL>
            <controlURL>/nested/control</controlURL>
            <eventSubURL>/nested/events</eventSubURL>
          </service>
        </serviceList>
      </device>
    </deviceList>
  </device>
</root>
"#;

fn media_server() -> DeviceSpec {
    parse_device_description(MEDIA_SERVER_DOC, &[]).expect("description parses")
}

#[test]
fn test_parse_device_round_trip() {
    let device = media_server();
    assert_eq!(
        device.device_type().to_string(),
        "urn:schemas-upnp-org:device:MediaServer:1"
    );
    assert_eq!(device.friendly_name(), "My Media Server");
    let ids: Vec<&str> = device.services().iter().map(|s| s.service_id()).collect();
    assert_eq!(
        ids,
        vec![
            "urn:upnp-org:serviceId:ContentDirectory",
            "urn:upnp-org:serviceId:ConnectionManager"
        ]
    );
    assert_eq!(device.devices().len(), 1);
    assert_eq!(device.devices()[0].friendly_name(), "Embedded Renderer");
}

#[test]
fn test_find_service_preorder() {
    let device = media_server();
    let urn = URN::service("schemas-upnp-org", "ContentDirectory", 1);
    // Both the root and the embedded device carry a ContentDirectory:1
    // service; the root's own service wins, pre-order.
    let service = device.find_service(&urn).expect("service present");
    assert_eq!(service.service_id(), "urn:upnp-org:serviceId:ContentDirectory");
    let missing = URN::service("schemas-upnp-org", "AVTransport", 1);
    assert!(device.find_service(&missing).is_none());
}

#[test]
fn test_find_device_preorder() {
    let device = media_server();
    let renderer = URN::device("schemas-upnp-org", "MediaRenderer", 1);
    let found = device.find_device(&renderer).expect("nested device present");
    assert_eq!(found.friendly_name(), "Embedded Renderer");
    // The device's own type is not part of its subtree.
    let own = URN::device("schemas-upnp-org", "MediaServer", 1);
    assert!(device.find_device(&own).is_none());
}

#[test]
fn test_find_service_media_server_example() {
    let device = media_server();
    assert_eq!(
        device.device_type().to_string(),
        "urn:schemas-upnp-org:device:MediaServer:1"
    );
    let urn = URN::service("schemas-upnp-org", "ContentDirectory", 1);
    assert!(device.find_service(&urn).is_some());
}

#[test]
fn test_services_iter_covers_subtree() {
    let device = media_server();
    let ids: Vec<&str> = device.services_iter().iter().map(|s| s.service_id()).collect();
    assert_eq!(
        ids,
        vec![
            "urn:upnp-org:serviceId:ContentDirectory",
            "urn:upnp-org:serviceId:ConnectionManager",
            "urn:upnp-org:serviceId:NestedDirectory"
        ]
    );
}

#[test]
fn test_missing_required_element() {
    let doc = "<device><deviceType>urn:a:device:b:1</deviceType></device>";
    match parse_device_description(doc, &[]) {
        Err(Error::XmlMissingElement(parent, child)) => {
            assert_eq!(parent, "device");
            assert_eq!(child, "friendlyName");
        }
        other => panic!("expected a missing-element error, got {:?}", other),
    }
}

#[test]
fn test_malformed_document() {
    assert!(matches!(
        parse_device_description("not xml at all", &[]),
        Err(Error::XmlError)
    ));
}

#[test]
fn test_extra_elements() {
    let doc = r#"
    <device>
      <deviceType>urn:schemas-upnp-org:device:MediaServer:1</deviceType>
      <friendlyName>My Media Server</friendlyName>
      <manufacturer>ACME Corp</manufacturer>
    </device>
    "#;
    let device =
        parse_device_description(doc, &["manufacturer", "modelName"]).expect("parses");
    assert_eq!(device.get_extra_element("manufacturer"), Some("ACME Corp"));
    assert_eq!(device.get_extra_element("modelName"), None);
    assert_eq!(device.get_extra_element("neverRequested"), None);
}

#[test]
fn test_find_in_xml_macro() {
    let xml = r#"
    <device>
        <deviceType>urn:schemas-upnp-org:device:MediaServer:1</deviceType>
        <friendlyName>My Media Server</friendlyName>
        <manufacturer>ACME Corp</manufacturer>
        <modelName>MediaBox 3000</modelName>
        <serviceList>
            <service>
                <serviceType>urn:schemas-upnp-org:service:ContentDirectory:1</serviceType>
            </service>
        </serviceList>
        <deviceList>
            <device>
                <deviceType>urn:schemas-upnp-org:device:MediaRenderer:1</deviceType>
            </device>
        </deviceList>
        <extraInfo>Some extra information</extraInfo>
    </device>
    "#;
    let device_node = parse_xml(xml).expect("well-formed");

    // Required elements.
    let device_type = find_child(&device_node, "deviceType").expect("present");
    assert_eq!(node_text(device_type), "urn:schemas-upnp-org:device:MediaServer:1");
    let friendly_name = find_child(&device_node, "friendlyName").expect("present");
    assert_eq!(node_text(friendly_name), "My Media Server");

    // Optional elements.
    assert!(find_child(&device_node, "serviceList").is_some());
    assert!(find_child(&device_node, "deviceList").is_some());

    // Extra elements.
    let extra = find_child(&device_node, "extraInfo").expect("present");
    assert_eq!(node_text(extra), "Some extra information");

    // Non-existent optional element.
    assert!(find_child(&device_node, "nonExistentElement").is_none());
}

#[test]
fn test_find_root_case_insensitive() {
    let doc = "<root><DEVICE><inner>x</inner></DEVICE></root>";
    let tree = parse_xml(doc).expect("well-formed");
    let device = find_root(&tree, "device", "Device Description").expect("found");
    assert_eq!(device.name, "DEVICE");
    let err = find_root(&tree, "scpd", "Service Control Point Definition");
    match err {
        Err(Error::XmlMissingElement(doc_name, elem)) => {
            assert_eq!(doc_name, "Service Control Point Definition");
            assert_eq!(elem, "scpd");
        }
        other => panic!("expected a missing-element error, got {:?}", other),
    }
}

const SCPD_DOC_PREFIX: &str = r#"
<scpd>
  <serviceStateTable>
    <stateVariable sendEvents="no">
      <name>Volume</name>
      <dataType>ui2</dataType>
      <allowedValueRange>
        <minimum>0</minimum>
        <maximum>100</maximum>
      </allowedValueRange>
    </stateVariable>
    <stateVariable multicast="yes">
      <name>Mode</name>
      <dataType>string</dataType>
      <defaultValue>NORMAL</defaultValue>
      <allowedValueList>
        <allowedValue>NORMAL</allowedValue>
        <allowedValue>SHUFFLE</allowedValue>
      </allowedValueList>
    </stateVariable>
    <stateVariable>
      <name>Brightness</name>
      <dataType>ui1</dataType>
    </stateVariable>
  </serviceStateTable>
  <actionList>
    <action>
      <name>SetVolume</name>
      <argumentList>
        <argument>
          <name>DesiredVolume</name>
          <direction>in</direction>
          <relatedStateVariable>Volume</relatedStateVariable>
        </argument>
        <argument>
          <name>ResultingVolume</name>
          <direction>out</direction>
          <relatedStateVariable>Volume</relatedStateVariable>
        </argument>
      </argumentList>
    </action>
  </actionList>
</scpd>
"#;

fn rendering_urn() -> URN {
    URN::service("schemas-upnp-org", "RenderingControl", 1)
}

#[test]
fn test_parse_scpd() {
    let scpd = parse_scpd(SCPD_DOC_PREFIX, rendering_urn()).expect("parses");
    assert!(scpd.urn() == &rendering_urn());
    assert_eq!(scpd.state_variables().len(), 3);

    let volume = &scpd.state_variables()[0];
    assert_eq!(volume.name(), "Volume");
    assert!(!volume.sends_events());
    assert!(!volume.is_multicast());
    match volume.kind() {
        StateVariableKind::Range(range) => {
            assert_eq!(range.minimum(), 0);
            assert_eq!(range.maximum(), 100);
            assert_eq!(range.step(), 1);
        }
        other => panic!("expected a range, got {:?}", other),
    }

    let mode = &scpd.state_variables()[1];
    assert_eq!(mode.default(), Some("NORMAL"));
    assert!(mode.sends_events());
    assert!(mode.is_multicast());
    match mode.kind() {
        StateVariableKind::Enum(values) => {
            assert_eq!(values, &vec!["NORMAL".to_string(), "SHUFFLE".to_string()]);
        }
        other => panic!("expected an enumeration, got {:?}", other),
    }

    let brightness = &scpd.state_variables()[2];
    assert!(matches!(brightness.kind(), StateVariableKind::Simple(DataType::ui1)));

    assert_eq!(scpd.actions().len(), 1);
    let action = &scpd.actions()[0];
    assert_eq!(action.name(), "SetVolume");
    assert_eq!(action.arguments().len(), 2);
    let inputs = action.input_arguments();
    assert_eq!(inputs.len(), 1);
    assert_eq!(inputs[0].name(), "DesiredVolume");
    assert!(inputs[0].is_input());
    let outputs = action.output_arguments();
    assert_eq!(outputs.len(), 1);
    assert_eq!(outputs[0].name(), "ResultingVolume");
    assert!(outputs[0].is_output());
    assert_eq!(outputs[0].related_state_variable().name(), "Volume");
}

#[test]
fn test_state_variable_both_kinds_fails() {
    let doc = r#"
    <scpd>
      <serviceStateTable>
        <stateVariable>
          <name>Broken</name>
          <dataType>ui2</dataType>
          <allowedValueList><allowedValue>A</allowedValue></allowedValueList>
          <allowedValueRange><minimum>0</minimum><maximum>9</maximum></allowedValueRange>
        </stateVariable>
      </serviceStateTable>
      <actionList></actionList>
    </scpd>
    "#;
    match parse_scpd(doc, rendering_urn()) {
        Err(Error::ParseError(message)) => {
            assert_eq!(message, "both `AllowedValues` and `AllowedValueRange` is set");
        }
        other => panic!("expected a parse error, got {:?}", other),
    }
}

#[test]
fn test_state_variable_neither_kind_is_simple() {
    let doc = r#"
    <scpd>
      <serviceStateTable>
        <stateVariable>
          <name>Level</name>
          <dataType>i4</dataType>
        </stateVariable>
      </serviceStateTable>
      <actionList></actionList>
    </scpd>
    "#;
    let scpd = parse_scpd(doc, rendering_urn()).expect("parses");
    assert!(matches!(
        scpd.state_variables()[0].kind(),
        StateVariableKind::Simple(DataType::i4)
    ));
}

#[test]
fn test_unresolved_argument_variable() {
    let doc = r#"
    <scpd>
      <serviceStateTable>
        <stateVariable><name>Volume</name><dataType>ui2</dataType></stateVariable>
      </serviceStateTable>
      <actionList>
        <action>
          <name>SetLoudness</name>
          <argumentList>
            <argument>
              <name>Desired</name>
              <direction>in</direction>
              <relatedStateVariable>Loudness</relatedStateVariable>
            </argument>
          </argumentList>
        </action>
      </actionList>
    </scpd>
    "#;
    match parse_scpd(doc, rendering_urn()) {
        Err(Error::XmlMissingElement(parent, child)) => {
            assert_eq!(parent, "serviceStateTable");
            assert_eq!(child, "Loudness");
        }
        other => panic!("expected a missing-element error, got {:?}", other),
    }
}

#[test]
fn test_urn_parse_and_display() {
    let urn = parse_urn("urn:schemas-upnp-org:service:RenderingControl:1").expect("parses");
    assert_eq!(urn.domain_name(), "schemas-upnp-org");
    assert_eq!(urn.typ(), "RenderingControl");
    assert_eq!(urn.version(), 1);
    assert!(urn == rendering_urn());
    assert_eq!(urn.to_string(), "urn:schemas-upnp-org:service:RenderingControl:1");

    let device = parse_urn("urn:schemas-upnp-org:DEVICE:MediaServer:2").expect("parses");
    assert!(device == URN::device("schemas-upnp-org", "MediaServer", 2));

    assert!(parse_urn("urn:schemas-upnp-org:service:RenderingControl").is_err());
    assert!(parse_urn("urn:schemas-upnp-org:widget:RenderingControl:1").is_err());
    assert!(parse_urn("urn:a:service:b:notanumber").is_err());
    assert!(parse_urn("uuid:whatever").is_err());
    assert!(urn != URN::service("schemas-upnp-org", "RenderingControl", 2));
}

#[test]
fn test_data_type_names() {
    let names = [
        "ui1", "ui2", "ui4", "ui8", "i1", "i2", "i4", "int", "r4", "r8", "number", "float",
        "fixed14_4", "char", "string", "date", "dateTime", "dateTimeTz", "time", "timeTz",
        "boolean", "bin.base64", "bin.hex", "uri",
    ];
    for name in names {
        assert!(DataType::from_str(name).is_ok(), "{} should parse", name);
    }
    assert!(matches!(DataType::from_str("int"), Ok(DataType::Int)));
    assert!(matches!(DataType::from_str("bin.hex"), Ok(DataType::BinHex)));
    match DataType::from_str("complex128") {
        Err(e) => assert_eq!(e.0, "complex128"),
        Ok(d) => panic!("unexpected data type {:?}", d),
    }
}

#[test]
fn test_bool_wire_form() {
    assert!(matches!(Bool::from_str("0"), Ok(Bool::False)));
    assert!(matches!(Bool::from_str("1"), Ok(Bool::True)));
    assert!(matches!(Bool::from_str("yes"), Err(ParseBoolError {})));
    assert_eq!(Bool::True.to_str(), "1");
    assert_eq!(Bool::False.to_str(), "0");
    assert!(Bool::from_bool(true).to_bool());
    assert!(!Bool::from_bool(false).to_bool());
}

#[test]
fn test_device_handle() {
    let device = rupnp::device::Device::new(
        "http://192.168.1.40:1400/xml/device_description.xml".to_string(),
        media_server(),
    );
    assert_eq!(device.url(), "http://192.168.1.40:1400/xml/device_description.xml");
    assert_eq!(device.description().friendly_name(), "My Media Server");
}

#[test]
fn test_value_wrapper() {
    let value = rupnp::shared::Value { value: 7u32 };
    assert_eq!(value.value, 7);
}

#[test]
fn test_spec_version() {
    let v = SpecVersion::new(2, 0);
    assert_eq!(v.major(), 2);
    assert_eq!(v.minor(), 0);
}
