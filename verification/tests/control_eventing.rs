//! Tests of the control protocol and the eventing handshake.

use rupnp::dec::{parse_i64, parse_u16, parse_u32, u32_to_string};
use rupnp::error::Error;
use rupnp::service::{decode_action_response, replace_url_path, Service};
use rupnp::subscription::{
    check_status, propertyset_to_map, renew_headers, sid_from_response, subscribe_headers,
    unsubscribe_headers, NotifyState,
};
use rupnp::urn::{parse_urn, URN};

fn rendering_service() -> Service {
    Service {
        service_type: URN::service("schemas-upnp-org", "RenderingControl", 1),
        service_id: "urn:upnp-org:serviceId:RenderingControl".to_string(),
        scpd_endpoint: "/rc/scpd.xml".to_string(),
        control_endpoint: "/rc/control".to_string(),
        event_sub_endpoint: "/rc/events".to_string(),
    }
}

#[test]
fn test_action_envelope_exact() {
    let service = rendering_service();
    let body = service.action_envelope("GetVolume", "<InstanceID>0</InstanceID>");
    assert_eq!(
        body,
        "<s:Envelope xmlns:s=\"http://schemas.xmlsoap.org/soap/envelope/\" s:encodingStyle=\"http://schemas.xmlsoap.org/soap/encoding/\"><s:Body><u:GetVolume xmlns:u=\"urn:schemas-upnp-org:service:RenderingControl:1\"><InstanceID>0</InstanceID></u:GetVolume></s:Body></s:Envelope>"
    );
    assert_eq!(
        service.soap_action_header("GetVolume"),
        "\"urn:schemas-upnp-org:service:RenderingControl:1#GetVolume\""
    );
}

#[test]
fn test_url_resolution() {
    let service = rendering_service();
    let base = "http://192.168.1.40:1400/xml/device_description.xml";
    assert_eq!(service.control_url(base), "http://192.168.1.40:1400/rc/control");
    assert_eq!(service.scpd_url(base), "http://192.168.1.40:1400/rc/scpd.xml");
    assert_eq!(service.event_sub_url(base), "http://192.168.1.40:1400/rc/events");
    assert_eq!(
        replace_url_path("http://10.0.0.7", "/a/b"),
        "http://10.0.0.7/a/b"
    );
}

#[test]
fn test_action_response_volume() {
    let body = r#"
    <s:Envelope xmlns:s="http://schemas.xmlsoap.org/soap/envelope/">
      <s:Body>
        <u:GetVolumeResponse xmlns:u="urn:schemas-upnp-org:service:RenderingControl:1">
          <CurrentVolume>37</CurrentVolume>
        </u:GetVolumeResponse>
      </s:Body>
    </s:Envelope>
    "#;
    let outputs = decode_action_response("GetVolume", body).expect("decodes");
    assert_eq!(outputs.len(), 1);
    assert_eq!(outputs[0].0, "CurrentVolume");
    assert_eq!(outputs[0].1, "37");
}

#[test]
fn test_action_fault_402() {
    let body = r#"
    <s:Envelope xmlns:s="http://schemas.xmlsoap.org/soap/envelope/">
      <s:Body>
        <s:Fault>
          <faultcode>s:Client</faultcode>
          <faultstring>UPnPError</faultstring>
          <detail>
            <UPnPError xmlns="urn:schemas-upnp-org:control-1-0">
              <errorCode>402</errorCode>
            </UPnPError>
          </detail>
        </s:Fault>
      </s:Body>
    </s:Envelope>
    "#;
    match decode_action_response("SetVolume", body) {
        Err(Error::UPnPError(fault)) => {
            assert_eq!(fault.err_code(), 402);
            assert_eq!(fault.err_code_description(), "Invalid Arguments");
            assert_eq!(fault.fault_code(), "s:Client");
            assert_eq!(fault.fault_string(), "UPnPError");
        }
        other => panic!("expected a protocol fault, got {:?}", other),
    }
}

#[test]
fn test_action_response_neither_shape() {
    let body = r#"
    <s:Envelope xmlns:s="http://schemas.xmlsoap.org/soap/envelope/">
      <s:Body>
        <u:SomethingElse xmlns:u="urn:x:service:y:1"><A>1</A></u:SomethingElse>
      </s:Body>
    </s:Envelope>
    "#;
    assert!(matches!(
        decode_action_response("GetVolume", body),
        Err(Error::ParseError(_))
    ));
}

#[test]
fn test_action_response_not_xml() {
    assert!(matches!(
        decode_action_response("GetVolume", "Bad Gateway"),
        Err(Error::XmlError)
    ));
}

#[test]
fn test_err_code_description_table() {
    let probes: [(u16, &str); 8] = [
        (401, "No action by that name at this service."),
        (402, "Invalid Arguments"),
        (501, "Action failed"),
        (605, "String Argument Too Long"),
        (608, "(error code reserved for UPnP DeviceSecurity)"),
        (650, "Common action error. Defined by UPnP Forum Technical Committee."),
        (750, "Action-specific error defined by UPnP Forum working committee."),
        (850, "Action-specific error for non-standard actions. Defined by UPnP vendor."),
    ];
    let body_template = |code: u16| {
        format!(
            "<Envelope><Body><Fault><faultcode>c</faultcode><faultstring>s</faultstring><detail><UPnPError><errorCode>{}</errorCode></UPnPError></detail></Fault></Body></Envelope>",
            code
        )
    };
    for (code, description) in probes {
        match decode_action_response("Anything", &body_template(code)) {
            Err(Error::UPnPError(fault)) => {
                assert_eq!(fault.err_code(), code);
                assert_eq!(fault.err_code_description(), description);
            }
            other => panic!("expected a protocol fault, got {:?}", other),
        }
    }
    match decode_action_response("Anything", &body_template(999)) {
        Err(Error::UPnPError(fault)) => {
            assert_eq!(fault.err_code_description(), "Invalid Error Code");
        }
        other => panic!("expected a protocol fault, got {:?}", other),
    }
}

#[test]
fn test_subscribe_headers_exact() {
    let headers = subscribe_headers("http://192.168.1.2:43210", 300);
    assert_eq!(headers.len(), 3);
    assert_eq!(headers[0].0, "CALLBACK");
    assert_eq!(headers[0].1, "<http://192.168.1.2:43210>");
    assert_eq!(headers[1].0, "NT");
    assert_eq!(headers[1].1, "upnp:event");
    assert_eq!(headers[2].0, "TIMEOUT");
    assert_eq!(headers[2].1, "Second-300");
}

#[test]
fn test_renew_and_unsubscribe_headers() {
    let renew = renew_headers("uuid:subscription-77", 1800);
    assert_eq!(renew.len(), 2);
    assert_eq!(renew[0].0, "SID");
    assert_eq!(renew[0].1, "uuid:subscription-77");
    assert_eq!(renew[1].1, "Second-1800");

    let bye = unsubscribe_headers("uuid:subscription-77");
    assert_eq!(bye.len(), 1);
    assert_eq!(bye[0].0, "SID");
    assert_eq!(bye[0].1, "uuid:subscription-77");
}

#[test]
fn test_subscription_sid_handling() {
    // A successful subscription hands back the SID the device issued.
    let sid = sid_from_response(200, Some("uuid:sub-1")).expect("subscribed");
    assert_eq!(sid, "uuid:sub-1");

    // A success without an SID header is a protocol error, not a success.
    match sid_from_response(200, None) {
        Err(Error::ParseError(message)) => assert_eq!(message, "missing http header `SID`"),
        other => panic!("expected a missing-header error, got {:?}", other),
    }

    // A renewal or unsubscription under the wrong SID is answered with 412
    // and surfaces as an HTTP status error, never as silent success.
    assert!(matches!(check_status(412), Err(Error::HttpErrorCode(412))));
    assert!(matches!(
        sid_from_response(412, Some("uuid:other")),
        Err(Error::HttpErrorCode(412))
    ));
    assert!(check_status(200).is_ok());
    assert!(check_status(204).is_ok());
    assert!(matches!(check_status(500), Err(Error::HttpErrorCode(500))));
}

fn read_notification(lines: &[&str]) -> String {
    let mut state = NotifyState::new();
    for line in lines {
        if state.push_line(line) {
            break;
        }
    }
    state.body().to_string()
}

#[test]
fn test_notify_accumulator() {
    let body = read_notification(&[
        "NOTIFY /callback HTTP/1.1",
        "CONTENT-TYPE: text/xml",
        "",
        "<e:propertyset xmlns:e=\"urn:schemas-upnp-org:event-1-0\">",
        "<e:property><Volume>37</Volume></e:property>",
        "</e:propertyset>",
        "this line is never reached",
    ]);
    assert_eq!(
        body,
        "<e:propertyset xmlns:e=\"urn:schemas-upnp-org:event-1-0\"><e:property><Volume>37</Volume></e:property></e:propertyset>"
    );
}

#[test]
fn test_event_stream_isolation() {
    // Two valid deliveries and one malformed one in between: each body
    // decodes on its own, in arrival order, and the failure of the second
    // says nothing about the third.
    let first = read_notification(&[
        "NOTIFY / HTTP/1.1",
        "",
        "<e:propertyset xmlns:e=\"urn:schemas-upnp-org:event-1-0\">",
        "<e:property><Volume>37</Volume></e:property>",
        "</e:propertyset>",
    ]);
    let second = read_notification(&[
        "NOTIFY / HTTP/1.1",
        "",
        "<e:propertyset xmlns:e=\"urn:schemas-upnp-org:event-1-0\">",
        "<e:property><Volume>",
        "</e:propertyset>",
    ]);
    let third = read_notification(&[
        "<e:propertyset xmlns:e=\"urn:schemas-upnp-org:event-1-0\">",
        "<e:property><Mute>1</Mute></e:property>",
        "<e:property><Volume>40</Volume></e:property>",
        "</e:propertyset>",
    ]);

    let one = propertyset_to_map(&first).expect("first delivery decodes");
    assert_eq!(one, vec![("Volume".to_string(), "37".to_string())]);

    assert!(matches!(propertyset_to_map(&second), Err(Error::XmlError)));

    let three = propertyset_to_map(&third).expect("third delivery decodes");
    assert_eq!(
        three,
        vec![
            ("Mute".to_string(), "1".to_string()),
            ("Volume".to_string(), "40".to_string())
        ]
    );
}

#[test]
fn test_decimal_conversions() {
    assert_eq!(parse_u32("0"), Some(0));
    assert_eq!(parse_u32("+17"), Some(17));
    assert_eq!(parse_u32("007"), Some(7));
    assert_eq!(parse_u32("4294967295"), Some(u32::MAX));
    assert_eq!(parse_u32("4294967296"), None);
    assert_eq!(parse_u32(""), None);
    assert_eq!(parse_u32("-1"), None);
    assert_eq!(parse_u32("12a"), None);

    assert_eq!(parse_u16("65535"), Some(u16::MAX));
    assert_eq!(parse_u16("65536"), None);

    assert_eq!(parse_i64("-42"), Some(-42));
    assert_eq!(parse_i64("+42"), Some(42));
    assert_eq!(parse_i64("9223372036854775807"), Some(i64::MAX));
    assert_eq!(parse_i64("-9223372036854775808"), Some(i64::MIN));
    assert_eq!(parse_i64("9223372036854775808"), None);
    assert_eq!(parse_i64("-"), None);

    assert_eq!(u32_to_string(0), "0");
    assert_eq!(u32_to_string(37), "37");
    assert_eq!(u32_to_string(4294967295), "4294967295");
}

#[test]
fn test_error_messages() {
    assert_eq!(
        Error::HttpErrorCode(412).message(),
        "The control point responded with status code 412"
    );
    assert_eq!(
        Error::XmlMissingElement("device".to_string(), "friendlyName".to_string()).message(),
        "`device` does not contain a `friendlyName` element or attribute"
    );
    assert_eq!(Error::XmlError.message(), "failed to parse xml");
    let body = "<Envelope><Body><Fault><faultcode>s:Client</faultcode><faultstring>UPnPError</faultstring><detail><UPnPError><errorCode>718</errorCode></UPnPError></detail></Fault></Body></Envelope>";
    match decode_action_response("X", body) {
        Err(Error::UPnPError(fault)) => {
            assert_eq!(
                fault.message(),
                "UPnPError 718: Action-specific error defined by UPnP Forum working committee."
            );
        }
        other => panic!("expected a protocol fault, got {:?}", other),
    }
}

#[test]
fn test_urn_in_service_context() {
    let service = rendering_service();
    let parsed = parse_urn("urn:schemas-upnp-org:service:RenderingControl:1").expect("parses");
    assert!(service.service_type() == &parsed);
}
