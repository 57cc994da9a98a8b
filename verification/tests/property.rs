//! Tests of the property vocabulary and its parsers.

use fts_store::parser::{ParseError, Parser};
use fts_store::property::{parse_header_property, parse_property, HeaderForm, IntoProperty, ObjectProperty, Property, SetProperty};
use fts_store::reference::{MaybeReference, ResultReference};

fn parse(name: &str) -> Result<Property, ParseError> {
    let mut input = name.as_bytes().to_vec();
    input.push(b'"');
    let mut p = Parser::new(input);
    Property::parse(&mut p)
}

#[test]
fn parses_known_properties() {
    assert_eq!(parse("acl").unwrap(), Property::Acl);
    assert_eq!(parse("emailIds").unwrap(), Property::EmailIds);
    assert_eq!(parse("hasAttachment").unwrap(), Property::HasAttachment);
    assert_eq!(parse("id").unwrap(), Property::Id);
    assert_eq!(parse("verificationCode").unwrap(), Property::VerificationCode);
    assert_eq!(parse("totalThreads").unwrap(), Property::TotalThreads);
}

#[test]
fn preserves_unknown_names() {
    assert_eq!(parse("banana").unwrap(), Property::_T("banana".to_string()));
    assert_eq!(parse("x1").unwrap(), Property::_T("x1".to_string()));
}

#[test]
fn unterminated_name_is_an_error() {
    let mut p = Parser::new(b"acl".to_vec());
    assert_eq!(Property::parse(&mut p), Err(ParseError::UnterminatedString));
}

#[test]
fn parses_header_properties() {
    match parse("header:Subject").unwrap() {
        Property::Header(hp) => {
            assert_eq!(hp.header, "Subject");
            assert_eq!(hp.form, HeaderForm::Raw);
            assert!(!hp.all);
        }
        other => panic!("unexpected {:?}", other),
    }
    match parse("header:From:asAddresses").unwrap() {
        Property::Header(hp) => {
            assert_eq!(hp.header, "From");
            assert_eq!(hp.form, HeaderForm::Addresses);
            assert!(!hp.all);
        }
        other => panic!("unexpected {:?}", other),
    }
    match parse("header:List-Id:asText:all").unwrap() {
        Property::Header(hp) => {
            assert_eq!(hp.header, "List-Id");
            assert_eq!(hp.form, HeaderForm::Text);
            assert!(hp.all);
        }
        other => panic!("unexpected {:?}", other),
    }
    match parse("header:Received:all").unwrap() {
        Property::Header(hp) => {
            assert_eq!(hp.header, "Received");
            assert_eq!(hp.form, HeaderForm::Raw);
            assert!(hp.all);
        }
        other => panic!("unexpected {:?}", other),
    }
}

#[test]
fn bad_header_names_fall_back_to_verbatim() {
    match parse("header:").unwrap() {
        Property::_T(_) => {}
        other => panic!("unexpected {:?}", other),
    }
    match parse("header:X:asBogus").unwrap() {
        Property::_T(_) => {}
        other => panic!("unexpected {:?}", other),
    }
}

#[test]
fn parse_header_property_standalone() {
    let mut input = b"Comments:asText".to_vec();
    input.push(b'"');
    let mut p = Parser::new(input);
    match parse_header_property(&mut p).unwrap() {
        Property::Header(hp) => {
            assert_eq!(hp.header, "Comments");
            assert_eq!(hp.form, HeaderForm::Text);
            assert!(!hp.all);
        }
        other => panic!("unexpected {:?}", other),
    }
}

#[test]
fn parse_property_looks_up_the_packed_name() {
    // "to": first character b't', hash packs the remaining "o".
    let mut p = Parser::new(Vec::new());
    assert_eq!(parse_property(&mut p, b't', 0x6f).unwrap(), Property::To);
    assert_eq!(parse_property(&mut p, b'q', 0x6174_6f75).unwrap(), Property::Quota);
}

#[test]
fn invalid_property_captures_the_raw_name() {
    let mut input = b"weird".to_vec();
    input.push(b'"');
    let mut p = Parser::new(input);
    assert_eq!(p.invalid_property().unwrap(), Property::_T("weird".to_string()));
}

#[test]
fn object_properties_use_their_own_vocabulary() {
    let mut input = b"rcptTo".to_vec();
    input.push(b'"');
    let mut p = Parser::new(input);
    assert_eq!(ObjectProperty::parse(&mut p).unwrap(), ObjectProperty(Property::RcptTo));

    // A name only the main vocabulary knows is preserved verbatim here.
    let mut input2 = b"acl".to_vec();
    input2.push(b'"');
    let mut p2 = Parser::new(input2);
    assert_eq!(
        ObjectProperty::parse(&mut p2).unwrap(),
        ObjectProperty(Property::_T("acl".to_string()))
    );
}

#[test]
fn persisted_identifiers_round_trip() {
    let props = [
        Property::IsActive,
        Property::Keywords,
        Property::MailboxIds,
        Property::Subject,
        Property::Acl,
        Property::InReplyTo,
    ];
    for p in props {
        let id = p.id();
        let bytes = vec![id];
        assert_eq!(Property::deserialize_value(&bytes, 0).unwrap(), p);
    }
    assert_eq!(Property::deserialize_value(&vec![98u8], 0), None);
    assert_eq!(Property::deserialize_value(&Vec::new(), 0), None);
}

#[test]
fn serialize_value_appends_the_identifier() {
    let mut buf = vec![0xffu8];
    Property::Subject.serialize_value(&mut buf);
    assert_eq!(buf, vec![0xff, 29]);
}

#[test]
fn names_match_the_vocabulary() {
    assert_eq!(Property::Acl.name(), "acl");
    assert_eq!(Property::EmailIds.name(), "emailIds");
    assert_eq!(Property::MaySubmit.name(), "maySubmit");
}

#[test]
fn into_property_wraps_strings() {
    assert_eq!("zzz".to_string().into_property(), Property::_T("zzz".to_string()));
    assert_eq!(
        ObjectProperty(Property::Size).into_property(),
        Property::Size
    );
}

#[test]
fn set_property_carries_reference_and_patch() {
    let sp = SetProperty {
        property: Property::MailboxIds,
        patch: vec!["abc".to_string()],
        is_ref: false,
    };
    assert_eq!(sp.property, Property::MailboxIds);
    assert!(!sp.is_ref);
    assert_eq!(sp.patch.len(), 1);
}

#[test]
fn result_reference_holds_its_fields() {
    let r = ResultReference::new("c0".to_string(), "Email/query".to_string(), "/ids".to_string());
    assert_eq!(r.result_of, "c0");
    assert_eq!(r.name, "Email/query");
    assert_eq!(r.path, "/ids");

    let v: MaybeReference<u32, String> = MaybeReference::Value(5);
    let w: MaybeReference<u32, String> = MaybeReference::Reference("c0".to_string());
    assert_ne!(v, w);
}

#[test]
fn escaped_bytes_read_through() {
    // An escaped backslash inside the name keeps the raw bytes verbatim.
    let mut input = b"a\\\\b".to_vec();
    input.push(b'"');
    let mut p = Parser::new(input);
    match Property::parse(&mut p).unwrap() {
        Property::_T(_) => {}
        other => panic!("unexpected {:?}", other),
    }
}

#[test]
fn set_property_parses_plain_and_reference_names() {
    let mut input = b"subject".to_vec();
    input.push(b'"');
    let mut p = Parser::new(input);
    let sp = SetProperty::parse(&mut p).unwrap();
    assert_eq!(sp.property, Property::Subject);
    assert!(!sp.is_ref);
    assert!(sp.patch.is_empty());

    let mut input2 = b"#mailboxIds".to_vec();
    input2.push(b'"');
    let mut p2 = Parser::new(input2);
    let sp2 = SetProperty::parse(&mut p2).unwrap();
    assert_eq!(sp2.property, Property::MailboxIds);
    assert!(sp2.is_ref);
}

#[test]
fn set_property_parses_patch_paths() {
    let mut input = b"mailboxIds/abc".to_vec();
    input.push(b'"');
    let mut p = Parser::new(input);
    let sp = SetProperty::parse(&mut p).unwrap();
    assert_eq!(sp.property, Property::MailboxIds);
    assert!(!sp.is_ref);
    assert_eq!(sp.patch, vec!["abc".to_string()]);

    let mut input2 = b"acl/alice/rights".to_vec();
    input2.push(b'"');
    let mut p2 = Parser::new(input2);
    let sp2 = SetProperty::parse(&mut p2).unwrap();
    assert_eq!(sp2.property, Property::Acl);
    assert_eq!(sp2.patch, vec!["alice".to_string(), "rights".to_string()]);
}

#[test]
fn set_property_rejects_patch_on_plain_properties() {
    let mut input = b"subject/abc".to_vec();
    input.push(b'"');
    let mut p = Parser::new(input);
    let sp = SetProperty::parse(&mut p).unwrap();
    match sp.property {
        Property::_T(_) => {}
        other => panic!("unexpected {:?}", other),
    }
    assert!(sp.patch.is_empty());
    assert!(!sp.is_ref);
}
