use mstsc_rs::rdp::{RdpDocument, RdpEncoding, RdpLine, RdpValue};
use mstsc_rs::Error;

#[test]
fn preserves_unknown_and_overrides_last_duplicate() {
    let input = "full address:s:old\r\nx-vendor:z:a:b\r\nfull address:s:new\r\n\r\n";
    let mut doc = RdpDocument::parse(input);
    assert_eq!(doc.get_string("FULL ADDRESS"), Some("new"));
    doc.set_string("full address", "host:3390");
    assert_eq!(
        doc.render(),
        "full address:s:old\r\nx-vendor:z:a:b\r\nfull address:s:host:3390\r\n\r\n"
    );
}

#[test]
fn reads_and_reemits_utf16le() {
    let text = "username:s:测试用户\r\nredirectclipboard:i:1\r\n";
    let mut bytes = vec![0xff, 0xfe];
    for unit in text.encode_utf16() {
        bytes.extend_from_slice(&unit.to_le_bytes());
    }
    let doc = RdpDocument::from_bytes(&bytes).unwrap();
    assert_eq!(doc.encoding(), RdpEncoding::Utf16Le);
    assert_eq!(doc.get_string("username"), Some("测试用户"));
    assert_eq!(doc.to_bytes(), bytes);
}

#[test]
fn assignment_keeps_colons_in_string_values() {
    let mut doc = RdpDocument::default();
    doc.set_assignment("full address:s:server.example:3390")
        .unwrap();
    assert_eq!(doc.get_string("full address"), Some("server.example:3390"));
}

#[test]
fn removes_all_duplicate_properties_only() {
    let mut doc =
        RdpDocument::parse("password 51:b:first\r\nx-vendor:z:keep\r\npassword 51:b:last\r\n");
    doc.remove_all("PASSWORD 51");
    assert_eq!(doc.render(), "x-vendor:z:keep\r\n");
}

#[test]
fn get_after_set_reads_the_new_value() {
    let mut doc = RdpDocument::parse("a:i:1\r\nb:s:x\r\n");
    doc.set_integer(" A ", 7);
    assert_eq!(doc.get_integer("a"), Some(7));
    assert_eq!(doc.get_string("b"), Some("x"));
    assert_eq!(doc.render(), "a:i:7\r\nb:s:x\r\n");
}

#[test]
fn setting_a_missing_property_appends_it() {
    let mut doc = RdpDocument::parse("a:i:1\n");
    doc.set_binary("password 51", "00ff");
    assert_eq!(doc.render(), "a:i:1\npassword 51:b:00ff\n");
    assert!(matches!(doc.get("password 51"), Some(RdpValue::Binary(v)) if v == "00ff"));
}

#[test]
fn render_then_parse_gives_the_same_document() {
    let text = "screen mode id:i:2\r\n; comment\r\nbad line\r\nx:z:1:2\r\n";
    let doc = RdpDocument::parse(text);
    assert_eq!(doc.render(), text);
    let again = RdpDocument::parse(&doc.render());
    assert_eq!(again, doc);
}

#[test]
fn utf8_bytes_round_trip() {
    let text = "\u{feff}full address:s:host\r\n";
    let doc = RdpDocument::from_bytes(text.as_bytes()).unwrap();
    assert_eq!(doc.encoding(), RdpEncoding::Utf8Bom);
    assert_eq!(doc.to_bytes(), text.as_bytes());
    let plain = RdpDocument::from_bytes(b"a:i:1\n").unwrap();
    assert_eq!(plain.encoding(), RdpEncoding::Utf8);
    assert_eq!(plain.to_bytes(), b"a:i:1\n".to_vec());
}

#[test]
fn big_endian_utf16_round_trips() {
    let text = "username:s:名前\r\n";
    let mut bytes = vec![0xfe, 0xff];
    for unit in text.encode_utf16() {
        bytes.extend_from_slice(&unit.to_be_bytes());
    }
    let doc = RdpDocument::from_bytes(&bytes).unwrap();
    assert_eq!(doc.encoding(), RdpEncoding::Utf16Be);
    assert_eq!(doc.get_string("username"), Some("名前"));
    assert_eq!(doc.to_bytes(), bytes);
}

#[test]
fn bytes_that_are_not_text_are_refused() {
    assert!(matches!(
        RdpDocument::from_bytes(&[0xff, 0xfe, 0x00, 0xd8]),
        Err(Error::InvalidRdpEncoding)
    ));
    assert!(matches!(
        RdpDocument::from_bytes(&[0xc3, 0x28]),
        Err(Error::InvalidRdpEncoding)
    ));
}

#[test]
fn invalid_assignments_are_refused_and_change_nothing() {
    let mut doc = RdpDocument::parse("a:i:1\r\n");
    let before = doc.clone();
    for bad in ["no colons", "name:only", ":s:value", "name::value", "n:i:twelve"] {
        match doc.set_assignment(bad) {
            Err(Error::InvalidRdpAssignment(text)) => assert_eq!(text, bad),
            other => panic!("unexpected {other:?}"),
        }
        assert_eq!(doc, before);
    }
}

#[test]
fn integer_values_are_trimmed_and_typed() {
    let doc = RdpDocument::parse("width:I: -42 \r\nname:S:x\r\nodd:q:v\r\n");
    assert_eq!(doc.get_integer("width"), Some(-42));
    assert_eq!(doc.get_string("name"), Some("x"));
    assert!(doc.contains("odd"));
    assert_eq!(doc.get_string("odd"), None);
    match &doc.lines()[2] {
        RdpLine::Entry(entry) => {
            assert_eq!(entry.normalized_key(), "odd");
            assert_eq!(entry.render(), "odd:q:v");
        }
        RdpLine::Raw(_) => panic!("expected an entry"),
    }
}

#[test]
fn lines_without_a_type_stay_raw() {
    let doc = RdpDocument::parse("just text\r\nnum:i:99999999999\r\n");
    assert!(matches!(&doc.lines()[0], RdpLine::Raw(r) if r == "just text"));
    assert!(matches!(&doc.lines()[1], RdpLine::Raw(_)));
    assert!(!doc.contains("num"));
}

#[test]
fn a_set_property_survives_writing_and_reading() {
    let mut doc = RdpDocument::parse("a:i:1\nnote\nb:s:x:y\n");
    doc.set_integer("A", -17);
    doc.set_string("new key", "v:w");
    doc.set_binary("bin", "0a0b");
    let text = doc.render();
    assert_eq!(text, "a:i:-17\nnote\nb:s:x:y\nnew key:s:v:w\nbin:b:0a0b\n");
    let again = RdpDocument::parse(&text);
    assert_eq!(again.get_integer("a"), Some(-17));
    assert_eq!(again.get_string("new key"), Some("v:w"));
    assert_eq!(again.get("bin"), doc.get("bin"));
    assert_eq!(again.get_string("b"), Some("x:y"));
}

#[test]
fn saved_documents_load_back_in_every_encoding() {
    let text = "a:s:x\r\nb:i:2\r\n";
    let mut inputs: Vec<Vec<u8>> = vec![text.as_bytes().to_vec()];
    let mut bom = vec![0xef, 0xbb, 0xbf];
    bom.extend_from_slice(text.as_bytes());
    inputs.push(bom);
    for little_endian in [true, false] {
        let mut bytes = if little_endian { vec![0xff, 0xfe] } else { vec![0xfe, 0xff] };
        for unit in text.encode_utf16() {
            let pair = if little_endian { unit.to_le_bytes() } else { unit.to_be_bytes() };
            bytes.extend_from_slice(&pair);
        }
        inputs.push(bytes);
    }
    for bytes in inputs {
        let mut doc = RdpDocument::from_bytes(&bytes).unwrap();
        doc.set_string("a", "changed");
        doc.set_integer("c", 3);
        let saved = doc.to_bytes();
        let loaded = RdpDocument::from_bytes(&saved).unwrap();
        assert_eq!(loaded.encoding(), doc.encoding());
        assert_eq!(loaded.get_string("a"), Some("changed"));
        assert_eq!(loaded.get_integer("b"), Some(2));
        assert_eq!(loaded.get_integer("c"), Some(3));
    }
}

#[test]
fn utf16_without_a_byte_order_mark_is_recognised() {
    let text = "username:s:alice\r\n";
    let mut le = Vec::new();
    let mut be = Vec::new();
    for unit in text.encode_utf16() {
        le.extend_from_slice(&unit.to_le_bytes());
        be.extend_from_slice(&unit.to_be_bytes());
    }
    let doc = RdpDocument::from_bytes(&le).unwrap();
    assert_eq!(doc.encoding(), RdpEncoding::Utf16Le);
    assert_eq!(doc.get_string("username"), Some("alice"));
    let doc = RdpDocument::from_bytes(&be).unwrap();
    assert_eq!(doc.encoding(), RdpEncoding::Utf16Be);
    assert_eq!(doc.get_string("username"), Some("alice"));
    let doc = RdpDocument::from_bytes(text.as_bytes()).unwrap();
    assert_eq!(doc.encoding(), RdpEncoding::Utf8);
    assert_eq!(doc.get_string("username"), Some("alice"));
}
