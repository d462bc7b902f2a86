use flv_mp4::amf_parser::{AMFError, AMFValue, findProperty, parseScriptData};

fn key(out: &mut Vec<u8>, name: &str) {
    out.extend_from_slice(&(name.len() as u16).to_be_bytes());
    out.extend_from_slice(name.as_bytes());
}

fn on_metadata() -> Vec<u8> {
    let mut v = vec![0x02];
    key(&mut v, "onMetaData");
    v.push(0x08);
    v.extend_from_slice(&3u32.to_be_bytes());
    key(&mut v, "duration");
    v.push(0x00);
    v.extend_from_slice(&10.5f64.to_bits().to_be_bytes());
    key(&mut v, "hasVideo");
    v.extend_from_slice(&[0x01, 0x01]);
    key(&mut v, "encoder");
    v.push(0x02);
    key(&mut v, "x264");
    v.extend_from_slice(&[0x00, 0x00, 0x09]);
    v
}

#[test]
fn parses_on_metadata() {
    let buf = on_metadata();
    let sd = parseScriptData(&buf, 0, buf.len()).unwrap().unwrap();
    assert_eq!(sd.name, b"onMetaData".to_vec());
    assert_eq!(sd.properties.len(), 3);
    assert_eq!(sd.properties[0].name, b"duration".to_vec());
    assert!(matches!(sd.properties[0].value, AMFValue::Number(n) if n == 10.5f64.to_bits()));
    assert!(matches!(sd.properties[1].value, AMFValue::Boolean(true)));
    assert!(matches!(&sd.properties[2].value, AMFValue::String(s) if s.as_slice() == b"x264"));
}

#[test]
fn finds_a_property_by_name() {
    let buf = on_metadata();
    let sd = parseScriptData(&buf, 0, buf.len()).unwrap().unwrap();
    assert!(matches!(findProperty(&sd.properties, b"hasVideo"), Some(AMFValue::Boolean(true))));
    assert!(findProperty(&sd.properties, b"width").is_none());
}

#[test]
fn parses_at_an_offset() {
    let mut buf = vec![0xEE; 7];
    buf.extend_from_slice(&on_metadata());
    let n = buf.len() - 7;
    let sd = parseScriptData(&buf, 7, n).unwrap().unwrap();
    assert_eq!(sd.properties.len(), 3);
}

#[test]
fn truncated_script_data_is_an_error() {
    let buf = on_metadata();
    assert!(matches!(parseScriptData(&buf[..5], 0, 5), Err(AMFError::DataNotEnough)));
}

#[test]
fn pair_that_is_not_name_and_object_is_none() {
    let mut buf = vec![0x02];
    key(&mut buf, "x");
    buf.push(0x00);
    buf.extend_from_slice(&1.0f64.to_bits().to_be_bytes());
    assert!(matches!(parseScriptData(&buf, 0, buf.len()), Ok(None)));
}

#[test]
fn strict_array_and_date_values() {
    let mut buf = vec![0x02];
    key(&mut buf, "onCuePoint");
    buf.push(0x03);
    key(&mut buf, "list");
    buf.push(0x0A);
    buf.extend_from_slice(&2u32.to_be_bytes());
    buf.extend_from_slice(&[0x01, 0x00, 0x01, 0x01]);
    key(&mut buf, "when");
    buf.push(0x0B);
    buf.extend_from_slice(&7u64.to_be_bytes());
    buf.extend_from_slice(&60u16.to_be_bytes());
    buf.extend_from_slice(&[0x00, 0x00, 0x09]);
    let sd = parseScriptData(&buf, 0, buf.len()).unwrap().unwrap();
    assert_eq!(sd.properties.len(), 2);
    match &sd.properties[0].value {
        AMFValue::Array(a) => {
            assert_eq!(a.len(), 2);
            assert!(matches!(a[0], AMFValue::Boolean(false)));
            assert!(matches!(a[1], AMFValue::Boolean(true)));
        },
        _ => panic!("expected an array"),
    }
    assert!(matches!(sd.properties[1].value, AMFValue::Date { timestamp: 7, local_time_offset: 60 }));
}

#[test]
fn removes_properties_by_name() {
    let buf = on_metadata();
    let mut props = parseScriptData(&buf, 0, buf.len()).unwrap().unwrap().properties;
    flv_mp4::amf_parser::removeProperty(&mut props, b"hasVideo");
    assert_eq!(props.len(), 2);
    assert_eq!(props[0].name, b"duration".to_vec());
    assert_eq!(props[1].name, b"encoder".to_vec());
    flv_mp4::amf_parser::removeProperty(&mut props, b"missing");
    assert_eq!(props.len(), 2);
}

#[test]
fn long_string_value_is_read_with_a_short_length() {
    let mut v = vec![0x02];
    key(&mut v, "onMetaData");
    v.push(0x08);
    v.extend_from_slice(&1u32.to_be_bytes());
    key(&mut v, "comment");
    v.push(0x0C);
    key(&mut v, "abc");
    v.extend_from_slice(&[0x00, 0x00, 0x09]);
    let sd = parseScriptData(&v, 0, v.len()).unwrap().unwrap();
    assert_eq!(sd.properties.len(), 1);
    assert!(matches!(&sd.properties[0].value, AMFValue::String(s) if s.as_slice() == b"abc"));
}
