use zniff_rs::frame_definition::{
    BaseHeader, BaseHeaderParamParam, Define, DefineSet, FrameDefinition,
    FrameDefinitionBaseHeaderParam, FrameDefinitionHeaderParam, Header,
};
use zniff_rs::text::{format_hex_byte, parse_key};
use zniff_rs::xml::{Cmd, CmdClass, CmdClassCmdChild, CmdClassCmdParam, CmdVariantGroup, ZwClasses};
use zniff_rs::xml_output::ParsedFrame;
use zniff_rs::zw_parser::{extract_bit_field, parse_bits, ZwParseError, ZwParser};

fn bit_field(name: &str, bits: &str) -> BaseHeaderParamParam {
    BaseHeaderParamParam { name: name.to_string(), bits: bits.to_string(), ..Default::default() }
}

fn base_param(
    name: &str,
    bits: &str,
    param: Option<Vec<BaseHeaderParamParam>>,
) -> FrameDefinitionBaseHeaderParam {
    FrameDefinitionBaseHeaderParam {
        name: name.to_string(),
        bits: bits.to_string(),
        param,
        ..Default::default()
    }
}

fn header_param(text: &str, bits: &str) -> FrameDefinitionHeaderParam {
    FrameDefinitionHeaderParam {
        name: text.replace(' ', ""),
        param_text: text.to_string(),
        bits: bits.to_string(),
        ..Default::default()
    }
}

fn header(name: &str, params: Vec<FrameDefinitionHeaderParam>) -> Header {
    Header { name: name.to_string(), param: params, ..Default::default() }
}

fn define(key: &str, name: &str) -> Define {
    Define { key: key.to_string(), name: name.to_string(), text: name.to_string() }
}

fn definition() -> FrameDefinition {
    FrameDefinition {
        base_header: vec![
            BaseHeader {
                key: "1".to_string(),
                name: "LongRange".to_string(),
                param: vec![base_param("HomeId", "32", None)],
                ..Default::default()
            },
            BaseHeader {
                key: "0".to_string(),
                name: "ZWave".to_string(),
                param: vec![
                    base_param("HomeId", "32", None),
                    base_param("Source", "8", None),
                    base_param(
                        "Properties1",
                        "8",
                        Some(vec![
                            bit_field("HeaderType", "4"),
                            bit_field("SpeedModified", "1"),
                            bit_field("Unused", "x"),
                            bit_field("LowPower", "1"),
                            bit_field("Ack", "1"),
                            bit_field("Routed", "1"),
                        ]),
                    ),
                    base_param("Reserved", "0", None),
                    base_param(
                        "Properties2",
                        "8",
                        Some(vec![bit_field("SequenceNumber", "4"), bit_field("Rest", "4")]),
                    ),
                    base_param("Length", "8", None),
                ],
                ..Default::default()
            },
        ],
        header: vec![
            header("MULTICAST", vec![header_param("Address Offset", "8")]),
            header(
                "SINGLECAST",
                vec![header_param("Destination", "8"), header_param("Nothing", "")],
            ),
        ],
        define_set: vec![
            DefineSet {
                name: "Other".to_string(),
                text: None,
                define: vec![define("0x01", "Wrong")],
            },
            DefineSet {
                name: "HeaderType".to_string(),
                text: None,
                define: vec![
                    define("0x01", "Singlecast"),
                    define("0x02", "Multicast"),
                    define("0x03", "Ack"),
                    define("zz", "Broken"),
                    define("0x08", "Routed"),
                ],
            },
        ],
        ..Default::default()
    }
}

fn byte_param(name: &str) -> CmdClassCmdChild {
    CmdClassCmdChild::Param(CmdClassCmdParam {
        name: name.to_string(),
        param_type: "BYTE".to_string(),
        ..Default::default()
    })
}

fn other_param(name: &str, kind: &str) -> CmdClassCmdChild {
    CmdClassCmdChild::Param(CmdClassCmdParam {
        name: name.to_string(),
        param_type: kind.to_string(),
        ..Default::default()
    })
}

fn group(name: &str) -> CmdClassCmdChild {
    CmdClassCmdChild::VariantGroup(CmdVariantGroup { name: name.to_string(), ..Default::default() })
}

fn command(key: &str, help: &str, children: Option<Vec<CmdClassCmdChild>>) -> Cmd {
    Cmd { key: key.to_string(), help: help.to_string(), children, ..Default::default() }
}

fn class(key: &str, version: &str, help: &str, cmd: Option<Vec<Cmd>>) -> CmdClass {
    CmdClass {
        key: key.to_string(),
        version: version.to_string(),
        help: help.to_string(),
        cmd,
        ..Default::default()
    }
}

fn catalog() -> ZwClasses {
    ZwClasses {
        cmd_class: vec![
            class("broken", "1", "Broken", None),
            class("0x25", "1", "Command Class Switch Binary", None),
            class(
                "0x20",
                "2",
                "Command Class Basic",
                Some(vec![
                    command("0x01", "Basic Set", Some(vec![byte_param("Value")])),
                    command("0x02", "Basic Get", None),
                    command(
                        "0x03",
                        "Basic Report",
                        Some(vec![
                            byte_param("Current Value"),
                            other_param("Flags", "STRUCT_BYTE"),
                            group("vg"),
                            byte_param("Target Value"),
                            byte_param("Duration"),
                            byte_param("Beyond"),
                        ]),
                    ),
                ]),
            ),
            class("0x20", "1", "Command Class Basic, again", None),
        ],
        ..Default::default()
    }
}

/// Name, value and type of each field of a parsed frame.
fn rows(frame: &ParsedFrame) -> Vec<(String, String, Option<String>)> {
    frame
        .fields
        .iter()
        .map(|f| (f.name.clone(), f.value.clone(), f.field_type.clone()))
        .collect()
}

fn row(name: &str, value: &str, kind: &str) -> (String, String, Option<String>) {
    (name.to_string(), value.to_string(), Some(kind.to_string()))
}

fn header_rows(raw: &str) -> Vec<(String, String, Option<String>)> {
    vec![
        row("RawFrame", raw, "hex"),
        row("HeaderName", "ZWave", "string"),
        row("HomeId", "E2EA36C3", "32 bits"),
        row("Source", "01", "8 bits"),
        row("HeaderType", "0x01", "4 bits"),
        row("SpeedModified", "0x00", "1 bits"),
        row("LowPower", "0x00", "1 bits"),
        row("Ack", "0x01", "1 bits"),
        row("Routed", "0x00", "1 bits"),
        row("SequenceNumber", "0x0D", "4 bits"),
        row("Rest", "0x0A", "4 bits"),
        row("Length", "0D", "8 bits"),
        row("HeaderTypeName", "SINGLECAST", "string"),
        row("Destination", "02", "8 bits"),
    ]
}

#[test]
fn classic_frame_with_a_known_command() {
    let fd = definition();
    let zwc = catalog();
    let parser = ZwParser::new(&fd, &zwc);
    let frame = [0xE2, 0xEA, 0x36, 0xC3, 0x01, 0x41, 0xAD, 0x0D, 0x02, 0x20, 0x01, 0xFF, 0x7B];
    let parsed = parser.parse_bytes(&frame);
    let mut expected = header_rows("E2EA36C301" .to_string().as_str());
    expected[0] = row("RawFrame", "E2EA36C30141AD0D022001FF7B", "hex");
    expected.push(row("CommandClass", "Command Class Basic", "0x20"));
    expected.push(row("CommandClassVersion", "2", "string"));
    expected.push(row("Command", "Basic Set", "0x01"));
    expected.push(row("Value", "0xFF", "BYTE"));
    assert_eq!(rows(&parsed), expected);
}

#[test]
fn parameters_of_other_types_and_variant_groups() {
    let fd = definition();
    let zwc = catalog();
    let parser = ZwParser::new(&fd, &zwc);
    let parsed = parser
        .parse_str("e2ea36c30141ad0d0220030a0B0c")
        .expect("hexadecimal text of either case");
    let mut expected = header_rows("");
    expected[0] = row("RawFrame", "E2EA36C30141AD0D0220030A0B0C", "hex");
    expected.push(row("CommandClass", "Command Class Basic", "0x20"));
    expected.push(row("CommandClassVersion", "2", "string"));
    expected.push(row("Command", "Basic Report", "0x03"));
    expected.push(row("Current Value", "0x0A", "BYTE"));
    expected.push(row("VariantGroup_vg", "present", "group"));
    expected.push(row("Target Value", "0x0B", "BYTE"));
    expected.push(row("Duration", "0x0C", "BYTE"));
    assert_eq!(rows(&parsed), expected);
}

#[test]
fn text_that_is_not_hexadecimal() {
    let fd = definition();
    let zwc = catalog();
    let parser = ZwParser::new(&fd, &zwc);
    assert_eq!(parser.parse_str("E2E").err(), Some(ZwParseError::InvalidHex));
    assert_eq!(parser.parse_str("E2EG").err(), Some(ZwParseError::InvalidHex));
    assert_eq!(parser.parse_str("0xE2").err(), Some(ZwParseError::InvalidHex));
    assert_eq!(parser.parse_str(" E2").err(), Some(ZwParseError::InvalidHex));
    assert_eq!(parser.parse_str("é2").err(), Some(ZwParseError::InvalidHex));
    let empty = parser.parse_str("").unwrap();
    assert_eq!(
        rows(&empty),
        vec![
            row("RawFrame", "", "hex"),
            row("HeaderName", "ZWave", "string"),
            row("HeaderTypeName", "UNKNOWN", "string"),
        ]
    );
}

#[test]
fn truncated_header() {
    let fd = definition();
    let zwc = catalog();
    let parser = ZwParser::new(&fd, &zwc);
    let parsed = parser.parse_bytes(&[0xE2, 0xEA, 0x36, 0xC3, 0x01, 0x42]);
    assert_eq!(
        rows(&parsed),
        vec![
            row("RawFrame", "E2EA36C30142", "hex"),
            row("HeaderName", "ZWave", "string"),
            row("HomeId", "E2EA36C3", "32 bits"),
            row("Source", "01", "8 bits"),
            row("HeaderType", "0x02", "4 bits"),
            row("SpeedModified", "0x00", "1 bits"),
            row("LowPower", "0x00", "1 bits"),
            row("Ack", "0x01", "1 bits"),
            row("Routed", "0x00", "1 bits"),
            row("HeaderTypeName", "MULTICAST", "string"),
        ]
    );
}

#[test]
fn header_type_without_a_name() {
    let fd = definition();
    let zwc = catalog();
    let parser = ZwParser::new(&fd, &zwc);
    // Header type 8 stands behind a key that is no number.
    let parsed = parser.parse_bytes(&[0xE2, 0xEA, 0x36, 0xC3, 0x01, 0x08, 0x00, 0x09, 0x25]);
    let found = rows(&parsed);
    assert_eq!(found[4], row("HeaderType", "0x08", "4 bits"));
    assert_eq!(found[12], row("HeaderTypeName", "UNKNOWN", "string"));
    // No header is named so: the command class follows the base header.
    assert_eq!(found[13], row("CommandClass", "Command Class Switch Binary", "0x25"));
    assert_eq!(found[14], row("CommandClassVersion", "1", "string"));
    assert_eq!(found.len(), 15);
    // Header type 3 has a name, but no header of that name.
    let parsed = parser.parse_bytes(&[0xE2, 0xEA, 0x36, 0xC3, 0x01, 0x03, 0x00, 0x09, 0x99]);
    let found = rows(&parsed);
    assert_eq!(found[12], row("HeaderTypeName", "ACK", "string"));
    // And no command class has the key 0x99.
    assert_eq!(found.len(), 13);
}

#[test]
fn command_class_without_a_command() {
    let fd = definition();
    let zwc = catalog();
    let parser = ZwParser::new(&fd, &zwc);
    let parsed = parser.parse_bytes(&[0xE2, 0xEA, 0x36, 0xC3, 0x01, 0x41, 0xAD, 0x0D, 0x02, 0x20]);
    let found = rows(&parsed);
    assert_eq!(found.len(), 16);
    assert_eq!(found[14], row("CommandClass", "Command Class Basic", "0x20"));
    assert_eq!(found[15], row("CommandClassVersion", "2", "string"));
    let parsed =
        parser.parse_bytes(&[0xE2, 0xEA, 0x36, 0xC3, 0x01, 0x41, 0xAD, 0x0D, 0x02, 0x20, 0x02]);
    let found = rows(&parsed);
    assert_eq!(found.len(), 17);
    assert_eq!(found[16], row("Command", "Basic Get", "0x02"));
    let parsed =
        parser.parse_bytes(&[0xE2, 0xEA, 0x36, 0xC3, 0x01, 0x41, 0xAD, 0x0D, 0x02, 0x20, 0x07]);
    assert_eq!(rows(&parsed).len(), 16);
}

#[test]
fn keys_of_the_schema() {
    assert_eq!(parse_key("0x20"), Some(0x20));
    assert_eq!(parse_key("20"), Some(0x20));
    assert_eq!(parse_key("0xff"), Some(0xFF));
    assert_eq!(parse_key("0xFF"), Some(0xFF));
    assert_eq!(parse_key("0x0x0x1f"), Some(0x1F));
    assert_eq!(parse_key("+7"), Some(7));
    assert_eq!(parse_key("0x+7"), Some(7));
    assert_eq!(parse_key("0x007"), Some(7));
    assert_eq!(parse_key("0x100"), None);
    assert_eq!(parse_key("0x"), None);
    assert_eq!(parse_key(""), None);
    assert_eq!(parse_key("+"), None);
    assert_eq!(parse_key("-1"), None);
    assert_eq!(parse_key("0X20"), None);
    assert_eq!(parse_key(" 20"), None);
    assert_eq!(parse_key("2g"), None);
    assert_eq!(parse_key("x20"), None);
}

#[test]
fn widths_of_the_schema() {
    assert_eq!(parse_bits("8"), 8);
    assert_eq!(parse_bits("32"), 32);
    assert_eq!(parse_bits("+16"), 16);
    assert_eq!(parse_bits("007"), 7);
    assert_eq!(parse_bits("0"), 0);
    assert_eq!(parse_bits(""), 0);
    assert_eq!(parse_bits("8 "), 0);
    assert_eq!(parse_bits("-8"), 0);
    assert_eq!(parse_bits("0x8"), 0);
    assert_eq!(parse_bits("a"), 0);
    assert_eq!(parse_bits("99999999999999999999999999"), 0);
    assert_eq!(parse_bits(&usize::MAX.to_string()), usize::MAX);
}

#[test]
fn bit_fields_of_a_byte() {
    assert_eq!(extract_bit_field(0b1010_0110, 0, 4), 0b0110);
    assert_eq!(extract_bit_field(0b1010_0110, 4, 4), 0b1010);
    assert_eq!(extract_bit_field(0b1010_0110, 1, 2), 0b11);
    assert_eq!(extract_bit_field(0b1010_0110, 7, 1), 1);
    assert_eq!(extract_bit_field(0b1010_0110, 7, 5), 1);
    assert_eq!(extract_bit_field(0b1010_0110, 0, 8), 0b1010_0110);
    assert_eq!(extract_bit_field(0b1010_0110, 2, 100), 0b10_1001);
    assert_eq!(extract_bit_field(0b1010_0110, 8, 1), 0);
    assert_eq!(extract_bit_field(0xFF, usize::MAX, usize::MAX), 0);
    assert_eq!(extract_bit_field(0xFF, 3, 0), 0);
}

#[test]
fn text_of_a_byte() {
    assert_eq!(format_hex_byte(0x00), "0x00");
    assert_eq!(format_hex_byte(0x0A), "0x0A");
    assert_eq!(format_hex_byte(0xFF), "0xFF");
    assert_eq!(format_hex_byte(0x9d), "0x9D");
}
