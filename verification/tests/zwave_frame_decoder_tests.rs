use zniff_rs::decoders::{BuiltinDecoder, ZnifferFrameDecoder};
use zniff_rs::frame::{
    DecodedChunk, DecoderLibrary, DisplayType, FieldType, FrameDecoder, MACFrame, MACProtocol,
};
use zniff_rs::frame_definition::{
    BaseHeader, BaseHeaderParamParam, Define, DefineSet, FrameDefinition,
    FrameDefinitionBaseHeaderParam, FrameDefinitionHeaderParam, Header,
};
use zniff_rs::xml::{Cmd, CmdClass, CmdClassCmdChild, CmdClassCmdParam, CmdVariantGroup, ZwClasses};
use zniff_rs::zwave_frame_decoder::ZWaveFrameDecoder;

fn bit_field(name: &str, bits: &str) -> BaseHeaderParamParam {
    BaseHeaderParamParam { name: name.to_string(), bits: bits.to_string(), ..Default::default() }
}

fn base_param(
    name: &str,
    bits: &str,
    param: Option<Vec<BaseHeaderParamParam>>,
) -> FrameDefinitionBaseHeaderParam {
    FrameDefinitionBaseHeaderParam {
        name: name.to_string(),
        bits: bits.to_string(),
        param,
        ..Default::default()
    }
}

fn header_param(text: &str, bits: &str) -> FrameDefinitionHeaderParam {
    FrameDefinitionHeaderParam {
        name: text.replace(' ', ""),
        param_text: text.to_string(),
        bits: bits.to_string(),
        ..Default::default()
    }
}

fn header(name: &str, params: Vec<FrameDefinitionHeaderParam>) -> Header {
    Header { name: name.to_string(), param: params, ..Default::default() }
}

fn define(key: &str, name: &str) -> Define {
    Define { key: key.to_string(), name: name.to_string(), text: name.to_string() }
}

fn definition() -> FrameDefinition {
    FrameDefinition {
        base_header: vec![
            BaseHeader {
                key: "1".to_string(),
                name: "LongRange".to_string(),
                param: vec![base_param("HomeId", "32", None)],
                ..Default::default()
            },
            BaseHeader {
                key: "0".to_string(),
                name: "ZWave".to_string(),
                param: vec![
                    base_param("HomeId", "32", None),
                    base_param("Source", "8", None),
                    base_param(
                        "Properties1",
                        "8",
                        Some(vec![
                            bit_field("HeaderType", "4"),
                            bit_field("SpeedModified", "1"),
                            bit_field("Unused", "x"),
                            bit_field("LowPower", "1"),
                            bit_field("Ack", "1"),
                            bit_field("Routed", "1"),
                        ]),
                    ),
                    base_param("Reserved", "0", None),
                    base_param(
                        "Properties2",
                        "8",
                        Some(vec![bit_field("SequenceNumber", "4"), bit_field("Rest", "4")]),
                    ),
                    base_param("Length", "8", None),
                ],
                ..Default::default()
            },
        ],
        header: vec![
            header("MULTICAST", vec![header_param("Address Offset", "8")]),
            header(
                "SINGLECAST",
                vec![header_param("Destination", "8"), header_param("Nothing", "")],
            ),
        ],
        define_set: vec![
            DefineSet {
                name: "Other".to_string(),
                text: None,
                define: vec![define("0x01", "Wrong")],
            },
            DefineSet {
                name: "HeaderType".to_string(),
                text: None,
                define: vec![
                    define("0x01", "Singlecast"),
                    define("0x02", "Multicast"),
                    define("0x03", "Ack"),
                    define("zz", "Broken"),
                    define("0x08", "Routed"),
                ],
            },
        ],
        ..Default::default()
    }
}

fn byte_param(name: &str) -> CmdClassCmdChild {
    CmdClassCmdChild::Param(CmdClassCmdParam {
        name: name.to_string(),
        param_type: "BYTE".to_string(),
        ..Default::default()
    })
}

fn other_param(name: &str, kind: &str) -> CmdClassCmdChild {
    CmdClassCmdChild::Param(CmdClassCmdParam {
        name: name.to_string(),
        param_type: kind.to_string(),
        ..Default::default()
    })
}

fn variant_group(name: &str) -> CmdClassCmdChild {
    CmdClassCmdChild::VariantGroup(CmdVariantGroup { name: name.to_string(), ..Default::default() })
}

fn command(key: &str, help: &str, children: Option<Vec<CmdClassCmdChild>>) -> Cmd {
    Cmd { key: key.to_string(), help: help.to_string(), children, ..Default::default() }
}

fn class(key: &str, version: &str, help: &str, cmd: Option<Vec<Cmd>>) -> CmdClass {
    CmdClass {
        key: key.to_string(),
        version: version.to_string(),
        help: help.to_string(),
        cmd,
        ..Default::default()
    }
}

fn catalog() -> ZwClasses {
    ZwClasses {
        cmd_class: vec![
            class("broken", "1", "Broken", None),
            class("0x25", "1", "Command Class Switch Binary", None),
            class(
                "0x20",
                "2",
                "Command Class Basic",
                Some(vec![
                    command("0x01", "Basic Set", Some(vec![byte_param("Value")])),
                    command("0x02", "Basic Get", None),
                    command(
                        "0x03",
                        "Basic Report",
                        Some(vec![
                            byte_param("Current Value"),
                            other_param("Flags", "STRUCT_BYTE"),
                            variant_group("vg"),
                            byte_param("Target Value"),
                            byte_param("Duration"),
                            byte_param("Beyond"),
                        ]),
                    ),
                ]),
            ),
            class("0x20", "1", "Command Class Basic, again", None),
        ],
        ..Default::default()
    }
}


fn frame_of(data: &[u8]) -> MACFrame {
    MACFrame {
        id: 7,
        timestamp: 0,
        protocol: MACProtocol::ZWave,
        data: data.to_vec(),
        top: DecodedChunk::new(vec![]),
    }
}

/// Short name, name, start and end of each field of a chunk.
fn layout(chunk: &DecodedChunk) -> Vec<(String, String, usize, usize)> {
    chunk
        .fields
        .iter()
        .map(|f| (f.short_name.clone(), f.name.clone(), f.segment.start, f.segment.end))
        .collect()
}

fn at(short_name: &str, name: &str, start: usize, end: usize) -> (String, String, usize, usize) {
    (short_name.to_string(), name.to_string(), start, end)
}

fn group(chunk: &DecodedChunk, index: usize) -> &DecodedChunk {
    match &chunk.fields[index].field_type {
        FieldType::SubFrame(sub) => sub,
        other => panic!("Expected a sub-frame, got {:?}", other),
    }
}

fn decoder() -> ZWaveFrameDecoder {
    ZWaveFrameDecoder::new(definition(), catalog())
}

#[test]
fn classic_mac_header_and_command() {
    let frame =
        frame_of(&[0xE2, 0xEA, 0x36, 0xC3, 0x01, 0x41, 0xAD, 0x0D, 0x02, 0x20, 0x01, 0xFF, 0x7B]);
    let decoding = decoder().decode_frame(&frame, 0..13).unwrap();
    assert!(decoding.sub_frames.is_empty());
    let chunk = decoding.chunk;
    assert_eq!(
        layout(&chunk),
        vec![
            at("base_header", "ZWave", 0, 8),
            at("header", "SINGLECAST", 8, 9),
            at("CommandClass", "Command Class Basic (Version 2)", 9, 10),
            at("Command", "Basic Set", 10, 11),
            at("Value", "Value", 11, 12),
        ]
    );
    assert_eq!(
        layout(group(&chunk, 0)),
        vec![
            at("HomeId", "", 0, 4),
            at("Source", "", 4, 5),
            at("Properties1", "", 5, 6),
            at("Properties2", "", 6, 7),
            at("Length", "", 7, 8),
        ]
    );
    assert_eq!(layout(group(&chunk, 1)), vec![at("Destination", "Destination", 8, 9)]);
    assert!(matches!(chunk.fields[2].field_type, FieldType::UInt8));
    assert!(matches!(chunk.fields[3].field_type, FieldType::UInt8));
    assert!(matches!(chunk.fields[4].field_type, FieldType::UInt8));
    assert!(matches!(group(&chunk, 0).fields[0].field_type, FieldType::Bytes));
    assert_eq!(chunk.fields[0].display_type, DisplayType::NoDisplay);
    assert_eq!(chunk.fields[2].display_type, DisplayType::Hex);
    assert_eq!(decoder().decoder_name(), "ZWaveFrameDecoder");
}

#[test]
fn decoding_within_a_segment() {
    let frame = frame_of(&[
        0x00, 0x00, 0xE2, 0xEA, 0x36, 0xC3, 0x01, 0x41, 0xAD, 0x0D, 0x02, 0x20, 0x03, 0x0A, 0x0B,
        0x0C, 0x0D, 0x0E, 0xFF,
    ]);
    let chunk = decoder().decode_frame(&frame, 2..18).unwrap().chunk;
    assert_eq!(
        layout(&chunk),
        vec![
            at("base_header", "ZWave", 2, 10),
            at("header", "SINGLECAST", 10, 11),
            at("CommandClass", "Command Class Basic (Version 2)", 11, 12),
            at("Command", "Basic Report", 12, 13),
            at("Current Value", "Current Value", 13, 14),
            at("Flags", "Flags", 14, 18),
        ]
    );
    assert!(matches!(chunk.fields[5].field_type, FieldType::Bytes));
    assert_eq!(layout(group(&chunk, 0))[0], at("HomeId", "", 2, 6));
}

#[test]
fn unknown_command_class_and_command_are_opaque() {
    let frame =
        frame_of(&[0xE2, 0xEA, 0x36, 0xC3, 0x01, 0x41, 0xAD, 0x0D, 0x02, 0x99, 0x01, 0xFF, 0x7B]);
    let chunk = decoder().decode_frame(&frame, 0..13).unwrap().chunk;
    assert_eq!(
        layout(&chunk),
        vec![
            at("base_header", "ZWave", 0, 8),
            at("header", "SINGLECAST", 8, 9),
            at("payload", "Payload", 9, 13),
        ]
    );
    let frame =
        frame_of(&[0xE2, 0xEA, 0x36, 0xC3, 0x01, 0x41, 0xAD, 0x0D, 0x02, 0x20, 0x09, 0xFF, 0x7B]);
    let chunk = decoder().decode_frame(&frame, 0..13).unwrap().chunk;
    assert_eq!(
        layout(&chunk)[2..],
        [
            at("CommandClass", "Command Class Basic (Version 2)", 9, 10),
            at("payload", "Payload", 10, 13),
        ]
    );
    // A command class without commands.
    let frame = frame_of(&[0xE2, 0xEA, 0x36, 0xC3, 0x01, 0x41, 0xAD, 0x0D, 0x02, 0x25, 0x01]);
    let chunk = decoder().decode_frame(&frame, 0..11).unwrap().chunk;
    assert_eq!(
        layout(&chunk)[2..],
        [
            at("CommandClass", "Command Class Switch Binary (Version 1)", 9, 10),
            at("payload", "Payload", 10, 11),
        ]
    );
    // Only the byte of the command class, and nothing behind the headers.
    let chunk = decoder().decode_frame(&frame, 0..10).unwrap().chunk;
    assert_eq!(layout(&chunk).len(), 3);
    let chunk = decoder().decode_frame(&frame, 0..9).unwrap().chunk;
    assert_eq!(layout(&chunk).len(), 2);
}

#[test]
fn what_cannot_be_decoded() {
    let bytes = [0xE2, 0xEA, 0x36, 0xC3, 0x01, 0x41, 0xAD, 0x0D, 0x02, 0x20, 0x01, 0xFF, 0x7B];
    let frame = frame_of(&bytes);
    // A truncated base header, and a truncated header.
    for end in 0..9 {
        assert!(decoder().decode_frame(&frame, 0..end).is_none());
    }
    // A segment that does not lie within the frame.
    assert!(decoder().decode_frame(&frame, 0..14).is_none());
    assert!(decoder().decode_frame(&frame, 5..4).is_none());
    // A header type without a name: 9 is no key, 8 stands behind a key that is no number.
    let mut unknown = bytes;
    unknown[5] = 0x49;
    assert!(decoder().decode_frame(&frame_of(&unknown), 0..13).is_none());
    unknown[5] = 0x48;
    assert!(decoder().decode_frame(&frame_of(&unknown), 0..13).is_none());
    // A header type with a name and no header.
    unknown[5] = 0x43;
    assert!(decoder().decode_frame(&frame_of(&unknown), 0..13).is_none());
    // A definition without the classic base header.
    let mut fd = definition();
    fd.base_header.truncate(1);
    assert!(ZWaveFrameDecoder::new(fd, catalog()).decode_frame(&frame, 0..13).is_none());
}

#[test]
fn device_frame_down_to_the_command() {
    let mut library: DecoderLibrary<BuiltinDecoder> = DecoderLibrary::new();
    library.register_decoder(BuiltinDecoder::Zniffer(ZnifferFrameDecoder));
    library.register_decoder(BuiltinDecoder::ZWave(decoder()));
    let frame = frame_of(&[
        0x20, 0x00, 0x9D, 0x21, 0x03, 0x0D, 0xE2, 0xEA, 0x36, 0xC3, 0x01, 0x41, 0xAD, 0x0D, 0x02,
        0x20, 0x01, 0xFF, 0x7B,
    ]);
    let chunk = library.decode("ZnifferFrameDecoder", &frame, 0..19).unwrap();
    assert_eq!(chunk.fields.len(), 6);
    let mac = group(&chunk, 5);
    assert_eq!(
        layout(mac),
        vec![
            at("base_header", "ZWave", 6, 14),
            at("header", "SINGLECAST", 14, 15),
            at("CommandClass", "Command Class Basic (Version 2)", 15, 16),
            at("Command", "Basic Set", 16, 17),
            at("Value", "Value", 17, 18),
        ]
    );
    assert_eq!(layout(group(mac, 1)), vec![at("Destination", "Destination", 14, 15)]);
    // The frame within the envelope is too short for its headers.
    let short = frame_of(&[0x20, 0x00, 0x9D, 0x21, 0x03, 0x02, 0xE2, 0xEA]);
    assert!(library.decode("ZnifferFrameDecoder", &short, 0..8).is_none());
}
