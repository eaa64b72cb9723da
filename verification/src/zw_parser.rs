//! Schema-driven parser of classic Z-Wave frames.
//!
//! The parser walks the frame definition over the bytes of a frame: the
//! base header with key `0`, bit field by bit field, then the header that
//! the header type selects, then the command class and command that the
//! two bytes behind the headers name, and the parameters of the command.
//! Each step adds a field to the parsed frame.

use vstd::prelude::*;
use vstd::slice::slice_subrange;
use vstd::string::StringExecFns;
use crate::frame_definition::BaseHeader;
use crate::frame_definition::BaseHeaderParamParam;
use crate::frame_definition::Define;
use crate::frame_definition::DefineSet;
use crate::frame_definition::FrameDefinition;
use crate::frame_definition::FrameDefinitionBaseHeaderParam;
use crate::frame_definition::FrameDefinitionHeaderParam;
use crate::frame_definition::Header;
use crate::text::decimal_usize;
use crate::text::decode_hex;
use crate::text::encode_hex_upper;
use crate::text::format_bits;
use crate::text::format_hex_byte;
use crate::text::hex_byte_text;
use crate::text::hex_bytes;
use crate::text::hex_upper;
use crate::text::is_hex_text;
use crate::text::key_value;
use crate::text::parse_decimal_usize;
use crate::text::parse_key;
use crate::text::same_text;
use crate::text::to_uppercase;
use crate::text::uppercase_of;
use crate::xml::Cmd;
use crate::xml::CmdClass;
use crate::xml::CmdClassCmdChild;
use crate::xml::ZwClasses;
use crate::xml_output::ParsedFieldView;
use crate::xml_output::ParsedFrame;

verus! {

/// Mathematical value of a walk over a frame.
pub struct WalkView {
    /// The fields found so far.
    pub fields: Seq<ParsedFieldView>,
    /// Bytes of the frame that the headers have taken so far.
    pub byte_counter: int,
    /// Value of the bit field `HeaderType`; 0 before one was found.
    pub header_type: u8,
}

/// A walk over a frame: what has been found, and where the walk stands.
#[derive(Debug)]
pub struct Walk {
    pub frame: ParsedFrame,
    pub byte_counter: usize,
    pub header_type: u8,
}

impl View for Walk {
    type V = WalkView;

    open spec fn view(&self) -> WalkView {
        WalkView {
            fields: self.frame@,
            byte_counter: self.byte_counter as int,
            header_type: self.header_type,
        }
    }
}

/// A field with a type.
pub open spec fn typed_field(name: Seq<char>, value: Seq<char>, kind: Seq<char>) -> ParsedFieldView {
    ParsedFieldView { name: name, value: value, field_type: Some(kind) }
}

/// Width in bits that a text of the schema gives; 0 where it gives none.
pub open spec fn bits_of(text: Seq<char>) -> int {
    match decimal_usize(text) {
        Some(n) => n as int,
        None => 0,
    }
}

/// The bit field of `width` bits at `offset` in a byte, bit 0 being the
/// least significant: 0 where the offset lies beyond the byte.
pub open spec fn bit_field(byte: u8, offset: int, width: int) -> u8 {
    if offset >= 8 {
        0
    } else if width >= 8 {
        byte >> (offset as u8)
    } else {
        (byte >> (offset as u8)) & (((1u8 << (width as u8)) - 1) as u8)
    }
}

/// Walk over the bit fields of a byte, from `offset` on: each bit field
/// of a width other than 0 adds a field with its value and moves the
/// offset on by its width; the bit field named `HeaderType` sets the
/// header type.
pub open spec fn sub_params_walk(
    subs: Seq<BaseHeaderParamParam>,
    byte: u8,
    offset: int,
    walk: WalkView,
) -> WalkView
    decreases subs.len(),
{
    if subs.len() == 0 {
        walk
    } else {
        let width = bits_of(subs[0].bits@);
        if width == 0 {
            sub_params_walk(subs.skip(1), byte, offset, walk)
        } else {
            let value = bit_field(byte, offset, width);
            sub_params_walk(
                subs.skip(1),
                byte,
                offset + width,
                WalkView {
                    fields: walk.fields.push(
                        typed_field(subs[0].name@, hex_byte_text(value), subs[0].bits@ + " bits"@),
                    ),
                    header_type: if subs[0].name@ == "HeaderType"@ {
                        value
                    } else {
                        walk.header_type
                    },
                    ..walk
                },
            )
        }
    }
}

/// Walk over the parameters of a base header: a parameter of a width
/// other than 0 takes `width / 8` bytes of the frame. The walk ends at
/// the first parameter that the frame has too few bytes for. A parameter
/// without bit fields adds a field with its bytes; one with bit fields
/// adds those of its first byte, if it has a byte.
pub open spec fn base_params_walk(
    params: Seq<FrameDefinitionBaseHeaderParam>,
    frame: Seq<u8>,
    walk: WalkView,
) -> WalkView
    decreases params.len(),
{
    if params.len() == 0 {
        walk
    } else {
        let width = bits_of(params[0].bits@);
        let end = walk.byte_counter + width / 8;
        if width == 0 {
            base_params_walk(params.skip(1), frame, walk)
        } else if end > frame.len() {
            walk
        } else {
            let value = frame.subrange(walk.byte_counter, end);
            let found = match params[0].param {
                None => WalkView {
                    fields: walk.fields.push(
                        typed_field(params[0].name@, hex_upper(value), params[0].bits@ + " bits"@),
                    ),
                    ..walk
                },
                Some(subs) => if value.len() == 0 {
                    walk
                } else {
                    sub_params_walk(subs@, value[0], 0, walk)
                },
            };
            base_params_walk(params.skip(1), frame, WalkView { byte_counter: end, ..found })
        }
    }
}

/// The name that the defines give the header type `id`: `Some` of the
/// name of the first define with that key, `Some` of `Unknown` where a
/// key before it is no number, `None` where no define has the key.
pub open spec fn defines_lookup(defines: Seq<Define>, id: u8) -> Option<Seq<char>>
    decreases defines.len(),
{
    if defines.len() == 0 {
        None
    } else {
        match key_value(defines[0].key@) {
            None => Some("Unknown"@),
            Some(key) => if key == id {
                Some(defines[0].name@)
            } else {
                defines_lookup(defines.skip(1), id)
            },
        }
    }
}

/// The name of the header type `id`: what the first define-set named
/// `HeaderType` that knows the key gives, `Unknown` where none does.
pub open spec fn header_type_name(sets: Seq<DefineSet>, id: u8) -> Seq<char>
    decreases sets.len(),
{
    if sets.len() == 0 {
        "Unknown"@
    } else if sets[0].name@ != "HeaderType"@ {
        header_type_name(sets.skip(1), id)
    } else {
        match defines_lookup(sets[0].define@, id) {
            Some(name) => name,
            None => header_type_name(sets.skip(1), id),
        }
    }
}

/// Walk over the parameters of a header: a parameter of a width other
/// than 0 takes `width / 8` bytes of the frame and adds a field with
/// them. The walk ends at the first parameter that the frame has too few
/// bytes for.
pub open spec fn header_params_walk(
    params: Seq<FrameDefinitionHeaderParam>,
    frame: Seq<u8>,
    walk: WalkView,
) -> WalkView
    decreases params.len(),
{
    if params.len() == 0 {
        walk
    } else {
        let width = bits_of(params[0].bits@);
        let end = walk.byte_counter + width / 8;
        if width == 0 {
            header_params_walk(params.skip(1), frame, walk)
        } else if end > frame.len() {
            walk
        } else {
            header_params_walk(
                params.skip(1),
                frame,
                WalkView {
                    fields: walk.fields.push(
                        typed_field(
                            params[0].param_text@,
                            hex_upper(frame.subrange(walk.byte_counter, end)),
                            params[0].bits@ + " bits"@,
                        ),
                    ),
                    byte_counter: end,
                    ..walk
                },
            )
        }
    }
}

/// Walk over the headers: each header named `name` has its parameters
/// walked.
pub open spec fn headers_walk(
    headers: Seq<Header>,
    name: Seq<char>,
    frame: Seq<u8>,
    walk: WalkView,
) -> WalkView
    decreases headers.len(),
{
    if headers.len() == 0 {
        walk
    } else if headers[0].name@ == name {
        headers_walk(headers.skip(1), name, frame, header_params_walk(headers[0].param@, frame, walk))
    } else {
        headers_walk(headers.skip(1), name, frame, walk)
    }
}

/// Walk over the headers of a header type, given its upper-case name: a
/// field with that name, and the headers of that name.
pub open spec fn typed_headers_walk(
    headers: Seq<Header>,
    upper: Seq<char>,
    frame: Seq<u8>,
    walk: WalkView,
) -> WalkView {
    headers_walk(
        headers,
        upper,
        frame,
        WalkView {
            fields: walk.fields.push(typed_field("HeaderTypeName"@, upper, "string"@)),
            ..walk
        },
    )
}

/// Walk over one base header: a field with the name of the base header,
/// its parameters, and the headers of the header type that they gave,
/// under the upper-case form of its name.
pub open spec fn base_header_walk(
    definition: FrameDefinition,
    base: BaseHeader,
    frame: Seq<u8>,
    walk: WalkView,
) -> WalkView {
    let named = WalkView {
        fields: walk.fields.push(typed_field("HeaderName"@, base.name@, "string"@)),
        ..walk
    };
    let based = base_params_walk(base.param@, frame, named);
    typed_headers_walk(
        definition.header@,
        uppercase_of(header_type_name(definition.define_set@, based.header_type)),
        frame,
        based,
    )
}

/// Walk over the base headers: each base header with key `0`, the
/// classic Z-Wave header, is walked.
pub open spec fn base_headers_walk(
    definition: FrameDefinition,
    bases: Seq<BaseHeader>,
    frame: Seq<u8>,
    walk: WalkView,
) -> WalkView
    decreases bases.len(),
{
    if bases.len() == 0 {
        walk
    } else if bases[0].key@ != "0"@ {
        base_headers_walk(definition, bases.skip(1), frame, walk)
    } else {
        base_headers_walk(
            definition,
            bases.skip(1),
            frame,
            base_header_walk(definition, bases[0], frame, walk),
        )
    }
}

/// Walk over the children of a command, from the byte `at` of the
/// payload on: a parameter of type `BYTE` takes a byte and adds a field
/// with it, a parameter of another type adds nothing, a variant group
/// adds a field that says it is present. The walk ends where the payload
/// does.
pub open spec fn children_walk(
    children: Seq<CmdClassCmdChild>,
    payload: Seq<u8>,
    at: int,
    fields: Seq<ParsedFieldView>,
) -> Seq<ParsedFieldView>
    decreases children.len(),
{
    if children.len() == 0 || at >= payload.len() {
        fields
    } else {
        match children[0] {
            CmdClassCmdChild::Param(p) => if p.param_type@ == "BYTE"@ {
                children_walk(
                    children.skip(1),
                    payload,
                    at + 1,
                    fields.push(typed_field(p.name@, hex_byte_text(payload[at]), "BYTE"@)),
                )
            } else {
                children_walk(children.skip(1), payload, at, fields)
            },
            CmdClassCmdChild::VariantGroup(group) => children_walk(
                children.skip(1),
                payload,
                at,
                fields.push(typed_field("VariantGroup_"@ + group.name@, "present"@, "group"@)),
            ),
        }
    }
}

/// Walk over the commands of a command class: each command whose key is
/// the second byte of the payload adds a field with its help text, and
/// the fields of its children. A payload of fewer than two bytes adds
/// nothing.
pub open spec fn commands_walk(cmds: Seq<Cmd>, payload: Seq<u8>, fields: Seq<ParsedFieldView>) -> Seq<
    ParsedFieldView,
>
    decreases cmds.len(),
{
    if cmds.len() == 0 || payload.len() < 2 {
        fields
    } else if key_value(cmds[0].key@) == Some(payload[1]) {
        let named = fields.push(
            typed_field("Command"@, cmds[0].help@, hex_byte_text(payload[1])),
        );
        commands_walk(
            cmds.skip(1),
            payload,
            match cmds[0].children {
                None => named,
                Some(children) => children_walk(children@, payload, 2, named),
            },
        )
    } else {
        commands_walk(cmds.skip(1), payload, fields)
    }
}

/// Walk over the command classes: the first command class whose key is
/// the first byte of the payload adds a field with its help text and one
/// with its version, and, where the payload has a second byte, the
/// fields of its commands. An empty payload adds nothing.
pub open spec fn classes_walk(
    classes: Seq<CmdClass>,
    payload: Seq<u8>,
    fields: Seq<ParsedFieldView>,
) -> Seq<ParsedFieldView>
    decreases classes.len(),
{
    if classes.len() == 0 || payload.len() == 0 {
        fields
    } else if key_value(classes[0].key@) == Some(payload[0]) {
        let named = fields.push(
            typed_field("CommandClass"@, classes[0].help@, hex_byte_text(payload[0])),
        ).push(typed_field("CommandClassVersion"@, classes[0].version@, "string"@));
        if payload.len() < 2 {
            named
        } else {
            match classes[0].cmd {
                None => named,
                Some(cmds) => commands_walk(cmds@, payload, named),
            }
        }
    } else {
        classes_walk(classes.skip(1), payload, fields)
    }
}

/// The fields of a frame: the raw bytes, the fields of the headers, and,
/// where bytes are left behind the headers, those of the command class.
pub open spec fn parsed_frame_of(
    definition: FrameDefinition,
    classes: ZwClasses,
    frame: Seq<u8>,
) -> Seq<ParsedFieldView> {
    let headers = base_headers_walk(
        definition,
        definition.base_header@,
        frame,
        WalkView {
            fields: seq![typed_field("RawFrame"@, hex_upper(frame), "hex"@)],
            byte_counter: 0,
            header_type: 0,
        },
    );
    if headers.byte_counter >= frame.len() {
        headers.fields
    } else {
        classes_walk(classes.cmd_class@, frame.skip(headers.byte_counter), headers.fields)
    }
}

/// Why a text cannot be parsed as a frame.
#[derive(Debug, Clone, Copy, PartialEq, Eq, Structural)]
pub enum ZwParseError {
    /// The text is not made of hexadecimal digits, an even number of them.
    InvalidHex,
}

/// Width in bits that a text of the schema gives; 0 where it gives none.
pub fn parse_bits(text: &str) -> (width: usize)
    ensures
        width == bits_of(text@),
{
    match parse_decimal_usize(text) {
        Some(n) => n,
        None => 0,
    }
}

/// The bit field of `width` bits at `offset` in a byte.
pub fn extract_bit_field(byte: u8, offset: usize, width: usize) -> (value: u8)
    ensures
        value == bit_field(byte, offset as int, width as int),
{
    if offset >= 8 {
        0
    } else if width >= 8 {
        byte >> (offset as u8)
    } else {
        let shift = width as u8;
        assert((1u8 << shift) >= 1) by (bit_vector)
            requires
                shift < 8,
        ;
        (byte >> (offset as u8)) & ((1u8 << shift) - 1)
    }
}

/// Walks the bit fields of a byte.
pub fn walk_sub_params(subs: &Vec<BaseHeaderParamParam>, byte: u8, walk: Walk) -> (after: Walk)
    ensures
        after@ == sub_params_walk(subs@, byte, 0, walk@),
{
    let mut cur = walk;
    let ghost mut offset: int = 0;
    let mut capped: usize = 0;
    let mut i: usize = 0;
    assert(subs@.skip(0) =~= subs@);
    while i < subs.len()
        invariant
            i <= subs@.len(),
            capped <= 8,
            offset >= 0,
            capped == (if offset >= 8 {
                8
            } else {
                offset
            }),
            sub_params_walk(subs@, byte, 0, walk@) == sub_params_walk(
                subs@.skip(i as int),
                byte,
                offset,
                cur@,
            ),
        decreases subs@.len() - i,
    {
        let sub = &subs[i];
        proof {
            assert(subs@.skip(i as int).skip(1) =~= subs@.skip(i + 1));
        }
        let width = parse_bits(sub.bits.as_str());
        if width != 0 {
            let value = extract_bit_field(byte, capped, width);
            cur.frame.add_field(
                sub.name.clone(),
                format_hex_byte(value),
                Some(format_bits(sub.bits.as_str())),
            );
            if same_text(sub.name.as_str(), "HeaderType") {
                cur.header_type = value;
            }
            capped = if width >= 8 - capped {
                8
            } else {
                capped + width
            };
            proof {
                offset = offset + width;
            }
        }
        i += 1;
    }
    cur
}

/// Walks the parameters of a base header over a frame.
pub fn walk_base_params(
    params: &Vec<FrameDefinitionBaseHeaderParam>,
    frame: &[u8],
    walk: Walk,
) -> (after: Walk)
    ensures
        after@ == base_params_walk(params@, frame@, walk@),
        walk.byte_counter <= frame@.len() ==> after.byte_counter <= frame@.len(),
{
    let mut cur = walk;
    let mut i: usize = 0;
    assert(params@.skip(0) =~= params@);
    while i < params.len()
        invariant
            i <= params@.len(),
            walk.byte_counter <= frame@.len() ==> cur.byte_counter <= frame@.len(),
            base_params_walk(params@, frame@, walk@) == base_params_walk(
                params@.skip(i as int),
                frame@,
                cur@,
            ),
        decreases params@.len() - i,
    {
        let param = &params[i];
        proof {
            assert(params@.skip(i as int).skip(1) =~= params@.skip(i + 1));
        }
        let width = parse_bits(param.bits.as_str());
        if width != 0 {
            let size = width / 8;
            if cur.byte_counter > frame.len() || size > frame.len() - cur.byte_counter {
                return cur;
            }
            let end = cur.byte_counter + size;
            let value = slice_subrange(frame, cur.byte_counter, end);
            match &param.param {
                None => {
                    cur.frame.add_field(
                        param.name.clone(),
                        encode_hex_upper(value),
                        Some(format_bits(param.bits.as_str())),
                    );
                },
                Some(subs) => {
                    if value.len() != 0 {
                        cur = walk_sub_params(subs, value[0], cur);
                    }
                },
            }
            cur.byte_counter = end;
        }
        i += 1;
    }
    cur
}

fn lookup_define(defines: &Vec<Define>, id: u8) -> (name: Option<String>)
    ensures
        name is Some <==> defines_lookup(defines@, id) is Some,
        name matches Some(n) ==> Some(n@) == defines_lookup(defines@, id),
{
    let mut i: usize = 0;
    assert(defines@.skip(0) =~= defines@);
    while i < defines.len()
        invariant
            i <= defines@.len(),
            defines_lookup(defines@, id) == defines_lookup(defines@.skip(i as int), id),
        decreases defines@.len() - i,
    {
        proof {
            assert(defines@.skip(i as int).skip(1) =~= defines@.skip(i + 1));
        }
        match parse_key(defines[i].key.as_str()) {
            None => {
                return Some("Unknown".to_owned());
            },
            Some(key) => {
                if key == id {
                    return Some(defines[i].name.clone());
                }
            },
        }
        i += 1;
    }
    None
}

/// The name of a header type.
pub fn lookup_header_type_name(sets: &Vec<DefineSet>, id: u8) -> (name: String)
    ensures
        name@ == header_type_name(sets@, id),
{
    let mut i: usize = 0;
    assert(sets@.skip(0) =~= sets@);
    while i < sets.len()
        invariant
            i <= sets@.len(),
            header_type_name(sets@, id) == header_type_name(sets@.skip(i as int), id),
        decreases sets@.len() - i,
    {
        proof {
            assert(sets@.skip(i as int).skip(1) =~= sets@.skip(i + 1));
        }
        if same_text(sets[i].name.as_str(), "HeaderType") {
            match lookup_define(&sets[i].define, id) {
                Some(name) => {
                    return name;
                },
                None => {},
            }
        }
        i += 1;
    }
    "Unknown".to_owned()
}

/// Walks the parameters of a header over a frame.
pub fn walk_header_params(
    params: &Vec<FrameDefinitionHeaderParam>,
    frame: &[u8],
    walk: Walk,
) -> (after: Walk)
    ensures
        after@ == header_params_walk(params@, frame@, walk@),
        walk.byte_counter <= frame@.len() ==> after.byte_counter <= frame@.len(),
{
    let mut cur = walk;
    let mut i: usize = 0;
    assert(params@.skip(0) =~= params@);
    while i < params.len()
        invariant
            i <= params@.len(),
            walk.byte_counter <= frame@.len() ==> cur.byte_counter <= frame@.len(),
            header_params_walk(params@, frame@, walk@) == header_params_walk(
                params@.skip(i as int),
                frame@,
                cur@,
            ),
        decreases params@.len() - i,
    {
        let param = &params[i];
        proof {
            assert(params@.skip(i as int).skip(1) =~= params@.skip(i + 1));
        }
        let width = parse_bits(param.bits.as_str());
        if width != 0 {
            let size = width / 8;
            if cur.byte_counter > frame.len() || size > frame.len() - cur.byte_counter {
                return cur;
            }
            let end = cur.byte_counter + size;
            cur.frame.add_field(
                param.param_text.clone(),
                encode_hex_upper(slice_subrange(frame, cur.byte_counter, end)),
                Some(format_bits(param.bits.as_str())),
            );
            cur.byte_counter = end;
        }
        i += 1;
    }
    cur
}

/// Walks the headers named `name` over a frame.
pub fn walk_headers(headers: &Vec<Header>, name: &str, frame: &[u8], walk: Walk) -> (after: Walk)
    ensures
        after@ == headers_walk(headers@, name@, frame@, walk@),
        walk.byte_counter <= frame@.len() ==> after.byte_counter <= frame@.len(),
{
    let mut cur = walk;
    let mut i: usize = 0;
    assert(headers@.skip(0) =~= headers@);
    while i < headers.len()
        invariant
            i <= headers@.len(),
            walk.byte_counter <= frame@.len() ==> cur.byte_counter <= frame@.len(),
            headers_walk(headers@, name@, frame@, walk@) == headers_walk(
                headers@.skip(i as int),
                name@,
                frame@,
                cur@,
            ),
        decreases headers@.len() - i,
    {
        proof {
            assert(headers@.skip(i as int).skip(1) =~= headers@.skip(i + 1));
        }
        if same_text(headers[i].name.as_str(), name) {
            cur = walk_header_params(&headers[i].param, frame, cur);
        }
        i += 1;
    }
    cur
}

/// Walks the headers of a header type over a frame, given the upper-case
/// name of the header type.
pub fn walk_typed_headers(headers: &Vec<Header>, upper: &str, frame: &[u8], walk: Walk) -> (after:
    Walk)
    ensures
        after@ == typed_headers_walk(headers@, upper@, frame@, walk@),
        walk.byte_counter <= frame@.len() ==> after.byte_counter <= frame@.len(),
{
    let mut named = walk;
    named.frame.add_field(
        "HeaderTypeName".to_owned(),
        upper.to_owned(),
        Some("string".to_owned()),
    );
    walk_headers(headers, upper, frame, named)
}

/// Walks one base header over a frame.
pub fn walk_base_header(
    definition: &FrameDefinition,
    base: &BaseHeader,
    frame: &[u8],
    walk: Walk,
) -> (after: Walk)
    ensures
        after@ == base_header_walk(*definition, *base, frame@, walk@),
        walk.byte_counter <= frame@.len() ==> after.byte_counter <= frame@.len(),
{
    let mut named = walk;
    named.frame.add_field("HeaderName".to_owned(), base.name.clone(), Some("string".to_owned()));
    let based = walk_base_params(&base.param, frame, named);
    let name = lookup_header_type_name(&definition.define_set, based.header_type);
    let upper = to_uppercase(name.as_str());
    walk_typed_headers(&definition.header, upper.as_str(), frame, based)
}

/// Walks the base headers with key `0` over a frame.
pub fn walk_base_headers(definition: &FrameDefinition, frame: &[u8], walk: Walk) -> (after: Walk)
    ensures
        after@ == base_headers_walk(*definition, definition.base_header@, frame@, walk@),
        walk.byte_counter <= frame@.len() ==> after.byte_counter <= frame@.len(),
{
    let mut cur = walk;
    let bases = &definition.base_header;
    let mut i: usize = 0;
    assert(bases@.skip(0) =~= bases@);
    while i < bases.len()
        invariant
            i <= bases@.len(),
            bases == &definition.base_header,
            walk.byte_counter <= frame@.len() ==> cur.byte_counter <= frame@.len(),
            base_headers_walk(*definition, bases@, frame@, walk@) == base_headers_walk(
                *definition,
                bases@.skip(i as int),
                frame@,
                cur@,
            ),
        decreases bases@.len() - i,
    {
        proof {
            assert(bases@.skip(i as int).skip(1) =~= bases@.skip(i + 1));
        }
        if same_text(bases[i].key.as_str(), "0") {
            cur = walk_base_header(definition, &bases[i], frame, cur);
        }
        i += 1;
    }
    cur
}

/// Walks the children of a command over a payload, from its third byte on.
pub fn walk_children(children: &Vec<CmdClassCmdChild>, payload: &[u8], frame: ParsedFrame) -> (after:
    ParsedFrame)
    ensures
        after@ == children_walk(children@, payload@, 2, frame@),
{
    let mut cur = frame;
    let mut at: usize = 2;
    let mut i: usize = 0;
    assert(children@.skip(0) =~= children@);
    while i < children.len()
        invariant
            i <= children@.len(),
            2 <= at <= i + 2,
            children_walk(children@, payload@, 2, frame@) == children_walk(
                children@.skip(i as int),
                payload@,
                at as int,
                cur@,
            ),
        decreases children@.len() - i,
    {
        proof {
            assert(children@.skip(i as int).skip(1) =~= children@.skip(i + 1));
        }
        if at >= payload.len() {
            return cur;
        }
        match &children[i] {
            CmdClassCmdChild::Param(p) => {
                if same_text(p.param_type.as_str(), "BYTE") {
                    cur.add_field(
                        p.name.clone(),
                        format_hex_byte(payload[at]),
                        Some("BYTE".to_owned()),
                    );
                    at += 1;
                }
            },
            CmdClassCmdChild::VariantGroup(group) => {
                cur.add_field(
                    "VariantGroup_".to_owned().concat(group.name.as_str()),
                    "present".to_owned(),
                    Some("group".to_owned()),
                );
            },
        }
        i += 1;
    }
    cur
}

/// Walks the commands of a command class over a payload.
pub fn walk_commands(cmds: &Vec<Cmd>, payload: &[u8], frame: ParsedFrame) -> (after: ParsedFrame)
    ensures
        after@ == commands_walk(cmds@, payload@, frame@),
{
    let mut cur = frame;
    if payload.len() < 2 {
        return cur;
    }
    let mut i: usize = 0;
    assert(cmds@.skip(0) =~= cmds@);
    while i < cmds.len()
        invariant
            i <= cmds@.len(),
            payload@.len() >= 2,
            commands_walk(cmds@, payload@, frame@) == commands_walk(
                cmds@.skip(i as int),
                payload@,
                cur@,
            ),
        decreases cmds@.len() - i,
    {
        proof {
            assert(cmds@.skip(i as int).skip(1) =~= cmds@.skip(i + 1));
        }
        let cmd = &cmds[i];
        match parse_key(cmd.key.as_str()) {
            Some(id) => {
                if id == payload[1] {
                    cur.add_field(
                        "Command".to_owned(),
                        cmd.help.clone(),
                        Some(format_hex_byte(id)),
                    );
                    match &cmd.children {
                        None => {},
                        Some(children) => {
                            cur = walk_children(children, payload, cur);
                        },
                    }
                }
            },
            None => {},
        }
        i += 1;
    }
    cur
}

/// Walks the command classes over a payload.
pub fn walk_classes(classes: &Vec<CmdClass>, payload: &[u8], frame: ParsedFrame) -> (after:
    ParsedFrame)
    ensures
        after@ == classes_walk(classes@, payload@, frame@),
{
    let mut cur = frame;
    if payload.len() == 0 {
        return cur;
    }
    let mut i: usize = 0;
    assert(classes@.skip(0) =~= classes@);
    while i < classes.len()
        invariant
            i <= classes@.len(),
            payload@.len() >= 1,
            cur@ == frame@,
            classes_walk(classes@, payload@, frame@) == classes_walk(
                classes@.skip(i as int),
                payload@,
                frame@,
            ),
        decreases classes@.len() - i,
    {
        proof {
            assert(classes@.skip(i as int).skip(1) =~= classes@.skip(i + 1));
        }
        let class = &classes[i];
        match parse_key(class.key.as_str()) {
            Some(cc) => {
                if cc == payload[0] {
                    cur.add_field(
                        "CommandClass".to_owned(),
                        class.help.clone(),
                        Some(format_hex_byte(cc)),
                    );
                    cur.add_field(
                        "CommandClassVersion".to_owned(),
                        class.version.clone(),
                        Some("string".to_owned()),
                    );
                    if payload.len() < 2 {
                        return cur;
                    }
                    match &class.cmd {
                        None => {
                            return cur;
                        },
                        Some(cmds) => {
                            return walk_commands(cmds, payload, cur);
                        },
                    }
                }
            },
            None => {},
        }
        i += 1;
    }
    cur
}

/// Parser of classic Z-Wave frames over a frame definition and a command
/// class catalog.
#[derive(Debug)]
pub struct ZwParser<'a> {
    fd: &'a FrameDefinition,
    zwc: &'a ZwClasses,
}

impl<'a> ZwParser<'a> {
    /// The frame definition that the parser walks.
    pub closed spec fn definition(&self) -> FrameDefinition {
        *self.fd
    }

    /// The command class catalog that the parser walks.
    pub closed spec fn classes(&self) -> ZwClasses {
        *self.zwc
    }

    /// A parser over a frame definition and a command class catalog.
    pub fn new(fd: &'a FrameDefinition, zwc: &'a ZwClasses) -> (parser: ZwParser<'a>)
        ensures
            parser.definition() == *fd,
            parser.classes() == *zwc,
    {
        ZwParser { fd, zwc }
    }

    /// Parses the bytes of a frame into fields.
    pub fn parse_bytes(&self, frame: &[u8]) -> (parsed: ParsedFrame)
        ensures
            parsed@ == parsed_frame_of(self.definition(), self.classes(), frame@),
    {
        let mut fields = ParsedFrame::new();
        fields.add_field("RawFrame".to_owned(), encode_hex_upper(frame), Some("hex".to_owned()));
        let walk = walk_base_headers(
            self.fd,
            frame,
            Walk { frame: fields, byte_counter: 0, header_type: 0 },
        );
        if walk.byte_counter >= frame.len() {
            return walk.frame;
        }
        let payload = slice_subrange(frame, walk.byte_counter, frame.len());
        walk_classes(&self.zwc.cmd_class, payload, walk.frame)
    }

    /// Parses a frame given as hexadecimal text into fields: an error
    /// exactly where the text is not made of hexadecimal digits, an even
    /// number of them.
    pub fn parse_str(&self, s: &str) -> (parsed: Result<ParsedFrame, ZwParseError>)
        ensures
            is_hex_text(s@) ==> parsed is Ok && parsed->Ok_0@ == parsed_frame_of(
                self.definition(),
                self.classes(),
                hex_bytes(s@),
            ),
            !is_hex_text(s@) ==> parsed == Err::<ParsedFrame, ZwParseError>(ZwParseError::InvalidHex),
    {
        match decode_hex(s) {
            Ok(frame) => Ok(self.parse_bytes(frame.as_slice())),
            Err(_) => Err(ZwParseError::InvalidHex),
        }
    }
}

} // verus!
