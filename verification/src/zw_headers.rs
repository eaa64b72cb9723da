//! Where the fields of the headers stand in a parsed frame.
//!
//! The parser walks the schema with a running byte offset and a running
//! bit offset. The statements here give the same fields by position: each
//! parameter at the sum of the widths before it.

use vstd::prelude::*;
use crate::frame_definition::BaseHeader;
use crate::frame_definition::BaseHeaderParamParam;
use crate::frame_definition::Define;
use crate::frame_definition::DefineSet;
use crate::frame_definition::FrameDefinition;
use crate::frame_definition::FrameDefinitionBaseHeaderParam;
use crate::frame_definition::FrameDefinitionHeaderParam;
use crate::frame_definition::Header;
use crate::text::hex_byte_text;
use crate::text::hex_upper;
use crate::text::key_value;
use crate::text::uppercase_of;
use crate::xml::ZwClasses;
use crate::xml_output::ParsedFieldView;
use crate::zw_parser::base_header_walk;
use crate::zw_parser::base_headers_walk;
use crate::zw_parser::base_params_walk;
use crate::zw_parser::bit_field;
use crate::zw_parser::bits_of;
use crate::zw_parser::classes_walk;
use crate::zw_parser::defines_lookup;
use crate::zw_parser::header_params_walk;
use crate::zw_parser::header_type_name;
use crate::zw_parser::headers_walk;
use crate::zw_parser::parsed_frame_of;
use crate::zw_parser::sub_params_walk;
use crate::zw_parser::typed_field;
use crate::zw_parser::typed_headers_walk;
use crate::zw_parser::WalkView;

verus! {

/// Bits that the bit fields before bit field `k` take.
pub open spec fn bits_before(subs: Seq<BaseHeaderParamParam>, k: int) -> int
    decreases k,
{
    if k <= 0 {
        0
    } else {
        bits_before(subs, k - 1) + bits_of(subs[k - 1].bits@)
    }
}

/// Value of bit field `k` of a byte: its bits stand behind the bits of
/// the bit fields before it, counted from the least significant bit.
pub open spec fn bit_field_value(subs: Seq<BaseHeaderParamParam>, byte: u8, k: int) -> u8 {
    bit_field(byte, bits_before(subs, k), bits_of(subs[k].bits@))
}

/// The field of bit field `k` of a byte.
pub open spec fn bit_field_entry(subs: Seq<BaseHeaderParamParam>, byte: u8, k: int) -> ParsedFieldView {
    typed_field(subs[k].name@, hex_byte_text(bit_field_value(subs, byte, k)), subs[k].bits@ + " bits"@)
}

/// The fields of the bit fields from `from` on, in schema order: one for
/// each bit field of a width other than 0.
pub open spec fn bit_field_entries(subs: Seq<BaseHeaderParamParam>, byte: u8, from: int) -> Seq<
    ParsedFieldView,
>
    decreases subs.len() - from,
{
    if from < 0 || from >= subs.len() {
        Seq::empty()
    } else if bits_of(subs[from].bits@) == 0 {
        bit_field_entries(subs, byte, from + 1)
    } else {
        seq![bit_field_entry(subs, byte, from)] + bit_field_entries(subs, byte, from + 1)
    }
}

/// The header type after the bit fields from `from` on: the value of the
/// last bit field named `HeaderType` among them, `current` where there
/// is none.
pub open spec fn header_type_among(
    subs: Seq<BaseHeaderParamParam>,
    byte: u8,
    from: int,
    current: u8,
) -> u8
    decreases subs.len() - from,
{
    if from < 0 || from >= subs.len() {
        current
    } else if bits_of(subs[from].bits@) != 0 && subs[from].name@ == "HeaderType"@ {
        header_type_among(subs, byte, from + 1, bit_field_value(subs, byte, from))
    } else {
        header_type_among(subs, byte, from + 1, current)
    }
}

/// The walk over bit fields gives the fields by position: the walk over
/// the bit fields from `from` on, at the bit offset that the bit fields
/// before them take, adds the fields of those bit fields and sets the
/// header type among them.
pub proof fn lemma_bit_fields_by_position(
    subs: Seq<BaseHeaderParamParam>,
    byte: u8,
    from: int,
    walk: WalkView,
)
    requires
        0 <= from <= subs.len(),
    ensures
        sub_params_walk(subs.skip(from), byte, bits_before(subs, from), walk) == (WalkView {
            fields: walk.fields + bit_field_entries(subs, byte, from),
            header_type: header_type_among(subs, byte, from, walk.header_type),
            ..walk
        }),
    decreases subs.len() - from,
{
    if from == subs.len() {
        assert(walk.fields + bit_field_entries(subs, byte, from) =~= walk.fields);
    } else {
        let rest = subs.skip(from);
        assert(rest[0] == subs[from]);
        assert(rest.skip(1) =~= subs.skip(from + 1));
        let width = bits_of(subs[from].bits@);
        assert(bits_before(subs, from + 1) == bits_before(subs, from) + width);
        if width == 0 {
            lemma_bit_fields_by_position(subs, byte, from + 1, walk);
        } else {
            let entry = bit_field_entry(subs, byte, from);
            let next = WalkView {
                fields: walk.fields.push(entry),
                header_type: if subs[from].name@ == "HeaderType"@ {
                    bit_field_value(subs, byte, from)
                } else {
                    walk.header_type
                },
                ..walk
            };
            lemma_bit_fields_by_position(subs, byte, from + 1, next);
            assert(walk.fields.push(entry) + bit_field_entries(subs, byte, from + 1)
                =~= walk.fields + (seq![entry] + bit_field_entries(subs, byte, from + 1)));
        }
    }
}

/// Bytes that the parameters before parameter `k` of a base header take.
pub open spec fn base_bytes_before(params: Seq<FrameDefinitionBaseHeaderParam>, k: int) -> int
    decreases k,
{
    if k <= 0 {
        0
    } else {
        base_bytes_before(params, k - 1) + bits_of(params[k - 1].bits@) / 8
    }
}

/// The fields of a parameter of a base header whose bytes start at `at`:
/// none for a width of 0; the bytes in hexadecimal for a parameter without
/// bit fields; the fields of the bit fields of its first byte otherwise.
pub open spec fn base_param_entries(
    param: FrameDefinitionBaseHeaderParam,
    frame: Seq<u8>,
    at: int,
) -> Seq<ParsedFieldView> {
    let width = bits_of(param.bits@);
    if width == 0 {
        Seq::empty()
    } else {
        match param.param {
            None => seq![
                typed_field(
                    param.name@,
                    hex_upper(frame.subrange(at, at + width / 8)),
                    param.bits@ + " bits"@,
                ),
            ],
            Some(subs) => if width / 8 == 0 {
                Seq::empty()
            } else {
                bit_field_entries(subs@, frame[at], 0)
            },
        }
    }
}

/// The header type after a parameter of a base header whose bytes start
/// at `at`.
pub open spec fn base_param_header_type(
    param: FrameDefinitionBaseHeaderParam,
    frame: Seq<u8>,
    at: int,
    current: u8,
) -> u8 {
    match param.param {
        Some(subs) => if bits_of(param.bits@) / 8 == 0 {
            current
        } else {
            header_type_among(subs@, frame[at], 0, current)
        },
        None => current,
    }
}

/// The fields of the parameters of a base header from `from` on, in
/// schema order, where the first parameter starts at `start`: each
/// parameter stands behind the bytes of the parameters before it.
pub open spec fn base_entries(
    params: Seq<FrameDefinitionBaseHeaderParam>,
    frame: Seq<u8>,
    start: int,
    from: int,
) -> Seq<ParsedFieldView>
    decreases params.len() - from,
{
    if from < 0 || from >= params.len() {
        Seq::empty()
    } else {
        base_param_entries(params[from], frame, start + base_bytes_before(params, from))
            + base_entries(params, frame, start, from + 1)
    }
}

/// The header type after the parameters of a base header from `from` on.
pub open spec fn base_header_type(
    params: Seq<FrameDefinitionBaseHeaderParam>,
    frame: Seq<u8>,
    start: int,
    from: int,
    current: u8,
) -> u8
    decreases params.len() - from,
{
    if from < 0 || from >= params.len() {
        current
    } else {
        base_header_type(
            params,
            frame,
            start,
            from + 1,
            base_param_header_type(
                params[from],
                frame,
                start + base_bytes_before(params, from),
                current,
            ),
        )
    }
}

/// The bytes before a parameter are at most the bytes before a later one.
pub proof fn lemma_base_bytes_grow(params: Seq<FrameDefinitionBaseHeaderParam>, i: int, j: int)
    requires
        0 <= i <= j,
    ensures
        0 <= base_bytes_before(params, i) <= base_bytes_before(params, j),
    decreases j,
{
    if j > 0 {
        if i < j {
            lemma_base_bytes_grow(params, i, j - 1);
        } else {
            lemma_base_bytes_grow(params, i - 1, j - 1);
        }
    }
}

/// The walk over the parameters of a base header gives the fields by
/// position, where the frame has the bytes of all of them: the walk adds
/// the field of each parameter, read at the sum of the widths before it,
/// and ends behind the last.
pub proof fn lemma_base_params_by_position(
    params: Seq<FrameDefinitionBaseHeaderParam>,
    frame: Seq<u8>,
    start: int,
    from: int,
    walk: WalkView,
)
    requires
        0 <= from <= params.len(),
        0 <= start,
        walk.byte_counter == start + base_bytes_before(params, from),
        start + base_bytes_before(params, params.len() as int) <= frame.len(),
    ensures
        base_params_walk(params.skip(from), frame, walk) == (WalkView {
            fields: walk.fields + base_entries(params, frame, start, from),
            byte_counter: start + base_bytes_before(params, params.len() as int),
            header_type: base_header_type(params, frame, start, from, walk.header_type),
        }),
    decreases params.len() - from,
{
    if from == params.len() {
        assert(walk.fields + base_entries(params, frame, start, from) =~= walk.fields);
    } else {
        let rest = params.skip(from);
        assert(rest[0] == params[from]);
        assert(rest.skip(1) =~= params.skip(from + 1));
        let width = bits_of(params[from].bits@);
        let at = walk.byte_counter;
        let end = at + width / 8;
        assert(base_bytes_before(params, from + 1) == base_bytes_before(params, from) + width / 8);
        lemma_base_bytes_grow(params, from + 1, params.len() as int);
        lemma_base_bytes_grow(params, from, from);
        let entries = base_param_entries(params[from], frame, at);
        if width == 0 {
            lemma_base_params_by_position(params, frame, start, from + 1, walk);
            assert(walk.fields + (entries + base_entries(params, frame, start, from + 1))
                =~= walk.fields + base_entries(params, frame, start, from + 1));
        } else {
            let value = frame.subrange(at, end);
            match params[from].param {
                None => {},
                Some(subs) => {
                    if value.len() != 0 {
                        assert(value[0] == frame[at]);
                        assert(subs@.skip(0) =~= subs@);
                        lemma_bit_fields_by_position(subs@, frame[at], 0, walk);
                    }
                },
            }
            let found = WalkView {
                fields: walk.fields + entries,
                byte_counter: end,
                header_type: base_param_header_type(params[from], frame, at, walk.header_type),
            };
            assert(walk.fields + entries =~= match params[from].param {
                None => walk.fields.push(entries[0]),
                Some(subs) => walk.fields + entries,
            });
            lemma_base_params_by_position(params, frame, start, from + 1, found);
            assert((walk.fields + entries) + base_entries(params, frame, start, from + 1)
                =~= walk.fields + (entries + base_entries(params, frame, start, from + 1)));
        }
    }
}

/// Bytes that the parameters before parameter `k` of a header take.
pub open spec fn header_bytes_before(params: Seq<FrameDefinitionHeaderParam>, k: int) -> int
    decreases k,
{
    if k <= 0 {
        0
    } else {
        header_bytes_before(params, k - 1) + bits_of(params[k - 1].bits@) / 8
    }
}

/// The fields of the parameters of a header from `from` on, in schema
/// order, where the first parameter starts at `start`: one for each
/// parameter of a width other than 0, with the bytes that stand behind
/// the bytes of the parameters before it.
pub open spec fn header_entries(
    params: Seq<FrameDefinitionHeaderParam>,
    frame: Seq<u8>,
    start: int,
    from: int,
) -> Seq<ParsedFieldView>
    decreases params.len() - from,
{
    if from < 0 || from >= params.len() {
        Seq::empty()
    } else if bits_of(params[from].bits@) == 0 {
        header_entries(params, frame, start, from + 1)
    } else {
        seq![
            typed_field(
                params[from].param_text@,
                hex_upper(
                    frame.subrange(
                        start + header_bytes_before(params, from),
                        start + header_bytes_before(params, from + 1),
                    ),
                ),
                params[from].bits@ + " bits"@,
            ),
        ] + header_entries(params, frame, start, from + 1)
    }
}

/// The bytes before a parameter are at most the bytes before a later one.
pub proof fn lemma_header_bytes_grow(params: Seq<FrameDefinitionHeaderParam>, i: int, j: int)
    requires
        0 <= i <= j,
    ensures
        0 <= header_bytes_before(params, i) <= header_bytes_before(params, j),
    decreases j,
{
    if j > 0 {
        if i < j {
            lemma_header_bytes_grow(params, i, j - 1);
        } else {
            lemma_header_bytes_grow(params, i - 1, j - 1);
        }
    }
}

/// The walk over the parameters of a header gives the fields by position,
/// where the frame has the bytes of all of them: the walk adds the field
/// of each parameter, read at the sum of the widths before it, and ends
/// behind the last; the cursor has moved by the sum of all widths.
pub proof fn lemma_header_params_by_position(
    params: Seq<FrameDefinitionHeaderParam>,
    frame: Seq<u8>,
    start: int,
    from: int,
    walk: WalkView,
)
    requires
        0 <= from <= params.len(),
        0 <= start,
        walk.byte_counter == start + header_bytes_before(params, from),
        start + header_bytes_before(params, params.len() as int) <= frame.len(),
    ensures
        header_params_walk(params.skip(from), frame, walk) == (WalkView {
            fields: walk.fields + header_entries(params, frame, start, from),
            byte_counter: start + header_bytes_before(params, params.len() as int),
            ..walk
        }),
    decreases params.len() - from,
{
    if from == params.len() {
        assert(walk.fields + header_entries(params, frame, start, from) =~= walk.fields);
    } else {
        let rest = params.skip(from);
        assert(rest[0] == params[from]);
        assert(rest.skip(1) =~= params.skip(from + 1));
        let width = bits_of(params[from].bits@);
        assert(header_bytes_before(params, from + 1) == header_bytes_before(params, from) + width
            / 8);
        lemma_header_bytes_grow(params, from + 1, params.len() as int);
        lemma_header_bytes_grow(params, from, from);
        if width == 0 {
            lemma_header_params_by_position(params, frame, start, from + 1, walk);
        } else {
            let entry = typed_field(
                params[from].param_text@,
                hex_upper(frame.subrange(walk.byte_counter, walk.byte_counter + width / 8)),
                params[from].bits@ + " bits"@,
            );
            let found = WalkView {
                fields: walk.fields.push(entry),
                byte_counter: walk.byte_counter + width / 8,
                ..walk
            };
            lemma_header_params_by_position(params, frame, start, from + 1, found);
            assert(walk.fields.push(entry) + header_entries(params, frame, start, from + 1)
                =~= walk.fields + (seq![entry] + header_entries(params, frame, start, from + 1)));
        }
    }
}

/// Where one header alone has the name, the walk over the headers is the
/// walk over the parameters of that header.
pub proof fn lemma_one_header_of_the_name(
    headers: Seq<Header>,
    name: Seq<char>,
    frame: Seq<u8>,
    walk: WalkView,
    k: int,
)
    requires
        0 <= k < headers.len(),
        headers[k].name@ == name,
        forall|j: int| 0 <= j < headers.len() && j != k ==> (#[trigger] headers[j]).name@ != name,
    ensures
        headers_walk(headers, name, frame, walk) == header_params_walk(
            headers[k].param@,
            frame,
            walk,
        ),
    decreases headers.len(),
{
    let rest = headers.skip(1);
    if k == 0 {
        lemma_no_header_of_the_name(rest, name, frame, header_params_walk(
            headers[0].param@,
            frame,
            walk,
        ));
    } else {
        assert(headers[0].name@ != name);
        assert(rest[k - 1] == headers[k]);
        assert forall|j: int| 0 <= j < rest.len() && j != k - 1 implies (#[trigger] rest[j]).name@
            != name by {
            assert(rest[j] == headers[j + 1]);
        }
        lemma_one_header_of_the_name(rest, name, frame, walk, k - 1);
    }
}

/// Where no header has the name, the walk over the headers adds nothing.
pub proof fn lemma_no_header_of_the_name(
    headers: Seq<Header>,
    name: Seq<char>,
    frame: Seq<u8>,
    walk: WalkView,
)
    requires
        forall|j: int| 0 <= j < headers.len() ==> (#[trigger] headers[j]).name@ != name,
    ensures
        headers_walk(headers, name, frame, walk) == walk,
    decreases headers.len(),
{
    if headers.len() > 0 {
        let rest = headers.skip(1);
        assert(headers[0].name@ != name);
        assert forall|j: int| 0 <= j < rest.len() implies (#[trigger] rest[j]).name@ != name by {
            assert(rest[j] == headers[j + 1]);
        }
        lemma_no_header_of_the_name(rest, name, frame, walk);
    }
}

/// Where no base header has the key `0`, the walk over the base headers
/// adds nothing.
pub proof fn lemma_no_classic_base_header(
    definition: FrameDefinition,
    bases: Seq<BaseHeader>,
    frame: Seq<u8>,
    walk: WalkView,
)
    requires
        forall|j: int| 0 <= j < bases.len() ==> (#[trigger] bases[j]).key@ != "0"@,
    ensures
        base_headers_walk(definition, bases, frame, walk) == walk,
    decreases bases.len(),
{
    if bases.len() > 0 {
        let rest = bases.skip(1);
        assert(bases[0].key@ != "0"@);
        assert forall|j: int| 0 <= j < rest.len() implies (#[trigger] rest[j]).key@ != "0"@ by {
            assert(rest[j] == bases[j + 1]);
        }
        lemma_no_classic_base_header(definition, rest, frame, walk);
    }
}

/// Where one base header alone has the key `0`, the walk over the base
/// headers is the walk over that base header.
pub proof fn lemma_one_classic_base_header(
    definition: FrameDefinition,
    bases: Seq<BaseHeader>,
    frame: Seq<u8>,
    walk: WalkView,
    b: int,
)
    requires
        0 <= b < bases.len(),
        bases[b].key@ == "0"@,
        forall|j: int| 0 <= j < bases.len() && j != b ==> (#[trigger] bases[j]).key@ != "0"@,
    ensures
        base_headers_walk(definition, bases, frame, walk) == base_header_walk(
            definition,
            bases[b],
            frame,
            walk,
        ),
    decreases bases.len(),
{
    let rest = bases.skip(1);
    if b == 0 {
        lemma_no_classic_base_header(definition, rest, frame, base_header_walk(
            definition,
            bases[0],
            frame,
            walk,
        ));
    } else {
        assert(bases[0].key@ != "0"@);
        assert(rest[b - 1] == bases[b]);
        assert forall|j: int| 0 <= j < rest.len() && j != b - 1 implies (#[trigger] rest[j]).key@
            != "0"@ by {
            assert(rest[j] == bases[j + 1]);
        }
        lemma_one_classic_base_header(definition, rest, frame, walk, b - 1);
    }
}

/// The defines give a header type the name of the first define with its
/// key, where the keys before it are numbers.
pub proof fn lemma_define_found(defines: Seq<Define>, id: u8, d: int)
    requires
        0 <= d < defines.len(),
        key_value(defines[d].key@) == Some(id),
        forall|j: int|
            0 <= j < d ==> key_value((#[trigger] defines[j]).key@) is Some && key_value(
                defines[j].key@,
            ) != Some(id),
    ensures
        defines_lookup(defines, id) == Some(defines[d].name@),
    decreases defines.len(),
{
    if d > 0 {
        let rest = defines.skip(1);
        assert(key_value(defines[0].key@) is Some && key_value(defines[0].key@) != Some(id));
        assert(rest[d - 1] == defines[d]);
        assert forall|j: int| 0 <= j < d - 1 implies key_value((#[trigger] rest[j]).key@) is Some
            && key_value(rest[j].key@) != Some(id) by {
            assert(rest[j] == defines[j + 1]);
        }
        lemma_define_found(rest, id, d - 1);
    }
}

/// The name of a header type is that of the first define with its key in
/// the first define-set named `HeaderType`, where the keys before it are
/// numbers.
pub proof fn lemma_header_type_named(sets: Seq<DefineSet>, id: u8, s: int, d: int)
    requires
        0 <= s < sets.len(),
        sets[s].name@ == "HeaderType"@,
        forall|j: int| 0 <= j < s ==> (#[trigger] sets[j]).name@ != "HeaderType"@,
        0 <= d < sets[s].define@.len(),
        key_value(sets[s].define@[d].key@) == Some(id),
        forall|j: int|
            0 <= j < d ==> key_value((#[trigger] sets[s].define@[j]).key@) is Some && key_value(
                sets[s].define@[j].key@,
            ) != Some(id),
    ensures
        header_type_name(sets, id) == sets[s].define@[d].name@,
    decreases sets.len(),
{
    if s == 0 {
        lemma_define_found(sets[0].define@, id, d);
    } else {
        let rest = sets.skip(1);
        assert(sets[0].name@ != "HeaderType"@);
        assert(rest[s - 1] == sets[s]);
        assert forall|j: int| 0 <= j < s - 1 implies (#[trigger] rest[j]).name@ != "HeaderType"@ by {
            assert(rest[j] == sets[j + 1]);
        }
        lemma_header_type_named(rest, id, s - 1, d);
    }
}

/// The header type that the parameters of a base header give a frame.
pub open spec fn classic_header_type(base: BaseHeader, frame: Seq<u8>) -> u8 {
    base_header_type(base.param@, frame, 0, 0, 0)
}

/// Bytes that the parameters of a base header take.
pub open spec fn base_size(base: BaseHeader) -> int {
    base_bytes_before(base.param@, base.param@.len() as int)
}

/// Bytes that the parameters of a header take.
pub open spec fn header_size(header: Header) -> int {
    header_bytes_before(header.param@, header.param@.len() as int)
}

/// The fields of the headers of a classic frame, by position: the raw
/// frame; the name of the base header and the fields of its parameters,
/// from byte 0 on; the upper-case name of the header type and the fields
/// of the parameters of the header, straight behind the base header.
pub open spec fn classic_header_fields(
    base: BaseHeader,
    header: Header,
    upper: Seq<char>,
    frame: Seq<u8>,
) -> Seq<ParsedFieldView> {
    seq![
        typed_field("RawFrame"@, hex_upper(frame), "hex"@),
        typed_field("HeaderName"@, base.name@, "string"@),
    ] + base_entries(base.param@, frame, 0, 0) + seq![
        typed_field("HeaderTypeName"@, upper, "string"@),
    ] + header_entries(header.param@, frame, base_size(base), 0)
}

/// The headers of a classic frame by position.
///
/// Let one base header alone have the key `0`, let one header alone have
/// the upper-case name of the header type that the base header gives the
/// frame, and let the frame have the bytes of the parameters of both.
/// Then the parsed frame starts with the fields of the headers by
/// position, the byte cursor ends at the sum of all the widths, and the
/// bytes from there on are walked as the command class.
pub proof fn lemma_classic_frame_by_position(
    definition: FrameDefinition,
    classes: ZwClasses,
    frame: Seq<u8>,
    b: int,
    k: int,
)
    requires
        0 <= b < definition.base_header@.len(),
        definition.base_header@[b].key@ == "0"@,
        forall|j: int|
            0 <= j < definition.base_header@.len() && j != b ==> (
            #[trigger] definition.base_header@[j]).key@ != "0"@,
        0 <= k < definition.header@.len(),
        definition.header@[k].name@ == uppercase_of(
            header_type_name(
                definition.define_set@,
                classic_header_type(definition.base_header@[b], frame),
            ),
        ),
        forall|j: int|
            0 <= j < definition.header@.len() && j != k ==> (#[trigger] definition.header@[j]).name@
                != definition.header@[k].name@,
        base_size(definition.base_header@[b]) + header_size(definition.header@[k]) <= frame.len(),
    ensures
        base_headers_walk(
            definition,
            definition.base_header@,
            frame,
            WalkView {
                fields: seq![typed_field("RawFrame"@, hex_upper(frame), "hex"@)],
                byte_counter: 0,
                header_type: 0,
            },
        ) == (WalkView {
            fields: classic_header_fields(
                definition.base_header@[b],
                definition.header@[k],
                definition.header@[k].name@,
                frame,
            ),
            byte_counter: base_size(definition.base_header@[b]) + header_size(
                definition.header@[k],
            ),
            header_type: classic_header_type(definition.base_header@[b], frame),
        }),
        parsed_frame_of(definition, classes, frame) == ({
            let fields = classic_header_fields(
                definition.base_header@[b],
                definition.header@[k],
                definition.header@[k].name@,
                frame,
            );
            let cursor = base_size(definition.base_header@[b]) + header_size(
                definition.header@[k],
            );
            if cursor >= frame.len() {
                fields
            } else {
                classes_walk(classes.cmd_class@, frame.skip(cursor), fields)
            }
        }),
{
    let base = definition.base_header@[b];
    let header = definition.header@[k];
    let upper = header.name@;
    let raw = typed_field("RawFrame"@, hex_upper(frame), "hex"@);
    let start = WalkView { fields: seq![raw], byte_counter: 0, header_type: 0 };
    let named = WalkView {
        fields: start.fields.push(typed_field("HeaderName"@, base.name@, "string"@)),
        ..start
    };
    lemma_header_bytes_grow(header.param@, 0, header.param@.len() as int);
    lemma_base_bytes_grow(base.param@, 0, base.param@.len() as int);
    lemma_one_classic_base_header(definition, definition.base_header@, frame, start, b);
    assert(base.param@.skip(0) =~= base.param@);
    lemma_base_params_by_position(base.param@, frame, 0, 0, named);
    let based = base_params_walk(base.param@, frame, named);
    let typed = WalkView {
        fields: based.fields.push(typed_field("HeaderTypeName"@, upper, "string"@)),
        ..based
    };
    lemma_one_header_of_the_name(definition.header@, upper, frame, typed, k);
    assert(header.param@.skip(0) =~= header.param@);
    lemma_header_params_by_position(header.param@, frame, base_size(base), 0, typed);
    assert(typed_headers_walk(definition.header@, upper, frame, based) == header_params_walk(
        header.param@,
        frame,
        typed,
    ));
    assert(header_params_walk(header.param@, frame, typed).fields =~= classic_header_fields(
        base,
        header,
        upper,
        frame,
    ));
}

} // verus!
