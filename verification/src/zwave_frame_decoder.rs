//! Schema-driven decoder of the classic Z-Wave MAC frame.
//!
//! The decoder walks the frame definition over a segment of a frame with
//! a byte cursor: the parameters of the base header with key `0`, the
//! parameters of the header that the header type selects, the command
//! class, the command and the parameters of the command. Each parameter
//! becomes a field over the bytes that it takes.

use vstd::prelude::*;
use vstd::string::StringExecFns;
use crate::frame::lemma_tiled_is_well_formed;
use crate::frame::lemma_tiled_push;
use crate::frame::push_field;
use crate::frame::tiled;
use crate::frame::views_of;
use crate::frame::DecodedChunk;
use crate::frame::DecodedChunkView;
use crate::frame::DecodedField;
use crate::frame::DecodedFieldView;
use crate::frame::Decoding;
use crate::frame::DecodingView;
use crate::frame::DisplayType;
use crate::frame::FieldType;
use crate::frame::FieldTypeView;
use crate::frame::FrameDecoder;
use crate::frame::MACFrame;
use crate::frame::MACFrameView;
use crate::frame::Segment;
use crate::frame::SubFrameRequestView;
use crate::frame_definition::BaseHeader;
use crate::frame_definition::BaseHeaderParamParam;
use crate::frame_definition::FrameDefinition;
use crate::frame_definition::FrameDefinitionBaseHeaderParam;
use crate::frame_definition::FrameDefinitionHeaderParam;
use crate::frame_definition::Header;
use crate::text::key_value;
use crate::text::parse_key;
use crate::text::same_text;
use crate::text::to_uppercase;
use crate::text::uppercase_of;
use crate::xml::Cmd;
use crate::xml::CmdClass;
use crate::xml::CmdClassCmdChild;
use crate::xml::ZwClasses;
use crate::xml_output::ParsedFrame;
use crate::zw_parser::bits_of;
use crate::zw_parser::header_type_name;
use crate::zw_parser::lookup_header_type_name;
use crate::zw_parser::parse_bits;
use crate::zw_parser::sub_params_walk;
use crate::zw_parser::walk_sub_params;
use crate::zw_parser::Walk;
use crate::zw_parser::WalkView;

verus! {

/// A field of bytes, shown in hexadecimal.
pub open spec fn bytes_field(
    short_name: Seq<char>,
    name: Seq<char>,
    start: int,
    end: int,
) -> DecodedFieldView {
    DecodedFieldView {
        short_name: short_name,
        name: name,
        start: start,
        end: end,
        field_type: FieldTypeView::Bytes,
        display_type: DisplayType::Hex,
    }
}

/// A field of one byte, shown in hexadecimal.
pub open spec fn byte_field(short_name: Seq<char>, name: Seq<char>, at: int) -> DecodedFieldView {
    DecodedFieldView {
        short_name: short_name,
        name: name,
        start: at,
        end: at + 1,
        field_type: FieldTypeView::UInt8,
        display_type: DisplayType::Hex,
    }
}

/// A group of fields: a sub-frame over the bytes of its fields.
pub open spec fn group_field(
    short_name: Seq<char>,
    name: Seq<char>,
    start: int,
    end: int,
    fields: Seq<DecodedFieldView>,
) -> DecodedFieldView {
    DecodedFieldView {
        short_name: short_name,
        name: name,
        start: start,
        end: end,
        field_type: FieldTypeView::SubFrame(DecodedChunkView { fields: fields }),
        display_type: DisplayType::NoDisplay,
    }
}

/// Mathematical value of a layout under way.
pub struct LayoutView {
    /// The fields laid out so far.
    pub fields: Seq<DecodedFieldView>,
    /// Where the next field starts.
    pub cursor: int,
    /// Value of the bit field `HeaderType`; 0 before one was found.
    pub header_type: u8,
}

/// A layout under way.
#[derive(Debug)]
pub struct Layout {
    pub fields: Vec<DecodedField>,
    pub cursor: usize,
    pub header_type: u8,
}

impl View for Layout {
    type V = LayoutView;

    open spec fn view(&self) -> LayoutView {
        LayoutView {
            fields: views_of(self.fields),
            cursor: self.cursor as int,
            header_type: self.header_type,
        }
    }
}

/// The header type after the bit fields of a byte: the value of the bit
/// field named `HeaderType` among them, `current` where there is none.
pub open spec fn header_type_after(subs: Seq<BaseHeaderParamParam>, byte: u8, current: u8) -> u8 {
    sub_params_walk(
        subs,
        byte,
        0,
        WalkView { fields: Seq::empty(), byte_counter: 0, header_type: current },
    ).header_type
}

/// Layout of the parameters of a base header up to `end`: a parameter of
/// at least 8 bits becomes a field over its `bits / 8` bytes; the bit
/// fields of its first byte may set the header type. `None` where a
/// parameter does not fit.
pub open spec fn base_layout(
    params: Seq<FrameDefinitionBaseHeaderParam>,
    data: Seq<u8>,
    end: int,
    at: LayoutView,
) -> Option<LayoutView>
    decreases params.len(),
{
    if params.len() == 0 {
        Some(at)
    } else {
        let size = bits_of(params[0].bits@) / 8;
        if size == 0 {
            base_layout(params.skip(1), data, end, at)
        } else if at.cursor + size > end {
            None
        } else {
            base_layout(
                params.skip(1),
                data,
                end,
                LayoutView {
                    fields: at.fields.push(
                        bytes_field(
                            params[0].name@,
                            params[0].param_text@,
                            at.cursor,
                            at.cursor + size,
                        ),
                    ),
                    cursor: at.cursor + size,
                    header_type: match params[0].param {
                        Some(subs) => header_type_after(subs@, data[at.cursor], at.header_type),
                        None => at.header_type,
                    },
                },
            )
        }
    }
}

/// Layout of the parameters of a header up to `end`: a parameter of at
/// least 8 bits becomes a field over its `bits / 8` bytes. `None` where a
/// parameter does not fit.
pub open spec fn header_layout(
    params: Seq<FrameDefinitionHeaderParam>,
    end: int,
    at: LayoutView,
) -> Option<LayoutView>
    decreases params.len(),
{
    if params.len() == 0 {
        Some(at)
    } else {
        let size = bits_of(params[0].bits@) / 8;
        if size == 0 {
            header_layout(params.skip(1), end, at)
        } else if at.cursor + size > end {
            None
        } else {
            header_layout(
                params.skip(1),
                end,
                LayoutView {
                    fields: at.fields.push(
                        bytes_field(
                            params[0].name@,
                            params[0].param_text@,
                            at.cursor,
                            at.cursor + size,
                        ),
                    ),
                    cursor: at.cursor + size,
                    ..at
                },
            )
        }
    }
}

/// The first base header with key `0`, the classic Z-Wave header.
pub open spec fn find_base(bases: Seq<BaseHeader>) -> Option<BaseHeader>
    decreases bases.len(),
{
    if bases.len() == 0 {
        None
    } else if bases[0].key@ == "0"@ {
        Some(bases[0])
    } else {
        find_base(bases.skip(1))
    }
}

/// The first header named `name`.
pub open spec fn find_header(headers: Seq<Header>, name: Seq<char>) -> Option<Header>
    decreases headers.len(),
{
    if headers.len() == 0 {
        None
    } else if headers[0].name@ == name {
        Some(headers[0])
    } else {
        find_header(headers.skip(1), name)
    }
}

/// The first command class with the key `id`.
pub open spec fn find_class(classes: Seq<CmdClass>, id: u8) -> Option<CmdClass>
    decreases classes.len(),
{
    if classes.len() == 0 {
        None
    } else if key_value(classes[0].key@) == Some(id) {
        Some(classes[0])
    } else {
        find_class(classes.skip(1), id)
    }
}

/// The first command with the key `id`.
pub open spec fn find_command(cmds: Seq<Cmd>, id: u8) -> Option<Cmd>
    decreases cmds.len(),
{
    if cmds.len() == 0 {
        None
    } else if key_value(cmds[0].key@) == Some(id) {
        Some(cmds[0])
    } else {
        find_command(cmds.skip(1), id)
    }
}

/// Name of the field of a command class: its help text and its version.
pub open spec fn class_title(class: CmdClass) -> Seq<char> {
    class.help@ + " (Version "@ + class.version@ + ")"@
}

/// Layout of the children of a command from `cursor` up to `end`: a
/// parameter of type `BYTE` becomes a field of one byte; the first child
/// of another kind becomes a field of the bytes that are left, and ends
/// the layout.
pub open spec fn children_layout(
    children: Seq<CmdClassCmdChild>,
    end: int,
    cursor: int,
    fields: Seq<DecodedFieldView>,
) -> Seq<DecodedFieldView>
    decreases children.len(),
{
    if children.len() == 0 || cursor >= end {
        fields
    } else {
        match children[0] {
            CmdClassCmdChild::Param(p) => if p.param_type@ == "BYTE"@ {
                children_layout(
                    children.skip(1),
                    end,
                    cursor + 1,
                    fields.push(byte_field(p.name@, p.name@, cursor)),
                )
            } else {
                fields.push(bytes_field(p.name@, p.name@, cursor, end))
            },
            CmdClassCmdChild::VariantGroup(group) => fields.push(
                bytes_field(group.name@, group.name@, cursor, end),
            ),
        }
    }
}

/// Layout of the bytes behind the headers, from `cursor` up to `end`: a
/// field for the command class, one for the command, and the fields of
/// its children. Where the catalog does not know the command class or
/// the command, the bytes from there on become one field of bytes.
pub open spec fn payload_layout(
    classes: Seq<CmdClass>,
    data: Seq<u8>,
    cursor: int,
    end: int,
    fields: Seq<DecodedFieldView>,
) -> Seq<DecodedFieldView> {
    if cursor >= end {
        fields
    } else {
        match find_class(classes, data[cursor]) {
            None => fields.push(bytes_field("payload"@, "Payload"@, cursor, end)),
            Some(class) => {
                let named = fields.push(byte_field("CommandClass"@, class_title(class), cursor));
                let opaque = named.push(bytes_field("payload"@, "Payload"@, cursor + 1, end));
                if cursor + 1 >= end {
                    named
                } else {
                    match class.cmd {
                        None => opaque,
                        Some(cmds) => match find_command(cmds@, data[cursor + 1]) {
                            None => opaque,
                            Some(cmd) => {
                                let commanded = named.push(
                                    byte_field("Command"@, cmd.help@, cursor + 1),
                                );
                                match cmd.children {
                                    None => commanded,
                                    Some(children) => children_layout(
                                        children@,
                                        end,
                                        cursor + 2,
                                        commanded,
                                    ),
                                }
                            },
                        },
                    }
                }
            },
        }
    }
}

/// Layout of what follows the base header, from the header named
/// `upper` on: the group of the base header, the group of the header, and
/// the fields of the payload. `None` where no header is named `upper`,
/// where the base header does not end within `start..end` or the segment
/// not within the frame, and where a parameter of the header does not
/// fit.
pub open spec fn headers_layout(
    definition: FrameDefinition,
    classes: ZwClasses,
    data: Seq<u8>,
    start: int,
    end: int,
    base_name: Seq<char>,
    based: LayoutView,
    upper: Seq<char>,
) -> Option<DecodedChunkView> {
    match find_header(definition.header@, upper) {
        None => None,
        Some(header) => if !(start <= based.cursor <= end <= data.len()) {
            None
        } else {
            match header_layout(
                header.param@,
                end,
                LayoutView {
                    fields: Seq::empty(),
                    cursor: based.cursor,
                    header_type: based.header_type,
                },
            ) {
                None => None,
                Some(headed) => Some(
                    DecodedChunkView {
                        fields: payload_layout(
                            classes.cmd_class@,
                            data,
                            headed.cursor,
                            end,
                            seq![
                                group_field(
                                    "base_header"@,
                                    base_name,
                                    start,
                                    based.cursor,
                                    based.fields,
                                ),
                                group_field(
                                    "header"@,
                                    upper,
                                    based.cursor,
                                    headed.cursor,
                                    headed.fields,
                                ),
                            ],
                        ),
                    },
                ),
            }
        },
    }
}

/// Layout of the bytes `start..end` of a frame as a classic Z-Wave MAC
/// frame. `None` where the segment does not lie within the frame, where
/// the definition has no base header with key `0`, where a parameter of
/// a header does not fit, and where the header type has no name or no
/// header.
pub open spec fn mac_layout(
    definition: FrameDefinition,
    classes: ZwClasses,
    data: Seq<u8>,
    start: int,
    end: int,
) -> Option<DecodedChunkView> {
    if !(0 <= start <= end <= data.len()) {
        None
    } else {
        match find_base(definition.base_header@) {
            None => None,
            Some(base) => match base_layout(
                base.param@,
                data,
                end,
                LayoutView { fields: Seq::empty(), cursor: start, header_type: 0 },
            ) {
                None => None,
                Some(based) => {
                    let kind_name = header_type_name(definition.define_set@, based.header_type);
                    if kind_name == "Unknown"@ {
                        None
                    } else {
                        headers_layout(
                            definition,
                            classes,
                            data,
                            start,
                            end,
                            base.name@,
                            based,
                            uppercase_of(kind_name),
                        )
                    }
                },
            },
        }
    }
}

fn header_type_in(subs: &Vec<BaseHeaderParamParam>, byte: u8, current: u8) -> (header_type: u8)
    ensures
        header_type == header_type_after(subs@, byte, current),
{
    let walk = walk_sub_params(
        subs,
        byte,
        Walk { frame: ParsedFrame::new(), byte_counter: 0, header_type: current },
    );
    walk.header_type
}

fn layout_base_params(
    params: &Vec<FrameDefinitionBaseHeaderParam>,
    data: &[u8],
    start: usize,
    end: usize,
    at: Layout,
) -> (laid: Option<Layout>)
    requires
        start <= at.cursor <= end <= data@.len(),
        tiled(at@.fields, start as int, at.cursor as int),
    ensures
        laid is Some <==> base_layout(params@, data@, end as int, at@) is Some,
        laid matches Some(l) ==> {
            &&& Some(l@) == base_layout(params@, data@, end as int, at@)
            &&& at.cursor <= l.cursor <= end
            &&& tiled(l@.fields, start as int, l.cursor as int)
        },
{
    let mut cur = at;
    let mut i: usize = 0;
    assert(params@.skip(0) =~= params@);
    while i < params.len()
        invariant
            i <= params@.len(),
            start <= at.cursor <= cur.cursor <= end <= data@.len(),
            tiled(cur@.fields, start as int, cur.cursor as int),
            base_layout(params@, data@, end as int, at@) == base_layout(
                params@.skip(i as int),
                data@,
                end as int,
                cur@,
            ),
        decreases params@.len() - i,
    {
        let param = &params[i];
        proof {
            assert(params@.skip(i as int).skip(1) =~= params@.skip(i + 1));
        }
        let size = parse_bits(param.bits.as_str()) / 8;
        if size != 0 {
            if size > end - cur.cursor {
                return None;
            }
            let next = cur.cursor + size;
            let field = DecodedField::new(
                param.name.as_str(),
                param.param_text.as_str(),
                cur.cursor,
                next,
                FieldType::Bytes,
                DisplayType::Hex,
            );
            proof {
                lemma_tiled_push(
                    cur@.fields,
                    field@,
                    start as int,
                    cur.cursor as int,
                    next as int,
                );
            }
            match &param.param {
                Some(subs) => {
                    cur.header_type = header_type_in(subs, data[cur.cursor], cur.header_type);
                },
                None => {},
            }
            push_field(&mut cur.fields, field);
            cur.cursor = next;
        }
        i += 1;
    }
    Some(cur)
}

fn layout_header_params(
    params: &Vec<FrameDefinitionHeaderParam>,
    start: usize,
    end: usize,
    at: Layout,
) -> (laid: Option<Layout>)
    requires
        start <= at.cursor <= end,
        tiled(at@.fields, start as int, at.cursor as int),
    ensures
        laid is Some <==> header_layout(params@, end as int, at@) is Some,
        laid matches Some(l) ==> {
            &&& Some(l@) == header_layout(params@, end as int, at@)
            &&& at.cursor <= l.cursor <= end
            &&& tiled(l@.fields, start as int, l.cursor as int)
        },
{
    let mut cur = at;
    let mut i: usize = 0;
    assert(params@.skip(0) =~= params@);
    while i < params.len()
        invariant
            i <= params@.len(),
            start <= at.cursor <= cur.cursor <= end,
            tiled(cur@.fields, start as int, cur.cursor as int),
            header_layout(params@, end as int, at@) == header_layout(
                params@.skip(i as int),
                end as int,
                cur@,
            ),
        decreases params@.len() - i,
    {
        let param = &params[i];
        proof {
            assert(params@.skip(i as int).skip(1) =~= params@.skip(i + 1));
        }
        let size = parse_bits(param.bits.as_str()) / 8;
        if size != 0 {
            if size > end - cur.cursor {
                return None;
            }
            let next = cur.cursor + size;
            let field = DecodedField::new(
                param.name.as_str(),
                param.param_text.as_str(),
                cur.cursor,
                next,
                FieldType::Bytes,
                DisplayType::Hex,
            );
            proof {
                lemma_tiled_push(
                    cur@.fields,
                    field@,
                    start as int,
                    cur.cursor as int,
                    next as int,
                );
            }
            push_field(&mut cur.fields, field);
            cur.cursor = next;
        }
        i += 1;
    }
    Some(cur)
}

fn lookup_base(bases: &Vec<BaseHeader>) -> (found: Option<&BaseHeader>)
    ensures
        found is Some <==> find_base(bases@) is Some,
        found matches Some(b) ==> Some(*b) == find_base(bases@),
{
    let mut i: usize = 0;
    assert(bases@.skip(0) =~= bases@);
    while i < bases.len()
        invariant
            i <= bases@.len(),
            find_base(bases@) == find_base(bases@.skip(i as int)),
        decreases bases@.len() - i,
    {
        proof {
            assert(bases@.skip(i as int).skip(1) =~= bases@.skip(i + 1));
        }
        if same_text(bases[i].key.as_str(), "0") {
            return Some(&bases[i]);
        }
        i += 1;
    }
    None
}

fn lookup_header<'a>(headers: &'a Vec<Header>, name: &str) -> (found: Option<&'a Header>)
    ensures
        found is Some <==> find_header(headers@, name@) is Some,
        found matches Some(h) ==> Some(*h) == find_header(headers@, name@),
{
    let mut i: usize = 0;
    assert(headers@.skip(0) =~= headers@);
    while i < headers.len()
        invariant
            i <= headers@.len(),
            find_header(headers@, name@) == find_header(headers@.skip(i as int), name@),
        decreases headers@.len() - i,
    {
        proof {
            assert(headers@.skip(i as int).skip(1) =~= headers@.skip(i + 1));
        }
        if same_text(headers[i].name.as_str(), name) {
            return Some(&headers[i]);
        }
        i += 1;
    }
    None
}

fn lookup_class(classes: &Vec<CmdClass>, id: u8) -> (found: Option<&CmdClass>)
    ensures
        found is Some <==> find_class(classes@, id) is Some,
        found matches Some(c) ==> Some(*c) == find_class(classes@, id),
{
    let mut i: usize = 0;
    assert(classes@.skip(0) =~= classes@);
    while i < classes.len()
        invariant
            i <= classes@.len(),
            find_class(classes@, id) == find_class(classes@.skip(i as int), id),
        decreases classes@.len() - i,
    {
        proof {
            assert(classes@.skip(i as int).skip(1) =~= classes@.skip(i + 1));
        }
        match parse_key(classes[i].key.as_str()) {
            Some(key) => {
                if key == id {
                    return Some(&classes[i]);
                }
            },
            None => {},
        }
        i += 1;
    }
    None
}

fn lookup_command(cmds: &Vec<Cmd>, id: u8) -> (found: Option<&Cmd>)
    ensures
        found is Some <==> find_command(cmds@, id) is Some,
        found matches Some(c) ==> Some(*c) == find_command(cmds@, id),
{
    let mut i: usize = 0;
    assert(cmds@.skip(0) =~= cmds@);
    while i < cmds.len()
        invariant
            i <= cmds@.len(),
            find_command(cmds@, id) == find_command(cmds@.skip(i as int), id),
        decreases cmds@.len() - i,
    {
        proof {
            assert(cmds@.skip(i as int).skip(1) =~= cmds@.skip(i + 1));
        }
        match parse_key(cmds[i].key.as_str()) {
            Some(key) => {
                if key == id {
                    return Some(&cmds[i]);
                }
            },
            None => {},
        }
        i += 1;
    }
    None
}

fn push_bytes_field(
    fields: &mut Vec<DecodedField>,
    short_name: &str,
    name: &str,
    start: usize,
    cursor: usize,
    end: usize,
)
    requires
        start <= cursor <= end,
    ensures
        views_of(*final(fields)) == views_of(*old(fields)).push(
            bytes_field(short_name@, name@, cursor as int, end as int),
        ),
        tiled(views_of(*old(fields)), start as int, cursor as int) ==> tiled(
            views_of(*final(fields)),
            start as int,
            end as int,
        ),
{
    let field = DecodedField::new(short_name, name, cursor, end, FieldType::Bytes, DisplayType::Hex);
    proof {
        if tiled(views_of(*fields), start as int, cursor as int) {
            lemma_tiled_push(views_of(*fields), field@, start as int, cursor as int, end as int);
        }
    }
    push_field(fields, field);
}

fn push_byte_field(
    fields: &mut Vec<DecodedField>,
    short_name: &str,
    name: &str,
    start: usize,
    cursor: usize,
)
    requires
        start <= cursor < usize::MAX,
    ensures
        views_of(*final(fields)) == views_of(*old(fields)).push(
            byte_field(short_name@, name@, cursor as int),
        ),
        tiled(views_of(*old(fields)), start as int, cursor as int) ==> tiled(
            views_of(*final(fields)),
            start as int,
            cursor + 1,
        ),
{
    let field = DecodedField::new(
        short_name,
        name,
        cursor,
        cursor + 1,
        FieldType::UInt8,
        DisplayType::Hex,
    );
    proof {
        if tiled(views_of(*fields), start as int, cursor as int) {
            lemma_tiled_push(views_of(*fields), field@, start as int, cursor as int, cursor + 1);
        }
    }
    push_field(fields, field);
}

/// Widening the bounds keeps fields standing one behind the other.
pub proof fn lemma_tiled_widen(fields: Seq<DecodedFieldView>, lo: int, mid: int, hi: int)
    requires
        tiled(fields, lo, mid),
        mid <= hi,
    ensures
        tiled(fields, lo, hi),
{
    assert forall|i: int| 0 <= i < fields.len() implies (#[trigger] fields[i]).well_formed(lo, hi) by {
    }
}

fn layout_children(
    children: &Vec<CmdClassCmdChild>,
    start: usize,
    end: usize,
    cursor: usize,
    fields: Vec<DecodedField>,
) -> (laid: Vec<DecodedField>)
    requires
        start <= cursor <= end,
    ensures
        views_of(laid) == children_layout(children@, end as int, cursor as int, views_of(fields)),
        tiled(views_of(fields), start as int, cursor as int) ==> tiled(
            views_of(laid),
            start as int,
            end as int,
        ),
{
    let mut laid = fields;
    let mut at = cursor;
    let mut i: usize = 0;
    assert(children@.skip(0) =~= children@);
    while i < children.len() && at < end
        invariant
            i <= children@.len(),
            start <= cursor <= at <= end,
            tiled(views_of(fields), start as int, cursor as int) ==> tiled(
                views_of(laid),
                start as int,
                at as int,
            ),
            children_layout(children@, end as int, cursor as int, views_of(fields))
                == children_layout(children@.skip(i as int), end as int, at as int, views_of(laid)),
        decreases children@.len() - i,
    {
        proof {
            assert(children@.skip(i as int).skip(1) =~= children@.skip(i + 1));
        }
        match &children[i] {
            CmdClassCmdChild::Param(p) => {
                if same_text(p.param_type.as_str(), "BYTE") {
                    push_byte_field(&mut laid, p.name.as_str(), p.name.as_str(), start, at);
                    at += 1;
                } else {
                    push_bytes_field(&mut laid, p.name.as_str(), p.name.as_str(), start, at, end);
                    return laid;
                }
            },
            CmdClassCmdChild::VariantGroup(group) => {
                push_bytes_field(
                    &mut laid,
                    group.name.as_str(),
                    group.name.as_str(),
                    start,
                    at,
                    end,
                );
                return laid;
            },
        }
        i += 1;
    }
    proof {
        if tiled(views_of(fields), start as int, cursor as int) {
            lemma_tiled_widen(views_of(laid), start as int, at as int, end as int);
        }
    }
    laid
}

fn layout_payload(
    classes: &Vec<CmdClass>,
    data: &[u8],
    start: usize,
    cursor: usize,
    end: usize,
    fields: Vec<DecodedField>,
) -> (laid: Vec<DecodedField>)
    requires
        start <= cursor <= end <= data@.len(),
    ensures
        views_of(laid) == payload_layout(
            classes@,
            data@,
            cursor as int,
            end as int,
            views_of(fields),
        ),
        tiled(views_of(fields), start as int, cursor as int) ==> tiled(
            views_of(laid),
            start as int,
            end as int,
        ),
{
    let mut laid = fields;
    if cursor >= end {
        return laid;
    }
    let ghost sound = tiled(views_of(fields), start as int, cursor as int);
    let class = match lookup_class(classes, data[cursor]) {
        Some(class) => class,
        None => {
            push_bytes_field(&mut laid, "payload", "Payload", start, cursor, end);
            return laid;
        },
    };
    let title = class.help.clone().concat(" (Version ").concat(class.version.as_str()).concat(")");
    push_byte_field(&mut laid, "CommandClass", title.as_str(), start, cursor);
    if cursor + 1 >= end {
        proof {
            if sound {
                lemma_tiled_widen(views_of(laid), start as int, cursor + 1, end as int);
            }
        }
        return laid;
    }
    let cmds = match &class.cmd {
        Some(cmds) => cmds,
        None => {
            push_bytes_field(&mut laid, "payload", "Payload", start, cursor + 1, end);
            return laid;
        },
    };
    let cmd = match lookup_command(cmds, data[cursor + 1]) {
        Some(cmd) => cmd,
        None => {
            push_bytes_field(&mut laid, "payload", "Payload", start, cursor + 1, end);
            return laid;
        },
    };
    push_byte_field(&mut laid, "Command", cmd.help.as_str(), start, cursor + 1);
    match &cmd.children {
        Some(children) => layout_children(children, start, end, cursor + 2, laid),
        None => {
            proof {
                if sound {
                    lemma_tiled_widen(views_of(laid), start as int, cursor + 2, end as int);
                }
            }
            laid
        },
    }
}

/// Decoder of the classic Z-Wave MAC frame over a frame definition and a
/// command class catalog.
#[derive(Debug, Clone)]
pub struct ZWaveFrameDecoder {
    pub definition: FrameDefinition,
    pub classes: ZwClasses,
}

impl ZWaveFrameDecoder {
    /// A decoder over a frame definition and a command class catalog.
    pub fn new(definition: FrameDefinition, classes: ZwClasses) -> (decoder: ZWaveFrameDecoder)
        ensures
            decoder.definition == definition,
            decoder.classes == classes,
    {
        ZWaveFrameDecoder { definition, classes }
    }

    /// Lays out what follows the base header, given the upper-case name
    /// of the header type.
    pub fn layout_headers(
        &self,
        data: &[u8],
        start: usize,
        end: usize,
        base_name: &str,
        based: Layout,
        upper: &str,
    ) -> (chunk: Option<DecodedChunk>)
        ensures
            chunk is Some <==> headers_layout(
                self.definition,
                self.classes,
                data@,
                start as int,
                end as int,
                base_name@,
                based@,
                upper@,
            ) is Some,
            chunk matches Some(c) ==> {
                &&& Some(c@) == headers_layout(
                    self.definition,
                    self.classes,
                    data@,
                    start as int,
                    end as int,
                    base_name@,
                    based@,
                    upper@,
                )
                &&& tiled(based@.fields, start as int, based.cursor as int) ==> c@.well_formed(
                    start as int,
                    end as int,
                )
            },
    {
        let header = match lookup_header(&self.definition.header, upper) {
            Some(header) => header,
            None => {
                return None;
            },
        };
        if start > based.cursor || based.cursor > end || end > data.len() {
            return None;
        }
        let middle = based.cursor;
        let empty = Layout { fields: Vec::new(), cursor: middle, header_type: based.header_type };
        assert(empty@.fields =~= Seq::<DecodedFieldView>::empty());
        let headed = match layout_header_params(&header.param, middle, end, empty) {
            Some(headed) => headed,
            None => {
                return None;
            },
        };
        let behind = headed.cursor;
        let base_group = DecodedField::new(
            "base_header",
            base_name,
            start,
            middle,
            FieldType::SubFrame(DecodedChunk::new(based.fields)),
            DisplayType::NoDisplay,
        );
        let header_group = DecodedField::new(
            "header",
            upper,
            middle,
            behind,
            FieldType::SubFrame(DecodedChunk::new(headed.fields)),
            DisplayType::NoDisplay,
        );
        let mut fields: Vec<DecodedField> = Vec::new();
        let ghost sound = tiled(based@.fields, start as int, middle as int);
        proof {
            if sound {
                lemma_tiled_is_well_formed(based@.fields, start as int, middle as int);
                lemma_tiled_is_well_formed(headed@.fields, middle as int, behind as int);
                lemma_tiled_push(
                    views_of(fields),
                    base_group@,
                    start as int,
                    start as int,
                    middle as int,
                );
            }
        }
        push_field(&mut fields, base_group);
        proof {
            if sound {
                lemma_tiled_push(
                    views_of(fields),
                    header_group@,
                    start as int,
                    middle as int,
                    behind as int,
                );
            }
        }
        push_field(&mut fields, header_group);
        proof {
            assert(views_of(fields) =~= seq![
                group_field("base_header"@, base_name@, start as int, middle as int, based@.fields),
                group_field("header"@, upper@, middle as int, behind as int, headed@.fields),
            ]);
        }
        let laid = layout_payload(&self.classes.cmd_class, data, start, behind, end, fields);
        proof {
            if sound {
                lemma_tiled_is_well_formed(views_of(laid), start as int, end as int);
            }
        }
        Some(DecodedChunk::new(laid))
    }

    /// Lays out a segment of the bytes of a frame as a classic Z-Wave MAC
    /// frame.
    pub fn layout(&self, data: &[u8], start: usize, end: usize) -> (chunk: Option<DecodedChunk>)
        ensures
            chunk is Some <==> mac_layout(
                self.definition,
                self.classes,
                data@,
                start as int,
                end as int,
            ) is Some,
            chunk matches Some(c) ==> {
                &&& Some(c@) == mac_layout(
                    self.definition,
                    self.classes,
                    data@,
                    start as int,
                    end as int,
                )
                &&& c@.well_formed(start as int, end as int)
            },
    {
        if start > end || end > data.len() {
            return None;
        }
        let base = match lookup_base(&self.definition.base_header) {
            Some(base) => base,
            None => {
                return None;
            },
        };
        let empty = Layout { fields: Vec::new(), cursor: start, header_type: 0 };
        assert(empty@.fields =~= Seq::<DecodedFieldView>::empty());
        let based = match layout_base_params(&base.param, data, start, end, empty) {
            Some(based) => based,
            None => {
                return None;
            },
        };
        let kind_name = lookup_header_type_name(&self.definition.define_set, based.header_type);
        if same_text(kind_name.as_str(), "Unknown") {
            return None;
        }
        let upper = to_uppercase(kind_name.as_str());
        self.layout_headers(data, start, end, base.name.as_str(), based, upper.as_str())
    }
}

impl FrameDecoder for ZWaveFrameDecoder {
    open spec fn name(&self) -> Seq<char> {
        "ZWaveFrameDecoder"@
    }

    open spec fn decoding(&self, frame: MACFrameView, start: int, end: int) -> Option<DecodingView> {
        match mac_layout(self.definition, self.classes, frame.data, start, end) {
            Some(chunk) => Some(DecodingView { chunk: chunk, sub_frames: Seq::empty() }),
            None => None,
        }
    }

    fn decode_frame(&self, frame: &MACFrame, segment: Segment) -> (decoding: Option<Decoding>) {
        match self.layout(frame.data.as_slice(), segment.start, segment.end) {
            Some(chunk) => {
                let decoding = Decoding { chunk, sub_frames: Vec::new() };
                assert(decoding@.sub_frames =~= Seq::<SubFrameRequestView>::empty());
                Some(decoding)
            },
            None => None,
        }
    }

    fn decoder_name(&self) -> (name: &str) {
        "ZWaveFrameDecoder"
    }
}

} // verus!
