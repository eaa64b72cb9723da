//! Decoded frames as text: one line for each field, sub-frames indented.

use vstd::prelude::*;
use vstd::slice::slice_subrange;
use vstd::string::StrSliceExecFns;
use vstd::string::StringExecFns;
use crate::frame::DecodedChunk;
use crate::frame::DecodedChunkView;
use crate::frame::DecodedField;
use crate::frame::DecodedFieldView;
use crate::frame::DisplayType;
use crate::frame::FieldType;
use crate::frame::FieldTypeView;
use crate::frame::MACFrame;
use crate::frame::MACFrameView;
use crate::frame::MACProtocol;
use crate::text::decimal_text;
use crate::text::encode_hex_upper;
use crate::text::format_decimal;
use crate::text::format_signed;
use crate::text::from_utf8_lossy;
use crate::text::hex_upper;
use crate::text::signed_decimal_text;
use crate::text::utf8_lossy_of;

verus! {

/// Width to which the name of a field is filled with spaces.
pub const NAME_WIDTH: usize = 20;

/// The number that `width` bytes stand for, the low byte first.
pub open spec fn le_value(data: Seq<u8>, width: int) -> int
    decreases width,
{
    if width <= 0 {
        0
    } else {
        data[0] + 256 * le_value(data.skip(1), width - 1)
    }
}

/// The number that `width` bytes stand for, the high byte first.
pub open spec fn be_value(data: Seq<u8>, width: int) -> int
    decreases width,
{
    if width <= 0 {
        0
    } else {
        256 * be_value(data, width - 1) + data[width - 1]
    }
}

/// A number below 2 to the power of `8 * width`, read as a signed number
/// of `width` bytes in two's complement.
pub open spec fn signed_of(value: int, width: int) -> int {
    let half: int = if width == 1 {
        0x80
    } else if width == 2 {
        0x8000
    } else {
        0x8000_0000
    };
    if value >= half {
        value - 2 * half
    } else {
        value
    }
}

impl FieldTypeView {
    /// The number that the first bytes of `data` stand for as a value of
    /// this type; `None` for bytes and sub-frames.
    pub open spec fn value_of(self, data: Seq<u8>) -> Option<int> {
        match self {
            FieldTypeView::UInt8 => Some(le_value(data, 1)),
            FieldTypeView::UInt16LE => Some(le_value(data, 2)),
            FieldTypeView::UInt16BE => Some(be_value(data, 2)),
            FieldTypeView::UInt32LE => Some(le_value(data, 4)),
            FieldTypeView::UInt32BE => Some(be_value(data, 4)),
            FieldTypeView::Int8 => Some(signed_of(le_value(data, 1), 1)),
            FieldTypeView::Int16LE => Some(signed_of(le_value(data, 2), 2)),
            FieldTypeView::Int16BE => Some(signed_of(be_value(data, 2), 2)),
            FieldTypeView::Int32LE => Some(signed_of(le_value(data, 4), 4)),
            FieldTypeView::Int32BE => Some(signed_of(be_value(data, 4), 4)),
            FieldTypeView::Bytes => None,
            FieldTypeView::SubFrame(_) => None,
        }
    }

    /// Text of a value of this type: the decimal text of a number, the list
    /// of the bytes for bytes, nothing for a sub-frame.
    pub open spec fn value_text(self, data: Seq<u8>) -> Seq<char> {
        match self {
            FieldTypeView::Bytes => bytes_list_text(data),
            FieldTypeView::SubFrame(_) => Seq::empty(),
            _ => signed_decimal_text(self.value_of(data).unwrap()),
        }
    }
}

/// The decimal texts of bytes, with `, ` between them.
pub open spec fn bytes_items_text(data: Seq<u8>) -> Seq<char>
    decreases data.len(),
{
    if data.len() == 0 {
        Seq::empty()
    } else if data.len() == 1 {
        decimal_text(data[0] as nat)
    } else {
        bytes_items_text(data.drop_last()) + ", "@ + decimal_text(data.last() as nat)
    }
}

/// The list of bytes as text: their decimal texts in square brackets.
pub open spec fn bytes_list_text(data: Seq<u8>) -> Seq<char> {
    "["@ + bytes_items_text(data) + "]"@
}

/// `count` spaces.
pub open spec fn spaces(count: int) -> Seq<char> {
    Seq::new(
        if count < 0 {
            0
        } else {
            count as nat
        },
        |i: int| ' ',
    )
}

/// A name filled with spaces on the right to 20 characters; a longer name
/// stays as it is.
pub open spec fn padded(name: Seq<char>) -> Seq<char> {
    name + spaces(NAME_WIDTH - name.len())
}

/// Name of a protocol.
pub open spec fn protocol_name(protocol: MACProtocol) -> Seq<char> {
    match protocol {
        MACProtocol::ZWave => "Z-Wave"@,
        MACProtocol::IEEE802_15_4 => "IEEE 802.15.4"@,
        MACProtocol::LoRa => "LoRa"@,
    }
}

impl DecodedFieldView {
    /// Whether the field can be shown over `size` bytes of data: its
    /// bytes lie within the data, it is not to be shown in binary, a
    /// number to be shown has as many bytes as its type is wide, and a
    /// sub-frame can be shown.
    pub open spec fn showable(self, size: int) -> bool
        decreases self,
    {
        &&& 0 <= self.start <= self.end <= size
        &&& self.display_type != DisplayType::Binary
        &&& self.display_type == DisplayType::Decimal ==> (self.field_type.width() matches Some(w)
            ==> self.end - self.start >= w)
        &&& match self.field_type {
            FieldTypeView::SubFrame(chunk) => chunk.showable(size),
            _ => true,
        }
    }

    /// What is shown of the bytes of the field.
    pub open spec fn shown(self, bytes: Seq<u8>) -> Seq<char> {
        match self.display_type {
            DisplayType::Hex => hex_upper(bytes),
            DisplayType::Decimal => self.field_type.value_text(bytes),
            DisplayType::Ascii => utf8_lossy_of(bytes),
            _ => Seq::empty(),
        }
    }

    /// The line of the field behind an indentation: the name filled to
    /// 20 characters, ` : `, and what is shown of its bytes.
    pub open spec fn line(self, data: Seq<u8>, indent: Seq<char>) -> Seq<char> {
        indent + padded(self.name) + " : "@ + self.shown(data.subrange(self.start, self.end))
            + "\n"@
    }

    /// The lines of the field: its line and, below a sub-frame, the lines
    /// of the sub-frame, indented by two spaces more.
    pub open spec fn text(self, data: Seq<u8>, indent: Seq<char>) -> Seq<char>
        decreases self, 1nat,
    {
        match self.field_type {
            FieldTypeView::SubFrame(chunk) => self.line(data, indent) + chunk.text(
                data,
                indent + "  "@,
            ),
            _ => self.line(data, indent),
        }
    }
}

impl DecodedChunkView {
    /// Whether every field of the chunk can be shown over `size` bytes.
    pub open spec fn showable(self, size: int) -> bool
        decreases self,
    {
        forall|i: int| 0 <= i < self.fields.len() ==> (#[trigger] self.fields[i]).showable(size)
    }

    /// The lines of the first `count` fields of the chunk.
    pub open spec fn text_of_first(self, data: Seq<u8>, indent: Seq<char>, count: int) -> Seq<char>
        decreases self, 0nat, count,
    {
        if count <= 0 || count > self.fields.len() {
            Seq::empty()
        } else {
            self.text_of_first(data, indent, count - 1) + self.fields[count - 1].text(data, indent)
        }
    }

    /// The lines of the fields of the chunk, in order.
    pub open spec fn text(self, data: Seq<u8>, indent: Seq<char>) -> Seq<char>
        decreases self, 1nat, 0nat,
    {
        self.text_of_first(data, indent, self.fields.len() as int)
    }
}

impl MACFrameView {
    /// The frame as text: a line with id, timestamp and protocol, and the
    /// lines of what was decoded.
    pub open spec fn text(self) -> Seq<char> {
        "Frame ID: "@ + decimal_text(self.id as nat) + ", Timestamp: "@ + decimal_text(
            self.timestamp as nat,
        ) + ", Protocol: "@ + protocol_name(self.protocol) + "\n"@ + self.top.text(
            self.data,
            Seq::empty(),
        )
    }
}

fn bytes_list(data: &[u8]) -> (text: String)
    ensures
        text@ == bytes_list_text(data@),
{
    let mut text = "[".to_owned();
    let mut i: usize = 0;
    while i < data.len()
        invariant
            i <= data@.len(),
            text@ == "["@ + bytes_items_text(data@.take(i as int)),
        decreases data@.len() - i,
    {
        let ghost before = bytes_items_text(data@.take(i as int));
        proof {
            assert(data@.take(i + 1).drop_last() =~= data@.take(i as int));
        }
        let number = format_decimal(data[i] as usize);
        if i > 0 {
            text.append(", ");
            text.append(number.as_str());
            assert(text@ =~= "["@ + (before + ", "@ + decimal_text(data@[i as int] as nat)));
        } else {
            text.append(number.as_str());
            assert(text@ =~= "["@ + decimal_text(data@[i as int] as nat));
        }
        i += 1;
    }
    assert(data@.take(data@.len() as int) =~= data@);
    text.append("]");
    text
}

fn pad(name: &str) -> (text: String)
    ensures
        text@ == padded(name@),
{
    let mut text = name.to_owned();
    let mut length = name.unicode_len();
    while length < NAME_WIDTH
        invariant
            name@.len() <= length <= NAME_WIDTH || length == name@.len(),
            text@ == name@ + spaces(length - name@.len()),
        decreases NAME_WIDTH - length,
    {
        proof {
            reveal_strlit(" ");
            assert(spaces(length - name@.len()) + " "@ =~= spaces(length + 1 - name@.len()));
        }
        text.append(" ");
        length += 1;
    }
    proof {
        assert(spaces(length - name@.len()) =~= spaces(NAME_WIDTH - name@.len()));
    }
    text
}

impl FieldType {
    /// The number that the first bytes of `data` stand for as a value of
    /// this type; `None` for bytes and sub-frames.
    pub fn value(&self, data: &[u8]) -> (value: Option<i64>)
        requires
            self@.width() matches Some(w) ==> data@.len() >= w,
        ensures
            value is Some <==> self@.value_of(data@) is Some,
            value matches Some(v) ==> Some(v as int) == self@.value_of(data@),
    {
        proof {
            reveal_with_fuel(le_value, 5);
            reveal_with_fuel(be_value, 5);
        }
        let width = match self.width() {
            Some(w) => w,
            None => {
                return None;
            },
        };
        let b0 = data[0] as i64;
        let b1 = if width >= 2 {
            data[1] as i64
        } else {
            0
        };
        let (b2, b3) = if width >= 4 {
            (data[2] as i64, data[3] as i64)
        } else {
            (0, 0)
        };
        assert(width >= 4 ==> data@.skip(1).skip(1)[0] == data@[2] && data@.skip(1).skip(1).skip(
            1,
        )[0] == data@[3]);
        let value: i64 = match self {
            FieldType::UInt8 => b0,
            FieldType::UInt16LE => b0 + 256 * b1,
            FieldType::UInt16BE => 256 * b0 + b1,
            FieldType::UInt32LE => b0 + 256 * b1 + 65536 * b2 + 16777216 * b3,
            FieldType::UInt32BE => 16777216 * b0 + 65536 * b1 + 256 * b2 + b3,
            FieldType::Int8 => if b0 >= 0x80 {
                b0 - 0x100
            } else {
                b0
            },
            FieldType::Int16LE => if b0 + 256 * b1 >= 0x8000 {
                b0 + 256 * b1 - 0x10000
            } else {
                b0 + 256 * b1
            },
            FieldType::Int16BE => if 256 * b0 + b1 >= 0x8000 {
                256 * b0 + b1 - 0x10000
            } else {
                256 * b0 + b1
            },
            FieldType::Int32LE => if b0 + 256 * b1 + 65536 * b2 + 16777216 * b3 >= 0x8000_0000 {
                b0 + 256 * b1 + 65536 * b2 + 16777216 * b3 - 0x1_0000_0000
            } else {
                b0 + 256 * b1 + 65536 * b2 + 16777216 * b3
            },
            FieldType::Int32BE => if 16777216 * b0 + 65536 * b1 + 256 * b2 + b3 >= 0x8000_0000 {
                16777216 * b0 + 65536 * b1 + 256 * b2 + b3 - 0x1_0000_0000
            } else {
                16777216 * b0 + 65536 * b1 + 256 * b2 + b3
            },
            _ => 0,
        };
        Some(value)
    }

    /// Text of the value that the first bytes of `data` stand for: the
    /// decimal text of a number, the list of the bytes for bytes, nothing
    /// for a sub-frame.
    pub fn fmt_value(&self, data: &[u8]) -> (text: String)
        requires
            self@.width() matches Some(w) ==> data@.len() >= w,
        ensures
            text@ == self@.value_text(data@),
    {
        match self.value(data) {
            Some(v) => format_signed(v),
            None => match self {
                FieldType::Bytes => bytes_list(data),
                _ => String::new(),
            },
        }
    }
}

/// A line: the indentation, the name filled to 20 characters, ` : ` and
/// what is shown.
pub fn compose_line(indent: &str, name: &str, shown: &str) -> (text: String)
    ensures
        text@ == indent@ + padded(name@) + " : "@ + shown@ + "\n"@,
{
    let name = pad(name);
    let mut text = indent.to_owned();
    text.append(name.as_str());
    text.append(" : ");
    text.append(shown);
    text.append("\n");
    text
}

impl DecodedField {
    /// The line of the field behind an indentation.
    pub fn fmt(&self, data: &[u8], indent: &str) -> (text: String)
        requires
            self@.showable(data@.len() as int),
        ensures
            text@ == self@.line(data@, indent@),
    {
        let bytes = slice_subrange(data, self.segment.start, self.segment.end);
        let shown = match self.display_type {
            DisplayType::Hex => encode_hex_upper(bytes),
            DisplayType::Decimal => self.field_type.fmt_value(bytes),
            DisplayType::Ascii => from_utf8_lossy(bytes),
            _ => String::new(),
        };
        compose_line(indent, self.name.as_str(), shown.as_str())
    }
}

fn append_chunk(chunk: &DecodedChunk, data: &[u8], indent: &str, out: &mut String)
    requires
        chunk@.showable(data@.len() as int),
    ensures
        final(out)@ == old(out)@ + chunk@.text(data@, indent@),
    decreases chunk,
{
    let ghost start = out@;
    let mut i: usize = 0;
    while i < chunk.fields.len()
        invariant
            i <= chunk.fields@.len(),
            chunk@.fields.len() == chunk.fields@.len(),
            chunk@.showable(data@.len() as int),
            out@ == start + chunk@.text_of_first(data@, indent@, i as int),
        decreases chunk.fields@.len() - i,
    {
        let field = &chunk.fields[i];
        assert(chunk@.fields[i as int] == field@);
        let ghost before = out@;
        let line = field.fmt(data, indent);
        out.append(line.as_str());
        match &field.field_type {
            FieldType::SubFrame(sub) => {
                let deeper = indent.to_owned().concat("  ");
                append_chunk(sub, data, deeper.as_str(), out);
                assert(out@ =~= before + field@.text(data@, indent@));
            },
            _ => {
            },
        }
        i += 1;
    }
}

fn field_is_showable(field: &DecodedField, size: usize) -> (ok: bool)
    ensures
        ok == field@.showable(size as int),
    decreases field,
{
    let start = field.segment.start;
    let end = field.segment.end;
    if start > end || end > size {
        return false;
    }
    match field.display_type {
        DisplayType::Binary => {
            return false;
        },
        DisplayType::Decimal => {
            match field.field_type.width() {
                Some(w) => {
                    if end - start < w {
                        return false;
                    }
                },
                None => {},
            }
        },
        _ => {},
    }
    match &field.field_type {
        FieldType::SubFrame(sub) => chunk_is_showable(sub, size),
        _ => true,
    }
}

fn chunk_is_showable(chunk: &DecodedChunk, size: usize) -> (ok: bool)
    ensures
        ok == chunk@.showable(size as int),
    decreases chunk,
{
    let mut i: usize = 0;
    while i < chunk.fields.len()
        invariant
            i <= chunk.fields@.len(),
            chunk@.fields.len() == chunk.fields@.len(),
            forall|j: int| 0 <= j < i ==> (#[trigger] chunk@.fields[j]).showable(size as int),
        decreases chunk.fields@.len() - i,
    {
        assert(chunk@.fields[i as int] == chunk.fields[i as int]@);
        if !field_is_showable(&chunk.fields[i], size) {
            return false;
        }
        i += 1;
    }
    true
}

impl DecodedChunk {
    /// Whether every field of the chunk can be shown over `size` bytes of
    /// data: what `fmt` and `MACFrame::to_text` ask of a chunk.
    pub fn is_showable(&self, size: usize) -> (ok: bool)
        ensures
            ok == self@.showable(size as int),
    {
        chunk_is_showable(self, size)
    }

    /// The lines of the fields of the chunk behind an indentation.
    pub fn fmt(&self, data: &[u8], indent: &str) -> (text: String)
        requires
            self@.showable(data@.len() as int),
        ensures
            text@ == self@.text(data@, indent@),
    {
        let mut text = String::new();
        append_chunk(self, data, indent, &mut text);
        text
    }
}

impl MACProtocol {
    /// Name of the protocol.
    pub fn name(&self) -> (text: String)
        ensures
            text@ == protocol_name(*self),
    {
        match self {
            MACProtocol::ZWave => "Z-Wave".to_owned(),
            MACProtocol::IEEE802_15_4 => "IEEE 802.15.4".to_owned(),
            MACProtocol::LoRa => "LoRa".to_owned(),
        }
    }
}

impl MACFrame {
    /// The frame as text.
    pub fn to_text(&self) -> (text: String)
        requires
            self@.top.showable(self@.data.len() as int),
        ensures
            text@ == self@.text(),
    {
        let mut text = "Frame ID: ".to_owned();
        text.append(format_decimal(self.id as usize).as_str());
        text.append(", Timestamp: ");
        text.append(format_decimal(self.timestamp as usize).as_str());
        text.append(", Protocol: ");
        text.append(self.protocol.name().as_str());
        text.append("\n");
        append_chunk(&self.top, self.data.as_slice(), "", &mut text);
        proof {
            reveal_strlit("");
            assert(""@ =~= Seq::<char>::empty());
        }
        text
    }
}

} // verus!
