//! Parsed frames as XML text.

use vstd::prelude::*;
use vstd::string::StrSliceExecFns;
use vstd::string::StringExecFns;
use crate::text::decimal_text;
use crate::text::format_decimal;

verus! {

/// Mathematical value of a parsed field.
pub struct ParsedFieldView {
    pub name: Seq<char>,
    pub value: Seq<char>,
    pub field_type: Option<Seq<char>>,
}

/// A field parsed from a frame: its name, its value as text and,
/// optionally, the name of its type.
#[derive(Debug, Clone)]
pub struct ParsedField {
    pub name: String,
    pub value: String,
    pub field_type: Option<String>,
}

impl View for ParsedField {
    type V = ParsedFieldView;

    open spec fn view(&self) -> ParsedFieldView {
        ParsedFieldView {
            name: self.name@,
            value: self.value@,
            field_type: match self.field_type {
                Some(t) => Some(t@),
                None => None,
            },
        }
    }
}

/// The fields parsed from one frame, in order.
#[derive(Debug, Clone, Default)]
pub struct ParsedFrame {
    pub fields: Vec<ParsedField>,
}

impl View for ParsedFrame {
    type V = Seq<ParsedFieldView>;

    open spec fn view(&self) -> Seq<ParsedFieldView> {
        self.fields@.map_values(|f: ParsedField| f@)
    }
}

impl ParsedFrame {
    /// A frame without fields.
    pub fn new() -> (frame: ParsedFrame)
        ensures
            frame@ == Seq::<ParsedFieldView>::empty(),
    {
        let frame = ParsedFrame { fields: Vec::new() };
        frame
    }

    /// Adds a field behind the fields of the frame.
    pub fn add_field(&mut self, name: String, value: String, field_type: Option<String>)
        ensures
            final(self)@ == old(self)@.push(
                ParsedFieldView {
                    name: name@,
                    value: value@,
                    field_type: match field_type {
                        Some(t) => Some(t@),
                        None => None,
                    },
                },
            ),
    {
        let field = ParsedField { name, value, field_type };
        self.fields.push(field);
    }
}

/// What stands for a character in XML text: an entity for `&`, `<`, `>`,
/// `"` and `'`, the character itself otherwise.
pub open spec fn escaped_char(c: char) -> Seq<char> {
    if c == '&' {
        "&amp;"@
    } else if c == '<' {
        "&lt;"@
    } else if c == '>' {
        "&gt;"@
    } else if c == '"' {
        "&quot;"@
    } else if c == '\'' {
        "&apos;"@
    } else {
        seq![c]
    }
}

/// A text with what stands for each of its characters in XML text.
pub open spec fn escaped(text: Seq<char>) -> Seq<char>
    decreases text.len(),
{
    if text.len() == 0 {
        Seq::empty()
    } else {
        escaped(text.drop_last()) + escaped_char(text.last())
    }
}

/// XML text of a field: an element `field` with the name, the type where
/// there is one, and the value, indented by four spaces, on a line.
pub open spec fn field_xml(field: ParsedFieldView) -> Seq<char> {
    match field.field_type {
        Some(t) => "    <field name=\""@ + escaped(field.name) + "\" type=\""@ + escaped(t) + "\">"@
            + escaped(field.value) + "</field>\n"@,
        None => "    <field name=\""@ + escaped(field.name) + "\">"@ + escaped(field.value)
            + "</field>\n"@,
    }
}

/// XML text of fields, one behind the other.
pub open spec fn fields_xml(fields: Seq<ParsedFieldView>) -> Seq<char>
    decreases fields.len(),
{
    if fields.len() == 0 {
        Seq::empty()
    } else {
        fields_xml(fields.drop_last()) + field_xml(fields.last())
    }
}

/// XML text of a frame: an element `frame` with the index of the frame
/// around the text of its fields.
pub open spec fn frame_xml(index: nat, fields: Seq<ParsedFieldView>) -> Seq<char> {
    "  <frame index=\""@ + decimal_text(index) + "\">\n"@ + fields_xml(fields) + "  </frame>\n"@
}

/// XML text of frames, one behind the other, numbered from 0.
pub open spec fn frames_xml(frames: Seq<Seq<ParsedFieldView>>) -> Seq<char>
    decreases frames.len(),
{
    if frames.len() == 0 {
        Seq::empty()
    } else {
        frames_xml(frames.drop_last()) + frame_xml((frames.len() - 1) as nat, frames.last())
    }
}

/// XML text of a document: the declaration and an element `frames`
/// around the text of the frames.
pub open spec fn document_xml(frames: Seq<Seq<ParsedFieldView>>) -> Seq<char> {
    "<?xml version=\"1.0\" encoding=\"UTF-8\"?>\n"@ + "<frames>\n"@ + frames_xml(frames)
        + "</frames>\n"@
}

/// A text with an entity in place of each of `&`, `<`, `>`, `"` and `'`.
pub fn escape_xml(s: &str) -> (text: String)
    ensures
        text@ == escaped(s@),
{
    let n = s.unicode_len();
    let mut text = String::new();
    let mut i: usize = 0;
    while i < n
        invariant
            n == s@.len(),
            i <= n,
            text@ == escaped(s@.take(i as int)),
        decreases n - i,
    {
        let c = s.get_char(i);
        proof {
            assert(s@.take(i + 1).drop_last() =~= s@.take(i as int));
        }
        if c == '&' {
            text.append("&amp;");
        } else if c == '<' {
            text.append("&lt;");
        } else if c == '>' {
            text.append("&gt;");
        } else if c == '"' {
            text.append("&quot;");
        } else if c == '\'' {
            text.append("&apos;");
        } else {
            let one = s.substring_char(i, i + 1);
            text.append(one);
        }
        i += 1;
    }
    assert(s@.take(n as int) =~= s@);
    text
}

fn append_field_xml(out: &mut String, field: &ParsedField)
    ensures
        final(out)@ == old(out)@ + field_xml(field@),
{
    let name = escape_xml(field.name.as_str());
    let value = escape_xml(field.value.as_str());
    out.append("    <field name=\"");
    out.append(name.as_str());
    match &field.field_type {
        Some(t) => {
            let kind = escape_xml(t.as_str());
            out.append("\" type=\"");
            out.append(kind.as_str());
            out.append("\">");
            out.append(value.as_str());
            out.append("</field>\n");
        },
        None => {
            out.append("\">");
            out.append(value.as_str());
            out.append("</field>\n");
        },
    }
}

fn append_frame_xml(out: &mut String, index: usize, frame: &ParsedFrame)
    ensures
        final(out)@ == old(out)@ + frame_xml(index as nat, frame@),
{
    let number = format_decimal(index);
    out.append("  <frame index=\"");
    out.append(number.as_str());
    out.append("\">\n");
    let ghost head = out@;
    let mut i: usize = 0;
    while i < frame.fields.len()
        invariant
            i <= frame.fields@.len(),
            frame@.len() == frame.fields@.len(),
            out@ == head + fields_xml(frame@.take(i as int)),
        decreases frame.fields@.len() - i,
    {
        append_field_xml(out, &frame.fields[i]);
        proof {
            assert(frame@.take(i + 1).drop_last() =~= frame@.take(i as int));
        }
        i += 1;
    }
    assert(frame@.take(frame@.len() as int) =~= frame@);
    out.append("  </frame>\n");
}

/// Writer of parsed frames as an XML document.
pub struct XmlWriter {
    frames: Vec<ParsedFrame>,
}

impl View for XmlWriter {
    type V = Seq<Seq<ParsedFieldView>>;

    /// The frames of the document, in order.
    closed spec fn view(&self) -> Seq<Seq<ParsedFieldView>> {
        self.frames@.map_values(|f: ParsedFrame| f@)
    }
}

impl XmlWriter {
    /// A writer without frames.
    pub fn new() -> (writer: XmlWriter)
        ensures
            writer@ == Seq::<Seq<ParsedFieldView>>::empty(),
    {
        let writer = XmlWriter { frames: Vec::new() };
        writer
    }

    /// Adds a frame behind the frames of the document.
    pub fn add_frame(&mut self, frame: ParsedFrame)
        ensures
            final(self)@ == old(self)@.push(frame@),
    {
        self.frames.push(frame);
    }

    /// The frames of the document, in order.
    pub fn frames(&self) -> (frames: &Vec<ParsedFrame>)
        ensures
            frames@.map_values(|f: ParsedFrame| f@) == self@,
    {
        &self.frames
    }

    /// The document as text.
    pub fn to_xml(&self) -> (text: String)
        ensures
            text@ == document_xml(self@),
    {
        let mut out = "<?xml version=\"1.0\" encoding=\"UTF-8\"?>\n".to_owned();
        out.append("<frames>\n");
        let ghost head = out@;
        let mut i: usize = 0;
        while i < self.frames.len()
            invariant
                i <= self.frames@.len(),
                self@.len() == self.frames@.len(),
                out@ == head + frames_xml(self@.take(i as int)),
            decreases self.frames@.len() - i,
        {
            append_frame_xml(&mut out, i, &self.frames[i]);
            proof {
                assert(self@.take(i + 1).drop_last() =~= self@.take(i as int));
            }
            i += 1;
        }
        assert(self@.take(self@.len() as int) =~= self@);
        out.append("</frames>\n");
        out
    }
}

impl Default for XmlWriter {
    fn default() -> (writer: XmlWriter)
        ensures
            writer@ == Seq::<Seq<ParsedFieldView>>::empty(),
    {
        XmlWriter::new()
    }
}

} // verus!
