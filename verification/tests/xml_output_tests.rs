use zniff_rs::xml_output::{escape_xml, ParsedFrame, XmlWriter};

#[test]
fn test_parsed_frame_creation() {
    let mut frame = ParsedFrame::new();
    frame.add_field("TestField".to_string(), "TestValue".to_string(), Some("string".to_string()));

    assert_eq!(frame.fields.len(), 1);
    assert_eq!(frame.fields[0].name, "TestField");
    assert_eq!(frame.fields[0].value, "TestValue");
    assert_eq!(frame.fields[0].field_type, Some("string".to_string()));
}

#[test]
fn test_xml_writer() {
    let mut writer = XmlWriter::new();
    let mut frame = ParsedFrame::new();
    frame.add_field("Field1".to_string(), "Value1".to_string(), Some("type1".to_string()));
    frame.add_field("Field2".to_string(), "Value2".to_string(), None);

    writer.add_frame(frame);

    assert_eq!(writer.frames().len(), 1);
    assert_eq!(writer.frames()[0].fields.len(), 2);
}

#[test]
fn test_xml_escaping() {
    let input = "<tag>value & \"quoted\"</tag>";
    let expected = "&lt;tag&gt;value &amp; &quot;quoted&quot;&lt;/tag&gt;";
    assert_eq!(escape_xml(input), expected);
}

#[test]
fn test_xml_output_format() {
    let mut writer = XmlWriter::new();
    let mut frame = ParsedFrame::new();
    frame.add_field("TestName".to_string(), "TestValue".to_string(), Some("TestType".to_string()));

    writer.add_frame(frame);

    let content = writer.to_xml();
    assert!(content.contains("<?xml version=\"1.0\" encoding=\"UTF-8\"?>"));
    assert!(content.contains("<frames>"));
    assert!(content.contains("<frame index=\"0\">"));
    assert!(content.contains("<field name=\"TestName\" type=\"TestType\">TestValue</field>"));
    assert!(content.contains("</frame>"));
    assert!(content.contains("</frames>"));
}

#[test]
fn document_text_is_exact() {
    let mut writer = XmlWriter::new();
    assert_eq!(
        writer.to_xml(),
        "<?xml version=\"1.0\" encoding=\"UTF-8\"?>\n<frames>\n</frames>\n"
    );
    let mut first = ParsedFrame::new();
    first.add_field("A&B".to_string(), "1 < 2".to_string(), Some("it's".to_string()));
    first.add_field("Plain".to_string(), "é\u{1F600}".to_string(), None);
    writer.add_frame(first);
    writer.add_frame(ParsedFrame::new());
    for _ in 2..11 {
        writer.add_frame(ParsedFrame::new());
    }
    let mut last = ParsedFrame::new();
    last.add_field("N".to_string(), "\"v\"".to_string(), None);
    writer.add_frame(last);
    let mut expected = String::new();
    expected.push_str("<?xml version=\"1.0\" encoding=\"UTF-8\"?>\n");
    expected.push_str("<frames>\n");
    expected.push_str("  <frame index=\"0\">\n");
    expected.push_str("    <field name=\"A&amp;B\" type=\"it&apos;s\">1 &lt; 2</field>\n");
    expected.push_str("    <field name=\"Plain\">é\u{1F600}</field>\n");
    expected.push_str("  </frame>\n");
    for index in 1..11 {
        expected.push_str(&format!("  <frame index=\"{}\">\n  </frame>\n", index));
    }
    expected.push_str("  <frame index=\"11\">\n");
    expected.push_str("    <field name=\"N\">&quot;v&quot;</field>\n");
    expected.push_str("  </frame>\n");
    expected.push_str("</frames>\n");
    assert_eq!(writer.to_xml(), expected);
}

#[test]
fn escaping_every_entity() {
    assert_eq!(escape_xml(""), "");
    assert_eq!(escape_xml("&<>\"'"), "&amp;&lt;&gt;&quot;&apos;");
    assert_eq!(escape_xml("&amp;"), "&amp;amp;");
    assert_eq!(escape_xml("a\u{00E9}\u{4E2D}b"), "a\u{00E9}\u{4E2D}b");
}
