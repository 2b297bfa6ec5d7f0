use keymap::parser::xml::{
    attribute, attribute_value, cdata, comment, name_parser, xml_parser, xml_tag_with_children,
    xml_tag_with_text, Attribute, XmlTag,
};

#[test]
fn comment_gives_its_body() {
    let result = comment("  <!-- a comment -->rest");
    assert_eq!(result.state, "rest");
    assert_eq!(result.result, Some(" a comment "));
}

#[test]
fn comment_failures() {
    let result = comment("  <tag/>");
    assert_eq!(result.state, "<tag/>");
    assert_eq!(result.result, None);

    let result = comment("<!-- never closed");
    assert_eq!(result.state, " never closed");
    assert_eq!(result.result, None);
}

#[test]
fn attribute_value_failures() {
    let result = attribute_value("unquoted");
    assert_eq!(result.state, "unquoted");
    assert_eq!(result.result, None);

    let result = attribute_value("\"open");
    assert_eq!(result.state, "open");
    assert_eq!(result.result, None);

    let result = attribute_value("\"\"rest");
    assert_eq!(result.state, "rest");
    assert_eq!(result.result, Some(""));
}

#[test]
fn name_parser_runs() {
    let result = name_parser("first-keystroke_2=\"x\"");
    assert_eq!(result.state, "=\"x\"");
    assert_eq!(result.result, Some("first-keystroke_2"));

    let result = name_parser("");
    assert_eq!(result.state, "");
    assert_eq!(result.result, None);

    let result = name_parser("<tag>");
    assert_eq!(result.state, "<tag>");
    assert_eq!(result.result, None);
}

#[test]
fn cdata_failures() {
    let result = cdata("<![CDATA[a]b]]>");
    assert_eq!(result.state, "]b]]>");
    assert_eq!(result.result, None);

    let result = cdata("<tag/>");
    assert_eq!(result.state, "<tag/>");
    assert_eq!(result.result, None);

    let result = cdata("<![CDATA[]]>tail");
    assert_eq!(result.state, "tail");
    assert_eq!(result.result, Some(""));
}

#[test]
fn attribute_failures() {
    let result = attribute("name");
    assert_eq!(result.state, "");
    assert_eq!(result.result, None);

    let result = attribute("=\"value\"");
    assert_eq!(result.state, "=\"value\"");
    assert_eq!(result.result, None);

    let result = attribute("id=value");
    assert_eq!(result.state, "value");
    assert_eq!(result.result, None);
}

#[test]
fn nested_tags() {
    let result = xml_parser("<a><b>t</b><c x=\"1\"/></a>tail");
    assert_eq!(result.state, "tail");
    assert_eq!(
        result.result,
        Some(XmlTag::with_children(
            "a",
            vec![],
            vec![
                XmlTag::with_text("b", vec![], "t"),
                XmlTag::new("c", vec![Attribute::new("x", "1")]),
            ]
        ))
    );
}

#[test]
fn comments_before_tags_are_skipped() {
    let result = xml_parser("  <!-- one --><!-- two -->\n<a/>");
    assert_eq!(result.state, "");
    assert_eq!(result.result, Some(XmlTag::new("a", vec![])));
}

#[test]
fn text_is_trimmed() {
    let result = xml_tag_with_text("<t>  hi there \n</t>");
    assert_eq!(result.state, "");
    assert_eq!(result.result, Some(XmlTag::with_text("t", vec![], "hi there")));
}

#[test]
fn text_tag_does_not_compare_the_closing_name() {
    let result = xml_tag_with_text("<a>x</b>");
    assert_eq!(result.state, "");
    assert_eq!(result.result, Some(XmlTag::with_text("a", vec![], "x")));
}

#[test]
fn tag_with_children_of_no_children_has_no_content() {
    let result = xml_tag_with_children("<a k=\"v\">\n</a>");
    assert_eq!(result.state, "");
    assert_eq!(result.result, Some(XmlTag::new("a", vec![Attribute::new("k", "v")])));
}

#[test]
fn xml_parser_failures() {
    let result = xml_parser("");
    assert_eq!(result.result, None);

    let result = xml_parser("plain text");
    assert_eq!(result.result, None);
    assert_eq!(result.state, "plain text");

    let result = xml_parser("<a><b/>");
    assert_eq!(result.result, None);
}

#[test]
fn keymap_tree() {
    let input = r#"<keymap version="1" name="Eclipse copy" parent="Eclipse">
    <action id="$Copy">
        <keyboard-shortcut first-keystroke="ctrl c" />
    </action>
    <action id="CloseActiveTab" />
    <action id="CollapseAllRegions">
        <keyboard-shortcut first-keystroke="shift ctrl divide" />
        <keyboard-shortcut first-keystroke="ctrl minus" />
    </action>
</keymap>"#;
    let result = xml_parser(input);
    assert_eq!(result.state, "");
    let keymap = result.result.unwrap();
    assert_eq!(keymap.name, "keymap");
    assert_eq!(keymap.attribute("name"), Some("Eclipse copy"));
    assert_eq!(keymap.has_attribute("parent"), "Eclipse");
    assert_eq!(keymap.has_attribute("missing"), "");
    assert_eq!(keymap.text(), None);
    let actions = keymap.children();
    assert_eq!(actions.len(), 3);
    assert_eq!(actions[0].attribute("id"), Some("$Copy"));
    assert_eq!(
        actions[0].children(),
        &[XmlTag::new("keyboard-shortcut", vec![Attribute::new("first-keystroke", "ctrl c")])]
    );
    assert_eq!(actions[1], XmlTag::new("action", vec![Attribute::new("id", "CloseActiveTab")]));
    assert_eq!(actions[1].children().len(), 0);
    assert_eq!(actions[2].children().len(), 2);
    assert_eq!(actions[2].children()[1].attribute("first-keystroke"), Some("ctrl minus"));
}

#[test]
fn tag_accessors() {
    let tag = XmlTag::with_text("t", vec![Attribute::new("a", "1"), Attribute::new("a", "2")], "body");
    assert_eq!(tag.text(), Some("body"));
    assert_eq!(tag.children().len(), 0);
    assert_eq!(tag.attribute("a"), Some("1"));
    assert_eq!(tag.attribute("b"), None);
    assert_eq!(tag.has_attribute("b"), "");

    let child = XmlTag::new("c", vec![]);
    let parent = XmlTag::with_children("p", vec![], vec![child]);
    assert_eq!(parent.children(), &[XmlTag::new("c", vec![])]);
    assert_eq!(parent.text(), None);

    let bare = XmlTag::new("b", vec![]);
    assert_eq!(bare.children().len(), 0);
    assert_eq!(bare.text(), None);
    assert_eq!(Attribute::new("k", "v").name, "k");
    assert_eq!(Attribute::new("k", "v").value, "v");
}

#[test]
fn attribute_names_beyond_ascii() {
    let result = attribute("  ключ_1 =  \"значение\" rest");
    assert_eq!(result.state, " rest");
    assert_eq!(result.result, Some(Attribute::new("ключ_1", "значение")));
}
