use keymap::parser::xml::{attribute, attribute_value, cdata, name_parser, xml_parser, Attribute, XmlTag};

    #[test]
    fn test_cdata() {
        [
            "<![CDATA[This is a CDATA]]>",
            r#"<![CDATA[

                This is a CDATA

            ]]>"#,
        ].iter().for_each(|input| {
            let result = cdata(input);

            assert_eq!(result.state, "");
            assert_eq!(result.result, Some("This is a CDATA"));
        });
    }

    #[test]
    fn parse_name() {
        let result = name_parser("hello></hello>");

        assert_eq!(result.state, "></hello>");
        assert_eq!(result.result, Some("hello"));
    }

    #[test]
    fn parse_attribute_value() {
        let result = attribute_value(r#""This is a value" "#);

        assert_eq!(result.state, " ");
        assert_eq!(result.result, Some("This is a value"));
    }

    #[test]
    fn parse_attribute() {
        [
            r#"name="value" "#,
            r#"name =  "value" "#,
        ].iter().for_each(|s|{
            let result = attribute(s);
            assert_eq!(result.state, " ");
            assert_eq!(result.result, Some(Attribute::new("name", "value")));
        });

        let result = attribute(r#" name =  "value"></hello>"#);
        assert_eq!(result.state, "></hello>");
        assert_eq!(result.result, Some(Attribute::new("name", "value")));
    }

    #[test]
    fn parse_self_contained_xml_tag() {
        let result = xml_parser("<tag key=\"value\"/>");

        assert_eq!(result.state, "");
        assert_eq!(result.result, Some(XmlTag::new("tag", vec![Attribute::new("key", "value")])));

        let input = r#"<keymap version="1" name="Eclipse copy" parent="Eclipse"/>"#;
        let result = xml_parser(input);

        assert_eq!(result.state, "");
        assert_eq!(result.result, Some(XmlTag::new("keymap", vec![
            Attribute::new("version", "1"),
            Attribute::new("name", "Eclipse copy"),
            Attribute::new("parent", "Eclipse")]))
        );
    }

    #[test]
    fn parse_tag_with_text() {
        let result = xml_parser("<tag key=\"value\">This is a text</tag>");

        assert_eq!(result.state, "");
        assert_eq!(result.result, Some(XmlTag::with_text("tag", vec![Attribute::new("key", "value")], "This is a text")));

        let result = xml_parser(r#"<tag>
            text
        </tag>"#);

        assert_eq!(result.state, "");
        assert_eq!(result.result, Some(XmlTag::with_text("tag", Vec::new(), "text")));
    }

    #[test]
    fn test_jetbrains_xml_parser() {

        let result = xml_parser(r#"<keymap ></keymap>"#);
        assert_eq!(result.state, "");
        assert_eq!(result.result, Some(XmlTag::new("keymap", vec![])));

        let result = xml_parser(r#"<keymap version="1" name="Eclipse copy" parent="Eclipse"></keymap>"#);
        assert_eq!(result.state, "");
        assert_eq!(result.result, Some(XmlTag::new("keymap", vec![Attribute::new("version", "1"), Attribute::new("name", "Eclipse copy"), Attribute::new("parent", "Eclipse")])));


        let result = xml_parser(r#"<keymap version="1" name="Eclipse copy" parent="Eclipse">
    <action id="$Copy">
        <keyboard-shortcut first-keystroke="ctrl c" />
    </action>
    <action id="$Redo">
        <keyboard-shortcut first-keystroke="shift ctrl z" />
    </action>
    <action id=":cursive.repl.actions/jump-to-repl">
        <keyboard-shortcut first-keystroke="ctrl 2" />
    </action>
    <action id=":cursive.repl.actions/run-last-sexp">
        <keyboard-shortcut first-keystroke="ctrl 3" />
    </action>
    <action id=":cursive.repl.actions/sync-files">
        <keyboard-shortcut first-keystroke="shift ctrl r" />
    </action>
    <action id="ActivateMavenProjectsToolWindow">
        <keyboard-shortcut first-keystroke="f2" />
    </action>
    <action id="Build">
        <keyboard-shortcut first-keystroke="ctrl f9" />
    </action>
    <action id="BuildProject">
        <keyboard-shortcut first-keystroke="ctrl b" />
    </action>
    <action id="ChooseDebugConfiguration">
        <keyboard-shortcut first-keystroke="alt d" />
    </action>
    <action id="ChooseRunConfiguration">
        <keyboard-shortcut first-keystroke="alt r" />
    </action>
    <action id="CloseActiveTab" />
    <action id="CloseContent">
        <keyboard-shortcut first-keystroke="ctrl w" />
    </action>
    <action id="CollapseAll">
        <keyboard-shortcut first-keystroke="ctrl subtract" />
    </action>
    <action id="CollapseAllRegions">
        <keyboard-shortcut first-keystroke="shift ctrl divide" />
        <keyboard-shortcut first-keystroke="ctrl minus" />
    </action>
</keymap>"#);

        assert_eq!(result.state, "");
        // Tag names are read from the document, so what comes out is its `keymap` root with
        // the fourteen `action` elements, not a tree of tags named `tag` and `tag2`.
        let shortcut = |keys: &'static str| XmlTag::new("keyboard-shortcut", vec![Attribute::new("first-keystroke", keys)]);
        let action = |id: &'static str, shortcuts: Vec<XmlTag<'static>>| {
            XmlTag::with_children("action", vec![Attribute::new("id", id)], shortcuts)
        };
        assert_eq!(result.result, Some(XmlTag::with_children(
            "keymap",
            vec![Attribute::new("version", "1"), Attribute::new("name", "Eclipse copy"), Attribute::new("parent", "Eclipse")],
            vec![
                action("$Copy", vec![shortcut("ctrl c")]),
                action("$Redo", vec![shortcut("shift ctrl z")]),
                action(":cursive.repl.actions/jump-to-repl", vec![shortcut("ctrl 2")]),
                action(":cursive.repl.actions/run-last-sexp", vec![shortcut("ctrl 3")]),
                action(":cursive.repl.actions/sync-files", vec![shortcut("shift ctrl r")]),
                action("ActivateMavenProjectsToolWindow", vec![shortcut("f2")]),
                action("Build", vec![shortcut("ctrl f9")]),
                action("BuildProject", vec![shortcut("ctrl b")]),
                action("ChooseDebugConfiguration", vec![shortcut("alt d")]),
                action("ChooseRunConfiguration", vec![shortcut("alt r")]),
                XmlTag::new("action", vec![Attribute::new("id", "CloseActiveTab")]),
                action("CloseContent", vec![shortcut("ctrl w")]),
                action("CollapseAll", vec![shortcut("ctrl subtract")]),
                action("CollapseAllRegions", vec![shortcut("shift ctrl divide"), shortcut("ctrl minus")]),
            ],
        )));
    }
