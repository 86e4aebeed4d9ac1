use mxml_transpiler::document::{MxmlDoc, WriterEvents};
use mxml_transpiler::emit::{document_text, write_events, EmitError};
use mxml_transpiler::events::{clone_attributes, push_element_events, WriterEvent};
use mxml_transpiler::mxml::{AttributeChild, ElemAttribute, MxmlElement};
use mxml_transpiler::namespaces::{
    clone_path, framework_prefix, same_path, NamespaceDecl, NamespaceRegistry,
};
use mxml_transpiler::error::TranspileError;

fn text(s: &str) -> String {
    s.to_string()
}

fn path(segments: &[&str]) -> Vec<String> {
    segments.iter().map(|s| s.to_string()).collect()
}

fn attribute(name: &str, value: &str) -> ElemAttribute {
    ElemAttribute(text(name), text(value))
}

fn element(namespace: &str, class_name: &str, attributes: Vec<ElemAttribute>) -> MxmlElement {
    MxmlElement {
        namespace: text(namespace),
        class_name: text(class_name),
        attributes,
        attribute_children: vec![],
        children: vec![],
    }
}

fn declaration(prefix: &str, uri: &str) -> NamespaceDecl {
    NamespaceDecl { prefix: text(prefix), uri: text(uri) }
}

fn framework() -> Vec<NamespaceDecl> {
    vec![
        declaration("fx", "http://ns.adobe.com/mxml/2009"),
        declaration("s", "library://ns.adobe.com/flex/spark"),
        declaration("mx", "library://ns.adobe.com/flex/mx"),
    ]
}

fn start(
    prefix: Option<&str>,
    local_name: &str,
    attributes: Vec<ElemAttribute>,
    namespaces: Vec<NamespaceDecl>,
) -> WriterEvent {
    WriterEvent::StartElement {
        prefix: prefix.map(text),
        local_name: text(local_name),
        attributes,
        namespaces,
    }
}

fn sample_tree() -> MxmlElement {
    let mut button = element("s", "Button", vec![attribute("label", "A & B")]);
    button.attribute_children = vec![AttributeChild(
        text("s:skin"),
        element("widgets", "Skin", vec![]),
    )];
    let mut root = element("s", "Group", vec![attribute("width", "100")]);
    root.children = vec![button, element("mx", "Label", vec![attribute("text", "<hi>")])];
    root.attribute_children = vec![AttributeChild(
        text("s:layout"),
        element("s", "VerticalLayout", vec![attribute("gap", "4")]),
    )];
    root
}

fn sample_events(root_namespaces: Vec<NamespaceDecl>) -> Vec<WriterEvent> {
    vec![
        start(Some("s"), "Group", vec![attribute("width", "100")], root_namespaces),
        start(Some("s"), "Button", vec![attribute("label", "A & B")], vec![]),
        start(None, "s:skin", vec![], vec![]),
        start(Some("widgets"), "Skin", vec![], vec![]),
        WriterEvent::EndElement,
        WriterEvent::EndElement,
        WriterEvent::EndElement,
        start(Some("mx"), "Label", vec![attribute("text", "<hi>")], vec![]),
        WriterEvent::EndElement,
        start(None, "s:layout", vec![], vec![]),
        start(Some("s"), "VerticalLayout", vec![attribute("gap", "4")], vec![]),
        WriterEvent::EndElement,
        WriterEvent::EndElement,
        WriterEvent::EndElement,
    ]
}

#[test]
fn end_to_end_text_of_a_group() {
    let doc = MxmlDoc {
        root: element("s", "Group", vec![attribute("width", "100"), attribute("height", "50%")]),
        namespaces: NamespaceRegistry::new(),
    };
    assert_eq!(
        doc.writer_events(),
        vec![
            start(
                Some("s"),
                "Group",
                vec![attribute("width", "100"), attribute("height", "50%")],
                framework()
            ),
            WriterEvent::EndElement,
        ]
    );
    assert_eq!(
        doc.generate_mxml(),
        Ok(text(concat_lines(&[
            "<?xml version=\"1.0\" encoding=\"UTF-8\"?>",
            "<s:Group xmlns:fx=\"http://ns.adobe.com/mxml/2009\" xmlns:mx=\"library://ns.adobe.com/flex/mx\" xmlns:s=\"library://ns.adobe.com/flex/spark\" width=\"100\" height=\"50%\" />",
        ])
        .as_str()))
    );
}

fn concat_lines(lines: &[&str]) -> String {
    lines.join("\n")
}

#[test]
fn element_events_put_children_before_attribute_children() {
    assert_eq!(sample_tree().get_writer_events(), sample_events(vec![]));
}

#[test]
fn only_the_root_declares_namespaces() {
    let mut namespaces = NamespaceRegistry::new();
    assert_eq!(namespaces.resolve_path(&path(&["com", "example", "widgets"])), Ok(text("widgets")));
    let doc = MxmlDoc { root: sample_tree(), namespaces };
    let mut declared = framework();
    declared.push(declaration("widgets", "com.example.widgets.*"));
    assert_eq!(doc.writer_events(), sample_events(declared));
}

#[test]
fn attribute_child_is_wrapped_in_an_element_named_by_the_property() {
    let child = AttributeChild(text("s:layout"), element("s", "VerticalLayout", vec![]));
    assert_eq!(
        child.get_writer_events(),
        vec![
            start(None, "s:layout", vec![], vec![]),
            start(Some("s"), "VerticalLayout", vec![], vec![]),
            WriterEvent::EndElement,
            WriterEvent::EndElement,
        ]
    );
}

#[test]
fn push_element_events_adds_behind_what_is_there() {
    let mut out = vec![WriterEvent::EndElement];
    push_element_events(&element("mx", "Label", vec![]), vec![declaration("a", "b")], &mut out);
    assert_eq!(
        out,
        vec![
            WriterEvent::EndElement,
            start(Some("mx"), "Label", vec![], vec![declaration("a", "b")]),
            WriterEvent::EndElement,
        ]
    );
}

#[test]
fn document_is_written_indented_with_escaped_values() {
    let mut namespaces = NamespaceRegistry::new();
    assert_eq!(namespaces.resolve_path(&path(&["com", "example", "widgets"])), Ok(text("widgets")));
    let doc = MxmlDoc { root: sample_tree(), namespaces };
    let expected = concat_lines(&[
        "<?xml version=\"1.0\" encoding=\"UTF-8\"?>",
        "<s:Group xmlns:fx=\"http://ns.adobe.com/mxml/2009\" xmlns:mx=\"library://ns.adobe.com/flex/mx\" xmlns:s=\"library://ns.adobe.com/flex/spark\" xmlns:widgets=\"com.example.widgets.*\" width=\"100\">",
        "  <s:Button label=\"A &amp; B\">",
        "    <s:skin>",
        "      <widgets:Skin />",
        "    </s:skin>",
        "  </s:Button>",
        "  <mx:Label text=\"&lt;hi&gt;\" />",
        "  <s:layout>",
        "    <s:VerticalLayout gap=\"4\" />",
        "  </s:layout>",
        "</s:Group>",
    ]);
    assert_eq!(doc.generate_mxml(), Ok(expected));
}

#[test]
fn text_binds_a_prefix_once_and_sorts_the_bindings() {
    let mut namespaces = NamespaceRegistry::new();
    assert_eq!(namespaces.resolve_path(&path(&["z", "widgets"])), Ok(text("widgets")));
    assert_eq!(namespaces.resolve_path(&path(&["a", "widgets"])), Ok(text("widgets")));
    assert_eq!(namespaces.resolve_path(&path(&["own", "mx"])), Ok(text("mx")));
    assert_eq!(namespaces.resolve_path(&path(&["b", "early"])), Ok(text("early")));
    let doc = MxmlDoc { root: element("widgets", "Dial", vec![]), namespaces };
    let mut declared = framework();
    declared.push(declaration("widgets", "z.widgets.*"));
    declared.push(declaration("widgets", "a.widgets.*"));
    declared.push(declaration("mx", "own.mx.*"));
    declared.push(declaration("early", "b.early.*"));
    assert_eq!(
        doc.writer_events(),
        vec![start(Some("widgets"), "Dial", vec![], declared), WriterEvent::EndElement]
    );
    let expected = concat_lines(&[
        "<?xml version=\"1.0\" encoding=\"UTF-8\"?>",
        "<widgets:Dial xmlns:early=\"b.early.*\" xmlns:fx=\"http://ns.adobe.com/mxml/2009\" xmlns:mx=\"library://ns.adobe.com/flex/mx\" xmlns:s=\"library://ns.adobe.com/flex/spark\" xmlns:widgets=\"z.widgets.*\" />",
    ]);
    assert_eq!(doc.generate_mxml(), Ok(expected));
}

#[test]
fn writer_accepts_every_run_whose_ends_are_matched() {
    let two_roots = vec![
        start(None, "a", vec![], vec![]),
        WriterEvent::EndElement,
        start(None, "b", vec![], vec![]),
        start(None, "c", vec![], vec![]),
        WriterEvent::EndElement,
    ];
    assert!(write_events(&two_roots).is_ok());
    assert!(write_events(&vec![start(None, "", vec![attribute("", "")], vec![declaration("", "")])]).is_ok());
    assert!(write_events(&vec![start(Some("xmlns"), "a b", vec![], vec![declaration("xml", "x")])]).is_ok());
}

#[test]
fn writer_refuses_an_end_without_a_start() {
    assert_eq!(
        write_events(&vec![WriterEvent::EndElement]),
        Err(EmitError::LastElementNameNotAvailable)
    );
    let events = vec![start(None, "a", vec![], vec![]), WriterEvent::EndElement, WriterEvent::EndElement];
    assert_eq!(write_events(&events), Err(EmitError::LastElementNameNotAvailable));
}

#[test]
fn writer_writes_what_it_is_given() {
    let events = vec![start(None, "a", vec![attribute("b", "c")], vec![]), WriterEvent::EndElement];
    let bytes = write_events(&events).unwrap();
    assert_eq!(
        String::from_utf8(bytes).unwrap(),
        "<?xml version=\"1.0\" encoding=\"UTF-8\"?>\n<a b=\"c\" />"
    );
    assert_eq!(write_events(&vec![]), Ok(vec![]));
}

#[test]
fn document_text_decodes_or_passes_the_failure_on() {
    assert_eq!(document_text(Ok("añ€".as_bytes().to_vec())), Ok(text("añ€")));
    assert_eq!(document_text(Ok(vec![])), Ok(text("")));
    assert_eq!(document_text(Ok(vec![0xff, 0x41])), Err(EmitError::InvalidUtf8));
    assert_eq!(document_text(Ok(vec![0xc3])), Err(EmitError::InvalidUtf8));
    assert_eq!(document_text(Err(EmitError::Io)), Err(EmitError::Io));
    assert_eq!(
        document_text(Err(EmitError::EndElementNameIsNotSpecified)),
        Err(EmitError::EndElementNameIsNotSpecified)
    );
}

#[test]
fn clone_attributes_copies_each_pair() {
    let attributes = vec![attribute("a", "1"), attribute("b", "2")];
    assert_eq!(clone_attributes(&attributes), attributes);
    assert_eq!(clone_attributes(&vec![]), vec![]);
}

#[test]
fn framework_roots_have_fixed_prefixes() {
    assert_eq!(framework_prefix("fx"), Some("fx"));
    assert_eq!(framework_prefix("spark"), Some("s"));
    assert_eq!(framework_prefix("mx"), Some("mx"));
    assert_eq!(framework_prefix("s"), None);
    assert_eq!(framework_prefix("Spark"), None);
    assert_eq!(framework_prefix(""), None);
}

#[test]
fn framework_paths_resolve_without_registering() {
    let mut registry = NamespaceRegistry::new();
    assert_eq!(registry.resolve_path(&path(&["fx"])), Ok(text("fx")));
    assert_eq!(registry.resolve_path(&path(&["spark", "components"])), Ok(text("s")));
    assert_eq!(registry.resolve_path(&path(&["spark", "components", "supportClasses"])), Ok(text("s")));
    assert_eq!(registry.resolve_path(&path(&["mx", "controls"])), Ok(text("mx")));
    assert_eq!(registry.len(), 0);
    assert!(!registry.is_registered(&path(&["mx", "controls"])));
    assert_eq!(registry.declarations(), framework());
}

#[test]
fn resolving_twice_registers_once() {
    let mut registry = NamespaceRegistry::new();
    let widgets = path(&["com", "example", "widgets"]);
    assert!(!registry.is_registered(&widgets));
    assert_eq!(registry.resolve_path(&widgets), Ok(text("widgets")));
    assert_eq!(registry.len(), 1);
    assert!(registry.is_registered(&widgets));
    assert_eq!(registry.resolve_path(&widgets), Ok(text("widgets")));
    assert_eq!(registry.len(), 1);
    let mut expected = framework();
    expected.push(declaration("widgets", "com.example.widgets.*"));
    assert_eq!(registry.declarations(), expected);
}

#[test]
fn registered_paths_keep_the_order_of_their_first_use() {
    let mut registry = NamespaceRegistry::new();
    assert_eq!(registry.resolve_path(&path(&["z", "last"])), Ok(text("last")));
    assert_eq!(registry.resolve_path(&path(&["spark", "core"])), Ok(text("s")));
    assert_eq!(registry.resolve_path(&path(&["a"])), Ok(text("a")));
    assert_eq!(registry.resolve_path(&path(&["z", "last"])), Ok(text("last")));
    assert_eq!(registry.resolve_path(&path(&["y", "last"])), Ok(text("last")));
    assert_eq!(registry.resolve_path(&path(&["sparkle"])), Ok(text("sparkle")));
    let mut expected = framework();
    expected.push(declaration("last", "z.last.*"));
    expected.push(declaration("a", "a.*"));
    expected.push(declaration("last", "y.last.*"));
    expected.push(declaration("sparkle", "sparkle.*"));
    assert_eq!(registry.declarations(), expected);
    assert_eq!(registry.len(), 4);
}

#[test]
fn empty_path_cannot_be_resolved() {
    let mut registry = NamespaceRegistry::new();
    assert_eq!(registry.resolve_path(&vec![]), Err(TranspileError::EmptyPackagePath));
    assert_eq!(registry.len(), 0);
}

#[test]
fn paths_are_compared_and_copied_segment_by_segment() {
    assert!(same_path(&path(&["a", "b"]), &path(&["a", "b"])));
    assert!(!same_path(&path(&["a", "b"]), &path(&["a", "c"])));
    assert!(!same_path(&path(&["a", "b"]), &path(&["a"])));
    assert!(!same_path(&path(&["a.b"]), &path(&["a", "b"])));
    assert!(same_path(&vec![], &vec![]));
    assert_eq!(clone_path(&path(&["a", "b"])), path(&["a", "b"]));
}
