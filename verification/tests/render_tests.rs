use docmark::markdown::render_doc_item;
use docmark::markdown::render_doc_member;
use docmark::markdown::render_doc_param;
use docmark::markdown::render_function;
use docmark::markdown::render_function_parameters;
use docmark::markdown::render_property;
use docmark::model::CompositeTypeDoc;
use docmark::model::DocItem;
use docmark::model::FunctionDoc;
use docmark::model::Member;
use docmark::model::ModuleDoc;
use docmark::model::ModuleMember;
use docmark::model::Param;
use docmark::model::ParamKind;
use docmark::model::PropertyDoc;
use docmark::model::ProseBlock;
use docmark::model::ReturnSpec;
use docmark::model::TypeRef;
use docmark::prose::render_doc_string;
use docmark::prose::DSOpts;
use docmark::prototype::render_function_prototype;
use docmark::text::escape_name;

fn prose(summary: &str) -> ProseBlock {
    ProseBlock { summary: summary.to_string(), details: None }
}

fn prose2(summary: &str, details: &str) -> ProseBlock {
    ProseBlock { summary: summary.to_string(), details: Some(details.to_string()) }
}

fn tref(text: &str) -> TypeRef {
    TypeRef { text: text.to_string(), unconstrained: false }
}

fn any_t() -> TypeRef {
    TypeRef { text: "typing.Any".to_string(), unconstrained: true }
}

fn param(name: &str, docs: Option<ProseBlock>, typ: TypeRef) -> Param {
    Param { name: name.to_string(), kind: ParamKind::PositionalOrKeyword, docs, typ }
}

fn func(params: Vec<Param>, ret: TypeRef, docs: Option<ProseBlock>) -> FunctionDoc {
    FunctionDoc { params, ret: ReturnSpec { typ: ret, docs: None }, docs }
}

#[test]
fn combined_summary_only() {
    let d = Some(prose("Hello."));
    assert_eq!(render_doc_string(DSOpts::Combined, &d), Some("Hello.".to_string()));
}

#[test]
fn combined_with_details() {
    let d = Some(prose2("Sum.", "Det."));
    assert_eq!(render_doc_string(DSOpts::Combined, &d), Some("Sum.\n\nDet.".to_string()));
}

#[test]
fn summary_and_details_modes() {
    let d = Some(prose2("Sum.", "Det."));
    assert_eq!(render_doc_string(DSOpts::Summary, &d), Some("Sum.".to_string()));
    assert_eq!(render_doc_string(DSOpts::Details, &d), Some("Det.".to_string()));
    let only_summary = Some(prose("Sum."));
    assert_eq!(render_doc_string(DSOpts::Details, &only_summary), None);
    assert_eq!(render_doc_string(DSOpts::Combined, &None), None);
}

#[test]
fn escape_underscores() {
    assert_eq!(escape_name("max_size"), "max\\_size");
    assert_eq!(escape_name("a_b_c"), "a\\_b\\_c");
    assert_eq!(escape_name("plain"), "plain");
    let escaped = escape_name("a_b_c");
    assert_eq!(escaped.matches("\\_").count(), 2);
    let chars: Vec<char> = escaped.chars().collect();
    for (i, c) in chars.iter().enumerate() {
        if *c == '_' {
            assert!(i > 0 && chars[i - 1] == '\\');
        }
    }
}

#[test]
fn three_documented_single_line() {
    let f = func(
        vec![
            param("a", Some(prose("x")), any_t()),
            param("b", Some(prose("x")), any_t()),
            param("c", Some(prose("x")), any_t()),
        ],
        any_t(),
        None,
    );
    assert_eq!(render_function_prototype("f", &f), "def f(a, b, c)");
}

#[test]
fn four_documented_multi_line() {
    let f = func(
        vec![
            param("a", Some(prose("x")), any_t()),
            param("b", Some(prose("x")), any_t()),
            param("c", Some(prose("x")), any_t()),
            param("d", Some(prose("x")), any_t()),
        ],
        any_t(),
        None,
    );
    assert_eq!(render_function_prototype("f", &f), "def f(\n    a,\n    b,\n    c,\n    d,\n)");
}

#[test]
fn long_single_line_forced_multi() {
    let long_name = "x".repeat(80);
    let f = func(
        vec![
            param("a", Some(prose("x")), any_t()),
            param("b", Some(prose("x")), any_t()),
            param("c", Some(prose("x")), any_t()),
        ],
        any_t(),
        None,
    );
    let rendered = render_function_prototype(&long_name, &f);
    assert_eq!(rendered, format!("def {}(\n    a,\n    b,\n    c,\n)", long_name));
}

#[test]
fn length_boundary_of_single_line() {
    // "def " + name + "(a, b, c)" is 13 + name-length characters.
    let name_80 = "n".repeat(67);
    let name_81 = "n".repeat(68);
    let f = func(
        vec![param("a", None, any_t()), param("b", None, any_t()), param("c", None, any_t())],
        any_t(),
        None,
    );
    let at_limit = render_function_prototype(&name_80, &f);
    assert_eq!(at_limit.chars().count(), 80);
    assert_eq!(at_limit, format!("def {}(a, b, c)", name_80));
    let over_limit = render_function_prototype(&name_81, &f);
    assert_eq!(over_limit, format!("def {}(\n    a,\n    b,\n    c,\n)", name_81));
}

#[test]
fn many_undocumented_params_one_line() {
    let f = func(
        vec![
            param("a", None, any_t()),
            param("b", None, any_t()),
            param("c", None, any_t()),
            param("d", None, any_t()),
            param("e", None, any_t()),
        ],
        any_t(),
        None,
    );
    assert_eq!(render_function_prototype("f", &f), "def f(a, b, c, d, e)");
}

#[test]
fn return_suffix() {
    let with_ret = func(vec![], tref("int"), None);
    assert_eq!(render_function_prototype("f", &with_ret), "def f() -> int");
    let without_ret = func(vec![], any_t(), None);
    assert_eq!(render_function_prototype("f", &without_ret), "def f()");
}

#[test]
fn starred_and_typed_params() {
    let mut args = param("args", None, any_t());
    args.kind = ParamKind::Args;
    let mut kwargs = param("kwargs", None, tref("int"));
    kwargs.kind = ParamKind::Kwargs;
    let f = func(vec![param("a", None, tref("str")), args, kwargs], any_t(), None);
    assert_eq!(render_function_prototype("f", &f), "def f(a: str, *args, **kwargs: int)");
}

#[test]
fn property_end_to_end() {
    let p = PropertyDoc { typ: tref("int"), docs: Some(prose("Maximum size.")) };
    assert_eq!(
        render_property("max_size", &p),
        "## max\\_size\n\n```python\nmax_size: int\n```\n\nMaximum size."
    );
}

#[test]
fn function_without_docs_has_no_sections() {
    let f = func(
        vec![
            param("a", None, any_t()),
            param("b", None, any_t()),
            param("c", None, any_t()),
            param("d", None, any_t()),
        ],
        any_t(),
        None,
    );
    let rendered = render_function("f", &f, true);
    assert_eq!(rendered, "## f\n\n```python\ndef f(a, b, c, d)\n```");
    assert!(!rendered.contains("#### Parameters"));
    assert!(!rendered.contains("#### Returns"));
    assert!(!rendered.contains("#### Details"));
}

#[test]
fn member_ordering() {
    let m = ModuleDoc {
        docs: None,
        members: vec![
            (
                "zeta".to_string(),
                ModuleMember::Member(Member::Property(PropertyDoc { typ: tref("int"), docs: None })),
            ),
            (
                "moon".to_string(),
                ModuleMember::Member(Member::Property(PropertyDoc { typ: tref("int"), docs: None })),
            ),
            (
                "alpha".to_string(),
                ModuleMember::Member(Member::Property(PropertyDoc { typ: tref("int"), docs: None })),
            ),
        ],
    };
    let rendered = render_doc_item("mod", &DocItem::Module(m));
    assert_eq!(
        rendered,
        "# mod\n\n\
         ## alpha\n\n```python\nalpha: int\n```\
         \n\n---\n\n\
         ## moon\n\n```python\nmoon: int\n```\
         \n\n---\n\n\
         ## zeta\n\n```python\nzeta: int\n```"
    );
}

#[test]
fn module_skips_nested_types() {
    let m = ModuleDoc {
        docs: Some(prose("A module.")),
        members: vec![
            (
                "thing".to_string(),
                ModuleMember::Type(CompositeTypeDoc {
                    docs: None,
                    constructor: None,
                    members: vec![],
                }),
            ),
            (
                "value".to_string(),
                ModuleMember::Member(Member::Property(PropertyDoc { typ: tref("str"), docs: None })),
            ),
        ],
    };
    let rendered = render_doc_item("m", &DocItem::Module(m));
    assert_eq!(rendered, "# m\n\nA module.\n\n## value\n\n```python\nvalue: str\n```");
}

#[test]
fn empty_module() {
    let m = ModuleDoc { docs: None, members: vec![] };
    assert_eq!(render_doc_item("m", &DocItem::Module(m)), "# m\n\n");
}

#[test]
fn parameters_section_skips_undocumented() {
    let f = func(
        vec![
            param("a", Some(prose2("first", "second\nthird")), any_t()),
            param("b", None, any_t()),
        ],
        any_t(),
        None,
    );
    let rendered = render_function("g", &f, true);
    assert_eq!(
        rendered,
        "## g\n\n```python\ndef g(a, b)\n```\n\n#### Parameters\n\n\
         * `a`: first\n  \n  second\n  third\n"
    );
}

#[test]
fn no_parameters_section_when_none_documented() {
    let f = func(vec![param("a", None, any_t())], any_t(), None);
    assert_eq!(render_function_parameters(&f.params), None);
}

#[test]
fn returns_and_details_sections() {
    let f = FunctionDoc {
        params: vec![],
        ret: ReturnSpec { typ: tref("int"), docs: Some(prose("ret doc")) },
        docs: Some(prose2("sum", "det")),
    };
    assert_eq!(
        render_function("h", &f, true),
        "## h\n\n```python\ndef h() -> int\n```\n\nsum\n\n#### Returns\n\nret doc\n\n#### Details\n\ndet"
    );
}

#[test]
fn details_flow_without_header() {
    let f = func(vec![], any_t(), Some(prose2("sum", "det")));
    assert_eq!(render_function("k", &f, true), "## k\n\n```python\ndef k()\n```\n\nsum\n\ndet");
}

#[test]
fn doc_param_in_isolation() {
    let mut p = param("args", Some(prose("items")), any_t());
    p.kind = ParamKind::Args;
    assert_eq!(render_doc_param("*args".to_string(), &p), "* `*args`: items\n");
    let undocumented = param("x", None, any_t());
    assert_eq!(render_doc_param("x".to_string(), &undocumented), "");
}

#[test]
fn doc_param_crlf_lines() {
    let p = param("a", Some(prose("x\r\ny")), any_t());
    assert_eq!(render_doc_param("a".to_string(), &p), "* `a`: x\n  y\n");
}

#[test]
fn doc_param_empty_summary() {
    let p = param("a", Some(prose("")), any_t());
    assert_eq!(render_doc_param("a".to_string(), &p), "* `a`\n");
}

#[test]
fn composite_type_with_constructor() {
    let t = CompositeTypeDoc {
        docs: Some(prose("A type.")),
        constructor: Some(func(vec![param("x", None, tref("int"))], any_t(), None)),
        members: vec![
            (
                "bar".to_string(),
                Member::Property(PropertyDoc { typ: tref("int"), docs: None }),
            ),
        ],
    };
    let rendered = render_doc_item("Foo", &DocItem::Type(t));
    assert_eq!(
        rendered,
        "# `Foo` type\n\nA type.\n\n\
         ```python\ndef `Foo` type(x: int)\n```\
         \n\n---\n\n\
         ## Foo.bar\n\n```python\nFoo.bar: int\n```"
    );
}

#[test]
fn doc_item_member_function() {
    let f = func(vec![], tref("bool"), Some(prose("Checks.")));
    let rendered = render_doc_item("check", &DocItem::Member(Member::Function(f)));
    assert_eq!(rendered, "## check\n\n```python\ndef check() -> bool\n```\n\nChecks.");
}

#[test]
fn doc_member_property() {
    let p = Member::Property(PropertyDoc { typ: tref("str"), docs: None });
    assert_eq!(render_doc_member("name_x", &p), "## name\\_x\n\n```python\nname_x: str\n```");
}
