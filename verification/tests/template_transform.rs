use aerie::nodes::{TemplateNode, TransformJson};
use aerie::transform::{gather_outputs, JqRun};
use aerie::values::{FlowValue, WorkflowError};
use serde_json::Value;
use std::sync::Arc;

fn j(text: &str) -> Value {
    serde_json::from_str(text).unwrap()
}

fn doc(text: &str) -> FlowValue {
    FlowValue::Json(Arc::new(j(text)))
}

fn render(template: &str, input: FlowValue, float_json: Value, facts: Vec<(bool, String)>) -> Result<Vec<FlowValue>, WorkflowError> {
    TemplateNode { template: template.to_string() }.execute(&vec![None, Some(input)], &float_json, &facts)
}

#[test]
fn template_renders_a_text_value() {
    let out = render("Hi {{ value }}!", FlowValue::text("Bob"), Value::Null, vec![]).unwrap();
    assert_eq!(out, vec![FlowValue::text("Hi Bob!")]);
}

#[test]
fn template_sees_an_object_as_its_variables_and_as_context() {
    let out = render("{{ name }} and {{ CONTEXT.name }}", doc(r#"{"name": "x"}"#), Value::Null, vec![]).unwrap();
    assert_eq!(out, vec![FlowValue::text("x and x")]);
    let out = render("{{ value[1] }}", doc("[4, 5]"), Value::Null, vec![]).unwrap();
    assert_eq!(out, vec![FlowValue::text("5")]);
}

#[test]
fn template_lists_and_numbers() {
    let out = render("{% for n in value %}{{ n }};{% endfor %}", FlowValue::int_list(&[1, 2]), Value::Null, vec![]).unwrap();
    assert_eq!(out, vec![FlowValue::text("1;2;")]);
    let out = render("{{ value }}", FlowValue::Integer(7), Value::Null, vec![]).unwrap();
    assert_eq!(out, vec![FlowValue::text("7")]);
    let out = render("{{ value }}", FlowValue::Number(1.5f64.to_bits()), Value::from(1.5f64), vec![]).unwrap();
    assert_eq!(out, vec![FlowValue::text("1.5")]);
    let out = render("{{ value|join(\",\") }}", FlowValue::text_list(&["a", "b"]), Value::Null, vec![]).unwrap();
    assert_eq!(out, vec![FlowValue::text("a,b")]);
}

#[test]
fn template_messages_are_records_of_author_and_text() {
    let msg = FlowValue::Message(Arc::new(j(r#"{"role": "user"}"#)));
    let out = render("{{ value.author }}: {{ value.content }}", msg, Value::Null, vec![(true, "hello".into())]).unwrap();
    assert_eq!(out, vec![FlowValue::text("User: hello")]);
    let list = FlowValue::MsgList(Arc::new(vec![j("1"), j("2")]));
    let facts = vec![(true, "a".to_string()), (false, "b".to_string())];
    let out = render("{{ value[1].author }}/{{ value[1].content }}", list, Value::Null, facts).unwrap();
    assert_eq!(out, vec![FlowValue::text("Assistant/b")]);
}

#[test]
fn template_input_overrides_own_template() {
    let node = TemplateNode { template: "own".into() };
    let out = node.execute(&vec![Some(FlowValue::text("{{ value }}!")), Some(FlowValue::text("x"))], &Value::Null, &vec![]).unwrap();
    assert_eq!(out, vec![FlowValue::text("x!")]);
}

#[test]
fn template_errors() {
    let err = render("{% if %}", FlowValue::text("x"), Value::Null, vec![]).unwrap_err();
    assert!(matches!(err, WorkflowError::Unknown(_)));
    let err = TemplateNode { template: "t".into() }.execute(&vec![None, None], &Value::Null, &vec![]).unwrap_err();
    assert_eq!(err, WorkflowError::Required(vec!["JSON input required".into()]));
}

#[test]
fn filter_outputs_make_one_document() {
    assert_eq!(gather_outputs(vec![Ok(j("1"))]), Ok(j("1")));
    assert_eq!(gather_outputs(vec![Ok(j("1")), Ok(j("2"))]), Ok(j("[1, 2]")));
    assert_eq!(gather_outputs(vec![]), Ok(j("[]")));
    assert!(gather_outputs(vec![Ok(j("1")), Err("bad".into())]).is_err());
}

fn run_jaq(code: &str, doc: Option<Value>) -> JqRun {
    let arena = jaq_core::load::Arena::default();
    let loader = jaq_core::load::Loader::new(jaq_std::defs().chain(jaq_json::defs()));
    let modules = match loader.load(&arena, jaq_core::load::File { code, path: () }) {
        Ok(m) => m,
        Err(e) => return JqRun::NotCompiled(format!("{e:?}")),
    };
    let compiled = jaq_core::Compiler::<_, jaq_core::Native<jaq_json::Val>>::default()
        .with_funs(jaq_std::funs().chain(jaq_json::funs()))
        .compile(modules);
    let filter = match compiled {
        Ok(f) => f,
        Err(e) => return JqRun::NotCompiled(format!("{e:?}")),
    };
    let Some(doc) = doc else { return JqRun::NoDocument };
    let none = jaq_core::RcIter::new(core::iter::empty());
    let outs = filter
        .run((jaq_core::Ctx::new([], &none), jaq_json::Val::from(doc)))
        .map(|o| o.map(Value::from).map_err(|e| format!("{e:?}")))
        .collect();
    JqRun::Ran(outs)
}

fn transform_node(node: &TransformJson, inputs: Vec<Option<FlowValue>>) -> Result<Vec<FlowValue>, WorkflowError> {
    let (code, doc) = node.prepare(&inputs, &Value::Null, "said")?;
    TransformJson::finish(run_jaq(&code, doc))
}

fn transform(filter: &str, input: Option<FlowValue>) -> Result<Vec<FlowValue>, WorkflowError> {
    transform_node(&TransformJson { filter: filter.to_string() }, vec![None, input])
}

#[test]
fn transform_runs_the_filter() {
    assert_eq!(transform(".a", Some(doc(r#"{"a": 3}"#))).unwrap(), vec![doc("3")]);
    assert_eq!(transform(".[] | . * 2", Some(doc("[1, 2]"))).unwrap(), vec![doc("[2, 4]")]);
    assert_eq!(transform(". + 1", Some(FlowValue::Integer(5))).unwrap(), vec![doc("6")]);
    assert_eq!(transform("length", Some(FlowValue::text("hey"))).unwrap(), vec![doc("3")]);
    let msg = FlowValue::Message(Arc::new(j("{}")));
    assert_eq!(transform(".", Some(msg)).unwrap(), vec![doc(r#""said""#)]);
}

#[test]
fn transform_filter_from_input() {
    let node = TransformJson { filter: ".a".into() };
    let out = transform_node(&node, vec![Some(FlowValue::text(".b")), Some(doc(r#"{"a": 1, "b": 2}"#))]).unwrap();
    assert_eq!(out, vec![doc("2")]);
    let (code, d) = node.prepare(&vec![None, Some(FlowValue::Integer(2))], &Value::Null, "").unwrap();
    assert_eq!((code.as_str(), d), (".a", Some(j("2"))));
}

#[test]
fn transform_errors() {
    let err = transform("((", Some(doc("{}"))).unwrap_err();
    assert!(matches!(err, WorkflowError::Unknown(ref m) if m.starts_with("anyhow... Jaq error")));
    let err = transform("((", None).unwrap_err();
    assert!(matches!(err, WorkflowError::Unknown(_)));
    let err = transform(".", None).unwrap_err();
    assert_eq!(err, WorkflowError::Required(vec!["JSON input required".into()]));
    let err = transform("error(\"x\")", Some(doc("{}"))).unwrap_err();
    assert!(matches!(err, WorkflowError::Unknown(ref m) if m.starts_with("anyhow... Errors running jaq filter")));
    let err = TransformJson { filter: ".".into() }.prepare(&vec![None], &Value::Null, "").unwrap_err();
    assert!(matches!(err, WorkflowError::Required(_)));
}
