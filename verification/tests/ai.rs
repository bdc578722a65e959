use std::collections::HashMap;

use sulis::ai::{AITemplate, AITemplateBuilder, FuncKind, Module};
use sulis::error::ResourceError;
use sulis::id_map::IdMap;

fn module() -> Module {
    let mut scripts = IdMap::new();
    scripts.insert("goblin".to_string(), "return attack()".to_string());
    Module { scripts }
}

fn builder(script: &str) -> AITemplateBuilder {
    let mut hooks = HashMap::new();
    hooks.insert(FuncKind::OnDamaged, "flee".to_string());
    AITemplateBuilder { id: "goblin_ai".to_string(), script: script.to_string(), hooks }
}

#[test]
fn ai_template_new_takes_script_from_module() {
    let t = AITemplate::new(builder("goblin"), &module()).unwrap();
    assert_eq!(t.id, "goblin_ai");
    assert_eq!(t.script(), "return attack()");
    assert_eq!(t.hooks.get(&FuncKind::OnDamaged), Some(&"flee".to_string()));
    assert_eq!(t.hooks.len(), 1);
}

#[test]
fn ai_template_new_refuses_missing_script() {
    let e = AITemplate::new(builder("orc"), &module()).unwrap_err();
    assert_eq!(
        e,
        ResourceError::UnableToCreate { kind: "ai_template".to_string(), id: "goblin_ai".to_string() }
    );
}

#[test]
fn ai_template_builder_owned_id() {
    assert_eq!(builder("goblin").owned_id(), "goblin_ai");
}

#[test]
fn func_kind_order() {
    assert!(FuncKind::OnDamaged < FuncKind::BeforeAttack);
    assert!(FuncKind::AfterAttack < FuncKind::BeforeDefense);
}
