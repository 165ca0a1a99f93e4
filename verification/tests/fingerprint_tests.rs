use stripchat_recorder::fingerprint::node_config_fingerprint;
use stripchat_recorder::pipeline::{NodeInputRef, ParamValue, PipelineNode};

fn node(enabled: bool, params: Vec<(String, ParamValue)>, inputs: Vec<(usize, NodeInputRef)>) -> PipelineNode {
    PipelineNode { module_id: "m".to_string(), node_id: None, params, enabled, inputs }
}

#[test]
fn fingerprint_sorts_members_and_escapes_text() {
    let n = node(
        true,
        vec![
            ("b".to_string(), ParamValue::Json("1".to_string())),
            ("a".to_string(), ParamValue::Text("x\"y\u{1}".to_string())),
        ],
        vec![
            (10, NodeInputRef { node_id: "0".to_string(), port: 0 }),
            (2, NodeInputRef { node_id: "abc".to_string(), port: 1 }),
        ],
    );
    assert_eq!(
        node_config_fingerprint(&n),
        "c535a20c36f47949885c402189ff7f23b7baef333020dddd3e13550cf098f69c"
    );
}

#[test]
fn fingerprint_of_empty_disabled_node() {
    let n = node(false, vec![], vec![]);
    assert_eq!(
        node_config_fingerprint(&n),
        "597dfa14e3980f92c0a430587ac161fe8f3b8be211cd3b669216251e5023ca87"
    );
}

#[test]
fn fingerprint_ignores_listing_order_but_sees_enabled() {
    let p1 = vec![
        ("x".to_string(), ParamValue::Json("true".to_string())),
        ("y".to_string(), ParamValue::Text("v".to_string())),
    ];
    let p2 = vec![
        ("y".to_string(), ParamValue::Text("v".to_string())),
        ("x".to_string(), ParamValue::Json("true".to_string())),
    ];
    let a = node_config_fingerprint(&node(true, p1.clone(), vec![]));
    let b = node_config_fingerprint(&node(true, p2, vec![]));
    let c = node_config_fingerprint(&node(false, p1, vec![]));
    assert_eq!(a, b);
    assert_ne!(a, c);
}
