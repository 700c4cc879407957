use llmrmgcore::digest::rule_hash;
use llmrmgcore::json::{json_snapshot, json_value};
use llmrmgcore::text::{rev_string, u64_to_dec};
use llmrmgcore::{
    AttrMap, AttrOp, CoreError, DpoRule, Edge, EdgeType, Graph, GraphPattern, InMemoryCore,
    MockOracle, Node, NodePattern, NodeType, RuleMetadata, Timestamp, Value,
};

fn fixed_timestamp() -> Timestamp {
    Timestamp { year: 2025, month: 11, day: 15, hour: 12, minute: 0, second: 0 }
}

fn attrs(pairs: Vec<(&str, Value)>) -> AttrMap {
    let mut m = AttrMap::new();
    for (k, v) in pairs {
        m.insert(k.to_string(), v);
    }
    m
}

fn seed_graph(author: &str, content: &str) -> Graph {
    let mut graph = Graph::new();
    graph.nodes.push(Node {
        id: "thread-1".to_string(),
        node_type: "Thread".to_string(),
        attrs: AttrMap::new(),
    });
    graph.nodes.push(Node {
        id: "turn-1".to_string(),
        node_type: "Turn".to_string(),
        attrs: AttrMap::new(),
    });
    graph.nodes.push(Node {
        id: "msg-1".to_string(),
        node_type: "Message".to_string(),
        attrs: attrs(vec![
            ("content", Value::Str(content.to_string())),
            ("author", Value::Str(author.to_string())),
        ]),
    });
    graph.nodes.push(Node {
        id: "user-actor".to_string(),
        node_type: "Actor".to_string(),
        attrs: AttrMap::new(),
    });
    graph.edges.push(Edge {
        id: "e1".to_string(),
        edge_type: "HAS_TURN".to_string(),
        src: "thread-1".to_string(),
        dst: "turn-1".to_string(),
        attrs: AttrMap::new(),
    });
    graph.edges.push(Edge {
        id: "e2".to_string(),
        edge_type: "HAS_MESSAGE".to_string(),
        src: "turn-1".to_string(),
        dst: "msg-1".to_string(),
        attrs: AttrMap::new(),
    });
    graph.edges.push(Edge {
        id: "e3".to_string(),
        edge_type: "AUTHORED_BY".to_string(),
        src: "msg-1".to_string(),
        dst: "user-actor".to_string(),
        attrs: AttrMap::new(),
    });
    graph
}

fn create_test_core_with_initial_state() -> InMemoryCore {
    let mut core = InMemoryCore::new();
    core.snapshot.graph = seed_graph("user", "Please create a task to write the report.");
    core.snapshot.metadata.timestamp = fixed_timestamp();
    core
}

fn message_pattern(var: &str) -> NodePattern {
    NodePattern {
        var: var.to_string(),
        node_type: Some("Message".to_string()),
        attr_constraints: Vec::new(),
    }
}

fn create_task_rule() -> DpoRule {
    DpoRule {
        metadata: RuleMetadata {
            id: "rho_create_task_from_message".to_string(),
            version: "0.1.0".to_string(),
            description: "Creates a new Task node from a user message.".to_string(),
            author: "system".to_string(),
            created_at: fixed_timestamp(),
            tags: vec!["task".to_string(), "creation".to_string()],
        },
        left: GraphPattern { nodes: vec![message_pattern("msg")], edges: vec![], constraints: vec![] },
        interface: GraphPattern {
            nodes: vec![message_pattern("msg")],
            edges: vec![],
            constraints: vec![],
        },
        right: Graph {
            nodes: vec![
                Node {
                    id: "var:msg".to_string(),
                    node_type: "Message".to_string(),
                    attrs: AttrMap::new(),
                },
                Node {
                    id: "new:task".to_string(),
                    node_type: "Task".to_string(),
                    attrs: attrs(vec![
                        ("title", Value::Str("Write the report".to_string())),
                        ("status", Value::Str("Pending".to_string())),
                    ]),
                },
            ],
            edges: vec![Edge {
                id: "new:edge".to_string(),
                edge_type: "CREATES_TASK".to_string(),
                src: "var:msg".to_string(),
                dst: "new:task".to_string(),
                attrs: AttrMap::new(),
            }],
        },
    }
}

#[test]
fn test_v0_apply_create_task_rule() {
    let mut core = create_test_core_with_initial_state();
    let rule = create_task_rule();

    let report = core.validate(&rule).expect("Validation failed");
    assert!(report.is_valid, "Rule should be valid. Errors: {:?}", report.errors);

    let proof = core.apply(&rule).expect("Apply failed");

    let final_graph = &proof.after_snapshot.unwrap().graph;

    assert_eq!(final_graph.nodes.len(), 5);
    let task_node = final_graph.nodes.iter().find(|n| n.node_type == "Task").expect("Task node not found");
    assert_eq!(task_node.attrs.get("title"), Some(&Value::Str("Write the report".to_string())));

    assert_eq!(final_graph.edges.len(), 4);
    let creates_task_edge = final_graph.edges.iter().find(|e| e.edge_type == "CREATES_TASK");
    assert!(creates_task_edge.is_some(), "CREATES_TASK edge was not created");
}

#[test]
fn test_mock_oracle_propose_rule() {
    let oracle = MockOracle;
    let core = create_test_core_with_initial_state();
    let snapshot = core.snapshot();
    let command = "Hey, can you create a task to write the report?";

    let rule = oracle.propose_rule(command, &snapshot).expect("Oracle failed to propose a rule");

    assert_eq!(rule.metadata.id, "rho_create_task_from_message_mock");
    assert_eq!(rule.right.nodes.len(), 2);
    assert_eq!(rule.right.edges.len(), 1);

    let task_node = rule.right.nodes.iter().find(|n| n.node_type == "Task").expect("Task node not found in rule");
    assert_eq!(task_node.attrs.get("title"), Some(&Value::Str("Write the report".to_string())));
}

#[test]
fn test_full_round_trip() {
    let mut core = create_test_core_with_initial_state();
    let oracle = MockOracle;
    let command = "Create a task to write the report.";

    let snapshot = core.snapshot();
    let rule = oracle.propose_rule(command, &snapshot).expect("Oracle should propose a rule");

    let report = core.validate(&rule).expect("Core should validate the rule");
    assert!(report.is_valid, "Proposed rule should be valid");

    let proof = core.apply(&rule).expect("Core should apply the rule");

    let final_graph = &proof.after_snapshot.as_ref().unwrap().graph;
    assert_eq!(final_graph.nodes.len(), 5, "Should have 5 nodes after rule application");
    let task_node = final_graph.nodes.iter().find(|n| n.node_type == "Task").expect("Task node should exist");
    assert_eq!(task_node.attrs.get("title"), Some(&Value::Str("Write the report".to_string())));
    assert_eq!(final_graph.edges.len(), 4, "Should have 4 edges after rule application");
    let creates_task_edge = final_graph.edges.iter().find(|e| e.edge_type == "CREATES_TASK").expect("CREATES_TASK edge should exist");
    assert_eq!(creates_task_edge.src, "msg-1");
}

#[test]
fn test_core_is_deterministic() {
    let rule = create_task_rule();

    let mut core1 = create_test_core_with_initial_state();
    let proof1 = core1.apply(&rule).expect("Run 1: Apply failed");
    let snapshot1 = proof1.after_snapshot.unwrap();

    let mut core2 = create_test_core_with_initial_state();
    let proof2 = core2.apply(&rule).expect("Run 2: Apply failed");
    let snapshot2 = proof2.after_snapshot.unwrap();

    let snapshot1_json = json_snapshot(&snapshot1);
    let snapshot2_json = json_snapshot(&snapshot2);

    assert_eq!(snapshot1_json, snapshot2_json, "Snapshots from two identical runs should be identical");
}

#[test]
fn test_revisions_advance_contiguously() {
    let mut core = create_test_core_with_initial_state();
    assert_eq!(core.snapshot.metadata.revision, "rev-0");
    let rule = create_task_rule();
    let proof1 = core.apply(&rule).expect("first apply failed");
    assert_eq!(proof1.before_revision, "rev-0");
    assert_eq!(proof1.after_revision, "rev-1");
    let proof2 = core.apply(&rule).expect("second apply failed");
    assert_eq!(proof2.before_revision, "rev-1");
    assert_eq!(proof2.after_revision, "rev-2");
    assert_eq!(core.snapshot.metadata.revision, "rev-2");
}

#[test]
fn test_assistant_pii_is_rejected_atomically() {
    let mut core = InMemoryCore::new();
    core.snapshot.graph = seed_graph("assistant", "reach me at alice@example.com");
    core.snapshot.metadata.timestamp = fixed_timestamp();
    let before_json = json_snapshot(&core.snapshot());

    let rule = create_task_rule();
    let report = core.validate(&rule).expect("validation should produce a report");
    assert!(!report.is_valid, "a leaking assistant message must fail validation");
    assert!(report.errors.iter().any(|e| e.contains("no_assistant_pii_leak")));

    let outcome = core.apply(&rule);
    assert!(outcome.is_err(), "apply must refuse an invalid rule");
    let after_json = json_snapshot(&core.snapshot());
    assert_eq!(before_json, after_json, "a failed apply must not mutate state");
}

#[test]
fn test_phone_pii_is_rejected() {
    let mut core = InMemoryCore::new();
    core.snapshot.graph = seed_graph("assistant", "call 415-555-1234 today");
    let rule = create_task_rule();
    let report = core.validate(&rule).expect("validation should produce a report");
    assert!(!report.is_valid);
}

#[test]
fn test_user_pii_is_ignored() {
    let mut core = InMemoryCore::new();
    core.snapshot.graph = seed_graph("user", "reach me at alice@example.com");
    let rule = create_task_rule();
    let report = core.validate(&rule).expect("validation should produce a report");
    assert!(report.is_valid, "the guard only watches assistant-authored messages");
}

#[test]
fn test_message_deletion_is_rejected() {
    let mut core = create_test_core_with_initial_state();
    let before_json = json_snapshot(&core.snapshot());
    let rule = DpoRule {
        metadata: RuleMetadata {
            id: "rho_delete_message".to_string(),
            version: "0.1.0".to_string(),
            description: "Would delete a message.".to_string(),
            author: "system".to_string(),
            created_at: fixed_timestamp(),
            tags: vec![],
        },
        left: GraphPattern { nodes: vec![message_pattern("m")], edges: vec![], constraints: vec![] },
        interface: GraphPattern { nodes: vec![], edges: vec![], constraints: vec![] },
        right: Graph::new(),
    };
    let report = core.validate(&rule).expect("validation should produce a report");
    assert!(!report.is_valid);
    assert!(report.errors.iter().any(|e| e.contains("immutable_history")));
    assert!(core.apply(&rule).is_err());
    assert_eq!(before_json, json_snapshot(&core.snapshot()));
}

#[test]
fn test_ill_typed_edge_is_rejected() {
    let mut core = create_test_core_with_initial_state();
    let rule = DpoRule {
        metadata: RuleMetadata {
            id: "rho_bad_edge".to_string(),
            version: "0.1.0".to_string(),
            description: "Attaches a task to a thread with the wrong edge type.".to_string(),
            author: "system".to_string(),
            created_at: fixed_timestamp(),
            tags: vec![],
        },
        left: GraphPattern {
            nodes: vec![NodePattern {
                var: "t".to_string(),
                node_type: Some("Thread".to_string()),
                attr_constraints: Vec::new(),
            }],
            edges: vec![],
            constraints: vec![],
        },
        interface: GraphPattern {
            nodes: vec![NodePattern {
                var: "t".to_string(),
                node_type: Some("Thread".to_string()),
                attr_constraints: Vec::new(),
            }],
            edges: vec![],
            constraints: vec![],
        },
        right: Graph {
            nodes: vec![
                Node { id: "var:t".to_string(), node_type: "Thread".to_string(), attrs: AttrMap::new() },
                Node {
                    id: "new:task".to_string(),
                    node_type: "Task".to_string(),
                    attrs: AttrMap::new(),
                },
            ],
            edges: vec![Edge {
                id: "new:edge".to_string(),
                edge_type: "CREATES_TASK".to_string(),
                src: "var:t".to_string(),
                dst: "new:task".to_string(),
                attrs: AttrMap::new(),
            }],
        },
    };
    let report = core.validate(&rule).expect("validation should produce a report");
    assert!(!report.is_valid);
    assert!(report.errors.iter().any(|e| e.contains("well_typed_edges")));
    assert!(core.apply(&rule).is_err());
}

#[test]
fn test_deleting_a_concept_node_works() {
    let mut core = InMemoryCore::new();
    let mut graph = seed_graph("user", "hello");
    graph.nodes.push(Node {
        id: "concept-1".to_string(),
        node_type: "Concept".to_string(),
        attrs: AttrMap::new(),
    });
    core.snapshot.graph = graph;
    let rule = DpoRule {
        metadata: RuleMetadata {
            id: "rho_drop_concept".to_string(),
            version: "0.1.0".to_string(),
            description: "Deletes one concept node.".to_string(),
            author: "system".to_string(),
            created_at: fixed_timestamp(),
            tags: vec![],
        },
        left: GraphPattern {
            nodes: vec![NodePattern {
                var: "c".to_string(),
                node_type: Some("Concept".to_string()),
                attr_constraints: Vec::new(),
            }],
            edges: vec![],
            constraints: vec![],
        },
        interface: GraphPattern { nodes: vec![], edges: vec![], constraints: vec![] },
        right: Graph::new(),
    };
    let proof = core.apply(&rule).expect("deleting a concept is allowed");
    assert_eq!(proof.diff_summary.nodes_removed, 1);
    assert_eq!(proof.diff_summary.nodes_added, 0);
    assert_eq!(core.snapshot.graph.nodes.len(), 4);
    assert!(core.snapshot.graph.nodes.iter().all(|n| n.id != "concept-1"));
}

#[test]
fn test_matcher_honors_attribute_constraints() {
    let mut core = create_test_core_with_initial_state();
    let mut rule = create_task_rule();
    rule.left.nodes[0].attr_constraints = vec![(
        "author".to_string(),
        vec![AttrOp::Eq { value: Value::Str("assistant".to_string()) }],
    )];
    let outcome = core.validate(&rule);
    assert!(matches!(outcome, Err(CoreError::MatchFailed(_))), "no message has author assistant");
    assert!(matches!(core.apply(&rule), Err(CoreError::MatchFailed(_))));

    let mut rule2 = create_task_rule();
    rule2.left.nodes[0].attr_constraints = vec![(
        "author".to_string(),
        vec![AttrOp::Eq { value: Value::Str("user".to_string()) }],
    )];
    let report = core.validate(&rule2).expect("the user message should match");
    assert!(report.is_valid);
}

#[test]
fn test_matcher_regex_and_order_constraints() {
    let mut core = InMemoryCore::new();
    let mut graph = seed_graph("user", "Please create a task to write the report.");
    graph.nodes.push(Node {
        id: "task-9".to_string(),
        node_type: "Task".to_string(),
        attrs: attrs(vec![("priority", Value::Int(7))]),
    });
    core.snapshot.graph = graph;

    let select_task = |ops: Vec<(&str, Vec<AttrOp>)>| DpoRule {
        metadata: RuleMetadata {
            id: "rho_touch_task".to_string(),
            version: "0.1.0".to_string(),
            description: "Marks the selected task as reviewed.".to_string(),
            author: "system".to_string(),
            created_at: fixed_timestamp(),
            tags: vec![],
        },
        left: GraphPattern {
            nodes: vec![NodePattern {
                var: "t".to_string(),
                node_type: Some("Task".to_string()),
                attr_constraints: ops.into_iter().map(|(k, v)| (k.to_string(), v)).collect(),
            }],
            edges: vec![],
            constraints: vec![],
        },
        interface: GraphPattern {
            nodes: vec![NodePattern {
                var: "t".to_string(),
                node_type: Some("Task".to_string()),
                attr_constraints: Vec::new(),
            }],
            edges: vec![],
            constraints: vec![],
        },
        right: Graph {
            nodes: vec![Node {
                id: "var:t".to_string(),
                node_type: "Task".to_string(),
                attrs: attrs(vec![("status", Value::Str("Reviewed".to_string()))]),
            }],
            edges: vec![],
        },
    };

    let ok = select_task(vec![(
        "priority",
        vec![AttrOp::Gt { value: Value::Int(5) }, AttrOp::Lte { value: Value::Int(7) }],
    )]);
    assert!(core.validate(&ok).expect("should match").is_valid);

    let too_low = select_task(vec![("priority", vec![AttrOp::Lt { value: Value::Int(5) }])]);
    assert!(core.validate(&too_low).is_err(), "priority 7 is not below 5");

    let mut core2 = create_test_core_with_initial_state();
    let mut regex_rule = create_task_rule();
    regex_rule.left.nodes[0].attr_constraints = vec![(
        "content".to_string(),
        vec![AttrOp::Regex { pattern: "task to write".to_string() }],
    )];
    assert!(core2.validate(&regex_rule).expect("regex should match").is_valid);

    let mut regex_miss = create_task_rule();
    regex_miss.left.nodes[0].attr_constraints = vec![(
        "content".to_string(),
        vec![AttrOp::Regex { pattern: "^nothing like this$".to_string() }],
    )];
    assert!(core2.validate(&regex_miss).is_err());

    let mut in_rule = create_task_rule();
    in_rule.left.nodes[0].attr_constraints = vec![(
        "author".to_string(),
        vec![AttrOp::In {
            values: vec![Value::Str("user".to_string()), Value::Str("assistant".to_string())],
        }],
    )];
    assert!(core2.validate(&in_rule).expect("author is in the set").is_valid);
}

#[test]
fn test_attribute_update_replaces_listed_keys_only() {
    let mut core = InMemoryCore::new();
    let mut graph = Graph::new();
    graph.nodes.push(Node {
        id: "task-1".to_string(),
        node_type: "Task".to_string(),
        attrs: attrs(vec![
            ("title", Value::Str("Write the report".to_string())),
            ("status", Value::Str("Pending".to_string())),
        ]),
    });
    core.snapshot.graph = graph;
    let rule = DpoRule {
        metadata: RuleMetadata {
            id: "rho_finish_task".to_string(),
            version: "0.1.0".to_string(),
            description: "Marks a task as done.".to_string(),
            author: "system".to_string(),
            created_at: fixed_timestamp(),
            tags: vec![],
        },
        left: GraphPattern {
            nodes: vec![NodePattern {
                var: "t".to_string(),
                node_type: Some("Task".to_string()),
                attr_constraints: Vec::new(),
            }],
            edges: vec![],
            constraints: vec![],
        },
        interface: GraphPattern {
            nodes: vec![NodePattern {
                var: "t".to_string(),
                node_type: Some("Task".to_string()),
                attr_constraints: Vec::new(),
            }],
            edges: vec![],
            constraints: vec![],
        },
        right: Graph {
            nodes: vec![Node {
                id: "var:t".to_string(),
                node_type: "Task".to_string(),
                attrs: attrs(vec![("status", Value::Str("Done".to_string()))]),
            }],
            edges: vec![],
        },
    };
    core.apply(&rule).expect("attribute update should apply");
    let task = &core.snapshot.graph.nodes[0];
    assert_eq!(task.attrs.get("status"), Some(&Value::Str("Done".to_string())));
    assert_eq!(task.attrs.get("title"), Some(&Value::Str("Write the report".to_string())));
}

#[test]
fn test_node_and_edge_type_tables() {
    assert_eq!(NodeType::from_str("Message"), Some(NodeType::Message));
    assert_eq!(NodeType::from_str("Task"), Some(NodeType::Task));
    assert_eq!(NodeType::from_str("message"), None);
    assert_eq!(EdgeType::from_str("CREATES_TASK"), Some(EdgeType::CreatesTask));
    assert_eq!(EdgeType::from_str("HAS_TURN"), Some(EdgeType::HasTurn));
    assert_eq!(EdgeType::from_str("creates_task"), None);
    assert_eq!(EdgeType::CreatesTask.as_str(), "CREATES_TASK");
    assert_eq!(EdgeType::BlockedBy.as_str(), "BLOCKED_BY");
}

#[test]
fn test_canonical_json_sorts_mapping_keys() {
    let v = Value::Obj(attrs(vec![
        ("title", Value::Str("Write the report".to_string())),
        ("status", Value::Str("Pending".to_string())),
    ]));
    assert_eq!(
        json_value(&v),
        "{\"kind\":\"Obj\",\"value\":{\"status\":{\"kind\":\"Str\",\"value\":\"Pending\"},\"title\":{\"kind\":\"Str\",\"value\":\"Write the report\"}}}"
    );
    let list = Value::List(vec![Value::Int(-3), Value::Bool(true), Value::Null]);
    assert_eq!(
        json_value(&list),
        "{\"kind\":\"List\",\"value\":[{\"kind\":\"Int\",\"value\":-3},{\"kind\":\"Bool\",\"value\":true},{\"kind\":\"Null\"}]}"
    );
    let quoted = Value::Str("a\"b\\c\n".to_string());
    assert_eq!(json_value(&quoted), "{\"kind\":\"Str\",\"value\":\"a\\\"b\\\\c\\u000a\"}");
}

#[test]
fn test_decimal_and_revision_rendering() {
    assert_eq!(u64_to_dec(0), "0");
    assert_eq!(u64_to_dec(907), "907");
    assert_eq!(u64_to_dec(u64::MAX), "18446744073709551615");
    assert_eq!(rev_string(12), "rev-12");
}

#[test]
fn test_rule_hash_is_stable_hex() {
    let h1 = rule_hash(&create_task_rule());
    let h2 = rule_hash(&create_task_rule());
    assert_eq!(h1, h2, "equal rules must hash equally");
    assert_eq!(h1.len(), 64);
    assert!(h1.chars().all(|c| c.is_ascii_hexdigit()));
    let mut other = create_task_rule();
    other.metadata.id = "rho_other".to_string();
    assert_ne!(rule_hash(&other), h1, "the rule id is part of the hashed canonical form");
}

#[test]
fn test_mock_oracle_rejects_unknown_commands() {
    let oracle = MockOracle;
    let core = InMemoryCore::new();
    let snapshot = core.snapshot();
    assert!(oracle.propose_rule("please delete everything", &snapshot).is_err());
    assert!(oracle.propose_rule("CREATE A TASK now", &snapshot).is_ok());
}

#[test]
fn test_snapshot_is_a_frozen_copy() {
    let mut core = create_test_core_with_initial_state();
    let frozen = core.snapshot();
    let frozen_json = json_snapshot(&frozen);
    core.apply(&create_task_rule()).expect("apply failed");
    assert_eq!(frozen_json, json_snapshot(&frozen), "holders of a snapshot see a frozen graph");
    assert_ne!(frozen_json, json_snapshot(&core.snapshot()));
}

#[test]
fn test_malformed_rule_without_sentinel_is_refused() {
    let mut core = create_test_core_with_initial_state();
    let mut rule = create_task_rule();
    rule.right.nodes[1].id = "task-without-prefix".to_string();
    let outcome = core.validate(&rule);
    assert!(matches!(outcome, Err(CoreError::MalformedRule(_))), "an unprefixed id in R is malformed");
    assert!(matches!(core.apply(&rule), Err(CoreError::MalformedRule(_))));
}

#[test]
fn test_interface_variable_must_appear_in_left() {
    let mut core = create_test_core_with_initial_state();
    let mut rule = create_task_rule();
    rule.interface.nodes[0].var = "ghostvar".to_string();
    assert!(matches!(core.validate(&rule), Err(CoreError::MalformedRule(_))));
    assert!(matches!(core.apply(&rule), Err(CoreError::MalformedRule(_))));
}

#[test]
fn test_empty_rule_on_empty_core_only_bumps_revision() {
    let mut core = InMemoryCore::new();
    let rule = DpoRule {
        metadata: RuleMetadata {
            id: "rho_noop".to_string(),
            version: "0.1.0".to_string(),
            description: "Matches the empty pattern and changes nothing.".to_string(),
            author: "system".to_string(),
            created_at: fixed_timestamp(),
            tags: vec![],
        },
        left: GraphPattern { nodes: vec![], edges: vec![], constraints: vec![] },
        interface: GraphPattern { nodes: vec![], edges: vec![], constraints: vec![] },
        right: Graph::new(),
    };
    let proof = core.apply(&rule).expect("the empty rule applies to the empty graph");
    assert_eq!(core.snapshot.graph.nodes.len(), 0);
    assert_eq!(proof.after_revision, "rev-1");
    assert_eq!(proof.diff_summary.nodes_added, 0);
    assert_eq!(proof.diff_summary.edges_added, 0);
}

#[test]
fn test_attr_map_replaces_equal_keys() {
    let mut m = AttrMap::new();
    m.insert("status".to_string(), Value::Str("Pending".to_string()));
    m.insert("status".to_string(), Value::Str("Done".to_string()));
    assert_eq!(m.len(), 1);
    assert_eq!(m.get("status"), Some(&Value::Str("Done".to_string())));
    m.insert("a".to_string(), Value::Int(1));
    assert_eq!(m.key_at(0), "a");
    assert_eq!(m.key_at(1), "status");
}

#[test]
fn test_oracle_refusal_kind_and_refine() {
    let oracle = MockOracle;
    let core = InMemoryCore::new();
    let snapshot = core.snapshot();
    let refused = oracle.propose_rule("please delete everything", &snapshot);
    assert!(matches!(refused, Err(CoreError::InternalError(_))));
    assert_eq!(refused.unwrap_err().kind_name(), "InternalError");
    let rule = create_task_rule();
    let report = llmrmgcore::ValidationReport::from_invariants(vec![]);
    let again = oracle
        .refine_with_feedback("anything", &snapshot, &rule, &report)
        .expect("refine returns a rule");
    assert_eq!(again.metadata.id, rule.metadata.id);
    let mut seeded = create_test_core_with_initial_state();
    let proof = seeded.apply(&rule).expect("apply failed");
    let text = oracle.explain_proof(&proof).expect("explain failed");
    assert_eq!(text, "The rule was applied successfully.");
}
