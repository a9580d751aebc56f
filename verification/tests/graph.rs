use scalar_autograd::Graph;
use scalar_autograd::GraphError;
use scalar_autograd::GradStep;
use scalar_autograd::LocalRule;
use scalar_autograd::Scalar;
use scalar_autograd::ScalarOp;

fn leaf(g: &mut Graph, v: f32) -> usize {
    g.scalar(v.to_bits())
}

#[test]
fn divide_by_zero_fails_fast() {
    let mut g = Graph::new();
    let a = leaf(&mut g, 1.0);
    let b = leaf(&mut g, 0.0);
    let v = (1.0f32 / 0.0f32).to_bits();
    assert_eq!(g.div(a, b, v), Err(GraphError::DivisionByZero));
    assert_eq!(g.len(), 2);
}

#[test]
fn divide_by_negative_zero_fails_fast() {
    let mut g = Graph::new();
    let a = leaf(&mut g, 1.0);
    let b = leaf(&mut g, -0.0);
    let v = (1.0f32 / -0.0f32).to_bits();
    assert_eq!(g.div(a, b, v), Err(GraphError::DivisionByZero));
    assert_eq!(g.len(), 2);
}

#[test]
fn divide_by_nonzero_succeeds() {
    let mut g = Graph::new();
    let a = leaf(&mut g, 1.0);
    let b = leaf(&mut g, 4.0);
    let v = (0.25f32).to_bits();
    assert_eq!(g.div(a, b, v), Ok(2));
    assert_eq!(g.op(2), ScalarOp::Div);
    assert_eq!(g.lhs_parent(2), Some(a));
    assert_eq!(g.rhs_parent(2), Some(b));
}

#[test]
fn backward_through_constant_operand_reports_malformed_graph() {
    let mut g = Graph::new();
    let x = leaf(&mut g, 2.0);
    let v = (2.0f32 * 5.0).to_bits();
    let m = g.mul_const(x, v);
    assert_eq!(g.backward(m), Err(GraphError::MalformedGraph));
}

#[test]
fn unreachable_constant_operand_does_not_disturb_backward() {
    let mut g = Graph::new();
    let x = leaf(&mut g, 2.0);
    let v = (2.0f32 + 5.0).to_bits();
    let c = g.add_const(x, v);
    let y = leaf(&mut g, 3.0);
    let p = g.mul(x, y, (2.0f32 * 3.0).to_bits());
    let steps = g.backward(p).expect("pass should skip the unreachable node");
    assert!(steps.iter().all(|s| s.src != c && s.dst != c));
}

#[test]
fn insert_validates_parent_indices_and_arity() {
    let mut g = Graph::new();
    let a = leaf(&mut g, 1.0);
    let bad_index = Scalar::new_with_parents(0, Some(7), Some(a), ScalarOp::Add);
    assert_eq!(g.insert(bad_index), Err(GraphError::MalformedGraph));
    let leaf_with_parent = Scalar::new_with_parents(0, Some(a), None, ScalarOp::Leaf);
    assert_eq!(g.insert(leaf_with_parent), Err(GraphError::MalformedGraph));
    let half_div = Scalar::new_with_parents(0, Some(a), None, ScalarOp::Div);
    assert_eq!(g.insert(half_div), Err(GraphError::MalformedGraph));
    let tanh_with_rhs = Scalar::new_with_parents(0, None, Some(a), ScalarOp::Tanh);
    assert_eq!(g.insert(tanh_with_rhs), Err(GraphError::MalformedGraph));
    assert_eq!(g.len(), 1);
    let b = leaf(&mut g, 2.0);
    let good = Scalar::new_with_parents((3.0f32).to_bits(), Some(a), Some(b), ScalarOp::Add);
    assert_eq!(g.insert(good), Ok(2));
    assert_eq!(g.len(), 3);
}

#[test]
fn constant_variants_record_mirrored_parents() {
    let mut g = Graph::new();
    let x = leaf(&mut g, 2.0);
    let v = (2.0f32 + 5.0).to_bits();
    let on_right = g.add_const(x, v);
    let on_left = g.const_add(x, v);
    assert_eq!(g.val_bits(on_right), g.val_bits(on_left));
    assert_eq!(g.lhs_parent(on_right), Some(x));
    assert_eq!(g.rhs_parent(on_right), None);
    assert_eq!(g.lhs_parent(on_left), None);
    assert_eq!(g.rhs_parent(on_left), Some(x));
    let w = (2.0f32 * 5.0).to_bits();
    let m_right = g.mul_const(x, w);
    let m_left = g.const_mul(x, w);
    assert_eq!(g.val_bits(m_right), g.val_bits(m_left));
    assert_eq!(g.lhs_parent(m_right), Some(x));
    assert_eq!(g.rhs_parent(m_left), Some(x));
}

#[test]
fn children_are_listed_left_then_right() {
    let mut g = Graph::new();
    let a = leaf(&mut g, 1.0);
    let b = leaf(&mut g, 2.0);
    let m = g.mul(a, b, (2.0f32).to_bits());
    let c = g.add_const(m, (7.0f32).to_bits());
    let k = g.const_mul(m, (4.0f32).to_bits());
    assert_eq!(g.children(a), Vec::<usize>::new());
    assert_eq!(g.children(m), vec![a, b]);
    assert_eq!(g.children(c), vec![m]);
    assert_eq!(g.children(k), vec![m]);
}

#[test]
fn backward_plan_lists_rules_in_reverse_topological_order() {
    let mut g = Graph::new();
    let a = leaf(&mut g, 2.0);
    let b = leaf(&mut g, 3.0);
    let m = g.mul(a, b, (6.0f32).to_bits());
    let t = g.tanh(m, (6.0f32.tanh()).to_bits());
    let steps = g.backward(t).expect("well-formed graph");
    assert_eq!(
        steps,
        vec![
            GradStep { src: t, dst: m, rule: LocalRule::FactorTanh },
            GradStep { src: m, dst: a, rule: LocalRule::FactorValue { other: b } },
            GradStep { src: m, dst: b, rule: LocalRule::FactorValue { other: a } },
        ]
    );
}

#[test]
fn calc_grad_emits_the_local_rule_of_one_node() {
    let mut g = Graph::new();
    let a = leaf(&mut g, 2.0);
    let b = leaf(&mut g, 3.0);
    let s = g.add(a, b, (5.0f32).to_bits());
    let q = g.div(a, b, (2.0f32 / 3.0).to_bits()).expect("nonzero denominator");
    let p = g.powi(s, 4, (625.0f32).to_bits());
    assert_eq!(g.calc_grad(a), Ok(vec![]));
    assert_eq!(
        g.calc_grad(s),
        Ok(vec![
            GradStep { src: s, dst: a, rule: LocalRule::Identity },
            GradStep { src: s, dst: b, rule: LocalRule::Identity },
        ])
    );
    assert_eq!(
        g.calc_grad(q),
        Ok(vec![
            GradStep { src: q, dst: a, rule: LocalRule::FactorRecip { den: b } },
            GradStep { src: q, dst: b, rule: LocalRule::FactorNegQuot { num: a, den: b } },
        ])
    );
    assert_eq!(
        g.calc_grad(p),
        Ok(vec![GradStep { src: p, dst: s, rule: LocalRule::FactorPowi { n: 4 } }])
    );
    let half = g.const_add(a, (9.0f32).to_bits());
    assert_eq!(g.calc_grad(half), Err(GraphError::MalformedGraph));
}

#[test]
fn seed_and_reset_touch_only_gradients() {
    let mut g = Graph::new();
    let a = leaf(&mut g, 1.5);
    let b = leaf(&mut g, 2.5);
    let s = g.add(a, b, (4.0f32).to_bits());
    g.seed(s);
    assert_eq!(g.grad_bits(s), (1.0f32).to_bits());
    assert_eq!(g.grad_bits(a), 0);
    g.set_grad(a, (0.5f32).to_bits());
    assert_eq!(g.grad_bits(a), (0.5f32).to_bits());
    g.reset_grads();
    assert_eq!(g.grad_bits(a), 0);
    assert_eq!(g.grad_bits(b), 0);
    assert_eq!(g.grad_bits(s), 0);
    assert_eq!(g.val_bits(a), (1.5f32).to_bits());
    assert_eq!(g.op(s), ScalarOp::Add);
}

#[test]
fn error_variants_are_distinct() {
    assert_ne!(GraphError::DivisionByZero, GraphError::MalformedGraph);
    assert_ne!(GraphError::DivisionByZero, GraphError::UnsupportedOperation);
    assert_ne!(GraphError::MalformedGraph, GraphError::UnsupportedOperation);
}
