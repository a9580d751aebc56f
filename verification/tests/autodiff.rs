use scalar_autograd::Graph;
use scalar_autograd::GradStep;
use scalar_autograd::LocalRule;

fn val(g: &Graph, i: usize) -> f32 {
    f32::from_bits(g.val_bits(i))
}

fn grad(g: &Graph, i: usize) -> f32 {
    f32::from_bits(g.grad_bits(i))
}

fn leaf(g: &mut Graph, v: f32) -> usize {
    g.scalar(v.to_bits())
}

fn add(g: &mut Graph, l: usize, r: usize) -> usize {
    let v = val(g, l) + val(g, r);
    g.add(l, r, v.to_bits())
}

fn mul(g: &mut Graph, l: usize, r: usize) -> usize {
    let v = val(g, l) * val(g, r);
    g.mul(l, r, v.to_bits())
}

fn div(g: &mut Graph, l: usize, r: usize) -> usize {
    let v = val(g, l) / val(g, r);
    g.div(l, r, v.to_bits()).expect("division by zero")
}

fn powi(g: &mut Graph, l: usize, n: i32) -> usize {
    let v = val(g, l).powi(n);
    g.powi(l, n, v.to_bits())
}

fn tanh(g: &mut Graph, l: usize) -> usize {
    let v = val(g, l).tanh();
    g.tanh(l, v.to_bits())
}

fn factor(g: &Graph, step: &GradStep) -> f32 {
    match step.rule {
        LocalRule::Identity => 1.0,
        LocalRule::FactorValue { other } => val(g, other),
        LocalRule::FactorRecip { den } => 1.0 / val(g, den),
        LocalRule::FactorNegQuot { num, den } => {
            let d = val(g, den);
            -val(g, num) / (d * d)
        }
        LocalRule::FactorPowi { n } => (n as f32) * val(g, step.dst).powi(n - 1),
        LocalRule::FactorTanh => {
            let v = val(g, step.src);
            1.0 - v * v
        }
    }
}

/// Reset all accumulators, seed the root with 1.0, and evaluate the verified
/// accumulation plan over f32.
fn run_backward(g: &mut Graph, root: usize) {
    g.prepare(root);
    let steps = g.backward(root).expect("backward pass failed");
    for step in steps {
        let delta = f32::from_bits(g.grad_bits(step.src)) * factor(g, &step);
        let new = f32::from_bits(g.grad_bits(step.dst)) + delta;
        g.set_grad(step.dst, new.to_bits());
    }
}

fn all_grads(g: &Graph) -> Vec<u32> {
    let mut out = Vec::new();
    let mut i: usize = 0;
    while i < g.len() {
        out.push(g.grad_bits(i));
        i += 1;
    }
    out
}

#[test]
fn leaf_gradients_are_zero_after_construction() {
    let mut g = Graph::new();
    let a = leaf(&mut g, 2.0);
    let b = leaf(&mut g, -7.5);
    let s = add(&mut g, a, b);
    let p = mul(&mut g, s, a);
    for i in [a, b, s, p] {
        assert_eq!(g.grad_bits(i), 0);
        assert_eq!(grad(&g, i), 0.0);
    }
}

#[test]
fn rerun_after_reset_is_deterministic() {
    let mut g = Graph::new();
    let x = leaf(&mut g, 1.25);
    let y = leaf(&mut g, -0.5);
    let p = mul(&mut g, x, y);
    let q = add(&mut g, p, x);
    let t = tanh(&mut g, q);
    run_backward(&mut g, t);
    let first = all_grads(&g);
    run_backward(&mut g, t);
    let second = all_grads(&g);
    assert_eq!(first, second);
}

#[test]
fn fan_out_gradient_is_sum_of_both_paths() {
    let mut g = Graph::new();
    let p = leaf(&mut g, 2.0);
    let a = leaf(&mut g, 3.0);
    let b = leaf(&mut g, 5.0);
    let m1 = mul(&mut g, p, a);
    let m2 = mul(&mut g, p, b);
    let root = add(&mut g, m1, m2);
    run_backward(&mut g, root);
    assert_eq!(grad(&g, p), val(&g, a) + val(&g, b));
    assert_eq!(grad(&g, p), 8.0);
}

fn central_difference_check<F: Fn(&mut Graph, usize) -> usize>(build: F, x0: f32) {
    let mut g = Graph::new();
    let x = leaf(&mut g, x0);
    let y = build(&mut g, x);
    run_backward(&mut g, y);
    let analytic = grad(&g, x);

    let h = 1e-3f32;
    let mut gp = Graph::new();
    let xp = leaf(&mut gp, x0 + h);
    let yp = build(&mut gp, xp);
    let mut gm = Graph::new();
    let xm = leaf(&mut gm, x0 - h);
    let ym = build(&mut gm, xm);
    let numeric = (val(&gp, yp) - val(&gm, ym)) / (2.0 * h);

    assert!(
        (analytic - numeric).abs() < 1e-2,
        "analytic {} vs numeric {} at x0 {}",
        analytic,
        numeric,
        x0
    );
}

#[test]
fn analytic_gradients_match_central_differences() {
    for x0 in [0.3f32, 0.9, 1.7, -1.2] {
        central_difference_check(
            |g, x| {
                let c = leaf(g, 0.75);
                add(g, x, c)
            },
            x0,
        );
        central_difference_check(
            |g, x| {
                let c = leaf(g, -1.5);
                mul(g, x, c)
            },
            x0,
        );
        central_difference_check(
            |g, x| {
                let c = leaf(g, 2.5);
                div(g, x, c)
            },
            x0,
        );
        central_difference_check(
            |g, x| {
                let c = leaf(g, 2.5);
                div(g, c, x)
            },
            x0,
        );
        central_difference_check(|g, x| powi(g, x, 3), x0);
        central_difference_check(|g, x| tanh(g, x), x0);
    }
}

#[test]
fn tanh_saturates_and_gradient_vanishes() {
    for x0 in [20.0f32, -20.0] {
        let mut g = Graph::new();
        let x = leaf(&mut g, x0);
        let t = tanh(&mut g, x);
        run_backward(&mut g, t);
        assert!(val(&g, t).abs() >= 0.9999);
        assert!(val(&g, t).abs() <= 1.0);
        assert!(grad(&g, x).abs() <= 1e-6);
    }
}

#[test]
fn neuron_example_end_to_end() {
    let mut g = Graph::new();
    let x1 = leaf(&mut g, 2.0);
    let x2 = leaf(&mut g, 0.0);
    let w1 = leaf(&mut g, -3.0);
    let w2 = leaf(&mut g, 1.0);
    let b = leaf(&mut g, 6.8813735870195432);
    let x1w1 = mul(&mut g, x1, w1);
    let x2w2 = mul(&mut g, x2, w2);
    let sum = add(&mut g, x1w1, x2w2);
    let n = add(&mut g, sum, b);
    let o = tanh(&mut g, n);
    run_backward(&mut g, o);

    let tol = 1e-3f32;
    assert!((val(&g, o) - 0.7071).abs() < tol);
    assert!((grad(&g, x1) - -1.5).abs() < tol);
    assert!((grad(&g, w1) - 1.0).abs() < tol);
    assert!((grad(&g, x2) - 0.5).abs() < tol);
    assert!((grad(&g, w2) - 0.0).abs() < tol);
    assert!((grad(&g, b) - 0.5).abs() < tol);
}

#[test]
fn powi_gradient_carries_the_exponent_factor() {
    let mut g = Graph::new();
    let x = leaf(&mut g, 2.0);
    let y = powi(&mut g, x, 3);
    run_backward(&mut g, y);
    assert_eq!(val(&g, y), 8.0);
    assert_eq!(grad(&g, x), 12.0);
}

#[test]
fn division_gradients_follow_the_quotient_rule() {
    let mut g = Graph::new();
    let a = leaf(&mut g, 3.0);
    let b = leaf(&mut g, 2.0);
    let q = div(&mut g, a, b);
    run_backward(&mut g, q);
    assert_eq!(val(&g, q), 1.5);
    assert_eq!(grad(&g, a), 0.5);
    assert_eq!(grad(&g, b), -0.75);
}
