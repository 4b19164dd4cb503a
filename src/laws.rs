use vstd::prelude::*;
use crate::compose::Composition;
use crate::linear::LinearReg;
use crate::quad::QuadReg;
use crate::matrix::{dot_of, dot_prefix, transpose_of};
use crate::neuron::Neuron;

verus! {

/// Column `j` of a matrix stored as rows.
pub open spec fn column(m: Seq<Seq<int>>, j: int) -> Seq<int> {
    Seq::new(m.len(), |i: int| m[i][j])
}

/// Grouping does not matter: composing `a`, `b` and `c` as `(a then b) then c`
/// or as `a then (b then c)` gives units of the same shape that compute the
/// same output for every input and parameter vector.
pub proof fn lemma_composition_associative<A: Neuron, B: Neuron, C: Neuron>(
    left: Composition<Composition<A, B>, C>,
    right: Composition<A, Composition<B, C>>,
    input: Seq<int>,
    params: Seq<int>,
)
    requires
        left.wf(),
        right.wf(),
        left.inner().inner() == right.inner(),
        left.inner().outer() == right.outer().inner(),
        left.outer() == right.outer().outer(),
        input.len() == left.input_dim(),
        params.len() == left.param_dim(),
    ensures
        left.input_dim() == right.input_dim(),
        left.output_dim() == right.output_dim(),
        left.param_dim() == right.param_dim(),
        left.eval_spec(input, params) == right.eval_spec(input, params),
{
    let a = right.inner();
    let pa = a.param_dim() as int;
    let pb = right.outer().inner().param_dim() as int;
    assert(params.take(pa + pb).take(pa) =~= params.take(pa));
    assert(params.take(pa + pb).skip(pa) =~= params.skip(pa).take(pb));
    assert(params.skip(pa + pb) =~= params.skip(pa).skip(pb));
}

/// The chain rule, entry by entry: the composite derivative with respect to
/// input `i`, and the gradient with respect to parameter `k` of the inner
/// unit, are the inner unit's row dotted with the matching column of the
/// outer unit's derivative at the middle value. The rows after the inner
/// unit's parameters are the outer unit's own gradient, unchained.
pub proof fn lemma_chain_rule<N1: Neuron, N2: Neuron>(c: Composition<N1, N2>, input: Seq<int>, params: Seq<int>)
    requires
        c.wf(),
        input.len() == c.input_dim(),
        params.len() == c.param_dim(),
    ensures
        forall|i: int, j: int|
            0 <= i < c.input_dim() && 0 <= j < c.output_dim() ==> #[trigger] c.derivative_spec(input, params)[i][j]
                == dot_of(
                column(c.outer_derivative(input, params), j),
                c.inner().derivative_spec(input, c.inner_params(params))[i],
            ),
        forall|k: int, j: int|
            0 <= k < c.inner().param_dim() && 0 <= j < c.output_dim() ==> #[trigger] c.gradient_spec(input, params)[k][j]
                == dot_of(
                column(c.outer_derivative(input, params), j),
                c.inner().gradient_spec(input, c.inner_params(params))[k],
            ),
        forall|k: int|
            0 <= k < c.outer().param_dim() ==> #[trigger] c.gradient_spec(input, params)[c.inner().param_dim() + k]
                == c.outer().gradient_spec(c.middle(input, params), c.outer_params(params))[k],
{
    let g = c.inner();
    let f = c.outer();
    let pg = c.inner_params(params);
    let y = c.middle(input, params);
    g.lemma_shapes(input, pg);
    f.lemma_shapes(y, c.outer_params(params));
    let o = g.output_dim();
    let o2 = f.output_dim();
    let df = c.outer_derivative(input, params);
    let dg = g.derivative_spec(input, pg);
    let gg = g.gradient_spec(input, pg);
    let gf = f.gradient_spec(y, c.outer_params(params));
    assert forall|j: int| 0 <= j < o2 implies #[trigger] transpose_of(df, o2)[j] == column(df, j) by {
        assert(transpose_of(df, o2)[j] =~= column(df, j));
    }
    assert forall|i: int| 0 <= i < g.input_dim() implies #[trigger] transpose_of(transpose_of(dg, o), g.input_dim())[i] == dg[i] by {
        assert(transpose_of(transpose_of(dg, o), g.input_dim())[i] =~= dg[i]);
    }
    assert forall|k: int| 0 <= k < g.param_dim() implies #[trigger] transpose_of(transpose_of(gg, o), g.param_dim())[k] == gg[k] by {
        assert(transpose_of(transpose_of(gg, o), g.param_dim())[k] =~= gg[k]);
    }
    let ch = c.chained(input, params, gg, g.param_dim());
    assert forall|k: int| 0 <= k < f.param_dim() implies #[trigger] c.gradient_spec(input, params)[g.param_dim() + k] == gf[k] by {
        assert((ch + gf)[ch.len() + k] == gf[k]);
    }
    assert forall|k: int, j: int| 0 <= k < g.param_dim() && 0 <= j < o2 implies #[trigger] c.gradient_spec(input, params)[k][j]
        == dot_of(column(df, j), gg[k]) by {
        assert((ch + gf)[k] == ch[k]);
    }
}

/// The central difference of `q0 t^2 + q1 t` at `y` with step `d`.
proof fn lemma_quadratic_difference(q0: int, q1: int, y: int, d: int)
    ensures
        q0 * (y + d) * (y + d) + q1 * (y + d) - (q0 * (y - d) * (y - d) + q1 * (y - d)) == 2 * d * (q0 * 2 * y + q1),
{
    assert((y + d) * (y + d) - (y - d) * (y - d) == 4 * y * d) by (nonlinear_arith);
    assert(q0 * (y + d) * (y + d) - q0 * (y - d) * (y - d) == q0 * ((y + d) * (y + d) - (y - d) * (y - d))) by (nonlinear_arith);
    assert(q0 * (4 * y * d) == 2 * d * (q0 * 2 * y)) by (nonlinear_arith);
    assert(q1 * (y + d) - q1 * (y - d) == 2 * d * q1) by (nonlinear_arith);
    assert(2 * d * (q0 * 2 * y) + 2 * d * q1 == 2 * d * (q0 * 2 * y + q1)) by (nonlinear_arith);
}

/// For the linear unit followed by the quadratic one, the derivative and the
/// gradient that the chain rule gives are exact central differences of the
/// composite: moving the input `x`, or parameter `k`, by `h` up and by `h`
/// down changes the output by `2 h` times the derivative, or times row `k`
/// of the gradient.
pub proof fn lemma_linear_quad_central_difference(c: Composition<LinearReg, QuadReg>, x: int, h: int, p: Seq<int>, k: int)
    requires
        c.wf(),
        p.len() == 5,
        0 <= k < 5,
    ensures
        c.eval_spec(seq![x + h], p)[0] - c.eval_spec(seq![x - h], p)[0] == 2 * h * c.derivative_spec(seq![x], p)[0][0],
        c.eval_spec(seq![x], p.update(k, p[k] + h))[0] - c.eval_spec(seq![x], p.update(k, p[k] - h))[0]
            == 2 * h * c.gradient_spec(seq![x], p)[k][0],
{
    let xs = seq![x];
    let (a, b, q0, q1, q2) = (p[0], p[1], p[2], p[3], p[4]);
    let y = a * x + b;
    let s = q0 * 2 * y + q1;
    // The composite output at any input and parameter vector of the right size.
    assert forall|z: int, r: Seq<int>| r.len() == 5 implies #[trigger] c.eval_spec(seq![z], r)[0]
        == r[2] * (r[0] * z + r[1]) * (r[0] * z + r[1]) + r[3] * (r[0] * z + r[1]) + r[4] by {
        assert(c.inner_params(r) =~= seq![r[0], r[1]]);
        assert(c.outer_params(r) =~= seq![r[2], r[3], r[4]]);
    }
    lemma_chain_rule(c, xs, p);
    assert(c.inner_params(p) =~= seq![a, b]);
    assert(c.outer_params(p) =~= seq![q0, q1, q2]);
    assert(c.middle(xs, p) =~= seq![y]);
    let df = c.outer_derivative(xs, p);
    assert(column(df, 0) =~= seq![s]);
    assert forall|u: Seq<int>| u.len() == 1 implies #[trigger] dot_of(seq![s], u) == s * u[0] by {
        assert(dot_prefix(seq![s], u, 0) == 0);
    }
    assert(c.inner().derivative_spec(xs, c.inner_params(p))[0] =~= seq![a]);
    assert(c.derivative_spec(xs, p)[0][0] == s * a);
    lemma_quadratic_difference(q0, q1, y, a * h);
    assert(2 * (a * h) * s == 2 * h * (s * a)) by (nonlinear_arith);
    assert(a * (x + h) + b == y + a * h && a * (x - h) + b == y - a * h) by (nonlinear_arith)
        requires y == a * x + b;
    let up = p.update(k, p[k] + h);
    let down = p.update(k, p[k] - h);
    let gg = c.inner().gradient_spec(xs, c.inner_params(p));
    assert(forall|i: int| 0 <= i < 5 && i != k ==> up[i] == p[i] && down[i] == p[i]);
    assert(up[k] == p[k] + h && down[k] == p[k] - h);
    if k == 0 {
        assert(gg[0] =~= seq![x]);
        assert(c.gradient_spec(xs, p)[0][0] == s * x);
        assert((a + h) * x + b == y + x * h && (a - h) * x + b == y - x * h) by (nonlinear_arith)
            requires y == a * x + b;
        lemma_quadratic_difference(q0, q1, y, x * h);
        assert(2 * (x * h) * s == 2 * h * (s * x)) by (nonlinear_arith);
    } else if k == 1 {
        assert(gg[1] =~= seq![1int]);
        assert(c.gradient_spec(xs, p)[1][0] == s * 1);
        lemma_quadratic_difference(q0, q1, y, h);
    } else {
        assert(c.gradient_spec(xs, p)[2 + (k - 2)] == c.outer().gradient_spec(seq![y], seq![q0, q1, q2])[k - 2]);
        assert(c.outer().gradient_spec(seq![y], seq![q0, q1, q2])[k - 2][0] == if k == 2 {
            y * y
        } else if k == 3 {
            y
        } else {
            1
        });
        if k == 2 {
            assert((q0 + h) * y * y - (q0 - h) * y * y == 2 * h * (y * y)) by (nonlinear_arith);
        } else if k == 3 {
            assert((q1 + h) * y - (q1 - h) * y == 2 * h * y) by (nonlinear_arith);
        }
    }
}

} // verus!
