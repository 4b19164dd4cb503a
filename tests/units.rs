use neuron::compose::Composition;
use neuron::linear::LinearReg;
use neuron::matrix::{dot, matrix_mul, transpose};
use neuron::neuron::{step, train, Neuron};
use neuron::quad::QuadReg;
use neuron::split::Split;

#[test]
fn linear_eval() {
    assert_eq!(LinearReg::new().eval(&vec![2], &vec![3, 2]), vec![8]);
    assert_eq!(LinearReg::new().eval(&vec![5], &vec![7, 11]), vec![46]);
}

#[test]
fn linear_derivative() {
    assert_eq!(LinearReg::new().derivative(&vec![2], &vec![3, 2]), vec![vec![3]]);
    assert_eq!(LinearReg::new().derivative(&vec![5], &vec![7, 11]), vec![vec![7]]);
}

#[test]
fn linear_gradient() {
    assert_eq!(LinearReg::new().gradient(&vec![2], &vec![3, 2]), vec![vec![2], vec![1]]);
    assert_eq!(LinearReg::new().gradient(&vec![5], &vec![7, 11]), vec![vec![5], vec![1]]);
}

#[test]
fn quad_eval() {
    assert_eq!(QuadReg::new().eval(&vec![2], &vec![2, 3, 5]), vec![19]);
    assert_eq!(QuadReg::new().eval(&vec![5], &vec![7, 11, 13]), vec![243]);
}

#[test]
fn quad_derivative() {
    assert_eq!(QuadReg::new().derivative(&vec![2], &vec![2, 3, 5]), vec![vec![11]]);
    assert_eq!(QuadReg::new().derivative(&vec![5], &vec![7, 11, 13]), vec![vec![81]]);
}

#[test]
fn quad_gradient() {
    assert_eq!(QuadReg::new().gradient(&vec![2], &vec![2, 3, 5]), vec![vec![4], vec![2], vec![1]]);
    assert_eq!(QuadReg::new().gradient(&vec![5], &vec![7, 11, 13]), vec![vec![25], vec![5], vec![1]]);
}

#[test]
fn matrix_mul_test() {
    let m = vec![vec![1, 2], vec![3, 4], vec![5, 6]];
    let n = vec![vec![1, 2], vec![3, 4]];
    assert_eq!(matrix_mul(&m, &n, 2), vec![vec![7, 10], vec![15, 22], vec![23, 34]]);
}

#[test]
fn dot_sums_products() {
    assert_eq!(dot(&vec![1, 2, 3], &vec![4, -5, 6]), 12);
    assert_eq!(dot(&vec![], &vec![]), 0);
}

#[test]
fn transpose_keeps_columns_of_empty_matrix() {
    assert_eq!(transpose(&vec![vec![1, 2, 3], vec![4, 5, 6]], 3), vec![vec![1, 4], vec![2, 5], vec![3, 6]]);
    let empty: Vec<Vec<i64>> = vec![];
    assert_eq!(transpose(&empty, 2), vec![Vec::<i64>::new(), Vec::<i64>::new()]);
}

#[test]
fn transpose_twice_is_identity() {
    let m = vec![vec![1, 2], vec![3, 4], vec![5, 6]];
    assert_eq!(transpose(&transpose(&m, 2), 3), m);
}

#[test]
fn unit_shapes() {
    let c = Composition::new(LinearReg::new(), QuadReg::new());
    assert_eq!((c.input_len(), c.output_len(), c.param_len()), (1, 1, 5));
    let s = Split::new(LinearReg::new(), QuadReg::new());
    assert_eq!((s.input_len(), s.output_len(), s.param_len()), (1, 2, 5));
    let p = vec![1, 2, 3, 4, 5];
    assert_eq!(s.eval(&vec![3], &p).len(), 2);
    assert_eq!(s.derivative(&vec![3], &p).len(), 1);
    assert_eq!(s.derivative(&vec![3], &p)[0].len(), 2);
    assert_eq!(s.gradient(&vec![3], &p).len(), 5);
    assert!(s.gradient(&vec![3], &p).iter().all(|row| row.len() == 2));
}

#[test]
fn compose_linear_quad_eval() {
    let c = Composition::new(LinearReg::new(), QuadReg::new());
    assert_eq!(c.eval(&vec![2], &vec![3, 1, 1, 0, 0]), vec![49]);
    assert_eq!(c.eval(&vec![-1], &vec![2, 5, 1, -2, 4]), vec![7]);
}

#[test]
fn compose_linear_quad_derivative() {
    let c = Composition::new(LinearReg::new(), QuadReg::new());
    assert_eq!(c.derivative(&vec![2], &vec![3, 1, 1, 0, 0]), vec![vec![42]]);
}

#[test]
fn compose_linear_quad_gradient() {
    let c = Composition::new(LinearReg::new(), QuadReg::new());
    assert_eq!(
        c.gradient(&vec![2], &vec![3, 1, 1, 0, 0]),
        vec![vec![28], vec![14], vec![49], vec![7], vec![1]]
    );
}

#[test]
fn compose_chain_rule_matches_central_difference() {
    let c = Composition::new(LinearReg::new(), QuadReg::new());
    let p = vec![3, -2, 2, 5, -7];
    let x: i64 = 4;
    let h: i64 = 3;
    let up = c.eval(&vec![x + h], &p)[0];
    let down = c.eval(&vec![x - h], &p)[0];
    assert_eq!(up - down, 2 * h * c.derivative(&vec![x], &p)[0][0]);
    let g = c.gradient(&vec![x], &p);
    for k in 0..p.len() {
        let mut pu = p.clone();
        pu[k] += h;
        let mut pd = p.clone();
        pd[k] -= h;
        let diff = c.eval(&vec![x], &pu)[0] - c.eval(&vec![x], &pd)[0];
        assert_eq!(diff, 2 * h * g[k][0]);
    }
}

#[test]
fn leaf_central_difference() {
    let p = vec![2, -3, 5];
    let h: i64 = 2;
    let q = QuadReg::new();
    assert_eq!(
        q.eval(&vec![7 + h], &p)[0] - q.eval(&vec![7 - h], &p)[0],
        2 * h * q.derivative(&vec![7], &p)[0][0]
    );
    let l = LinearReg::new();
    assert_eq!(
        l.eval(&vec![7 + h], &vec![4, 1])[0] - l.eval(&vec![7 - h], &vec![4, 1])[0],
        2 * h * l.derivative(&vec![7], &vec![4, 1])[0][0]
    );
}

#[test]
fn composition_grouping_gives_same_eval() {
    let left = Composition::new(Composition::new(LinearReg::new(), LinearReg::new()), QuadReg::new());
    let right = Composition::new(LinearReg::new(), Composition::new(LinearReg::new(), QuadReg::new()));
    let p = vec![2, 1, -1, 3, 1, 2, -4];
    for x in -3..4 {
        assert_eq!(left.eval(&vec![x], &p), right.eval(&vec![x], &p));
    }
    assert_eq!(left.output_len(), right.output_len());
}

#[test]
fn gradient_blocks_follow_parameter_order() {
    let c = Composition::new(LinearReg::new(), QuadReg::new());
    let p = vec![3, 1, 2, -1, 4];
    let g = c.gradient(&vec![2], &p);
    let y = LinearReg::new().eval(&vec![2], &vec![3, 1]);
    let outer = QuadReg::new().gradient(&y, &vec![2, -1, 4]);
    assert_eq!(g[2..].to_vec(), outer);
    let df = QuadReg::new().derivative(&y, &vec![2, -1, 4])[0][0];
    let inner = LinearReg::new().gradient(&vec![2], &vec![3, 1]);
    assert_eq!(g[0][0], df * inner[0][0]);
    assert_eq!(g[1][0], df * inner[1][0]);
}

#[test]
fn split_eval_derivative_gradient() {
    let s = Split::new(LinearReg::new(), QuadReg::new());
    let p = vec![3, 2, 1, 1, 1];
    assert_eq!(s.eval(&vec![2], &p), vec![8, 7]);
    assert_eq!(s.derivative(&vec![2], &p), vec![vec![3, 5]]);
    assert_eq!(
        s.gradient(&vec![2], &p),
        vec![vec![2, 0], vec![1, 0], vec![0, 4], vec![0, 2], vec![0, 1]]
    );
}

#[test]
fn train_without_iterations_gives_ones() {
    let d = vec![(vec![1], vec![5])];
    assert_eq!(train(&LinearReg::new(), &d, 1, 0), vec![1, 1]);
    assert_eq!(train(&QuadReg::new(), &d, 1, 0), vec![1, 1, 1]);
}

#[test]
fn train_stays_on_exact_fit() {
    let d = vec![(vec![-1], vec![0]), (vec![0], vec![1]), (vec![1], vec![2])];
    assert_eq!(train(&LinearReg::new(), &d, 1, 50), vec![1, 1]);
}

#[test]
fn train_one_step() {
    let d = vec![(vec![1], vec![3])];
    assert_eq!(train(&LinearReg::new(), &d, 1, 1), vec![3, 3]);
    assert_eq!(step(&LinearReg::new(), &vec![1], &vec![3], &vec![1, 1], 1), vec![3, 3]);
}

#[test]
fn train_updates_after_each_sample_in_order() {
    let d = vec![(vec![1], vec![3]), (vec![2], vec![8])];
    let after_first = step(&LinearReg::new(), &vec![1], &vec![3], &vec![1, 1], 1);
    let after_second = step(&LinearReg::new(), &vec![2], &vec![8], &after_first, 1);
    assert_eq!(after_second, vec![-1, 1]);
    assert_eq!(train(&LinearReg::new(), &d, 1, 1), after_second);
}

#[test]
fn train_composition() {
    let c = Composition::new(LinearReg::new(), LinearReg::new());
    let d = vec![(vec![0], vec![2])];
    assert_eq!(train(&c, &d, 1, 0), vec![1, 1, 1, 1]);
    assert_eq!(train(&c, &d, 1, 1), vec![1, 1, 1, 1]);
}
