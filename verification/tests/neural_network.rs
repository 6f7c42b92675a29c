use matrix_nn::matrix::{Matrix, MatrixError};
use matrix_nn::neural_network::{relu, relu_matrix, NeuralNetwork, NeuralNetworkError};

fn matrix_a() -> Matrix<f64> {
    Matrix::new(vec![
        vec![1.0, -2.0, 3.0, -4.0],
        vec![4.0, -2.0, -2.0, 1.0],
        vec![1.0, -1.0, 1.0, -1.0],
    ])
    .unwrap()
}

#[test]
fn proper_relu_returned() {
    assert_eq!(relu(4.0), 4.0);
    assert_eq!(relu(-12.0), 0.0);
}

#[test]
fn proper_relu_matrix_returned() {
    let a = relu_matrix(matrix_a());
    let b = Matrix::new(vec![
        vec![1.0, 0.0, 3.0, 0.0],
        vec![4.0, 0.0, 0.0, 1.0],
        vec![1.0, 0.0, 1.0, 0.0],
    ])
    .unwrap();

    assert_eq!(a, b);
}

#[test]
fn proper_output_computed() {
    let weights = vec![
        Matrix::new(vec![
            vec![-4.0, -5.0, 1.0, -2.0],
            vec![-5.0, 3.0, 0.0, -9.0],
            vec![-4.0, 9.0, -4.0, 5.0],
            vec![3.0, 5.0, 9.0, -2.0],
            vec![-8.0, -6.0, 1.0, 6.0],
        ])
        .unwrap(),
        Matrix::new(vec![
            vec![9.0, 0.0, 3.0, 6.0, 7.0],
            vec![4.0, -9.0, 8.0, 3.0, -3.0],
            vec![-6.0, -4.0, -3.0, -8.0, 0.0],
            vec![4.0, 9.0, -4.0, 4.0, -8.0],
            vec![-4.0, 0.0, 0.0, -3.0, 6.0],
        ])
        .unwrap(),
        Matrix::new(vec![vec![-4.0, -2.0, 6.0, 0.0, 4.0]]).unwrap(),
    ];

    let biases = vec![
        Matrix::new(vec![
            vec![-3.0],
            vec![-7.0],
            vec![6.0],
            vec![-9.0],
            vec![9.0],
        ])
        .unwrap(),
        Matrix::new(vec![
            vec![-2.0],
            vec![7.0],
            vec![0.0],
            vec![-5.0],
            vec![6.0],
        ])
        .unwrap(),
        Matrix::new(vec![vec![0.0]]).unwrap(),
    ];

    let use_relu = vec![true, true, false];

    let input = Matrix::new(vec![vec![1.0], vec![1.0], vec![1.0], vec![1.0]]).unwrap();

    let neural_network = NeuralNetwork::new(use_relu, weights, biases).unwrap();
    let a = neural_network.compute_output(input).unwrap();
    let b = Matrix::new(vec![vec![-566.0]]).unwrap();

    assert_eq!(a, b);
}

fn single(value: i64) -> Matrix<i64> {
    Matrix::new(vec![vec![value]]).unwrap()
}

#[test]
fn relu_keeps_what_is_above_zero() {
    assert_eq!(relu(5i64), 5);
    assert_eq!(relu(1i64), 1);
    assert_eq!(relu(0i64), 0);
    assert_eq!(relu(-1i64), 0);
    assert_eq!(relu(i64::MIN), 0);
    assert_eq!(relu(0.5), 0.5);
    assert_eq!(relu(-0.5), 0.0);
}

#[test]
fn relu_matrix_keeps_the_shape() {
    let m = Matrix::new(vec![vec![3, -3], vec![-1, 0], vec![-7, 7]]).unwrap();
    let r = relu_matrix(m);
    assert_eq!(r, Matrix::new(vec![vec![3, 0], vec![0, 0], vec![0, 7]]).unwrap());
    assert_eq!(r.row_num(), 3);
    assert_eq!(r.col_num(), 2);
    let r = relu_matrix(Matrix::new(vec![vec![-9]]).unwrap());
    assert_eq!(r, Matrix::new(vec![vec![0]]).unwrap());
}

#[test]
fn network_refuses_lists_of_unequal_length() {
    let two_switches = NeuralNetwork::new(vec![true, false], vec![single(1)], vec![single(1)]);
    assert!(matches!(two_switches, Err(NeuralNetworkError::InvalidArgument)));
    let no_bias = NeuralNetwork::new(vec![true], vec![single(1)], vec![]);
    assert!(matches!(no_bias, Err(NeuralNetworkError::InvalidArgument)));
    let no_weight = NeuralNetwork::new(vec![true], vec![], vec![single(1)]);
    assert!(matches!(no_weight, Err(NeuralNetworkError::InvalidArgument)));
}

#[test]
fn network_without_layers_returns_its_input() {
    let network: NeuralNetwork<i64> = NeuralNetwork::new(vec![], vec![], vec![]).unwrap();
    let input = Matrix::new(vec![vec![1, -2], vec![3, -4]]).unwrap();
    let output = network.compute_output(input).unwrap();
    assert_eq!(output, Matrix::new(vec![vec![1, -2], vec![3, -4]]).unwrap());
}

#[test]
fn network_multiplies_adds_and_takes_relu() {
    let with_relu = NeuralNetwork::new(vec![true], vec![single(2)], vec![single(1)]).unwrap();
    assert_eq!(with_relu.compute_output(single(3)).unwrap(), single(7));
    assert_eq!(with_relu.compute_output(single(-3)).unwrap(), single(0));
    let without = NeuralNetwork::new(vec![false], vec![single(2)], vec![single(1)]).unwrap();
    assert_eq!(without.compute_output(single(3)).unwrap(), single(7));
    assert_eq!(without.compute_output(single(-3)).unwrap(), single(-5));
}

#[test]
fn network_feeds_each_layer_with_the_one_before() {
    let weights = vec![
        Matrix::new(vec![vec![1, -1], vec![-1, 1]]).unwrap(),
        Matrix::new(vec![vec![2, 3]]).unwrap(),
    ];
    let biases = vec![Matrix::new(vec![vec![0], vec![1]]).unwrap(), single(-4)];
    let network = NeuralNetwork::new(vec![true, false], weights, biases).unwrap();
    let input = Matrix::new(vec![vec![5], vec![2]]).unwrap();
    assert_eq!(network.compute_output(input).unwrap(), single(2));
}

#[test]
fn network_reports_shapes_that_do_not_fit() {
    let network = NeuralNetwork::new(vec![false], vec![single(2)], vec![single(1)]).unwrap();
    let two_rows = Matrix::new(vec![vec![1], vec![2]]).unwrap();
    assert!(matches!(
        network.compute_output(two_rows),
        Err(NeuralNetworkError::MatrixError(MatrixError::InvalidArgument))
    ));
    let wide_bias = Matrix::new(vec![vec![1, 2]]).unwrap();
    let network = NeuralNetwork::new(vec![false], vec![single(2)], vec![wide_bias]).unwrap();
    assert!(matches!(
        network.compute_output(single(1)),
        Err(NeuralNetworkError::MatrixError(MatrixError::InvalidArgument))
    ));
}

#[test]
fn matrix_error_becomes_network_error() {
    let error = NeuralNetworkError::from(MatrixError::InvalidArgument);
    assert!(matches!(error, NeuralNetworkError::MatrixError(MatrixError::InvalidArgument)));
    let error = NeuralNetworkError::from(MatrixError::BadInternalState);
    assert!(matches!(error, NeuralNetworkError::MatrixError(MatrixError::BadInternalState)));
}
