//! Tests of the convolution, pooling, embedding, merge and split
//! layers.

use cognitio::layers::conv2d::{self, Conv2D, Padding};
use cognitio::layers::deconv1d::Deconv1D;
use cognitio::layers::embedding::Embedding;
use cognitio::layers::merge::Merge;
use cognitio::layers::pooling2d::Pooling2D;
use cognitio::layers::split::Split;
use cognitio::constraints::Constraint;
use cognitio::regularizers::Regularization;
use cognitio::activations::Identity;
use cognitio::shape::Shape;
use cognitio::tensor::Tensor;

fn rank3(values: Vec<i64>, d0: usize, d1: usize, d2: usize) -> Tensor<i64> {
    Tensor::from_parts(values, Shape::new(vec![d0, d1, d2])).unwrap()
}

#[test]
fn padding_resolves_to_before_and_after_amounts() {
    assert_eq!(Padding::Zero.resolve(), (0, 0));
    assert_eq!(Padding::Symmetrical(2).resolve(), (2, 2));
    assert_eq!(Padding::Asymmetrical(1, 3).resolve(), (1, 3));
}

#[test]
fn unit_convolution_scales_its_input() {
    let layer: Conv2D<Identity> = Conv2D::new(
        Shape::new(vec![2, 2, 1]),
        1,
        (1, 1),
        2,
        0,
        Identity::new(),
        (Padding::Zero, Padding::Zero),
        (1, 1),
        (1, 1),
        1,
        Regularization::Off,
        Regularization::Off,
        Regularization::Off,
        Constraint::Off,
        Constraint::Off,
    )
    .unwrap();
    let x = rank3(vec![1, 2, 3, 4], 2, 2, 1);
    let y = layer.feed_forward(&x);
    assert_eq!(y.get_shape().dim(0), 2);
    assert_eq!(y.get_shape().dim(2), 1);
    assert_eq!(*y.get(&vec![0, 0, 0]), 2);
    assert_eq!(*y.get(&vec![1, 1, 0]), 8);
}

#[test]
fn convolution_backward_produces_kernel_and_bias_gradients() {
    let layer: Conv2D<Identity> = Conv2D::new(
        Shape::new(vec![2, 2, 1]),
        1,
        (1, 1),
        1,
        0,
        Identity::new(),
        (Padding::Zero, Padding::Zero),
        (1, 1),
        (1, 1),
        1,
        Regularization::Off,
        Regularization::Off,
        Regularization::Off,
        Constraint::Off,
        Constraint::Off,
    )
    .unwrap();
    let x = rank3(vec![1, 2, 3, 4], 2, 2, 1);
    let (out, ctx) = layer.back_propagate(&x);
    assert_eq!(*out.get(&vec![0, 1, 0]), 2);
    let g = rank3(vec![1, 1, 1, 1], 2, 2, 1);
    let (input_grad, params) = layer.backward(ctx, &g);
    // with a 1x1 identity kernel each input position feeds exactly
    // one output, and the kernel gradient accumulates every product
    let kernel_grad = &params[0];
    assert_eq!(*kernel_grad.get(&vec![0, 0, 0, 0]), 1 + 2 + 3 + 4);
    let bias_grad = &params[1];
    assert_eq!(*bias_grad.get(&vec![0, 0, 0]), 1);
    assert_eq!(input_grad.get_shape().dim(0), 2);
}

#[test]
fn builder_for_convolution_requires_kernel_and_filters() {
    let r = conv2d::Builder::new().build(Shape::new(vec![2, 2, 1]));
    assert!(r.is_err());
    let ok = conv2d::Builder::new()
        .kernel_shape(1, 1)
        .filters(1)
        .kernel_initializer(1)
        .build(Shape::new(vec![2, 2, 1]));
    assert!(ok.is_ok());
}

#[test]
fn average_pooling_divides_each_window_sum_by_its_count() {
    let layer = Pooling2D::<cognitio::layers::pooling2d::Average>::new(
        Shape::new(vec![2, 2, 1]),
        (2, 2),
        (Padding::Zero, Padding::Zero),
        (1, 1),
        (1, 1),
    )
    .unwrap();
    let x = rank3(vec![1, 2, 3, 4], 2, 2, 1);
    let y = layer.feed_forward(&x);
    assert_eq!(y.get_shape().dim(0), 1);
    assert_eq!(*y.get(&vec![0, 0, 0]), 2);
    let (_, ctx) = layer.back_propagate(&x);
    let g = rank3(vec![8], 1, 1, 1);
    let input_grad = layer.backward(ctx, &g);
    for p in 0..2 {
        for q in 0..2 {
            assert_eq!(*input_grad.get(&vec![p, q, 0]), 2);
        }
    }
}

#[test]
fn max_pooling_routes_the_gradient_to_the_winner() {
    let layer = Pooling2D::<cognitio::layers::pooling2d::Max>::new(
        Shape::new(vec![2, 2, 1]),
        (2, 2),
        (Padding::Zero, Padding::Zero),
        (1, 1),
        (1, 1),
    )
    .unwrap();
    let x = rank3(vec![1, 9, 3, 4], 2, 2, 1);
    let (y, ctx) = layer.back_propagate(&x);
    assert_eq!(*y.get(&vec![0, 0, 0]), 9);
    let g = rank3(vec![7], 1, 1, 1);
    let input_grad = layer.backward(ctx, &g);
    assert_eq!(*input_grad.get(&vec![0, 0, 0]), 0);
    assert_eq!(*input_grad.get(&vec![0, 1, 0]), 7);
    assert_eq!(*input_grad.get(&vec![1, 0, 0]), 0);
}

#[test]
fn embedding_looks_its_row_up_and_learns_only_that_row() {
    let layer = Embedding::new(3, 2, 5, Regularization::Off, Constraint::Off);
    let idx = Tensor::from_parts(vec![1usize], Shape::zero()).unwrap();
    let row = layer.feed_forward(&idx);
    assert_eq!(*row.get(&vec![0]), 5);
    assert_eq!(*row.get(&vec![1]), 5);
    let (_, ctx) = layer.back_propagate(&idx);
    let g = Tensor::from_vec(vec![3, 4]);
    let grads = layer.backward(ctx, &g);
    let table = &grads[0];
    assert_eq!(*table.get(&vec![0, 0]), 0);
    assert_eq!(*table.get(&vec![1, 0]), 3);
    assert_eq!(*table.get(&vec![1, 1]), 4);
    assert_eq!(*table.get(&vec![2, 1]), 0);
}

#[test]
fn embedding_update_steps_the_table() {
    let mut layer = Embedding::new(2, 1, 10, Regularization::Off, Constraint::Off);
    let delta = Tensor::from_parts(vec![4, -6], Shape::new(vec![2, 1])).unwrap();
    layer.update(&vec![delta]);
    let idx0 = Tensor::from_parts(vec![0usize], Shape::zero()).unwrap();
    let idx1 = Tensor::from_parts(vec![1usize], Shape::zero()).unwrap();
    assert_eq!(*layer.feed_forward(&idx0).get(&vec![0]), 6);
    assert_eq!(*layer.feed_forward(&idx1).get(&vec![0]), 16);
}

#[test]
fn merge_sums_and_fans_the_gradient_out() {
    let layer = Merge::new(Shape::new(vec![2]), 2);
    let inputs = vec![
        Tensor::from_vec(vec![1, 2]),
        Tensor::from_vec(vec![10, 20]),
    ];
    let out = layer.feed_forward(&inputs);
    assert_eq!(*out.get(&vec![0]), 11);
    assert_eq!(*out.get(&vec![1]), 22);
    let (_, ctx) = layer.back_propagate(&inputs);
    let g = Tensor::from_vec(vec![5, 6]);
    let grads = layer.backward(ctx, &g);
    assert_eq!(grads.len(), 2);
    assert_eq!(*grads[0].get(&vec![1]), 6);
    assert_eq!(*grads[1].get(&vec![0]), 5);
}

#[test]
fn split_copies_and_sums_the_gradients_back() {
    let layer = Split::new(Shape::new(vec![2]), 3);
    let input = Tensor::from_vec(vec![7, 8]);
    let outs = layer.feed_forward(&input);
    assert_eq!(outs.len(), 3);
    assert_eq!(*outs[2].get(&vec![1]), 8);
    let (_, ctx) = layer.back_propagate(&input);
    let gs = vec![
        Tensor::from_vec(vec![1, 2]),
        Tensor::from_vec(vec![10, 20]),
        Tensor::from_vec(vec![100, 200]),
    ];
    let input_grad = layer.backward(ctx, &gs);
    assert_eq!(*input_grad.get(&vec![0]), 111);
    assert_eq!(*input_grad.get(&vec![1]), 222);
}

#[test]
fn transposed_convolution_scatters_through_the_kernel() {
    let layer: Deconv1D<Identity> = Deconv1D::new(
        Shape::new(vec![1, 1]),
        1,
        2,
        2,
        1,
        Identity::new(),
        Padding::Zero,
        1,
        1,
        Regularization::Off,
        Regularization::Off,
        Regularization::Off,
        Constraint::Off,
        Constraint::Off,
    )
    .unwrap();
    // one input position of value 3 scatters 3 * 2 onto both output
    // positions, on top of the bias of 1
    let x = Tensor::from_parts(vec![3], Shape::new(vec![1, 1])).unwrap();
    let y = layer.feed_forward(&x);
    assert_eq!(y.get_shape().dim(0), 2);
    assert_eq!(*y.get(&vec![0, 0]), 7);
    assert_eq!(*y.get(&vec![1, 0]), 7);

    // the gradient gathers back through the kernel
    let (_, ctx) = layer.back_propagate(&x);
    let g = Tensor::from_parts(vec![1, 1], Shape::new(vec![2, 1])).unwrap();
    let (input_grad, params) = layer.backward(ctx, &g);
    // deltas mirror the recorded pre-activation values: 7 per slot;
    // the input gradient gathers 2 * 7 from each of the two taps
    assert_eq!(*input_grad.get(&vec![0, 0]), 28);
    let kernel_grad = &params[0];
    assert_eq!(*kernel_grad.get(&vec![0, 0, 0]), 21);
    let bias_grad = &params[1];
    assert_eq!(*bias_grad.get(&vec![0, 0]), 7);
}
