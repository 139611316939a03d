use zoomer_gp::kernel::kernel::Kernel;
use zoomer_gp::kernel::specification::{checked_param_count, is_parsable, KernelSpec};
use zoomer_gp::kernel::utils::parse_kernel_recursive;

fn leaf(name: &str, cols: Vec<i32>) -> KernelSpec {
    KernelSpec::Leaf { kernel: name.to_string(), cols }
}

fn node(kind: &str, left: KernelSpec, right: KernelSpec) -> KernelSpec {
    KernelSpec::Composite {
        composite_type: kind.to_string(),
        left: Box::new(left),
        right: Box::new(right),
    }
}

#[test]
fn single_rbf_over_one_column() {
    let spec = leaf("rbf", vec![1]);
    assert!(is_parsable(&spec));
    assert_eq!(checked_param_count(&spec), Some(2));
    let k: Kernel<f64> = parse_kernel_recursive(&spec, 1.0);
    match &k {
        Kernel::ExpQuad(e) => {
            assert_eq!(e.operating_columns, vec![0]);
            assert_eq!(e.lengthscales, vec![1.0]);
            assert_eq!(e.sigma, 1.0);
        }
        _ => panic!("expected an RBF kernel"),
    }
}

#[test]
fn product_of_rbf_and_spectral() {
    let spec = node("multiply", leaf("rbf", vec![1, 2]), leaf("spectral2", vec![1]));
    let k: Kernel<f64> = parse_kernel_recursive(&spec, 1.0);
    assert_eq!(k.describe(), "Times (*)");
    assert_eq!(k.children()[0].describe(), "RBF Kernel");
    assert_eq!(k.children()[1].describe(), "Spectral Mixture Kernel with 2");
    assert_eq!(k.num_params(), 3 + (2 + 2 * 2));
    assert_eq!(checked_param_count(&spec), Some(k.num_params()));
}

#[test]
fn sum_of_product_and_rbf() {
    let spec = node(
        "add",
        node("multiply", leaf("rbf", vec![1, 2]), leaf("spectral2", vec![1])),
        leaf("rbf", vec![1]),
    );
    let k: Kernel<f64> = parse_kernel_recursive(&spec, 1.0);
    assert_eq!(k.describe(), "Plus (+)");
    assert_eq!(k.children().len(), 2);
    assert_eq!(k.num_params(), 9 + 2);
}

#[test]
fn every_leaf_name() {
    let cases: Vec<(&str, &str, usize)> = vec![
        ("rbf", "RBF Kernel", 3),
        ("linear", "Linear Kernel", 2),
        ("linear_rbf", "Times (*)", 5),
        ("id", "Indicator Kernel", 1),
        ("mask", "If Kernel", 0),
        ("spectral1", "Spectral Mixture Kernel with 1", 5),
        ("spectral3", "Spectral Mixture Kernel with 3", 15),
        ("spectral5", "Spectral Mixture Kernel with 5", 25),
    ];
    for (name, description, count) in cases {
        let spec = leaf(name, vec![1, 3]);
        let k: Kernel<f64> = parse_kernel_recursive(&spec, 1.0);
        assert_eq!(k.describe(), description);
        assert_eq!(k.num_params(), count);
        assert_eq!(k.rec_constraint().len(), count);
    }
}

#[test]
fn linear_rbf_shares_columns() {
    let k: Kernel<f64> = parse_kernel_recursive(&leaf("linear_rbf", vec![2, 4]), 1.0);
    match &k {
        Kernel::Multiplicative(m) => match (&m.children[0], &m.children[1]) {
            (Kernel::Linear(l), Kernel::ExpQuad(e)) => {
                assert_eq!(l.operating_columns, vec![1, 3]);
                assert_eq!(e.operating_columns, vec![1, 3]);
            }
            _ => panic!("expected linear times rbf"),
        },
        _ => panic!("expected a product"),
    }
}

#[test]
fn column_zero_wraps_around() {
    let k: Kernel<f64> = parse_kernel_recursive(&leaf("mask", vec![0]), 1.0);
    match &k {
        Kernel::If(f) => assert_eq!(f.operating_columns, vec![usize::MAX]),
        _ => panic!("expected a mask kernel"),
    }
}

#[test]
fn unknown_names_are_refused() {
    assert!(!is_parsable(&leaf("periodic", vec![1])));
    assert!(!is_parsable(&leaf("spectral6", vec![1])));
    assert!(!is_parsable(&node("subtract", leaf("rbf", vec![1]), leaf("rbf", vec![1]))));
    assert!(!is_parsable(&node("add", leaf("rbf", vec![1]), leaf("nope", vec![1]))));
    assert_eq!(checked_param_count(&leaf("RBF", vec![1])), None);
}

#[test]
fn minimal_column_number_is_refused() {
    assert!(!is_parsable(&leaf("rbf", vec![1, i32::MIN])));
    assert!(is_parsable(&leaf("rbf", vec![1, i32::MIN + 1])));
}

#[test]
fn product_over_every_column_plus_rbf() {
    let spec = node(
        "add",
        node("multiply", leaf("rbf", vec![1, 2, 3, 4]), leaf("spectral2", vec![1])),
        leaf("rbf", vec![1]),
    );
    let k: Kernel<f64> = parse_kernel_recursive(&spec, 1.0);
    match &k.children()[0].children()[0] {
        Kernel::ExpQuad(e) => assert_eq!(e.operating_columns, vec![0, 1, 2, 3]),
        _ => panic!("expected an RBF kernel"),
    }
    assert_eq!(k.num_params(), 5 + 6 + 2);
}
