use zoomer_gp::kernel::composite::CompositeKernel;
use zoomer_gp::kernel::kernel::Kernel;
use zoomer_gp::kernel::linear::LinearKernel;
use zoomer_gp::kernel::multiplicative::MultiplicativeKernel;
use zoomer_gp::kernel::rbf::ExpQuadKernel;
use zoomer_gp::kernel::spectral_mixture::SpectralMixtureKernel;
use zoomer_gp::kernel::utils::{
    build_kernel_tree, can_select, check_labels_fit, get_uppercase_letter, recusive_select_kernel,
    remove_first_n_chars,
};

fn example() -> Kernel<f64> {
    let product = Kernel::Multiplicative(MultiplicativeKernel::new(
        Kernel::ExpQuad(ExpQuadKernel::new(vec![0, 1], 1.0)),
        Kernel::SpectralMixture(SpectralMixtureKernel::new(vec![0], 2, 1.0)),
    ));
    Kernel::Composite(CompositeKernel::new(vec![
        product,
        Kernel::Linear(LinearKernel::new(vec![0], 1.0)),
    ]))
}

#[test]
fn uppercase_letters() {
    assert_eq!(get_uppercase_letter(0), Some('A'));
    assert_eq!(get_uppercase_letter(2), Some('C'));
    assert_eq!(get_uppercase_letter(25), Some('Z'));
    assert_eq!(get_uppercase_letter(26), None);
}

#[test]
fn removing_leading_characters() {
    assert_eq!(remove_first_n_chars("ABC", 1), "BC");
    assert_eq!(remove_first_n_chars("héllo", 2), "llo");
    assert_eq!(remove_first_n_chars("AB", 5), "");
    assert_eq!(remove_first_n_chars("", 0), "");
}

#[test]
fn tree_rendering() {
    let k = example();
    assert!(check_labels_fit(&k));
    let text = build_kernel_tree(&k, "", "A", true);
    let expected = "└──  (A) Plus (+)\n    ├──  (AA) Times (*)\n    │   ├──  (AAA) RBF Kernel\n    │   └──  (AAB) Spectral Mixture Kernel with 2\n    └──  (AB) Linear Kernel\n";
    assert_eq!(text, expected);
}

#[test]
fn tree_rendering_with_prefix_not_last() {
    let k = Kernel::Linear(LinearKernel::new(vec![0], 1.0));
    assert_eq!(build_kernel_tree(&k, ">", "Q", false), ">├──  (Q) Linear Kernel\n");
}

#[test]
fn printed_labels_select_their_nodes() {
    let k = example();
    assert_eq!(recusive_select_kernel(&k, "A").describe(), "Plus (+)");
    assert_eq!(recusive_select_kernel(&k, "AA").describe(), "Times (*)");
    assert_eq!(recusive_select_kernel(&k, "AAB").describe(), "Spectral Mixture Kernel with 2");
    assert_eq!(recusive_select_kernel(&k, "AB").describe(), "Linear Kernel");
    assert_eq!(recusive_select_kernel(&k, "ZB").describe(), "Linear Kernel");
}

#[test]
fn labels_that_name_no_node() {
    let k = example();
    assert!(can_select(&k, "AAB"));
    assert!(!can_select(&k, ""));
    assert!(!can_select(&k, "AC"));
    assert!(!can_select(&k, "AAAA"));
    assert!(!can_select(&k, "é"));
    assert!(can_select(&k, "éA"));
    assert!(!can_select(&k, "Aa"));
}

#[test]
fn too_many_children_for_letters() {
    let many: Vec<Kernel<f64>> = (0..27).map(|_| Kernel::Linear(LinearKernel::new(vec![0], 1.0))).collect();
    let k = Kernel::Composite(CompositeKernel::new(many));
    assert!(!check_labels_fit(&k));
    let fine: Vec<Kernel<f64>> = (0..26).map(|_| Kernel::Linear(LinearKernel::new(vec![0], 1.0))).collect();
    assert!(check_labels_fit(&Kernel::Composite(CompositeKernel::new(fine))));
}
