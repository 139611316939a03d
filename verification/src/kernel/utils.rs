use vstd::prelude::*;
use vstd::string::*;
use crate::text::push_char;
use vstd::slice::slice_to_vec;
use crate::text::same_text;
use super::kernel::{Kernel, children_of, description, wf, param_count, lemma_pair_seq};
use super::composite::CompositeKernel;
use super::if_kernel::IfKernel;
use super::indicator::IndicatorKernel;
use super::linear::LinearKernel;
use super::multiplicative::MultiplicativeKernel;
use super::rbf::ExpQuadKernel;
use super::spectral_mixture::SpectralMixtureKernel;
use super::specification::{
    KernelSpec, builds, column_indices, parsable, spec_param_count, spectral_components,
    leaf_param_count,
};

verus! {

// ---------------------------------------------------------------------------
// Labels of sub-kernels
// ---------------------------------------------------------------------------

/// The label letter of the `i`-th child: `A`, `B`, ... (meaningful for
/// `i < 26`).
pub open spec fn letter(i: nat) -> char {
    ((65 + i) as u8) as char
}

/// The code of the `i`-th letter is `65 + i`.
pub proof fn lemma_letter_code(i: nat)
    requires
        i < 26,
    ensures
        letter(i) as int == 65 + i,
{
    assert(((65 + i) as u8) as int == 65 + i);
}

/// The upper-case letter for a child index, if there is one.
pub fn get_uppercase_letter(index: usize) -> (r: Option<char>)
    ensures
        r == (if index < 26 {
            Some(letter(index as nat))
        } else {
            None
        }),
{
    if index < 26 {
        Some((65u8 + index as u8) as char)
    } else {
        None
    }
}

/// The string `s` without its first `n` characters (empty when `s` is
/// shorter).
pub fn remove_first_n_chars(s: &str, n: usize) -> (r: &str)
    ensures
        r@ == s@.subrange(if n < s@.len() { n as int } else { s@.len() as int }, s@.len() as int),
{
    let len = s.unicode_len();
    let start = if n < len {
        n
    } else {
        len
    };
    s.substring_char(start, len)
}

// ---------------------------------------------------------------------------
// Rendering a kernel tree
// ---------------------------------------------------------------------------

/// The connector in front of a node.
pub open spec fn branch_text(is_last: bool) -> Seq<char> {
    if is_last {
        "└── "@
    } else {
        "├── "@
    }
}

/// What the children of a node are indented by, after the node's own prefix.
pub open spec fn indent_text(is_last: bool) -> Seq<char> {
    if is_last {
        "    "@
    } else {
        "│   "@
    }
}

/// The line that describes one node: prefix, connector, label, description.
pub open spec fn node_line<T>(k: Kernel<T>, prefix: Seq<char>, label: Seq<char>, is_last: bool) -> Seq<
    char,
> {
    prefix + branch_text(is_last) + " ("@ + label + ") "@ + description(k) + "\n"@
}

/// The rendering of a kernel tree: the node's line, then the rendering of
/// each child in order, indented, labelled by the node's label followed by
/// the child's letter, the last child marked as last.
pub open spec fn tree_text<T>(k: Kernel<T>, prefix: Seq<char>, label: Seq<char>, is_last: bool) -> Seq<
    char,
>
    decreases k, 0int,
{
    node_line(k, prefix, label, is_last) + match k {
        Kernel::Composite(c) => children_text(c.kernels@, prefix + indent_text(is_last), label, 0),
        Kernel::Multiplicative(m) => children_text(
            m.children@,
            prefix + indent_text(is_last),
            label,
            0,
        ),
        _ => Seq::empty(),
    }
}

/// The renderings of the children `ks[i..]` of a node labelled `label`.
pub open spec fn children_text<T>(ks: Seq<Kernel<T>>, prefix: Seq<char>, label: Seq<char>, i: int) -> Seq<
    char,
>
    decreases ks, ks.len() - i,
{
    if 0 <= i < ks.len() {
        tree_text(ks[i], prefix, label.push(letter(i as nat)), i == ks.len() - 1) + children_text(
            ks,
            prefix,
            label,
            i + 1,
        )
    } else {
        Seq::empty()
    }
}

/// Every node of the tree has at most 26 children, so that each child gets a
/// letter.
pub open spec fn labels_fit<T>(k: Kernel<T>) -> bool
    decreases k, 0int,
{
    match k {
        Kernel::Composite(c) => c.kernels@.len() <= 26 && labels_fit_from(c.kernels@, 0),
        Kernel::Multiplicative(m) => m.children@.len() <= 26 && labels_fit_from(m.children@, 0),
        _ => true,
    }
}

/// Every tree among `ks[i..]` has labels that fit.
pub open spec fn labels_fit_from<T>(ks: Seq<Kernel<T>>, i: int) -> bool
    decreases ks, ks.len() - i,
{
    if 0 <= i < ks.len() {
        labels_fit(ks[i]) && labels_fit_from(ks, i + 1)
    } else {
        true
    }
}

/// Whether every node of the tree has at most 26 children (see
/// `labels_fit`).
pub fn check_labels_fit<T: Copy>(kernel: &Kernel<T>) -> (r: bool)
    ensures
        r == labels_fit(*kernel),
    decreases kernel, 27int,
{
    let children = kernel.children();
    proof {
        lemma_children_decrease(*kernel);
    }
    match kernel {
        Kernel::Composite(_) | Kernel::Multiplicative(_) => {
            if children.len() > 26 {
                return false;
            }
            check_labels_fit_from(children, 0, Ghost(*kernel))
        },
        _ => true,
    }
}

/// Whether every tree among `kernels[i..]` has labels that fit.
fn check_labels_fit_from<T: Copy>(kernels: &[Kernel<T>], i: usize, Ghost(parent): Ghost<Kernel<T>>) -> (r:
    bool)
    requires
        i <= kernels@.len(),
        kernels@.len() <= 26,
        forall|j: int| 0 <= j < kernels@.len() ==> decreases_to!(parent => #[trigger] kernels@[j]),
    ensures
        r == labels_fit_from(kernels@, i as int),
    decreases parent, kernels@.len() - i,
{
    if i == kernels.len() {
        return true;
    }
    check_labels_fit(&kernels[i]) && check_labels_fit_from(kernels, i + 1, Ghost(parent))
}

/// Every child of `k` is smaller than `k`.
proof fn lemma_children_decrease<T>(k: Kernel<T>)
    ensures
        forall|j: int|
            0 <= j < children_of(k).len() ==> decreases_to!(k => #[trigger] children_of(k)[j]),
{
    match k {
        Kernel::Composite(c) => {
            assert(decreases_to!(k => c));
            assert(decreases_to!(k => c.kernels));
            assert(decreases_to!(k => c.kernels@));
        },
        Kernel::Multiplicative(m) => {
            assert(decreases_to!(k => m));
            assert(decreases_to!(k => m.children));
            assert(decreases_to!(k => m.children@));
        },
        _ => {},
    }
}

/// Renders the kernel tree, one line per node, each child labelled by its
/// parent's label followed by its own letter.
pub fn build_kernel_tree<T: Copy>(kernel: &Kernel<T>, prefix: &str, label: &str, is_last: bool) -> (r:
    String)
    requires
        labels_fit(*kernel),
    ensures
        r@ == tree_text(*kernel, prefix@, label@, is_last),
    decreases kernel,
{
    let branch = if is_last {
        "└── "
    } else {
        "├── "
    };
    let mut result = String::from_str(prefix);
    result.append(branch);
    result.append(" (");
    result.append(label);
    result.append(") ");
    let described = kernel.describe();
    result.append(described.as_str());
    result.append("\n");
    let mut new_prefix = String::from_str(prefix);
    if is_last {
        new_prefix.append("    ");
    } else {
        new_prefix.append("│   ");
    }
    let children = kernel.children();
    let n = children.len();
    let ghost ks = children@;
    proof {
        lemma_children_decrease(*kernel);
        assert(children_text(ks, new_prefix@, label@, 0) + Seq::<char>::empty() =~= children_text(
            ks,
            new_prefix@,
            label@,
            0,
        ));
    }
    let mut i: usize = 0;
    while i < n
        invariant
            n == ks.len(),
            children@ == ks,
            ks == children_of(*kernel),
            i <= n,
            n <= 26,
            labels_fit_from(ks, i as int),
            forall|j: int| 0 <= j < n ==> decreases_to!(*kernel => #[trigger] ks[j]),
            result@ + children_text(ks, new_prefix@, label@, i as int) == tree_text(
                *kernel,
                prefix@,
                label@,
                is_last,
            ),
        decreases n - i,
    {
        let last = i == n - 1;
        let mut new_label = String::from_str(label);
        let letter = get_uppercase_letter(i).unwrap();
        push_char(&mut new_label, letter);
        let sub = build_kernel_tree(&children[i], new_prefix.as_str(), new_label.as_str(), last);
        let ghost before = result@;
        result.append(sub.as_str());
        proof {
            assert(before + sub@ + children_text(ks, new_prefix@, label@, i + 1) =~= before + (sub@
                + children_text(ks, new_prefix@, label@, i + 1)));
        }
        i = i + 1;
    }
    proof {
        assert(result@ + children_text(ks, new_prefix@, label@, n as int) =~= result@);
    }
    result
}

// ---------------------------------------------------------------------------
// Selecting a sub-kernel by its label
// ---------------------------------------------------------------------------

/// Whether `path` names a node of the tree rooted at `k`: a path is a label
/// as printed by `build_kernel_tree`; its first character stands for `k`
/// itself (a lone character must be ASCII), and each further letter picks the
/// child of that letter.
pub open spec fn selectable<T>(k: Kernel<T>, path: Seq<char>) -> bool
    decreases path.len(),
{
    if path.len() == 0 {
        false
    } else if path.len() == 1 {
        (path[0] as int) < 128
    } else {
        let j = path[1] as int - 65;
        &&& 0 <= j < 26
        &&& j < children_of(k).len()
        &&& selectable(children_of(k)[j], path.subrange(1, path.len() as int))
    }
}

/// The node that `path` names in the tree rooted at `k`.
pub open spec fn selected<T>(k: Kernel<T>, path: Seq<char>) -> Kernel<T>
    decreases path.len(),
{
    if path.len() <= 1 {
        k
    } else {
        selected(children_of(k)[path[1] as int - 65], path.subrange(1, path.len() as int))
    }
}

/// The node reached from `k` by following the child indices `idx`.
pub open spec fn node_at<T>(k: Kernel<T>, idx: Seq<nat>) -> Kernel<T>
    decreases idx.len(),
{
    if idx.len() == 0 {
        k
    } else {
        node_at(children_of(k)[idx[0] as int], idx.subrange(1, idx.len() as int))
    }
}

/// `idx` leads through the tree: each index names an existing child that has
/// a letter.
pub open spec fn is_path<T>(k: Kernel<T>, idx: Seq<nat>) -> bool
    decreases idx.len(),
{
    idx.len() == 0 || (idx[0] < 26 && idx[0] < children_of(k).len() && is_path(
        children_of(k)[idx[0] as int],
        idx.subrange(1, idx.len() as int),
    ))
}

/// The label `build_kernel_tree` prints for the node at `idx` when the root
/// is labelled `root`: the root's label followed by one letter per step.
pub open spec fn label_of(root: char, idx: Seq<nat>) -> Seq<char> {
    seq![root] + idx.map_values(|i: nat| letter(i))
}

/// The label printed for a node selects that very node: for every path
/// through the tree and every ASCII root label, `recusive_select_kernel`
/// accepts the node's label and returns the node.
pub proof fn law_printed_label_selects_node<T>(k: Kernel<T>, root: char, idx: Seq<nat>)
    requires
        (root as int) < 128,
        is_path(k, idx),
    ensures
        selectable(k, label_of(root, idx)),
        selected(k, label_of(root, idx)) == node_at(k, idx),
    decreases idx.len(),
{
    let path = label_of(root, idx);
    if idx.len() == 0 {
        assert(path =~= seq![root]);
    } else {
        let i = idx[0];
        let rest = idx.subrange(1, idx.len() as int);
        let child = children_of(k)[i as int];
        lemma_letter_code(i);
        law_printed_label_selects_node(child, letter(i), rest);
        assert(path.subrange(1, path.len() as int) =~= label_of(letter(i), rest));
        assert(path[1] == letter(i));
    }
}

/// The sub-kernel that `search_string` labels (see `selectable`).
pub fn recusive_select_kernel<'a, T: Copy>(kernel: &'a Kernel<T>, search_string: &str) -> (r: &'a Kernel<T>)
    requires
        selectable(*kernel, search_string@),
    ensures
        *r == selected(*kernel, search_string@),
    decreases search_string@.len(),
{
    let len = search_string.unicode_len();
    if len == 1 {
        return kernel;
    }
    let requested_letter = search_string.get_char(1);
    let suffix = remove_first_n_chars(search_string, 1);
    let children = kernel.children();
    let ghost j = requested_letter as int - 65;
    let mut i: usize = 0;
    while i < children.len()
        invariant
            children@ == children_of(*kernel),
            j == requested_letter as int - 65,
            0 <= j < 26,
            j < children@.len(),
            i <= j,
            requested_letter == search_string@[1],
            suffix@ == search_string@.subrange(1, search_string@.len() as int),
            selectable(children@[j], suffix@),
            search_string@.len() >= 2,
        decreases children@.len() - i,
    {
        let letter_label = get_uppercase_letter(i).unwrap();
        proof {
            lemma_letter_code(i as nat);
        }
        if letter_label == requested_letter {
            proof {
                assert(i as int == j);
            }
            return recusive_select_kernel(&children[i], suffix);
        }
        proof {
            assert(i as int != j);
        }
        i = i + 1;
    }
    vstd::pervasive::unreached()
}

/// Whether `search_string` labels a node of the tree (see `selectable`).
pub fn can_select<T: Copy>(kernel: &Kernel<T>, search_string: &str) -> (r: bool)
    ensures
        r == selectable(*kernel, search_string@),
    decreases search_string@.len(),
{
    let len = search_string.unicode_len();
    if len == 0 {
        return false;
    }
    if len == 1 {
        let c = search_string.get_char(0);
        return (c as u32) < 128;
    }
    let requested_letter = search_string.get_char(1);
    let code = requested_letter as u32;
    if code < 65 || code >= 65 + 26 {
        return false;
    }
    let j = (code - 65) as usize;
    let children = kernel.children();
    if j >= children.len() {
        return false;
    }
    let suffix = remove_first_n_chars(search_string, 1);
    can_select(&children[j], suffix)
}

// ---------------------------------------------------------------------------
// Building a kernel from its specification
// ---------------------------------------------------------------------------

/// The zero-based column indices for one-based column numbers.
fn to_column_indices(cols: &Vec<i32>) -> (r: Vec<usize>)
    requires
        forall|i: int| 0 <= i < cols@.len() ==> #[trigger] cols@[i] > i32::MIN,
    ensures
        r@ == column_indices(cols@),
{
    let n = cols.len();
    let mut out: Vec<usize> = Vec::with_capacity(n);
    let mut i: usize = 0;
    while i < n
        invariant
            n == cols@.len(),
            i <= n,
            forall|j: int| 0 <= j < n ==> #[trigger] cols@[j] > i32::MIN,
            out@ =~= column_indices(cols@).subrange(0, i as int),
        decreases n - i,
    {
        let x = cols[i];
        out.push((x - 1) as usize);
        i = i + 1;
    }
    out
}

/// The fresh leaf kernel that `name` describes over the zero-based columns
/// `columns`, its parameters all `one`.
fn build_leaf<T: Copy>(name: &str, columns: Vec<usize>, one: T) -> (r: Kernel<T>)
    requires
        super::specification::known_leaf(name@),
        leaf_param_count(name@, columns@.len()) <= usize::MAX,
    ensures
        wf(r),
        super::specification::builds_leaf(r, name@, columns@, one),
        param_count(r) == leaf_param_count(name@, columns@.len()),
{
    if same_text(name, "rbf") {
        Kernel::ExpQuad(ExpQuadKernel::new(columns, one))
    } else if same_text(name, "linear") {
        Kernel::Linear(LinearKernel::new(columns, one))
    } else if same_text(name, "linear_rbf") {
        let linear = Kernel::Linear(LinearKernel::new(slice_to_vec(columns.as_slice()), one));
        let rbf = Kernel::ExpQuad(ExpQuadKernel::new(columns, one));
        let k = MultiplicativeKernel::new(linear, rbf);
        proof {
            lemma_pair_seq(k.children@);
        }
        Kernel::Multiplicative(k)
    } else if same_text(name, "id") {
        Kernel::Indicator(IndicatorKernel::new(columns, one))
    } else if same_text(name, "mask") {
        Kernel::If(IfKernel::new(columns))
    } else {
        let q: usize = if same_text(name, "spectral1") {
            1
        } else if same_text(name, "spectral2") {
            2
        } else if same_text(name, "spectral3") {
            3
        } else if same_text(name, "spectral4") {
            4
        } else {
            5
        };
        assert(q == spectral_components(name@));
        Kernel::SpectralMixture(SpectralMixtureKernel::new(columns, q, one))
    }
}

/// Builds the kernel that a specification describes, every parameter
/// starting at `one`.
pub fn parse_kernel_recursive<T: Copy>(kernel_specification: &KernelSpec, one: T) -> (r: Kernel<T>)
    requires
        parsable(*kernel_specification),
    ensures
        wf(r),
        builds(r, *kernel_specification, one),
        param_count(r) == spec_param_count(*kernel_specification),
    decreases kernel_specification,
{
    match kernel_specification {
        KernelSpec::Composite { composite_type, left, right } => {
            let l = parse_kernel_recursive(left, one);
            let r = parse_kernel_recursive(right, one);
            if same_text(composite_type.as_str(), "multiply") {
                let k = MultiplicativeKernel::new(l, r);
                proof {
                    lemma_pair_seq(k.children@);
                }
                Kernel::Multiplicative(k)
            } else {
                let mut kernels: Vec<Kernel<T>> = Vec::with_capacity(2);
                kernels.push(l);
                kernels.push(r);
                proof {
                    lemma_pair_seq(kernels@);
                }
                Kernel::Composite(CompositeKernel::new(kernels))
            }
        },
        KernelSpec::Leaf { kernel, cols } => {
            let columns = to_column_indices(cols);
            build_leaf(kernel.as_str(), columns, one)
        },
    }
}

} // verus!
