use vstd::prelude::*;
use crate::text::same_text;
use super::spectral_mixture::spectral_param_count;
use super::kernel::Kernel;

verus! {

/// A kernel specification as the front end describes it: either a composite
/// node whose type is `multiply` or `add`, with two operands, or a leaf that
/// names a kernel and the data columns it operates on, numbered from one.
#[derive(Debug)]
pub enum KernelSpec {
    Composite { composite_type: String, left: Box<KernelSpec>, right: Box<KernelSpec> },
    Leaf { kernel: String, cols: Vec<i32> },
}

/// The composite types that can be built.
pub open spec fn known_composite(name: Seq<char>) -> bool {
    name == "multiply"@ || name == "add"@
}

/// The number of mixture components a spectral leaf name asks for (zero for
/// other names).
pub open spec fn spectral_components(name: Seq<char>) -> nat {
    if name == "spectral1"@ {
        1
    } else if name == "spectral2"@ {
        2
    } else if name == "spectral3"@ {
        3
    } else if name == "spectral4"@ {
        4
    } else if name == "spectral5"@ {
        5
    } else {
        0
    }
}

/// The leaf kernels that can be built.
pub open spec fn known_leaf(name: Seq<char>) -> bool {
    ||| name == "rbf"@
    ||| name == "linear"@
    ||| name == "linear_rbf"@
    ||| name == "id"@
    ||| name == "mask"@
    ||| spectral_components(name) > 0
}

/// The number of parameters of the leaf kernel `name` over `p` columns.
pub open spec fn leaf_param_count(name: Seq<char>, p: nat) -> nat {
    if name == "rbf"@ {
        p + 1
    } else if name == "linear"@ {
        p
    } else if name == "linear_rbf"@ {
        p + (p + 1)
    } else if name == "id"@ {
        1
    } else if name == "mask"@ {
        0
    } else {
        spectral_param_count(spectral_components(name), p)
    }
}

/// Every name in the specification is known and every column number can be
/// decremented without overflow.
pub open spec fn well_named(s: KernelSpec) -> bool
    decreases s,
{
    match s {
        KernelSpec::Composite { composite_type, left, right } => known_composite(composite_type@)
            && well_named(*left) && well_named(*right),
        KernelSpec::Leaf { kernel, cols } => known_leaf(kernel@) && forall|i: int|
            0 <= i < cols@.len() ==> #[trigger] cols@[i] > i32::MIN,
    }
}

/// The number of parameters of the kernel the specification describes.
pub open spec fn spec_param_count(s: KernelSpec) -> nat
    decreases s,
{
    match s {
        KernelSpec::Composite { composite_type, left, right } => spec_param_count(*left)
            + spec_param_count(*right),
        KernelSpec::Leaf { kernel, cols } => leaf_param_count(kernel@, cols@.len()),
    }
}

/// The specification can be built: its names are known and its parameter
/// count fits in a `usize`.
pub open spec fn parsable(s: KernelSpec) -> bool {
    well_named(s) && spec_param_count(s) <= usize::MAX
}

/// The zero-based column indices for one-based column numbers.
pub open spec fn column_indices(cols: Seq<i32>) -> Seq<usize> {
    cols.map_values(|x: i32| (x - 1) as usize)
}

/// `k` is the fresh leaf kernel named `name` over the zero-based columns
/// `cols`, its parameters all `one`; `linear_rbf` is the product of a linear
/// and an RBF kernel over the same columns.
pub open spec fn builds_leaf<T: Copy>(k: Kernel<T>, name: Seq<char>, cols: Seq<usize>, one: T) -> bool {
    if name == "rbf"@ {
        k matches Kernel::ExpQuad(e) && e.is_fresh(cols, one)
    } else if name == "linear"@ {
        k matches Kernel::Linear(l) && l.is_fresh(cols, one)
    } else if name == "linear_rbf"@ {
        &&& k matches Kernel::Multiplicative(m)
        &&& m.children@.len() == 2
        &&& m.children@[0] matches Kernel::Linear(l) && l.is_fresh(cols, one)
        &&& m.children@[1] matches Kernel::ExpQuad(e) && e.is_fresh(cols, one)
    } else if name == "id"@ {
        k matches Kernel::Indicator(i) && i.is_fresh(cols, one)
    } else if name == "mask"@ {
        k matches Kernel::If(f) && f.operating_columns@ == cols
    } else {
        k matches Kernel::SpectralMixture(s) && s.is_fresh(cols, spectral_components(name), one)
    }
}

/// `k` is the kernel the specification describes: `multiply` becomes a
/// product and `add` a sum of the two operands, in order, and each leaf the
/// fresh kernel it names over its columns, shifted to start at zero.
pub open spec fn builds<T: Copy>(k: Kernel<T>, s: KernelSpec, one: T) -> bool
    decreases s,
{
    match s {
        KernelSpec::Composite { composite_type, left, right } => if composite_type@ == "multiply"@ {
            &&& k matches Kernel::Multiplicative(m)
            &&& m.children@.len() == 2
            &&& builds(m.children@[0], *left, one)
            &&& builds(m.children@[1], *right, one)
        } else {
            &&& k matches Kernel::Composite(c)
            &&& c.kernels@.len() == 2
            &&& builds(c.kernels@[0], *left, one)
            &&& builds(c.kernels@[1], *right, one)
        },
        KernelSpec::Leaf { kernel, cols } => builds_leaf(k, kernel@, column_indices(cols@), one),
    }
}

/// The parameter count of a leaf, or `None` when it does not fit in a
/// `usize`.
fn checked_leaf_param_count(name: &str, p: usize) -> (r: Option<usize>)
    requires
        known_leaf(name@),
    ensures
        r == (if leaf_param_count(name@, p as nat) <= usize::MAX {
            Some(leaf_param_count(name@, p as nat) as usize)
        } else {
            None
        }),
{
    if same_text(name, "rbf") {
        p.checked_add(1)
    } else if same_text(name, "linear") {
        Some(p)
    } else if same_text(name, "linear_rbf") {
        match p.checked_add(1) {
            Some(p1) => p.checked_add(p1),
            None => None,
        }
    } else if same_text(name, "id") {
        Some(1)
    } else if same_text(name, "mask") {
        Some(0)
    } else {
        let q: usize = if same_text(name, "spectral1") {
            1
        } else if same_text(name, "spectral2") {
            2
        } else if same_text(name, "spectral3") {
            3
        } else if same_text(name, "spectral4") {
            4
        } else {
            5
        };
        assert(q == spectral_components(name@));
        match q.checked_mul(p) {
            Some(qp) => match qp.checked_mul(2) {
                Some(twice) => q.checked_add(twice),
                None => None,
            },
            None => None,
        }
    }
}

/// Whether `name` is a known leaf kernel.
fn is_known_leaf(name: &str) -> (r: bool)
    ensures
        r == known_leaf(name@),
{
    same_text(name, "rbf") || same_text(name, "linear") || same_text(name, "linear_rbf")
        || same_text(name, "id") || same_text(name, "mask") || same_text(name, "spectral1")
        || same_text(name, "spectral2") || same_text(name, "spectral3") || same_text(
        name,
        "spectral4",
    ) || same_text(name, "spectral5")
}

/// The number of parameters the specification asks for, or `None` when it
/// cannot be built (an unknown name, a column number that cannot be
/// decremented, or a count that does not fit in a `usize`).
pub fn checked_param_count(kernel_specification: &KernelSpec) -> (r: Option<usize>)
    ensures
        r == (if parsable(*kernel_specification) {
            Some(spec_param_count(*kernel_specification) as usize)
        } else {
            None
        }),
    decreases kernel_specification,
{
    match kernel_specification {
        KernelSpec::Composite { composite_type, left, right } => {
            let known = same_text(composite_type.as_str(), "multiply") || same_text(
                composite_type.as_str(),
                "add",
            );
            if !known {
                return None;
            }
            let l = checked_param_count(left);
            let r = checked_param_count(right);
            match (l, r) {
                (Some(a), Some(b)) => a.checked_add(b),
                _ => {
                    proof {
                        if well_named(**left) && well_named(**right) {
                            assert(spec_param_count(*kernel_specification) > usize::MAX);
                        }
                    }
                    None
                },
            }
        },
        KernelSpec::Leaf { kernel, cols } => {
            if !is_known_leaf(kernel.as_str()) {
                return None;
            }
            let n = cols.len();
            let mut i: usize = 0;
            while i < n
                invariant
                    n == cols@.len(),
                    i <= n,
                    forall|j: int| 0 <= j < i ==> #[trigger] cols@[j] > i32::MIN,
                    well_named(*kernel_specification) ==> forall|j: int|
                        0 <= j < n ==> #[trigger] cols@[j] > i32::MIN,
                decreases n - i,
            {
                if cols[i] == i32::MIN {
                    proof {
                        assert(!(cols@[i as int] > i32::MIN));
                        assert(!well_named(*kernel_specification));
                    }
                    return None;
                }
                i = i + 1;
            }
            checked_leaf_param_count(kernel.as_str(), n)
        },
    }
}

/// Whether the specification can be built (see `parsable`).
pub fn is_parsable(kernel_specification: &KernelSpec) -> (r: bool)
    ensures
        r == parsable(*kernel_specification),
{
    checked_param_count(kernel_specification).is_some()
}

} // verus!
