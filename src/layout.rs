use vstd::prelude::*;

use crate::label::{
    classify, classify_spec, first_token, parse_core_id, parse_u8_spec, same_chars, second_token,
    Role, RoleView, ThermalError,
};

verus! {

/// A core found on the selected chip: its id and the position of its feature.
#[derive(Debug, Clone, Copy, PartialEq, Eq, Structural)]
pub struct CoreSlot {
    pub id: u8,
    pub feature: usize,
}

/// Which features of the selected chip make up the topology: the package
/// feature, if any, and the cores in discovery order.
#[derive(Debug, Clone, PartialEq, Eq)]
pub struct Layout {
    pub package: Option<usize>,
    pub cores: Vec<CoreSlot>,
}

impl View for Layout {
    type V = (Option<usize>, Seq<CoreSlot>);

    open spec fn view(&self) -> (Option<usize>, Seq<CoreSlot>) {
        (self.package, self.cores@)
    }
}

/// The layout with no package and no cores.
pub open spec fn empty_layout() -> (Option<usize>, Seq<CoreSlot>) {
    (None, Seq::empty())
}

/// Effect of the feature at position `i`, labelled `label`, on a layout:
/// a package replaces any earlier one, a core is appended, anything else is
/// ignored.
pub open spec fn step_spec(
    p: (Option<usize>, Seq<CoreSlot>),
    label: Seq<char>,
    i: usize,
) -> Result<(Option<usize>, Seq<CoreSlot>), ThermalError> {
    match classify_spec(label) {
        Err(e) => Err(e),
        Ok(RoleView::Package) => Ok((Some(i), p.1)),
        Ok(RoleView::Core(t)) => match parse_u8_spec(t) {
            Some(id) => Ok((p.0, p.1.push(CoreSlot { id, feature: i }))),
            None => Err(ThermalError::InvalidCoreId),
        },
        Ok(RoleView::Unclassified) => Ok(p),
    }
}

/// Effect of a feature whose label may have been unreadable (`None`).
pub open spec fn read_step_spec(
    p: (Option<usize>, Seq<CoreSlot>),
    label: Option<Seq<char>>,
    i: usize,
) -> Result<(Option<usize>, Seq<CoreSlot>), ThermalError> {
    match label {
        None => Err(ThermalError::SensorRead),
        Some(l) => step_spec(p, l, i),
    }
}

/// The layout given by a chip's feature labels in order, `None` standing for
/// a label that could not be read; the first failing label decides the error.
pub open spec fn plan_spec(labels: Seq<Option<Seq<char>>>) -> Result<
    (Option<usize>, Seq<CoreSlot>),
    ThermalError,
>
    decreases labels.len(),
{
    if labels.len() == 0 {
        Ok(empty_layout())
    } else {
        match plan_spec(labels.drop_last()) {
            Err(e) => Err(e),
            Ok(p) => read_step_spec(p, labels.last(), (labels.len() - 1) as usize),
        }
    }
}

impl Layout {
    /// A layout with no package and no cores.
    pub fn empty() -> (r: Layout)
        ensures
            r@ == empty_layout(),
    {
        Layout { package: None, cores: Vec::new() }
    }
}

/// Applies the feature at position `index`, labelled `label`, to `layout`;
/// on an error `layout` is left as it was.
pub fn apply_label(layout: &mut Layout, index: usize, label: &str) -> (r: Result<(), ThermalError>)
    ensures
        match step_spec(old(layout)@, label@, index) {
            Ok(p) => r is Ok && final(layout)@ == p,
            Err(e) => r == Err::<(), ThermalError>(e) && final(layout)@ == old(layout)@,
        },
{
    match classify(label) {
        Err(e) => Err(e),
        Ok(Role::Package) => {
            layout.package = Some(index);
            Ok(())
        },
        Ok(Role::Core(t)) => {
            match parse_core_id(t.as_str()) {
                Err(e) => Err(e),
                Ok(id) => {
                    layout.cores.push(CoreSlot { id, feature: index });
                    Ok(())
                },
            }
        },
        Ok(Role::Unclassified) => Ok(()),
    }
}

/// The views of labels that may be missing.
pub open spec fn label_views(labels: Seq<Option<String>>) -> Seq<Option<Seq<char>>> {
    labels.map_values(|l: Option<String>| opt_view(l))
}

/// The view of a label that may be missing.
pub open spec fn opt_view(l: Option<String>) -> Option<Seq<char>> {
    match l {
        Some(s) => Some(s@),
        None => None,
    }
}

/// Builds the layout of one chip from its feature labels, in order; `None`
/// stands for a label that could not be read.
pub fn plan_features(labels: &Vec<Option<String>>) -> (r: Result<Layout, ThermalError>)
    ensures
        match plan_spec(label_views(labels@)) {
            Ok(p) => r is Ok && r->Ok_0@ == p,
            Err(e) => r is Err && r->Err_0 == e,
        },
{
    let mut layout = Layout::empty();
    let mut i: usize = 0;
    while i < labels.len()
        invariant
            i <= labels@.len(),
            plan_spec(label_views(labels@).subrange(0, i as int)) == Ok::<
                (Option<usize>, Seq<CoreSlot>),
                ThermalError,
            >(layout@),
        decreases labels@.len() - i,
    {
        let ghost next = label_views(labels@).subrange(0, i + 1);
        assert(next.drop_last() =~= label_views(labels@).subrange(0, i as int));
        assert(next.last() == opt_view(labels@[i as int]));
        let r = match &labels[i] {
            Some(l) => apply_label(&mut layout, i, l.as_str()),
            None => Err(ThermalError::SensorRead),
        };
        match r {
            Err(e) => {
                proof {
                    lemma_plan_error_sticks(label_views(labels@), i + 1);
                }
                assert(label_views(labels@).subrange(0, labels@.len() as int) =~= label_views(labels@));
                return Err(e);
            },
            Ok(()) => {},
        }
        i = i + 1;
    }
    assert(label_views(labels@).subrange(0, labels@.len() as int) =~= label_views(labels@));
    Ok(layout)
}

/// Once a prefix of the labels fails, every longer prefix fails the same way.
proof fn lemma_plan_error_sticks(labels: Seq<Option<Seq<char>>>, k: int)
    requires
        0 <= k <= labels.len(),
        plan_spec(labels.subrange(0, k)) is Err,
    ensures
        plan_spec(labels) == plan_spec(labels.subrange(0, k)),
    decreases labels.len() - k,
{
    if k < labels.len() {
        let next = labels.subrange(0, k + 1);
        assert(next.drop_last() =~= labels.subrange(0, k));
        lemma_plan_error_sticks(labels, k + 1);
    } else {
        assert(labels.subrange(0, k) =~= labels);
    }
}

/// Whether a chip name belongs to the recognised sensor family.
pub open spec fn is_thermal_name(name: Seq<char>) -> bool {
    name.len() >= 8 && name.subrange(0, 8) == "coretemp"@
}

/// Whether `name` starts with the recognised chip prefix `coretemp`.
pub fn is_thermal_chip(name: &str) -> (r: bool)
    ensures
        r == is_thermal_name(name@),
{
    name.unicode_len() >= 8 && same_chars(name.substring_char(0, 8), "coretemp")
}

/// A label whose first token is `Package` is classified as the package
/// sensor, whatever follows it.
pub proof fn law_package_label(label: Seq<char>)
    requires
        first_token(label) == "Package"@,
    ensures
        classify_spec(label) == Ok::<RoleView, ThermalError>(RoleView::Package),
{
    reveal_strlit("Package");
    reveal_strlit("Core");
    assert(first_token(label).len() == 7);
    assert(first_token(label)[0] != "Core"@[0]);
}

/// A label `Core <n>` adds a core with id `n` when `n` reads as an integer
/// in `0..=255`, and fails with `InvalidCoreId` otherwise.
pub proof fn law_core_label(p: (Option<usize>, Seq<CoreSlot>), label: Seq<char>, i: usize)
    requires
        first_token(label) == "Core"@,
        second_token(label).len() > 0,
    ensures
        match parse_u8_spec(second_token(label)) {
            Some(n) => step_spec(p, label, i) == Ok::<
                (Option<usize>, Seq<CoreSlot>),
                ThermalError,
            >((p.0, p.1.push(CoreSlot { id: n, feature: i }))),
            None => step_spec(p, label, i) == Err::<
                (Option<usize>, Seq<CoreSlot>),
                ThermalError,
            >(ThermalError::InvalidCoreId),
        },
{
    reveal_strlit("Package");
    reveal_strlit("Core");
    assert(first_token(label).len() == 4);
    assert(first_token(label) != "Package"@);
}

/// A label whose first token is neither `Package` nor `Core` is
/// unclassified and leaves the layout as it was.
pub proof fn law_other_label(p: (Option<usize>, Seq<CoreSlot>), label: Seq<char>, i: usize)
    requires
        first_token(label).len() > 0,
        first_token(label) != "Package"@,
        first_token(label) != "Core"@,
    ensures
        classify_spec(label) == Ok::<RoleView, ThermalError>(RoleView::Unclassified),
        step_spec(p, label, i) == Ok::<(Option<usize>, Seq<CoreSlot>), ThermalError>(p),
{
}

/// Whether a label was read and names the package sensor.
pub open spec fn is_package_label(l: Option<Seq<char>>) -> bool {
    l matches Some(s) && classify_spec(s) == Ok::<RoleView, ThermalError>(RoleView::Package)
}

/// A layout keeps at most one package: the last package-labelled feature.
/// Every feature position it refers to is one of the labels.
pub proof fn law_last_package_wins(labels: Seq<Option<Seq<char>>>)
    requires
        labels.len() <= usize::MAX,
        plan_spec(labels) is Ok,
    ensures
        ({
            let p = plan_spec(labels)->Ok_0;
            &&& p.0 matches Some(i) ==> {
                &&& i < labels.len()
                &&& is_package_label(labels[i as int])
                &&& forall|j: int|
                    i < j < labels.len() ==> !is_package_label(#[trigger] labels[j])
            }
            &&& p.0 is None ==> forall|j: int|
                0 <= j < labels.len() ==> !is_package_label(#[trigger] labels[j])
            &&& forall|k: int| 0 <= k < p.1.len() ==> (#[trigger] p.1[k]).feature < labels.len()
        }),
    decreases labels.len(),
{
    if labels.len() > 0 {
        let init = labels.drop_last();
        let n = labels.len() - 1;
        law_last_package_wins(init);
        assert forall|j: int| 0 <= j < init.len() implies #[trigger] labels[j] == init[j] by {}
        assert(labels.last() == labels[n]);
        let q = plan_spec(init)->Ok_0;
        let p = plan_spec(labels)->Ok_0;
        assert(p == read_step_spec(q, labels[n], n as usize)->Ok_0);
        if !is_package_label(labels[n]) {
            assert(p.0 == q.0);
            assert forall|k: int| 0 <= k < p.1.len() implies (#[trigger] p.1[k]).feature
                < labels.len() by {
                if k < q.1.len() {
                    assert(p.1[k] == q.1[k]);
                }
            }
        } else {
            assert(p.1 == q.1);
        }
    }
}

} // verus!
