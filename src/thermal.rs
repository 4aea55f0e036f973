use vstd::prelude::*;

use std::rc::Rc;

use crate::label::{parse_core_id, parse_u8_spec, ThermalError};
use crate::layout::{
    is_thermal_chip, is_thermal_name, label_views, law_last_package_wins, plan_features, plan_spec,
    CoreSlot,
};

verus! {

/// The four temperature readings a package or core feature may expose.
#[derive(Debug, Clone, Copy, PartialEq, Eq, Structural)]
pub enum SubfeatureKind {
    /// The instantaneous temperature.
    Current,
    /// The high threshold.
    Max,
    /// The critical threshold.
    Crit,
    /// The critical-alarm flag.
    Alarm,
}

/// Names one temperature reading of a sensor enumeration: the chip and the
/// feature, by position, and the kind of reading. The holder of the
/// enumeration reads the live value through it.
#[derive(Debug, Clone, Copy, PartialEq, Eq, Structural)]
pub struct SubfeatureRef {
    pub chip: usize,
    pub feature: usize,
    pub kind: SubfeatureKind,
}

/// One feature of a chip as enumerated: its label (`None` where it could not
/// be read) and which temperature readings it exposes.
#[derive(Debug, Clone, PartialEq, Eq)]
pub struct FeatureSource {
    pub label: Option<String>,
    pub current: bool,
    pub max: bool,
    pub crit: bool,
    pub alarm: bool,
}

impl FeatureSource {
    /// Whether the feature exposes a reading of `kind`.
    pub open spec fn exposes(&self, kind: SubfeatureKind) -> bool {
        match kind {
            SubfeatureKind::Current => self.current,
            SubfeatureKind::Max => self.max,
            SubfeatureKind::Crit => self.crit,
            SubfeatureKind::Alarm => self.alarm,
        }
    }
}

/// One chip as enumerated: its name (`None` where it could not be read) and
/// its features in enumeration order.
#[derive(Debug, Clone, PartialEq, Eq)]
pub struct ChipSource {
    pub name: Option<String>,
    pub features: Vec<FeatureSource>,
}

/// The reference to the reading of `kind` of feature `feature` of chip
/// `chip`, where that feature exposes one.
pub open spec fn ref_spec(chip: usize, feature: usize, source: FeatureSource, kind: SubfeatureKind) -> Option<
    SubfeatureRef,
> {
    if source.exposes(kind) {
        Some(SubfeatureRef { chip, feature, kind })
    } else {
        None
    }
}

fn reading_ref(chip: usize, feature: usize, exposed: bool, kind: SubfeatureKind) -> (r: Option<
    SubfeatureRef,
>)
    ensures
        exposed ==> r == Some(SubfeatureRef { chip, feature, kind }),
        !exposed ==> r is None,
{
    if exposed {
        Some(SubfeatureRef { chip, feature, kind })
    } else {
        None
    }
}

/// The whole-package temperature sensor.
#[derive(Debug, Clone, PartialEq, Eq)]
pub struct Package {
    current: Option<SubfeatureRef>,
    max: Option<SubfeatureRef>,
    crit: Option<SubfeatureRef>,
    alarm: Option<SubfeatureRef>,
}

impl Package {
    /// The reading held for `kind`, if any.
    pub closed spec fn slot(&self, kind: SubfeatureKind) -> Option<SubfeatureRef> {
        match kind {
            SubfeatureKind::Current => self.current,
            SubfeatureKind::Max => self.max,
            SubfeatureKind::Crit => self.crit,
            SubfeatureKind::Alarm => self.alarm,
        }
    }

    /// Takes the four temperature readings of feature `feature` of chip
    /// `chip`; any of them may be missing, which is no error.
    pub fn new(chip: usize, feature: usize, source: &FeatureSource) -> (r: Package)
        ensures
            forall|k: SubfeatureKind| #[trigger] r.slot(k) == ref_spec(chip, feature, *source, k),
    {
        Package {
            current: reading_ref(chip, feature, source.current, SubfeatureKind::Current),
            max: reading_ref(chip, feature, source.max, SubfeatureKind::Max),
            crit: reading_ref(chip, feature, source.crit, SubfeatureKind::Crit),
            alarm: reading_ref(chip, feature, source.alarm, SubfeatureKind::Alarm),
        }
    }

    /// The instantaneous temperature, if exposed.
    pub fn current(&self) -> (r: Option<&SubfeatureRef>)
        ensures
            refers_to(r, self.slot(SubfeatureKind::Current)),
    {
        self.current.as_ref()
    }

    /// The high threshold, if exposed.
    pub fn max(&self) -> (r: Option<&SubfeatureRef>)
        ensures
            refers_to(r, self.slot(SubfeatureKind::Max)),
    {
        self.max.as_ref()
    }

    /// The critical threshold, if exposed.
    pub fn crit(&self) -> (r: Option<&SubfeatureRef>)
        ensures
            refers_to(r, self.slot(SubfeatureKind::Crit)),
    {
        self.crit.as_ref()
    }

    /// The critical-alarm flag, if exposed.
    pub fn alarm(&self) -> (r: Option<&SubfeatureRef>)
        ensures
            refers_to(r, self.slot(SubfeatureKind::Alarm)),
    {
        self.alarm.as_ref()
    }
}

/// One physical core's temperature sensor.
#[derive(Debug, Clone, PartialEq, Eq)]
pub struct Core {
    pub id: u8,
    current: Option<SubfeatureRef>,
    max: Option<SubfeatureRef>,
    crit: Option<SubfeatureRef>,
    alarm: Option<SubfeatureRef>,
}

impl Core {
    /// The reading held for `kind`, if any.
    pub closed spec fn slot(&self, kind: SubfeatureKind) -> Option<SubfeatureRef> {
        match kind {
            SubfeatureKind::Current => self.current,
            SubfeatureKind::Max => self.max,
            SubfeatureKind::Crit => self.crit,
            SubfeatureKind::Alarm => self.alarm,
        }
    }

    /// The core's id.
    pub closed spec fn core_id(&self) -> u8 {
        self.id
    }

    /// Whether this core has id `id` and the readings of feature `feature`
    /// of chip `chip`.
    pub open spec fn built_from(&self, chip: usize, feature: usize, source: FeatureSource, id: u8) -> bool {
        &&& self.core_id() == id
        &&& forall|k: SubfeatureKind| #[trigger] self.slot(k) == ref_spec(chip, feature, source, k)
    }

    fn with_id(chip: usize, feature: usize, source: &FeatureSource, id: u8) -> (r: Core)
        ensures
            r.built_from(chip, feature, *source, id),
    {
        Core {
            id,
            current: reading_ref(chip, feature, source.current, SubfeatureKind::Current),
            max: reading_ref(chip, feature, source.max, SubfeatureKind::Max),
            crit: reading_ref(chip, feature, source.crit, SubfeatureKind::Crit),
            alarm: reading_ref(chip, feature, source.alarm, SubfeatureKind::Alarm),
        }
    }

    /// Takes the four temperature readings of feature `feature` of chip
    /// `chip` and reads the core id from the label's id token.
    pub fn new(chip: usize, feature: usize, source: &FeatureSource, core_id: &str) -> (r: Result<
        Core,
        ThermalError,
    >)
        ensures
            match parse_u8_spec(core_id@) {
                Some(n) => r is Ok && r->Ok_0.built_from(chip, feature, *source, n),
                None => r is Err && r->Err_0 == ThermalError::InvalidCoreId,
            },
    {
        let id = parse_core_id(core_id)?;
        Ok(Core::with_id(chip, feature, source, id))
    }

    /// The instantaneous temperature, if exposed.
    pub fn current(&self) -> (r: Option<&SubfeatureRef>)
        ensures
            refers_to(r, self.slot(SubfeatureKind::Current)),
    {
        self.current.as_ref()
    }

    /// The high threshold, if exposed.
    pub fn max(&self) -> (r: Option<&SubfeatureRef>)
        ensures
            refers_to(r, self.slot(SubfeatureKind::Max)),
    {
        self.max.as_ref()
    }

    /// The critical threshold, if exposed.
    pub fn crit(&self) -> (r: Option<&SubfeatureRef>)
        ensures
            refers_to(r, self.slot(SubfeatureKind::Crit)),
    {
        self.crit.as_ref()
    }

    /// The critical-alarm flag, if exposed.
    pub fn alarm(&self) -> (r: Option<&SubfeatureRef>)
        ensures
            refers_to(r, self.slot(SubfeatureKind::Alarm)),
    {
        self.alarm.as_ref()
    }
}

/// The chip that the topology is read from: the first chip whose name, read
/// in order from position `i`, starts with `coretemp`; an unreadable name met
/// before it is an error.
pub open spec fn chosen_chip(chips: Seq<ChipSource>, i: int) -> Result<Option<int>, ThermalError>
    decreases chips.len() - i,
{
    if i < 0 || i >= chips.len() {
        Ok(None)
    } else {
        match chips[i].name {
            None => Err(ThermalError::SensorRead),
            Some(n) => if is_thermal_name(n@) {
                Ok(Some(i))
            } else {
                chosen_chip(chips, i + 1)
            },
        }
    }
}

/// The labels of a chip's features, in order.
pub open spec fn feature_labels(features: Seq<FeatureSource>) -> Seq<Option<String>> {
    features.map_values(|f: FeatureSource| f.label)
}

/// The thermal sensors of one CPU: at most one package and the cores in
/// discovery order.
#[derive(Debug, Clone, PartialEq, Eq)]
pub struct Cpu {
    package: Option<Package>,
    cores: Vec<Option<Core>>,
}

impl Cpu {
    /// Whether the topology has a package sensor.
    pub closed spec fn has_package(&self) -> bool {
        self.package is Some
    }

    /// The package's reading of `kind`, if there is a package that has one.
    pub closed spec fn package_slot(&self, kind: SubfeatureKind) -> Option<SubfeatureRef> {
        match self.package {
            Some(p) => p.slot(kind),
            None => None,
        }
    }

    /// The core slots in discovery order.
    pub closed spec fn core_slots(&self) -> Seq<Option<Core>> {
        self.cores@
    }

    /// Whether this topology is the one that layout `p` describes over the
    /// features of chip `chip`.
    pub open spec fn built_from(
        &self,
        chip: usize,
        features: Seq<FeatureSource>,
        p: (Option<usize>, Seq<CoreSlot>),
    ) -> bool {
        &&& self.has_package() == p.0 is Some
        &&& p.0 matches Some(f) ==> forall|k: SubfeatureKind|
            #[trigger] self.package_slot(k) == ref_spec(chip, f, features[f as int], k)
        &&& self.core_slots().len() == p.1.len()
        &&& forall|j: int|
            0 <= j < p.1.len() ==> ((#[trigger] self.core_slots()[j]) matches Some(c) && c.built_from(
                chip,
                p.1[j].feature,
                features[p.1[j].feature as int],
                p.1[j].id,
            ))
    }

    /// Whether this topology has no package and no cores.
    pub open spec fn is_empty(&self) -> bool {
        !self.has_package() && self.core_slots().len() == 0
    }

    /// Builds the topology of a sensor enumeration: the first chip whose name
    /// starts with `coretemp` is read, its `Package` feature (the last one,
    /// if several) and its `Core <n>` features become the package and the
    /// cores. Where no chip matches, the topology is empty.
    pub fn new(chips: &Vec<ChipSource>) -> (r: Result<Cpu, ThermalError>)
        ensures
            topology_spec(chips@, r),
    {
        let mut i: usize = 0;
        while i < chips.len()
            invariant
                i <= chips@.len(),
                chosen_chip(chips@, 0) == chosen_chip(chips@, i as int),
            decreases chips@.len() - i,
        {
            match &chips[i].name {
                None => return Err(ThermalError::SensorRead),
                Some(n) => {
                    if is_thermal_chip(n.as_str()) {
                        return Cpu::from_features(i, &chips[i].features);
                    }
                },
            }
            i = i + 1;
        }
        Ok(Cpu { package: None, cores: Vec::new() })
    }

    /// Builds the topology from the features of chip `chip`, in order.
    fn from_features(chip: usize, features: &Vec<FeatureSource>) -> (r: Result<Cpu, ThermalError>)
        ensures
            match plan_spec(label_views(feature_labels(features@))) {
                Err(e) => r is Err && r->Err_0 == e,
                Ok(p) => r is Ok && r->Ok_0.built_from(chip, features@, p),
            },
    {
        let mut labels: Vec<Option<String>> = Vec::new();
        let mut i: usize = 0;
        while i < features.len()
            invariant
                i <= features@.len(),
                labels@.len() == i,
                forall|j: int|
                    0 <= j < i ==> opt_eq(#[trigger] labels@[j], features@[j].label),
            decreases features@.len() - i,
        {
            let l = match &features[i].label {
                Some(s) => Some(s.clone()),
                None => None,
            };
            labels.push(l);
            i = i + 1;
        }
        assert(label_views(labels@) =~= label_views(feature_labels(features@))) by {
            assert forall|j: int| 0 <= j < labels@.len() implies #[trigger] label_views(labels@)[j]
                == label_views(feature_labels(features@))[j] by {
                assert(opt_eq(labels@[j], features@[j].label));
            }
        }
        let layout = plan_features(&labels)?;
        proof {
            let views = label_views(labels@);
            law_last_package_wins(views);
            let p = plan_spec(views)->Ok_0;
            assert(views.len() == features@.len());
            assert forall|j: int| 0 <= j < layout.cores@.len() implies (
            #[trigger] layout.cores@[j]).feature < features@.len() by {
                assert(layout.cores@[j] == p.1[j]);
            }
        }
        let package = match layout.package {
            Some(f) => Some(Package::new(chip, f, &features[f])),
            None => None,
        };
        let mut cores: Vec<Option<Core>> = Vec::new();
        let mut k: usize = 0;
        while k < layout.cores.len()
            invariant
                k <= layout.cores@.len(),
                cores@.len() == k,
                forall|j: int| 0 <= j < layout.cores@.len() ==> (#[trigger] layout.cores@[j]).feature
                    < features@.len(),
                forall|j: int|
                    0 <= j < k ==> ((#[trigger] cores@[j]) matches Some(c) && c.built_from(
                        chip,
                        layout.cores@[j].feature,
                        features@[layout.cores@[j].feature as int],
                        layout.cores@[j].id,
                    )),
            decreases layout.cores@.len() - k,
        {
            let slot = layout.cores[k];
            cores.push(Some(Core::with_id(chip, slot.feature, &features[slot.feature], slot.id)));
            k = k + 1;
        }
        Ok(Cpu { package, cores })
    }

    /// The package sensor, if the chip has one.
    pub fn package(&self) -> (r: Option<&Package>)
        ensures
            r is Some == self.has_package(),
            r matches Some(p) ==> forall|k: SubfeatureKind| #[trigger] p.slot(k) == self.package_slot(k),
    {
        self.package.as_ref()
    }

    /// The core sensors in discovery order.
    pub fn cores(&self) -> (r: Vec<Option<&Core>>)
        ensures
            r@.len() == self.core_slots().len(),
            forall|k: int| 0 <= k < r@.len() ==> refers_to(#[trigger] r@[k], self.core_slots()[k]),
    {
        let mut out: Vec<Option<&Core>> = Vec::new();
        let mut i: usize = 0;
        while i < self.cores.len()
            invariant
                i <= self.cores@.len(),
                out@.len() == i,
                forall|k: int| 0 <= k < i ==> refers_to(#[trigger] out@[k], self.cores@[k]),
            decreases self.cores@.len() - i,
        {
            out.push(self.cores[i].as_ref());
            i = i + 1;
        }
        out
    }
}

/// What building the topology of `chips` gives: the error of the first
/// unreadable name before the chosen chip, the empty topology where no chip
/// is chosen, or else the chosen chip's layout, or its error.
pub open spec fn topology_spec(chips: Seq<ChipSource>, r: Result<Cpu, ThermalError>) -> bool {
    match chosen_chip(chips, 0) {
        Err(e) => r is Err && r->Err_0 == e,
        Ok(None) => r is Ok && r->Ok_0.is_empty(),
        Ok(Some(i)) => match plan_spec(label_views(feature_labels(chips[i].features@))) {
            Err(e) => r is Err && r->Err_0 == e,
            Ok(p) => r is Ok && r->Ok_0.built_from(i as usize, chips[i].features@, p),
        },
    }
}

/// Building the topology twice from the same enumeration gives the same
/// outcome: the same error, or the same package presence, the same number of
/// cores and the same core ids in the same order.
pub proof fn law_same_source(chips: Seq<ChipSource>, a: Result<Cpu, ThermalError>, b: Result<Cpu, ThermalError>)
    requires
        topology_spec(chips, a),
        topology_spec(chips, b),
    ensures
        a is Ok == b is Ok,
        a is Err ==> a->Err_0 == b->Err_0,
        a is Ok ==> ({
            let (x, y) = (a->Ok_0, b->Ok_0);
            &&& x.has_package() == y.has_package()
            &&& x.core_slots().len() == y.core_slots().len()
            &&& forall|k: int|
                0 <= k < x.core_slots().len() ==> (#[trigger] x.core_slots()[k]) is Some
                    && y.core_slots()[k] is Some
                    && x.core_slots()[k]->Some_0.core_id() == y.core_slots()[k]->Some_0.core_id()
        }),
{
    if let Ok(Some(i)) = chosen_chip(chips, 0) {
        if let Ok(p) = plan_spec(label_views(feature_labels(chips[i].features@))) {
            let (x, y) = (a->Ok_0, b->Ok_0);
            assert forall|k: int| 0 <= k < x.core_slots().len() implies (#[trigger] x.core_slots()[k]) is Some
                && y.core_slots()[k] is Some
                && x.core_slots()[k]->Some_0.core_id() == y.core_slots()[k]->Some_0.core_id() by {
                assert(x.core_slots()[k]->Some_0.built_from(i as usize, p.1[k].feature, chips[i].features@[p.1[k].feature as int], p.1[k].id));
                assert(y.core_slots()[k]->Some_0.built_from(i as usize, p.1[k].feature, chips[i].features@[p.1[k].feature as int], p.1[k].id));
            }
        }
    }
}

proof fn lemma_no_thermal_from(chips: Seq<ChipSource>, i: int)
    requires
        0 <= i,
        forall|j: int|
            0 <= j < chips.len() ==> (#[trigger] chips[j].name matches Some(n) && !is_thermal_name(n@)),
    ensures
        chosen_chip(chips, i) == Ok::<Option<int>, ThermalError>(None),
    decreases chips.len() - i,
{
    if i < chips.len() {
        lemma_no_thermal_from(chips, i + 1);
    }
}

/// Where every chip name was read and none starts with `coretemp`, the
/// topology has no package and no cores, and this is no error.
pub proof fn law_no_thermal_chip(chips: Seq<ChipSource>, r: Result<Cpu, ThermalError>)
    requires
        forall|j: int|
            0 <= j < chips.len() ==> (#[trigger] chips[j].name matches Some(n) && !is_thermal_name(n@)),
        topology_spec(chips, r),
    ensures
        r is Ok,
        !r->Ok_0.has_package(),
        r->Ok_0.core_slots().len() == 0,
{
    lemma_no_thermal_from(chips, 0);
}

/// Whether an optional reference points at the optional value `v`.
pub open spec fn refers_to<T>(r: Option<&T>, v: Option<T>) -> bool {
    match (r, v) {
        (Some(a), Some(b)) => *a == b,
        (None, None) => true,
        _ => false,
    }
}

/// Whether two labels that may be missing are equal.
pub open spec fn opt_eq(a: Option<String>, b: Option<String>) -> bool {
    match (a, b) {
        (Some(x), Some(y)) => x@ == y@,
        (None, None) => true,
        _ => false,
    }
}

/// One monitoring session: a snapshot of the CPU's thermal sensors, shared
/// read-only with any number of readers.
#[derive(Debug)]
pub struct Thermal {
    pub cpu: Rc<Cpu>,
}

impl Thermal {
    /// Takes one snapshot of the CPU topology of a sensor enumeration.
    pub fn new(chips: &Vec<ChipSource>) -> (r: Result<Thermal, ThermalError>)
        ensures
            match r {
                Ok(t) => topology_spec(chips@, Ok::<Cpu, ThermalError>(*t.cpu)),
                Err(e) => topology_spec(chips@, Err::<Cpu, ThermalError>(e)),
            },
    {
        let cpu = Cpu::new(chips)?;
        Ok(Thermal { cpu: Rc::new(cpu) })
    }
}

} // verus!
