use cpu_thermal::label::ThermalError;
use cpu_thermal::layout::{apply_label, is_thermal_chip, plan_features, CoreSlot, Layout};
use cpu_thermal::thermal::{ChipSource, Cpu, FeatureSource, SubfeatureKind, SubfeatureRef, Thermal};

fn labels(v: &[&str]) -> Vec<Option<String>> {
    v.iter().map(|s| Some(s.to_string())).collect()
}

fn full(label: &str) -> FeatureSource {
    FeatureSource { label: Some(label.to_string()), current: true, max: true, crit: true, alarm: true }
}

fn chip(name: &str, features: Vec<FeatureSource>) -> ChipSource {
    ChipSource { name: Some(name.to_string()), features }
}

#[test]
fn scenario_package_and_two_cores() {
    let chips = vec![chip(
        "coretemp-isa-0000",
        vec![full("Package id 0"), full("Core 0"), full("Core 1")],
    )];
    let cpu = Cpu::new(&chips).unwrap();
    assert_eq!(cpu.package().is_some(), true);
    let cores = cpu.cores();
    assert_eq!(cores.len(), 2);
    assert_eq!(cores[0].unwrap().id, 0);
    assert_eq!(cores[1].unwrap().id, 1);
    assert_eq!(
        cores[1].unwrap().current(),
        Some(&SubfeatureRef { chip: 0, feature: 2, kind: SubfeatureKind::Current })
    );
    assert_eq!(
        cpu.package().unwrap().alarm(),
        Some(&SubfeatureRef { chip: 0, feature: 0, kind: SubfeatureKind::Alarm })
    );
}

#[test]
fn scenario_non_numeric_core_id() {
    let chips = vec![chip("coretemp-isa-0000", vec![full("Core x")])];
    assert_eq!(Cpu::new(&chips).err(), Some(ThermalError::InvalidCoreId));
    assert_eq!(Thermal::new(&chips).err(), Some(ThermalError::InvalidCoreId));
}

#[test]
fn scenario_no_matching_chip() {
    let chips = vec![chip("acpitz-acpi-0", vec![full("temp1")]), chip("nvme-pci-0100", vec![full("Core 1")])];
    let cpu = Cpu::new(&chips).unwrap();
    assert!(cpu.package().is_none());
    assert!(cpu.cores().is_empty());
    let none = Cpu::new(&vec![]).unwrap();
    assert!(none.package().is_none());
    assert!(none.cores().is_empty());
}

#[test]
fn scenario_core_without_max() {
    let feature = FeatureSource { label: Some("Core 0".to_string()), current: true, max: false, crit: true, alarm: false };
    let chips = vec![chip("acpitz-acpi-0", vec![]), chip("coretemp-isa-0000", vec![feature])];
    let thermal = Thermal::new(&chips).unwrap();
    let cores = thermal.cpu.cores();
    let core = cores[0].unwrap();
    assert_eq!(core.max(), None);
    assert_eq!(core.alarm(), None);
    assert_eq!(core.current(), Some(&SubfeatureRef { chip: 1, feature: 0, kind: SubfeatureKind::Current }));
    assert_eq!(core.crit(), Some(&SubfeatureRef { chip: 1, feature: 0, kind: SubfeatureKind::Crit }));
}

#[test]
fn only_first_matching_chip_is_read() {
    let chips = vec![
        chip("acpitz-acpi-0", vec![full("Core 9")]),
        chip("coretemp-isa-0000", vec![full("Core 4")]),
        chip("coretemp-isa-0001", vec![full("Core x")]),
    ];
    let cpu = Cpu::new(&chips).unwrap();
    let cores = cpu.cores();
    assert_eq!(cores.len(), 1);
    assert_eq!(cores[0].unwrap().id, 4);
    assert_eq!(cores[0].unwrap().current().unwrap().chip, 1);
}

#[test]
fn unreadable_name_before_match_fails() {
    let chips = vec![
        ChipSource { name: None, features: vec![] },
        chip("coretemp-isa-0000", vec![full("Core 0")]),
    ];
    assert_eq!(Cpu::new(&chips).err(), Some(ThermalError::SensorRead));
}

#[test]
fn unreadable_name_after_match_is_not_read() {
    let chips = vec![
        chip("coretemp-isa-0000", vec![full("Core 0")]),
        ChipSource { name: None, features: vec![] },
    ];
    assert_eq!(Cpu::new(&chips).unwrap().cores().len(), 1);
}

#[test]
fn unreadable_label_fails() {
    let unreadable = FeatureSource { label: None, current: true, max: true, crit: true, alarm: true };
    let chips = vec![chip("coretemp-isa-0000", vec![full("Core 0"), unreadable])];
    assert_eq!(Cpu::new(&chips).err(), Some(ThermalError::SensorRead));
}

#[test]
fn malformed_labels_fail() {
    let chips = vec![chip("coretemp-isa-0000", vec![full("Core")])];
    assert_eq!(Cpu::new(&chips).err(), Some(ThermalError::MalformedLabel));
    let chips = vec![chip("coretemp-isa-0000", vec![full("   ")])];
    assert_eq!(Cpu::new(&chips).err(), Some(ThermalError::MalformedLabel));
}

#[test]
fn last_package_wins() {
    let layout = plan_features(&labels(&["Package id 0", "Core 0", "Package id 1"])).unwrap();
    assert_eq!(layout.package, Some(2));
    assert_eq!(layout.cores.len(), 1);
    let chips = vec![chip(
        "coretemp-isa-0000",
        vec![full("Package id 0"), full("Package id 1")],
    )];
    let cpu = Cpu::new(&chips).unwrap();
    assert_eq!(cpu.package().unwrap().current().unwrap().feature, 1);
}

#[test]
fn cores_keep_discovery_order() {
    let layout = plan_features(&labels(&["Core 3", "temp1", "Core 1", "Core 2"])).unwrap();
    let ids: Vec<u8> = layout.cores.iter().map(|c| c.id).collect();
    assert_eq!(ids, vec![3, 1, 2]);
    let features: Vec<usize> = layout.cores.iter().map(|c| c.feature).collect();
    assert_eq!(features, vec![0, 2, 3]);
}

#[test]
fn first_bad_label_decides_error() {
    assert_eq!(plan_features(&labels(&["Core 1", "", "Core x"])), Err(ThermalError::MalformedLabel));
    assert_eq!(plan_features(&labels(&["Core x", "Core"])), Err(ThermalError::InvalidCoreId));
    assert_eq!(plan_features(&vec![Some("Core 1".to_string()), None, Some("Core".to_string())]), Err(ThermalError::SensorRead));
}

#[test]
fn same_source_same_topology() {
    let chips = vec![chip(
        "coretemp-isa-0000",
        vec![full("Package id 0"), full("Core 0"), full("Core 4"), full("Core 2")],
    )];
    let a = Cpu::new(&chips).unwrap();
    let b = Cpu::new(&chips).unwrap();
    assert_eq!(a.package().is_some(), b.package().is_some());
    let ia: Vec<u8> = a.cores().iter().map(|c| c.unwrap().id).collect();
    let ib: Vec<u8> = b.cores().iter().map(|c| c.unwrap().id).collect();
    assert_eq!(ia, vec![0, 4, 2]);
    assert_eq!(ia, ib);
}

#[test]
fn chip_prefix() {
    assert!(is_thermal_chip("coretemp-isa-0000"));
    assert!(is_thermal_chip("coretemp"));
    assert!(!is_thermal_chip("coretem"));
    assert!(!is_thermal_chip("k10temp-pci-00c3"));
    assert!(!is_thermal_chip("xcoretemp"));
}

#[test]
fn apply_label_steps() {
    let mut layout = Layout::empty();
    assert_eq!(apply_label(&mut layout, 5, "Core 2"), Ok(()));
    assert_eq!(apply_label(&mut layout, 6, "Package id 0"), Ok(()));
    assert_eq!(apply_label(&mut layout, 7, "fan1"), Ok(()));
    assert_eq!(layout, Layout { package: Some(6), cores: vec![CoreSlot { id: 2, feature: 5 }] });
    assert_eq!(apply_label(&mut layout, 8, "Core 300"), Err(ThermalError::InvalidCoreId));
}

#[test]
fn entity_constructors() {
    let f = FeatureSource { label: Some("Core 7".to_string()), current: true, max: false, crit: false, alarm: true };
    let core = cpu_thermal::thermal::Core::new(2, 3, &f, "7").unwrap();
    assert_eq!(core.id, 7);
    assert_eq!(core.alarm(), Some(&SubfeatureRef { chip: 2, feature: 3, kind: SubfeatureKind::Alarm }));
    assert_eq!(core.max(), None);
    assert_eq!(cpu_thermal::thermal::Core::new(2, 3, &f, "z").err(), Some(ThermalError::InvalidCoreId));
    let p = cpu_thermal::thermal::Package::new(0, 1, &f);
    assert_eq!(p.crit(), None);
    assert_eq!(p.current(), Some(&SubfeatureRef { chip: 0, feature: 1, kind: SubfeatureKind::Current }));
}
