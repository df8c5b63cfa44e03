use polygone::nodeos::{NodeOsBuilder, NodeOsImage, TargetArch};

#[test]
fn arch_labels() {
    assert_eq!(TargetArch::X8664.label(), "x86_64");
    assert_eq!(TargetArch::Aarch64.label(), "aarch64");
}

#[test]
fn image_size_estimate() {
    let img = NodeOsImage {
        arch: TargetArch::X8664,
        kernel_mb: 8,
        initrd_mb: 4,
        polygone_binary: vec![0u8; 10 * 1024 * 1024],
        config_toml: "[polygone]\nenabled = true".into(),
    };
    assert!(img.estimated_size_mb() >= 22);
}

#[test]
fn builder_returns_string() {
    let msg = NodeOsBuilder::build(TargetArch::Aarch64, "/tmp/polygone");
    assert!(msg.contains("NodeOS"));
    assert!(msg.contains("aarch64"));
}

#[test]
fn image_size_exact() {
    let img = NodeOsImage {
        arch: TargetArch::Armv7,
        kernel_mb: 8,
        initrd_mb: 4,
        polygone_binary: vec![0u8; 10 * 1024 * 1024 + 1000],
        config_toml: String::new(),
    };
    // Whole MiB of the binary are counted, the rest is dropped.
    assert_eq!(img.estimated_size_mb(), 22);
}

#[test]
fn builder_message_exact() {
    let msg = NodeOsBuilder::build(TargetArch::Armv7, "/opt/p");
    assert_eq!(msg, "\u{1F3AF} NodeOS pour armv7 \u{2014} binaire \u{e0} /opt/p \u{2014} build via make nodeos-armv7");
    assert_eq!(TargetArch::Armv7.label(), "armv7");
}
