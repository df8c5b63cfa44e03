//! A minimal bootable image that runs nothing but a node.

use vstd::prelude::*;
use crate::text::{owned, push_str};

verus! {

/// The architectures an image can be built for.
#[derive(Clone, Copy, Debug, PartialEq, Eq, Structural)]
pub enum TargetArch {
    X8664,
    Aarch64,
    Armv7,
}

/// The label of each architecture.
pub open spec fn arch_label(a: TargetArch) -> Seq<char> {
    match a {
        TargetArch::X8664 => "x86_64"@,
        TargetArch::Aarch64 => "aarch64"@,
        TargetArch::Armv7 => "armv7"@,
    }
}

impl TargetArch {
    /// The architecture's label.
    pub fn label(&self) -> (res: &'static str)
        ensures
            res@ == arch_label(*self),
    {
        match self {
            TargetArch::X8664 => "x86_64",
            TargetArch::Aarch64 => "aarch64",
            TargetArch::Armv7 => "armv7",
        }
    }
}

/// A bootable image.
#[derive(Clone, Debug)]
pub struct NodeOsImage {
    pub arch: TargetArch,
    pub kernel_mb: u32,
    pub initrd_mb: u32,
    pub polygone_binary: Vec<u8>,
    pub config_toml: String,
}

/// The binary's size in whole MiB, its byte count taken modulo 2^32 first
/// (the count is held in 32 bits).
pub open spec fn binary_mib(len: nat) -> nat {
    (len % 0x1_0000_0000) / (1024 * 1024)
}

/// The estimated size of an image in MiB.
pub open spec fn estimated_size(img: NodeOsImage) -> int {
    img.kernel_mb + img.initrd_mb + binary_mib(img.polygone_binary@.len())
}

impl NodeOsImage {
    /// Kernel, initrd and binary (whole MiB) together.
    pub fn estimated_size_mb(&self) -> (res: u32)
        requires
            estimated_size(*self) <= u32::MAX,
        ensures
            res == estimated_size(*self),
    {
        let n: u64 = self.polygone_binary.len() as u64;
        let low: u32 = #[verifier::truncate] (n as u32);
        assert(low == n % 0x1_0000_0000) by (bit_vector)
            requires
                low == #[verifier::truncate] (n as u32),
        ;
        self.kernel_mb + self.initrd_mb + low / (1024 * 1024)
    }
}

/// Builds images.
pub struct NodeOsBuilder;

/// The build message for an architecture and a binary path.
pub open spec fn build_text(arch: TargetArch, path: Seq<char>) -> Seq<char> {
    "\u{1F3AF} NodeOS pour "@ + arch_label(arch) + " \u{2014} binaire \u{e0} "@ + path
        + " \u{2014} build via make nodeos-"@ + arch_label(arch)
}

impl NodeOsBuilder {
    /// Says how the image for `arch` with the binary at `binary_path` is built.
    pub fn build(arch: TargetArch, binary_path: &str) -> (res: String)
        ensures
            res@ == build_text(arch, binary_path@),
    {
        let mut s = owned("\u{1F3AF} NodeOS pour ");
        push_str(&mut s, arch.label());
        push_str(&mut s, " \u{2014} binaire \u{e0} ");
        push_str(&mut s, binary_path);
        push_str(&mut s, " \u{2014} build via make nodeos-");
        push_str(&mut s, arch.label());
        s
    }
}

} // verus!
