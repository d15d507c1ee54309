//! What the build of the kernel needs to know of the machine it is for.

use vstd::prelude::*;
use vstd::string::*;
use crate::options::{fixed_texts, quote, quoted, texts};
use crate::text::same_text;

verus! {

/// The machines that the kernel can be built for.
#[allow(non_camel_case_types)]
#[derive(Debug, Clone, Copy, PartialEq, Eq, Structural)]
pub enum Machine {
    sifive_fu540,
}

impl Machine {
    /// The machine that `name` names, if any.
    pub fn named(name: &str) -> (r: Option<Self>)
        ensures
            r == if name@ == "sifive_fu540"@ {
                Some(Machine::sifive_fu540)
            } else {
                None
            },
    {
        if same_text(name, "sifive_fu540") {
            Some(Machine::sifive_fu540)
        } else {
            None
        }
    }

    /// The machine's name.
    pub open spec fn spec_name(self) -> Seq<char> {
        match self {
            Machine::sifive_fu540 => "sifive_fu540"@,
        }
    }

    /// The machine's name.
    pub fn name(&self) -> (r: &'static str)
        ensures
            r@ == self.spec_name(),
    {
        match self {
            Machine::sifive_fu540 => "sifive_fu540",
        }
    }

    /// What a build script tells the build tool of the machine's linker
    /// script, which lies in the directory `link` of the package under the
    /// machine's name: to build again when it changes, to link binaries with
    /// it, and to write them as plain images.
    pub open spec fn spec_link_directives(self, package: Seq<char>) -> Seq<Seq<char>> {
        seq![
            "cargo::rerun-if-changed="@ + package + "/link/"@ + self.spec_name() + ".ld"@,
            "cargo::rustc-link-arg-bins=-T"@ + package + "/link/"@ + self.spec_name() + ".ld"@,
            "cargo::rustc-link-arg-bins=--oformat=binary"@,
        ]
    }

    /// The lines by which a build script tells the build tool of the
    /// machine's linker script.
    pub fn link_directives(&self, package: &str) -> (r: Vec<String>)
        ensures
            texts(r@) == self.spec_link_directives(package@),
    {
        let mut lines: Vec<String> = Vec::new();
        lines.push(
            String::from_str("cargo::rerun-if-changed=").concat(package).concat("/link/").concat(
                self.name(),
            ).concat(".ld"),
        );
        lines.push(
            String::from_str("cargo::rustc-link-arg-bins=-T").concat(package).concat(
                "/link/",
            ).concat(self.name()).concat(".ld"),
        );
        lines.push(String::from_str("cargo::rustc-link-arg-bins=--oformat=binary"));
        assert(texts(lines@) =~= self.spec_link_directives(package@));
        lines
    }

    /// The devices that the machine has, by their names in configuration
    /// values.
    pub open spec fn spec_devices(self) -> Seq<Seq<char>> {
        match self {
            Machine::sifive_fu540 => seq!["sifive_uart"@],
        }
    }

    /// The devices that the machine has, by their names in configuration
    /// values.
    pub fn devices(&self) -> (r: Vec<&'static str>)
        ensures
            fixed_texts(r@) == self.spec_devices(),
    {
        let mut devices: Vec<&'static str> = Vec::new();
        match self {
            Machine::sifive_fu540 => {
                devices.push("sifive_uart");
            },
        }
        assert(fixed_texts(devices@) =~= self.spec_devices());
        devices
    }

    /// What a build script tells the build tool of the machine's devices:
    /// the devices that can be named, and each device that the machine has.
    pub open spec fn spec_feature_directives(self) -> Seq<Seq<char>> {
        seq!["cargo::rustc-check-cfg=cfg(target_device, values(\"sifive_uart\"))"@]
            + self.spec_devices().map_values(
            |device: Seq<char>| "cargo::rustc-cfg=target_device="@ + quoted(device),
        )
    }

    /// The lines by which a build script tells the build tool of the
    /// machine's devices.
    pub fn feature_directives(&self) -> (r: Vec<String>)
        ensures
            texts(r@) == self.spec_feature_directives(),
    {
        let mut lines: Vec<String> = Vec::new();
        lines.push(
            String::from_str("cargo::rustc-check-cfg=cfg(target_device, values(\"sifive_uart\"))"),
        );
        let devices = self.devices();
        let ghost head = texts(lines@);
        let mut i: usize = 0;
        proof {
            assert(head =~= seq![
                "cargo::rustc-check-cfg=cfg(target_device, values(\"sifive_uart\"))"@,
            ]);
            assert(texts(lines@) =~= head + fixed_texts(devices@).take(0).map_values(
                |device: Seq<char>| "cargo::rustc-cfg=target_device="@ + quoted(device),
            ));
        }
        while i < devices.len()
            invariant
                i <= devices.len(),
                texts(lines@) == head + fixed_texts(devices@).take(i as int).map_values(
                    |device: Seq<char>| "cargo::rustc-cfg=target_device="@ + quoted(device),
                ),
            decreases devices.len() - i,
        {
            let ghost before = texts(lines@);
            let line = String::from_str("cargo::rustc-cfg=target_device=").concat(
                quote(devices[i]).as_str(),
            );
            lines.push(line);
            proof {
                assert(texts(lines@) =~= before.push(line@));
                assert(texts(lines@) =~= head + fixed_texts(devices@).take(i + 1).map_values(
                    |device: Seq<char>| "cargo::rustc-cfg=target_device="@ + quoted(device),
                ));
            }
            i = i + 1;
        }
        proof {
            assert(fixed_texts(devices@).take(i as int) =~= fixed_texts(devices@));
        }
        lines
    }

    /// The native compiler that builds the machine's entry code.
    pub fn compiler(&self) -> (r: &'static str)
        ensures
            r@ == "clang"@,
    {
        match self {
            Machine::sifive_fu540 => "clang",
        }
    }

    /// The flags that the native compiler is run with.
    pub fn compiler_flags(&self) -> (r: Vec<&'static str>)
        ensures
            r@.len() == 2,
            r@[0]@ == "-Wno-unused-command-line-argument"@,
            r@[1]@ == "-mabi=lp64d"@,
    {
        let mut flags: Vec<&'static str> = Vec::new();
        match self {
            Machine::sifive_fu540 => {
                flags.push("-Wno-unused-command-line-argument");
                flags.push("-mabi=lp64d");
            },
        }
        flags
    }

    /// The name of the base entry point file for the machine-specific entry
    /// code.
    pub fn init_name(&self) -> (r: &'static str)
        ensures
            r@ == "riscv_m.s"@,
    {
        match self {
            _ => "riscv_m.s",
        }
    }
}

} // verus!
