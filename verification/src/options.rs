//! Target machine profiles: which machine a kernel image is built for, and
//! with what.

use vstd::prelude::*;
use vstd::string::*;
use crate::text::same_text;

verus! {

/// `std::path::PathBuf`, which the path of the native compiler is kept in.
/// It is handed on as it comes: nothing is said of what it holds.
#[verifier::external_type_specification]
#[verifier::external_body]
pub struct ExPathBuf(std::path::PathBuf);

/// What a profile selects.
#[derive(Debug)]
pub struct Profile {
    pub machine: Machine,
    pub target: Target,
    pub linker_script: String,
    pub device: Vec<Device>,
    /// Compiler options for the native compiler.
    pub compiler: Option<Compiler>,
    pub runner: Vec<String>,
}

/// The views of a list of texts, in their order.
pub open spec fn texts(list: Seq<String>) -> Seq<Seq<char>> {
    list.map_values(|text: String| text@)
}

/// The command line that starts a kernel image: the runner's words, with
/// each `{{BLUEMETAL_IMAGE}}` behind the first word replaced by the path of
/// the image. An empty runner gives no command line.
pub open spec fn spec_runner_command(runner: Seq<Seq<char>>, image: Seq<char>) -> Option<
    Seq<Seq<char>>,
> {
    if runner.len() == 0 {
        None
    } else {
        Some(
            Seq::new(
                runner.len(),
                |i: int|
                    if i > 0 && runner[i] == "{{BLUEMETAL_IMAGE}}"@ {
                        image
                    } else {
                        runner[i]
                    },
            ),
        )
    }
}

/// `name` between double quotes.
pub open spec fn quoted(name: Seq<char>) -> Seq<char> {
    "\""@ + name + "\""@
}

/// Puts `name` between double quotes.
pub fn quote(name: &str) -> (r: String)
    ensures
        r@ == quoted(name@),
{
    String::from_str("\"").concat(name).concat("\"")
}

/// The words of a list in one text, with `separator` between each two.
pub open spec fn joined(words: Seq<Seq<char>>, separator: Seq<char>) -> Seq<char>
    decreases words.len(),
{
    if words.len() == 0 {
        Seq::empty()
    } else if words.len() == 1 {
        words[0]
    } else {
        joined(words.drop_last(), separator) + separator + words.last()
    }
}

/// The views of a list of fixed texts, in their order.
pub open spec fn fixed_texts(list: Seq<&'static str>) -> Seq<Seq<char>> {
    list.map_values(|text: &'static str| text@)
}

/// Writes the words of a list into one text, with `separator` between each
/// two.
pub fn join(words: &Vec<&'static str>, separator: &str) -> (r: String)
    ensures
        r@ == joined(fixed_texts(words@), separator@),
{
    let mut text = String::from_str("");
    let mut i: usize = 0;
    proof {
        reveal_strlit("");
        assert(text@ =~= Seq::empty());
        assert(fixed_texts(words@).take(0) =~= Seq::empty());
    }
    while i < words.len()
        invariant
            i <= words.len(),
            text@ == joined(fixed_texts(words@).take(i as int), separator@),
        decreases words.len() - i,
    {
        let ghost before = fixed_texts(words@).take(i as int);
        let ghost now = fixed_texts(words@).take(i + 1);
        proof {
            assert(now.drop_last() =~= before);
            assert(now.last() == words@[i as int]@);
        }
        if i > 0 {
            text.append(separator);
        } else {
            assert(Seq::<char>::empty() + words@[0]@ =~= words@[0]@);
        }
        text.append(words[i]);
        i = i + 1;
    }
    proof {
        assert(fixed_texts(words@).take(i as int) =~= fixed_texts(words@));
    }
    text
}

impl Profile {
    /// What a build script tells the build tool of the profile: the machine,
    /// the devices that can be named, and each device that the profile names,
    /// in their order.
    pub open spec fn spec_cfg_directives(self) -> Seq<Seq<char>> {
        seq![
            "cargo::rustc-cfg=target_machine="@ + quoted(self.machine.spec_cfg()),
            "cargo::rustc-check-cfg=cfg(target_device, values("@ + joined(
                seq![quoted(Device::UartSifive.spec_cfg()), quoted(Device::Uart16550.spec_cfg())],
                ", "@,
            ) + "))"@,
        ] + self.device@.map_values(
            |device: Device| "cargo::rustc-cfg=target_device="@ + quoted(device.spec_cfg()),
        )
    }

    /// The lines by which a build script tells the build tool of the
    /// profile.
    pub fn cfg_directives(&self) -> (r: Vec<String>)
        ensures
            texts(r@) == self.spec_cfg_directives(),
    {
        let mut lines: Vec<String> = Vec::new();
        lines.push(
            String::from_str("cargo::rustc-cfg=target_machine=").concat(
                quote(self.machine.cfg()).as_str(),
            ),
        );
        let all = Device::all();
        proof {
            assert(fixed_texts(all@) =~= seq![
                quoted(Device::UartSifive.spec_cfg()),
                quoted(Device::Uart16550.spec_cfg()),
            ]) by {
                reveal_strlit("\"sifive_uart\"");
                reveal_strlit("\"uart16550\"");
                reveal_strlit("sifive_uart");
                reveal_strlit("uart16550");
                reveal_strlit("\"");
                assert(all@[0]@ =~= quoted("sifive_uart"@));
                assert(all@[1]@ =~= quoted("uart16550"@));
            }
        }
        lines.push(
            String::from_str("cargo::rustc-check-cfg=cfg(target_device, values(").concat(
                join(&all, ", ").as_str(),
            ).concat("))"),
        );
        let ghost head = texts(lines@);
        let mut i: usize = 0;
        while i < self.device.len()
            invariant
                i <= self.device.len(),
                texts(lines@) == head + self.device@.take(i as int).map_values(
                    |device: Device|
                        "cargo::rustc-cfg=target_device="@ + quoted(device.spec_cfg()),
                ),
            decreases self.device.len() - i,
        {
            let ghost before = texts(lines@);
            let line = String::from_str("cargo::rustc-cfg=target_device=").concat(
                quote(self.device[i].cfg()).as_str(),
            );
            lines.push(line);
            proof {
                assert(texts(lines@) =~= before.push(line@));
                assert(texts(lines@) =~= head + self.device@.take(i + 1).map_values(
                    |device: Device|
                        "cargo::rustc-cfg=target_device="@ + quoted(device.spec_cfg()),
                ));
            }
            i = i + 1;
        }
        proof {
            assert(self.device@.take(i as int) =~= self.device@);
            assert(head =~= seq![
                "cargo::rustc-cfg=target_machine="@ + quoted(self.machine.spec_cfg()),
                "cargo::rustc-check-cfg=cfg(target_device, values("@ + joined(
                    seq![
                        quoted(Device::UartSifive.spec_cfg()),
                        quoted(Device::Uart16550.spec_cfg()),
                    ],
                    ", "@,
                ) + "))"@,
            ]);
        }
        lines
    }

    /// What a build script tells the build tool of the linker script, which
    /// lies in the directory `link` of the package: to build again when it
    /// changes, and to link binaries with it.
    pub open spec fn spec_link_directives(self, package: Seq<char>) -> Seq<Seq<char>> {
        seq![
            "cargo::rerun-if-changed="@ + package + "/link/"@ + self.linker_script@,
            "cargo::rustc-link-arg-bins=-T"@ + package + "/link/"@ + self.linker_script@,
        ]
    }

    /// The lines by which a build script tells the build tool of the linker
    /// script.
    pub fn link_directives(&self, package: &str) -> (r: Vec<String>)
        ensures
            texts(r@) == self.spec_link_directives(package@),
    {
        let mut lines: Vec<String> = Vec::new();
        lines.push(
            String::from_str("cargo::rerun-if-changed=").concat(package).concat("/link/").concat(
                self.linker_script.as_str(),
            ),
        );
        lines.push(
            String::from_str("cargo::rustc-link-arg-bins=-T").concat(package).concat(
                "/link/",
            ).concat(self.linker_script.as_str()),
        );
        assert(texts(lines@) =~= self.spec_link_directives(package@));
        lines
    }

    /// The program and the arguments that start the kernel image at `image`:
    /// the runner of the profile, with the path of the image in place of each
    /// argument `{{BLUEMETAL_IMAGE}}`. A profile without a runner has none.
    pub fn runner_command(&self, image: &str) -> (r: Option<Vec<String>>)
        ensures
            match r {
                Some(words) => spec_runner_command(texts(self.runner@), image@) == Some(
                    texts(words@),
                ),
                None => spec_runner_command(texts(self.runner@), image@) is None,
            },
    {
        if self.runner.len() == 0 {
            return None;
        }
        let mut words: Vec<String> = Vec::new();
        let mut i: usize = 0;
        while i < self.runner.len()
            invariant
                i <= self.runner.len(),
                self.runner.len() > 0,
                words@.len() == i,
                forall|j: int|
                    0 <= j < i ==> (#[trigger] words@[j])@ == spec_runner_command(
                        texts(self.runner@),
                        image@,
                    )->Some_0[j],
            decreases self.runner.len() - i,
        {
            let word = &self.runner[i];
            if i > 0 && same_text(word.as_str(), "{{BLUEMETAL_IMAGE}}") {
                words.push(String::from_str(image));
            } else {
                words.push(word.clone());
            }
            i = i + 1;
        }
        assert(texts(words@) =~= spec_runner_command(texts(self.runner@), image@)->Some_0);
        Some(words)
    }
}

/// The machines that a profile can name.
#[derive(Clone, Copy, Debug, PartialEq, Eq, Structural)]
pub enum Machine {
    SifiveU540,
    QemuVirt,
}

impl Machine {
    /// The machine's name in configuration values.
    pub open spec fn spec_cfg(self) -> Seq<char> {
        match self {
            Machine::SifiveU540 => "sifive-fu540"@,
            Machine::QemuVirt => "qemu-virt"@,
        }
    }

    /// The machine's name in configuration values.
    pub fn cfg(self) -> (r: &'static str)
        ensures
            r@ == self.spec_cfg(),
    {
        match self {
            Machine::SifiveU540 => "sifive-fu540",
            Machine::QemuVirt => "qemu-virt",
        }
    }
}

/// The compilation target: one that is built in, by its name, or the
/// 64-bit RISC-V target that ships with the project.
#[derive(Debug)]
pub enum Target {
    Builtin(String),
    Riscv64,
}

impl Target {
    /// The target as the compiler is told it.
    pub open spec fn spec_name(self) -> Seq<char> {
        match self {
            Target::Builtin(name) => name@,
            Target::Riscv64 => "riscv64gc-unknown-bluemetal-elf.json"@,
        }
    }

    /// The arguments with which the build tool builds or runs the kernel for
    /// a target: the toolchain, the subcommand, the target below the
    /// directory of target descriptions, the parts of the standard library
    /// that are built along, and the kernel's package.
    pub open spec fn spec_cargo_arguments(subcommand: Seq<char>, target: Seq<char>) -> Seq<
        Seq<char>,
    > {
        seq![
            "+nightly"@,
            subcommand,
            "--target=configure/build/target/"@ + target,
            "-Zbuild-std=core,compiler_builtins"@,
            "-Zbuild-std-features=compiler-builtins-mem,panic-unwind"@,
            "--package=bluemetal"@,
        ]
    }

    /// The arguments with which the build tool builds or runs the kernel for
    /// this target.
    pub fn cargo_arguments(&self, subcommand: &str) -> (r: Vec<String>)
        ensures
            texts(r@) == Self::spec_cargo_arguments(subcommand@, self.spec_name()),
    {
        let mut arguments: Vec<String> = Vec::new();
        arguments.push(String::from_str("+nightly"));
        arguments.push(String::from_str(subcommand));
        arguments.push(
            String::from_str("--target=configure/build/target/").concat(
                self.to_string().as_str(),
            ),
        );
        arguments.push(String::from_str("-Zbuild-std=core,compiler_builtins"));
        arguments.push(
            String::from_str("-Zbuild-std-features=compiler-builtins-mem,panic-unwind"),
        );
        arguments.push(String::from_str("--package=bluemetal"));
        assert(texts(arguments@) =~= Self::spec_cargo_arguments(subcommand@, self.spec_name()));
        arguments
    }

    /// Writes the target as the compiler is told it: the name of a built-in
    /// target, or the file that describes the project's own.
    pub fn to_string(&self) -> (r: String)
        ensures
            r@ == self.spec_name(),
    {
        match self {
            Target::Builtin(name) => name.clone(),
            Target::Riscv64 => String::from_str("riscv64gc-unknown-bluemetal-elf.json"),
        }
    }
}

/// The devices that a machine can have.
#[derive(Clone, Copy, Debug, PartialEq, Eq, Structural)]
pub enum Device {
    UartSifive,
    Uart16550,
}

impl Device {
    /// The device's name in configuration values.
    pub open spec fn spec_cfg(self) -> Seq<char> {
        match self {
            Device::UartSifive => "sifive_uart"@,
            Device::Uart16550 => "uart16550"@,
        }
    }

    /// The device's name in configuration values.
    pub fn cfg(&self) -> (r: &'static str)
        ensures
            r@ == self.spec_cfg(),
    {
        match self {
            Device::UartSifive => "sifive_uart",
            Device::Uart16550 => "uart16550",
        }
    }

    /// The names of all devices, each between double quotes, as a list of
    /// allowed configuration values wants them.
    pub fn all() -> (r: Vec<&'static str>)
        ensures
            r@.len() == 2,
            r@[0]@ == "\"sifive_uart\""@,
            r@[1]@ == "\"uart16550\""@,
    {
        let mut names: Vec<&'static str> = Vec::new();
        names.push("\"sifive_uart\"");
        names.push("\"uart16550\"");
        names
    }
}

/// The native compiler and the flags it is run with.
#[derive(Debug)]
pub struct Compiler {
    pub compiler: std::path::PathBuf,
    pub flags: Vec<String>,
}

} // verus!
