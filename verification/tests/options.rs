use bluemetal::configure;
use bluemetal::options::{Compiler, Device, Machine, Profile, Target};

#[test]
fn machine_names() {
    assert_eq!(Machine::SifiveU540.cfg(), "sifive-fu540");
    assert_eq!(Machine::QemuVirt.cfg(), "qemu-virt");
}

#[test]
fn device_names() {
    assert_eq!(Device::UartSifive.cfg(), "sifive_uart");
    assert_eq!(Device::Uart16550.cfg(), "uart16550");
    assert_eq!(Device::all(), vec!["\"sifive_uart\"", "\"uart16550\""]);
}

#[test]
fn target_names() {
    assert_eq!(Target::Riscv64.to_string(), "riscv64gc-unknown-bluemetal-elf.json");
    let builtin = Target::Builtin("riscv64gc-unknown-none-elf".to_string());
    assert_eq!(builtin.to_string(), "riscv64gc-unknown-none-elf");
}

#[test]
fn init_file_name() {
    assert_eq!(configure::Machine::sifive_fu540.init_name(), "riscv_m.s");
}

#[test]
fn profile_holds_its_parts() {
    let profile = Profile {
        machine: Machine::QemuVirt,
        target: Target::Riscv64,
        linker_script: "qemu-virt.ld".to_string(),
        device: vec![Device::Uart16550],
        compiler: Some(Compiler {
            compiler: std::path::PathBuf::from("clang"),
            flags: vec!["-mabi=lp64d".to_string()],
        }),
        runner: vec!["qemu-system-riscv64".to_string()],
    };
    assert_eq!(profile.machine.cfg(), "qemu-virt");
    assert_eq!(profile.device[0].cfg(), "uart16550");
    assert_eq!(profile.compiler.unwrap().flags.len(), 1);
}

fn profile_with_runner(runner: &[&str]) -> Profile {
    Profile {
        machine: Machine::SifiveU540,
        target: Target::Riscv64,
        linker_script: "sifive-fu540.ld".to_string(),
        device: vec![Device::UartSifive],
        compiler: None,
        runner: runner.iter().map(|word| word.to_string()).collect(),
    }
}

#[test]
fn runner_command_puts_the_image_in_place() {
    let profile = profile_with_runner(&[
        "qemu-system-riscv64",
        "-machine",
        "sifive_u",
        "-kernel",
        "{{BLUEMETAL_IMAGE}}",
        "-nographic",
    ]);
    assert_eq!(
        profile.runner_command("target/bluemetal"),
        Some(vec![
            "qemu-system-riscv64".to_string(),
            "-machine".to_string(),
            "sifive_u".to_string(),
            "-kernel".to_string(),
            "target/bluemetal".to_string(),
            "-nographic".to_string(),
        ])
    );
}

#[test]
fn runner_command_replaces_every_placeholder_but_the_program() {
    let profile =
        profile_with_runner(&["{{BLUEMETAL_IMAGE}}", "{{BLUEMETAL_IMAGE}}", "{{BLUEMETAL_IMAGE}}"]);
    assert_eq!(
        profile.runner_command("k"),
        Some(vec!["{{BLUEMETAL_IMAGE}}".to_string(), "k".to_string(), "k".to_string()])
    );
}

#[test]
fn runner_command_replaces_whole_arguments_only() {
    let profile = profile_with_runner(&["run", "--image={{BLUEMETAL_IMAGE}}"]);
    assert_eq!(
        profile.runner_command("k"),
        Some(vec!["run".to_string(), "--image={{BLUEMETAL_IMAGE}}".to_string()])
    );
}

#[test]
fn runner_command_needs_a_runner() {
    assert_eq!(profile_with_runner(&[]).runner_command("k"), None);
}

#[test]
fn cargo_arguments_for_a_target() {
    assert_eq!(
        Target::Riscv64.cargo_arguments("build"),
        vec![
            "+nightly",
            "build",
            "--target=configure/build/target/riscv64gc-unknown-bluemetal-elf.json",
            "-Zbuild-std=core,compiler_builtins",
            "-Zbuild-std-features=compiler-builtins-mem,panic-unwind",
            "--package=bluemetal",
        ]
    );
    let builtin = Target::Builtin("riscv64imac-unknown-none-elf".to_string());
    let arguments = builtin.cargo_arguments("run");
    assert_eq!(arguments[1], "run");
    assert_eq!(arguments[2], "--target=configure/build/target/riscv64imac-unknown-none-elf");
    assert_eq!(arguments.len(), 6);
}

#[test]
fn build_machine_by_name() {
    assert_eq!(configure::Machine::named("sifive_fu540"), Some(configure::Machine::sifive_fu540));
    assert_eq!(configure::Machine::named("sifive-fu540"), None);
    assert_eq!(configure::Machine::named(""), None);
}

#[test]
fn build_machine_parts() {
    let machine = configure::Machine::sifive_fu540;
    assert_eq!(machine.devices(), vec!["sifive_uart"]);
    assert_eq!(machine.compiler(), "clang");
    assert_eq!(machine.compiler_flags(), vec!["-Wno-unused-command-line-argument", "-mabi=lp64d"]);
    assert_eq!(machine.name(), format!("{:?}", machine));
}

#[test]
fn build_machine_directives() {
    let machine = configure::Machine::sifive_fu540;
    assert_eq!(
        machine.link_directives("/src/kernel"),
        vec![
            "cargo::rerun-if-changed=/src/kernel/link/sifive_fu540.ld",
            "cargo::rustc-link-arg-bins=-T/src/kernel/link/sifive_fu540.ld",
            "cargo::rustc-link-arg-bins=--oformat=binary",
        ]
    );
    assert_eq!(
        machine.feature_directives(),
        vec![
            "cargo::rustc-check-cfg=cfg(target_device, values(\"sifive_uart\"))",
            "cargo::rustc-cfg=target_device=\"sifive_uart\"",
        ]
    );
}

#[test]
fn profile_directives() {
    let mut profile = profile_with_runner(&[]);
    profile.machine = Machine::QemuVirt;
    profile.device = vec![Device::Uart16550, Device::UartSifive];
    profile.linker_script = "qemu-virt.ld".to_string();
    assert_eq!(
        profile.cfg_directives(),
        vec![
            format!("cargo::rustc-cfg=target_machine={:?}", "qemu-virt"),
            "cargo::rustc-check-cfg=cfg(target_device, values(\"sifive_uart\", \"uart16550\"))"
                .to_string(),
            format!("cargo::rustc-cfg=target_device={:?}", "uart16550"),
            format!("cargo::rustc-cfg=target_device={:?}", "sifive_uart"),
        ]
    );
    assert_eq!(
        profile.link_directives("/src/kernel"),
        vec![
            "cargo::rerun-if-changed=/src/kernel/link/qemu-virt.ld",
            "cargo::rustc-link-arg-bins=-T/src/kernel/link/qemu-virt.ld",
        ]
    );
    profile.device = Vec::new();
    assert_eq!(profile.cfg_directives().len(), 2);
}

#[test]
fn quoting_and_joining() {
    assert_eq!(bluemetal::options::quote("uart16550"), "\"uart16550\"");
    assert_eq!(bluemetal::options::quote(""), "\"\"");
    assert_eq!(bluemetal::options::join(&vec!["a", "b", "c"], ", "), "a, b, c");
    assert_eq!(bluemetal::options::join(&vec!["a"], ", "), "a");
    assert_eq!(bluemetal::options::join(&Vec::new(), ", "), "");
}
