use microvm::args::{parse_memory_size, Args, ArgsError};

#[test]
fn memory_sizes() {
    assert_eq!(parse_memory_size("128M"), Ok(128 * 1024 * 1024));
    assert_eq!(parse_memory_size("4k"), Ok(4096));
    assert_eq!(parse_memory_size("1G"), Ok(1 << 30));
    assert_eq!(parse_memory_size("0m"), Ok(0));
    assert_eq!(parse_memory_size("M"), Err(ArgsError::InvalidMemorySize));
    assert_eq!(parse_memory_size(""), Err(ArgsError::InvalidMemorySize));
    assert_eq!(parse_memory_size("12"), Err(ArgsError::InvalidMemorySize));
    assert_eq!(parse_memory_size("1x"), Err(ArgsError::InvalidMemorySize));
    assert_eq!(parse_memory_size("1a2M"), Err(ArgsError::InvalidMemorySize));
    assert_eq!(
        parse_memory_size("99999999999999999999999999G"),
        Err(ArgsError::InvalidMemorySize)
    );
}

fn s(x: &str) -> Option<String> {
    Some(x.to_string())
}

#[test]
fn settings_are_checked() {
    assert!(matches!(
        Args::new(String::new(), None, 1, None, None, None, None),
        Err(ArgsError::MissingKernel)
    ));
    assert!(matches!(
        Args::new("k".into(), None, 1, None, s("in"), None, s("127.0.0.1:80")),
        Err(ArgsError::ConflictingIo)
    ));
    assert!(matches!(
        Args::new("k".into(), None, 0, None, None, None, None),
        Err(ArgsError::ZeroMemory)
    ));
}

#[test]
fn settings_are_taken_once() {
    let mut a = Args::new("kernel.elf".into(), s("initrd.img"), 4096, s("err"), s("in"), s("out"), None)
        .unwrap();
    assert_eq!(a.kernel_filename(), "kernel.elf");
    assert_eq!(a.memory_size(), 4096);
    assert_eq!(a.initrd_filename(), s("initrd.img"));
    assert_eq!(a.initrd_filename(), None);
    assert_eq!(a.take_vm_stderr(), s("err"));
    assert_eq!(a.take_vm_stdin(), s("in"));
    assert_eq!(a.take_vm_stdout(), s("out"));
    assert_eq!(a.take_vm_stdout(), None);
    assert_eq!(a.sockaddr(), "127.0.0.1:8080");
    assert_eq!(a.take_sockaddr(), None);
    let mut b = Args::new("k".into(), None, 1, None, None, None, s("0.0.0.0:1")).unwrap();
    assert_eq!(b.sockaddr(), "0.0.0.0:1");
    assert_eq!(b.take_sockaddr(), s("0.0.0.0:1"));
}

fn argv(items: &[&str]) -> Vec<String> {
    items.iter().map(|s| s.to_string()).collect()
}

#[test]
fn command_line_is_parsed() {
    let mut a = Args::parse(argv(&[
        "microvm", "-kernel", "k.elf", "-memory", "64M", "-initrd", "rd", "-stderr", "e", "-http",
        "127.0.0.1:9000",
    ]))
    .unwrap();
    assert_eq!(a.kernel_filename(), "k.elf");
    assert_eq!(a.memory_size(), 64 << 20);
    assert_eq!(a.initrd_filename(), s("rd"));
    assert_eq!(a.take_vm_stderr(), s("e"));
    assert_eq!(a.sockaddr(), "127.0.0.1:9000");
    let mut b = Args::parse(argv(&["microvm", "-kernel", "k", "-stdin", "i", "-stdout", "o"])).unwrap();
    assert_eq!(b.memory_size(), 128 << 20);
    assert_eq!(b.take_vm_stdin(), s("i"));
    assert_eq!(b.take_vm_stdout(), s("o"));
}

#[test]
fn command_line_errors() {
    assert!(matches!(Args::parse(argv(&["microvm", "-help"])), Err(ArgsError::HelpRequested)));
    assert!(matches!(Args::parse(argv(&["microvm", "-kernel"])), Err(ArgsError::InvalidArgument)));
    assert!(matches!(Args::parse(argv(&["microvm", "-bogus", "x"])), Err(ArgsError::InvalidArgument)));
    assert!(matches!(Args::parse(argv(&["microvm"])), Err(ArgsError::MissingKernel)));
    assert!(matches!(
        Args::parse(argv(&["microvm", "-kernel", "k", "-memory", "12"])),
        Err(ArgsError::InvalidMemorySize)
    ));
    assert!(matches!(
        Args::parse(argv(&["microvm", "-kernel", "k", "-memory", "0K"])),
        Err(ArgsError::ZeroMemory)
    ));
    assert!(matches!(
        Args::parse(argv(&["microvm", "-kernel", "k", "-http", "a", "-stdout", "o"])),
        Err(ArgsError::ConflictingIo)
    ));
}
