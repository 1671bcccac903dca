use vstd::prelude::*;
use vstd::string::StrSliceExecFns;
use crate::config;
use crate::profiler::str_eq;

verus! {

/// Why the command line was refused.
#[derive(Clone, Copy, Debug, PartialEq, Eq, Structural)]
pub enum ArgsError {
    /// Usage was asked for.
    HelpRequested,
    /// An option is unknown or lacks its value.
    InvalidArgument,
    /// The memory size is not digits followed by one of `KkMmGg`, or does
    /// not fit in a `usize`.
    InvalidMemorySize,
    /// No kernel was given.
    MissingKernel,
    /// `-http` was given together with `-stdin` or `-stdout`.
    ConflictingIo,
    /// The memory size is zero.
    ZeroMemory,
}

/// Whether `c` is a decimal digit.
pub open spec fn is_digit(c: char) -> bool {
    '0' <= c && c <= '9'
}

/// The value of the decimal digits `s`.
pub open spec fn digits_value(s: Seq<char>) -> nat
    decreases s.len(),
{
    if s.len() == 0 {
        0
    } else {
        digits_value(s.drop_last()) * 10 + ((s.last() as nat) - ('0' as nat)) as nat
    }
}

/// The factor that a size suffix stands for.
pub open spec fn suffix_factor(c: char) -> Option<nat> {
    if c == 'K' || c == 'k' {
        Some(1024)
    } else if c == 'M' || c == 'm' {
        Some(1048576)
    } else if c == 'G' || c == 'g' {
        Some(1073741824)
    } else {
        None
    }
}

/// The number of bytes that a memory size argument such as `128M` stands
/// for: one or more digits, then a suffix.
pub open spec fn memory_size_of(s: Seq<char>) -> Option<nat> {
    if s.len() < 2 {
        None
    } else if !(forall|i: int| 0 <= i < s.len() - 1 ==> #[trigger] is_digit(s[i])) {
        None
    } else {
        match suffix_factor(s.last()) {
            None => None,
            Some(f) => {
                let v = digits_value(s.drop_last()) * f;
                if v <= usize::MAX {
                    Some(v)
                } else {
                    None
                }
            },
        }
    }
}

/// A prefix of a string of digits is worth no more than the whole.
pub proof fn lemma_digits_prefix_monotone(s: Seq<char>, j: int)
    requires
        0 <= j <= s.len(),
        forall|i: int| 0 <= i < s.len() ==> #[trigger] is_digit(s[i]),
    ensures
        digits_value(s.subrange(0, j)) <= digits_value(s),
    decreases s.len() - j,
{
    if j < s.len() {
        let t = s.drop_last();
        assert(t.subrange(0, j) =~= s.subrange(0, j));
        assert forall|i: int| 0 <= i < t.len() implies #[trigger] is_digit(t[i]) by {
            assert(t[i] == s[i]);
        }
        lemma_digits_prefix_monotone(t, j);
    } else {
        assert(s.subrange(0, j) =~= s);
    }
}

/// Reads a memory size argument: digits followed by `K`, `M` or `G` (in
/// either case) for KiB, MiB or GiB.
pub fn parse_memory_size(arg: &str) -> (r: Result<usize, ArgsError>)
    ensures
        match memory_size_of(arg@) {
            Some(n) => r == Ok::<usize, ArgsError>(n as usize),
            None => r == Err::<usize, ArgsError>(ArgsError::InvalidMemorySize),
        },
{
    let n = arg.unicode_len();
    if n < 2 {
        return Err(ArgsError::InvalidMemorySize);
    }
    let ghost s = arg@;
    let ghost d = s.drop_last();
    let mut i: usize = 0;
    while i < n - 1
        invariant
            n == s.len(),
            s == arg@,
            i <= n - 1,
            forall|k: int| 0 <= k < i ==> #[trigger] is_digit(s[k]),
        decreases n - 1 - i,
    {
        let c = arg.get_char(i);
        if !('0' <= c && c <= '9') {
            assert(!is_digit(s[i as int]));
            return Err(ArgsError::InvalidMemorySize);
        }
        i = i + 1;
    }
    assert forall|k: int| 0 <= k < d.len() implies #[trigger] is_digit(d[k]) by {
        assert(d[k] == s[k]);
    }
    let suffix = arg.get_char(n - 1);
    let factor: usize = if suffix == 'K' || suffix == 'k' {
        1024
    } else if suffix == 'M' || suffix == 'm' {
        1048576
    } else if suffix == 'G' || suffix == 'g' {
        1073741824
    } else {
        return Err(ArgsError::InvalidMemorySize);
    };
    let mut value: usize = 0;
    let mut i: usize = 0;
    while i < n - 1
        invariant
            n == s.len(),
            s == arg@,
            d == s.drop_last(),
            forall|k: int| 0 <= k < d.len() ==> #[trigger] is_digit(d[k]),
            forall|k: int| 0 <= k < s.len() - 1 ==> #[trigger] is_digit(s[k]),
            factor >= 1,
            suffix_factor(s.last()) == Some(factor as nat),
            i <= n - 1,
            value == digits_value(d.subrange(0, i as int)),
        decreases n - 1 - i,
    {
        let c = arg.get_char(i);
        assert(is_digit(d[i as int]));
        let digit = (c as u32 - '0' as u32) as usize;
        assert(d.subrange(0, i + 1).drop_last() =~= d.subrange(0, i as int));
        if value > (usize::MAX - digit) / 10 {
            proof {
                assert(value * 10 + digit > usize::MAX) by (nonlinear_arith)
                    requires
                        value > (usize::MAX - digit) / 10,
                        digit <= 9,
                ;
                lemma_digits_prefix_monotone(d, i + 1);
                assert(digits_value(d) * factor >= digits_value(d)) by (nonlinear_arith)
                    requires
                        factor >= 1,
                ;
            }
            return Err(ArgsError::InvalidMemorySize);
        }
        value = value * 10 + digit;
        i = i + 1;
    }
    assert(d.subrange(0, (n - 1) as int) =~= d);
    if value > usize::MAX / factor {
        assert(value * factor > usize::MAX) by (nonlinear_arith)
            requires
                value > usize::MAX / factor,
                factor > 0,
        ;
        return Err(ArgsError::InvalidMemorySize);
    }
    assert(value * factor <= usize::MAX) by (nonlinear_arith)
        requires
            value <= usize::MAX / factor,
            factor > 0,
    ;
    Ok(value * factor)
}

/// Mathematical value of the command-line settings.
pub struct ArgsView {
    pub kernel_filename: Seq<char>,
    pub initrd_filename: Option<Seq<char>>,
    pub memory_size: nat,
    pub vm_stderr: Option<Seq<char>>,
    pub vm_stdin: Option<Seq<char>>,
    pub vm_stdout: Option<Seq<char>>,
    pub sockaddr: Option<Seq<char>>,
}

/// The value of an optional string.
pub open spec fn opt_chars(o: Option<String>) -> Option<Seq<char>> {
    match o {
        Some(s) => Some(s@),
        None => None,
    }
}

/// The settings before any option is read.
pub open spec fn default_args() -> ArgsView {
    ArgsView {
        kernel_filename: Seq::empty(),
        initrd_filename: None,
        memory_size: config::DEFAULT_MEMORY_SIZE as nat,
        vm_stderr: None,
        vm_stdin: None,
        vm_stdout: None,
        sockaddr: None,
    }
}

/// The settings after option `opt` with `value`.
pub open spec fn apply_option(st: ArgsView, opt: Seq<char>, value: Seq<char>) -> Result<ArgsView, ArgsError> {
    if opt == "-http"@ {
        Ok(ArgsView { sockaddr: Some(value), ..st })
    } else if opt == "-initrd"@ {
        Ok(ArgsView { initrd_filename: Some(value), ..st })
    } else if opt == "-kernel"@ {
        Ok(ArgsView { kernel_filename: value, ..st })
    } else if opt == "-memory"@ {
        match memory_size_of(value) {
            Some(n) => Ok(ArgsView { memory_size: n, ..st }),
            None => Err(ArgsError::InvalidMemorySize),
        }
    } else if opt == "-stderr"@ {
        Ok(ArgsView { vm_stderr: Some(value), ..st })
    } else if opt == "-stdin"@ {
        Ok(ArgsView { vm_stdin: Some(value), ..st })
    } else if opt == "-stdout"@ {
        Ok(ArgsView { vm_stdout: Some(value), ..st })
    } else {
        Err(ArgsError::InvalidArgument)
    }
}

/// The settings after the options of `args` from position `i` on: each
/// option takes the argument that follows it; `-help` stops the reading.
pub open spec fn parse_from(args: Seq<Seq<char>>, i: int, st: ArgsView) -> Result<ArgsView, ArgsError>
    decreases args.len() - i,
{
    if i >= args.len() {
        Ok(st)
    } else if args[i] == "-help"@ {
        Err(ArgsError::HelpRequested)
    } else if i + 1 >= args.len() {
        Err(ArgsError::InvalidArgument)
    } else {
        match apply_option(st, args[i], args[i + 1]) {
            Err(e) => Err(e),
            Ok(next) => parse_from(args, i + 2, next),
        }
    }
}

/// The checks on complete settings.
pub open spec fn check_args(st: ArgsView) -> Result<ArgsView, ArgsError> {
    if st.kernel_filename.len() == 0 {
        Err(ArgsError::MissingKernel)
    } else if st.sockaddr is Some && (st.vm_stdin is Some || st.vm_stdout is Some) {
        Err(ArgsError::ConflictingIo)
    } else if st.memory_size == 0 {
        Err(ArgsError::ZeroMemory)
    } else {
        Ok(st)
    }
}

/// The settings that a command line stands for; its first argument is the
/// program name.
pub open spec fn args_outcome(args: Seq<Seq<char>>) -> Result<ArgsView, ArgsError> {
    match parse_from(args, 1, default_args()) {
        Err(e) => Err(e),
        Ok(st) => check_args(st),
    }
}

/// The characters of each argument.
pub open spec fn args_view(args: Seq<String>) -> Seq<Seq<char>> {
    args.map_values(|s: String| s@)
}

/// The settings of the monitor taken from its command line.
pub struct Args {
    kernel_filename: String,
    initrd_filename: Option<String>,
    memory_size: usize,
    vm_stderr: Option<String>,
    vm_stdin: Option<String>,
    vm_stdout: Option<String>,
    sockaddr: Option<String>,
}

impl View for Args {
    type V = ArgsView;

    closed spec fn view(&self) -> ArgsView {
        ArgsView {
            kernel_filename: self.kernel_filename@,
            initrd_filename: opt_chars(self.initrd_filename),
            memory_size: self.memory_size as nat,
            vm_stderr: opt_chars(self.vm_stderr),
            vm_stdin: opt_chars(self.vm_stdin),
            vm_stdout: opt_chars(self.vm_stdout),
            sockaddr: opt_chars(self.sockaddr),
        }
    }
}

impl Args {
    /// Checks the settings: a kernel is required, `-http` excludes
    /// `-stdin` and `-stdout`, and memory must not be empty.
    pub fn new(
        kernel_filename: String,
        initrd_filename: Option<String>,
        memory_size: usize,
        vm_stderr: Option<String>,
        vm_stdin: Option<String>,
        vm_stdout: Option<String>,
        sockaddr: Option<String>,
    ) -> (r: Result<Args, ArgsError>)
        ensures
            kernel_filename@.len() == 0 ==> r == Err::<Args, ArgsError>(ArgsError::MissingKernel),
            kernel_filename@.len() != 0 && sockaddr is Some && (vm_stdin is Some || vm_stdout is Some)
                ==> r == Err::<Args, ArgsError>(ArgsError::ConflictingIo),
            kernel_filename@.len() != 0 && !(sockaddr is Some && (vm_stdin is Some
                || vm_stdout is Some)) && memory_size == 0 ==> r == Err::<Args, ArgsError>(
                ArgsError::ZeroMemory,
            ),
            r matches Ok(a) ==> a@ == (ArgsView {
                kernel_filename: kernel_filename@,
                initrd_filename: opt_chars(initrd_filename),
                memory_size: memory_size as nat,
                vm_stderr: opt_chars(vm_stderr),
                vm_stdin: opt_chars(vm_stdin),
                vm_stdout: opt_chars(vm_stdout),
                sockaddr: opt_chars(sockaddr),
            }),
            r is Ok <==> kernel_filename@.len() != 0 && !(sockaddr is Some && (vm_stdin is Some
                || vm_stdout is Some)) && memory_size != 0,
    {
        if kernel_filename.as_str().unicode_len() == 0 {
            return Err(ArgsError::MissingKernel);
        }
        if sockaddr.is_some() && (vm_stdin.is_some() || vm_stdout.is_some()) {
            return Err(ArgsError::ConflictingIo);
        }
        if memory_size == 0 {
            return Err(ArgsError::ZeroMemory);
        }
        Ok(
            Args {
                kernel_filename,
                initrd_filename,
                memory_size,
                vm_stderr,
                vm_stdin,
                vm_stdout,
                sockaddr,
            },
        )
    }

    /// Takes the initial RAM disk file name, leaving none.
    pub fn initrd_filename(&mut self) -> (r: Option<String>)
        ensures
            opt_chars(r) == old(self)@.initrd_filename,
            final(self)@ == (ArgsView { initrd_filename: None, ..old(self)@ }),
    {
        self.initrd_filename.take()
    }

    /// The kernel file name.
    pub fn kernel_filename(&self) -> (r: &str)
        ensures
            r@ == self@.kernel_filename,
    {
        self.kernel_filename.as_str()
    }

    /// The size of guest memory in bytes.
    pub fn memory_size(&self) -> (r: usize)
        ensures
            r == self@.memory_size,
    {
        self.memory_size
    }

    /// Takes the file name for the guest's console output, leaving none.
    pub fn take_vm_stderr(&mut self) -> (r: Option<String>)
        ensures
            opt_chars(r) == old(self)@.vm_stderr,
            final(self)@ == (ArgsView { vm_stderr: None, ..old(self)@ }),
    {
        self.vm_stderr.take()
    }

    /// Takes the file name for the guest's input, leaving none.
    pub fn take_vm_stdin(&mut self) -> (r: Option<String>)
        ensures
            opt_chars(r) == old(self)@.vm_stdin,
            final(self)@ == (ArgsView { vm_stdin: None, ..old(self)@ }),
    {
        self.vm_stdin.take()
    }

    /// Takes the file name for the guest's output, leaving none.
    pub fn take_vm_stdout(&mut self) -> (r: Option<String>)
        ensures
            opt_chars(r) == old(self)@.vm_stdout,
            final(self)@ == (ArgsView { vm_stdout: None, ..old(self)@ }),
    {
        self.vm_stdout.take()
    }

    /// Takes the socket address of the HTTP gateway, leaving none.
    pub fn take_sockaddr(&mut self) -> (r: Option<String>)
        ensures
            opt_chars(r) == old(self)@.sockaddr,
            final(self)@ == (ArgsView { sockaddr: None, ..old(self)@ }),
    {
        self.sockaddr.take()
    }

    /// The socket address of the HTTP gateway, or the default one.
    pub fn sockaddr(&self) -> (r: &str)
        ensures
            self@.sockaddr matches Some(a) ==> r@ == a,
            self@.sockaddr is None ==> r@ == config::DEFAULT_HTTP_SOCKADDR@,
    {
        match &self.sockaddr {
            Some(a) => a.as_str(),
            None => config::DEFAULT_HTTP_SOCKADDR,
        }
    }

    /// Reads the command line `args`, whose first argument is the program
    /// name.
    pub fn parse(args: Vec<String>) -> (r: Result<Args, ArgsError>)
        ensures
            match (r, args_outcome(args_view(args@))) {
                (Ok(a), Ok(v)) => a@ == v,
                (Err(e), Err(f)) => e == f,
                _ => false,
            },
    {
        let ghost argv = args_view(args@);
        let mut kernel_filename: String = String::new();
        let mut initrd_filename: Option<String> = None;
        let mut memory_size: usize = config::DEFAULT_MEMORY_SIZE;
        let mut vm_stderr: Option<String> = None;
        let mut vm_stdin: Option<String> = None;
        let mut vm_stdout: Option<String> = None;
        let mut sockaddr: Option<String> = None;
        let n = args.len();
        let mut i: usize = 1;
        proof {
            assert(kernel_filename@ =~= Seq::<char>::empty());
        }
        while i < n
            invariant
                n == args@.len(),
                argv == args_view(args@),
                1 <= i,
                parse_from(argv, 1, default_args()) == parse_from(
                    argv,
                    i as int,
                    ArgsView {
                        kernel_filename: kernel_filename@,
                        initrd_filename: opt_chars(initrd_filename),
                        memory_size: memory_size as nat,
                        vm_stderr: opt_chars(vm_stderr),
                        vm_stdin: opt_chars(vm_stdin),
                        vm_stdout: opt_chars(vm_stdout),
                        sockaddr: opt_chars(sockaddr),
                    },
                ),
            decreases n - i,
        {
            let opt: &str = args[i].as_str();
            assert(argv[i as int] == opt@);
            if str_eq(opt, "-help") {
                return Err(ArgsError::HelpRequested);
            }
            if i + 1 >= n {
                return Err(ArgsError::InvalidArgument);
            }
            let value: String = args[i + 1].clone();
            assert(argv[i + 1] == value@);
            if str_eq(opt, "-http") {
                sockaddr = Some(value);
            } else if str_eq(opt, "-initrd") {
                initrd_filename = Some(value);
            } else if str_eq(opt, "-kernel") {
                kernel_filename = value;
            } else if str_eq(opt, "-memory") {
                memory_size = parse_memory_size(value.as_str())?;
            } else if str_eq(opt, "-stderr") {
                vm_stderr = Some(value);
            } else if str_eq(opt, "-stdin") {
                vm_stdin = Some(value);
            } else if str_eq(opt, "-stdout") {
                vm_stdout = Some(value);
            } else {
                return Err(ArgsError::InvalidArgument);
            }
            i = i + 2;
        }
        Args::new(
            kernel_filename,
            initrd_filename,
            memory_size,
            vm_stderr,
            vm_stdin,
            vm_stdout,
            sockaddr,
        )
    }
}

} // verus!
