use vstd::prelude::*;

use crate::ffi::{UNITY_DLP_OK, UNITY_DLP_OK_DEGRADED};
use crate::text::joined;

verus! {

broadcast use vstd::string::group_string_axioms;

/// The platform families whose staged plugin files are named differently.
#[derive(PartialEq, Eq, Structural, Clone, Copy, Debug)]
pub enum TargetOs {
    Windows,
    MacOs,
    /// Linux and the other Unix targets.
    Other,
}

pub open spec fn plugin_file_name_spec(os: TargetOs) -> Seq<char> {
    match os {
        TargetOs::Windows => "unity_dlp.dll"@,
        TargetOs::MacOs => "unity_dlp.dylib"@,
        TargetOs::Other => "libunity_dlp.so"@,
    }
}

/// The plugin's staged filename on `os`, matching what the build scripts
/// produce.
pub fn plugin_file_name(os: TargetOs) -> (r: &'static str)
    ensures
        r@ == plugin_file_name_spec(os),
{
    match os {
        TargetOs::Windows => "unity_dlp.dll",
        TargetOs::MacOs => "unity_dlp.dylib",
        TargetOs::Other => "libunity_dlp.so",
    }
}

/// The checker's command line, once read.
pub struct LoadcheckArgs {
    pub package_root: String,
    pub python_home: String,
    pub strict: bool,
}

/// What reading the arguments from position `i` on gives, starting from the
/// values read so far: each flag sets its value (a flag that ends the list
/// sets none), `--strict` turns strict mode on, and anything else is refused.
pub open spec fn scan_args(
    args: Seq<Seq<char>>,
    i: int,
    root: Option<Seq<char>>,
    home: Option<Seq<char>>,
    strict: bool,
) -> Result<(Option<Seq<char>>, Option<Seq<char>>, bool), Seq<char>>
    decreases args.len() + 1 - i,
{
    if i < 0 || i >= args.len() {
        Ok((root, home, strict))
    } else {
        let value = if i + 1 < args.len() {
            Some(args[i + 1])
        } else {
            None
        };
        if args[i] == "--package-root"@ {
            scan_args(args, i + 2, value, home, strict)
        } else if args[i] == "--python-home"@ {
            scan_args(args, i + 2, root, value, strict)
        } else if args[i] == "--strict"@ {
            scan_args(args, i + 1, root, home, true)
        } else {
            Err("unknown argument: "@ + args[i])
        }
    }
}

/// The arguments' views.
pub open spec fn arg_views(args: Seq<String>) -> Seq<Seq<char>> {
    args.map_values(|a: String| a@)
}

/// Read `--package-root <dir> --python-home <dir> [--strict]`, in any order,
/// later repeats winning. Both directories are required.
pub fn parse_args(args: &Vec<String>) -> (r: Result<LoadcheckArgs, String>)
    ensures
        ({
            let scanned = scan_args(arg_views(args@), 0, None, None, false);
            match scanned {
                Err(m) => r matches Err(e) && e@ == m,
                Ok((None, _, _)) => r matches Err(e) && e@ == "missing --package-root"@,
                Ok((Some(_), None, _)) => r matches Err(e) && e@ == "missing --python-home"@,
                Ok((Some(root), Some(home), strict)) => r matches Ok(a) && a.package_root@ == root
                    && a.python_home@ == home && a.strict == strict,
            }
        }),
{
    let ghost views = arg_views(args@);
    let flag_root = "--package-root".to_owned();
    let flag_home = "--python-home".to_owned();
    let flag_strict = "--strict".to_owned();
    let mut root: Option<String> = None;
    let mut home: Option<String> = None;
    let mut strict = false;
    let mut i: usize = 0;
    let n = args.len();
    while i < n
        invariant
            n == args@.len(),
            views == arg_views(args@),
            flag_root@ == "--package-root"@,
            flag_home@ == "--python-home"@,
            flag_strict@ == "--strict"@,
            i <= n,
            scan_args(views, 0, None, None, false) == scan_args(
                views,
                i as int,
                opt_views(root),
                opt_views(home),
                strict,
            ),
        decreases n - i,
    {
        let arg = &args[i];
        assert(views[i as int] == arg@);
        if *arg == flag_root {
            if i + 1 < n {
                assert(views[i + 1] == args@[i + 1]@);
                root = Some(args[i + 1].clone());
                i = i + 2;
            } else {
                proof {
                    assert(scan_args(views, i + 2, None, opt_views(home), strict) == scan_args(
                        views,
                        n as int,
                        None,
                        opt_views(home),
                        strict,
                    ));
                }
                root = None;
                i = n;
            }
        } else if *arg == flag_home {
            if i + 1 < n {
                assert(views[i + 1] == args@[i + 1]@);
                home = Some(args[i + 1].clone());
                i = i + 2;
            } else {
                proof {
                    assert(scan_args(views, i + 2, opt_views(root), None, strict) == scan_args(
                        views,
                        n as int,
                        opt_views(root),
                        None,
                        strict,
                    ));
                }
                home = None;
                i = n;
            }
        } else if *arg == flag_strict {
            strict = true;
            i = i + 1;
        } else {
            return Err(joined("unknown argument: ", arg.as_str()));
        }
    }
    match (root, home) {
        (None, _) => Err("missing --package-root".to_owned()),
        (Some(_), None) => Err("missing --python-home".to_owned()),
        (Some(root), Some(home)) => Ok(LoadcheckArgs { package_root: root, python_home: home, strict }),
    }
}

pub open spec fn opt_views(o: Option<String>) -> Option<Seq<char>> {
    match o {
        Some(s) => Some(s@),
        None => None,
    }
}

/// From position `i` on, every `--package-root` or `--python-home` in `args`
/// is followed by its value inside `args`: the list ends between whole flags.
pub open spec fn whole_flags(args: Seq<Seq<char>>, i: int) -> bool
    decreases args.len() - i,
{
    if i < 0 || i >= args.len() {
        true
    } else if args[i] == "--package-root"@ || args[i] == "--python-home"@ {
        i + 1 < args.len() && whole_flags(args, i + 2)
    } else {
        whole_flags(args, i + 1)
    }
}

proof fn lemma_flags_differ()
    ensures
        "--strict"@ != "--package-root"@,
        "--strict"@ != "--python-home"@,
        "--package-root"@ != "--python-home"@,
{
    reveal_strlit("--strict");
    reveal_strlit("--package-root");
    reveal_strlit("--python-home");
    assert("--strict"@[2] != "--package-root"@[2]);
    assert("--strict"@[2] != "--python-home"@[2]);
    assert("--package-root"@[3] != "--python-home"@[3]);
}

proof fn lemma_scan_shift(
    a: Seq<Seq<char>>,
    b: Seq<Seq<char>>,
    j: int,
    root: Option<Seq<char>>,
    home: Option<Seq<char>>,
)
    requires
        0 <= j,
    ensures
        scan_args(a + seq!["--strict"@] + b, a.len() + 1 + j, root, home, true) == scan_args(
            a + b,
            a.len() + j,
            root,
            home,
            true,
        ),
    decreases b.len() + 1 - j,
{
    let with = a + seq!["--strict"@] + b;
    let without = a + b;
    let p = a.len() + 1 + j;
    let q = a.len() + j;
    if j < b.len() {
        assert(with[p] == b[j]);
        assert(without[q] == b[j]);
        if j + 1 < b.len() {
            assert(with[p + 1] == b[j + 1]);
            assert(without[q + 1] == b[j + 1]);
        }
        lemma_scan_shift(a, b, j + 1, root, home);
        lemma_scan_shift(a, b, j + 2, root, home);
        let value = if j + 1 < b.len() {
            Some(b[j + 1])
        } else {
            None
        };
        lemma_scan_shift(a, b, j + 2, value, home);
        lemma_scan_shift(a, b, j + 2, root, value);
    }
}

proof fn lemma_scan_strict_from(
    a: Seq<Seq<char>>,
    b: Seq<Seq<char>>,
    i: int,
    root: Option<Seq<char>>,
    home: Option<Seq<char>>,
    strict: bool,
)
    requires
        0 <= i <= a.len(),
        whole_flags(a, i),
    ensures
        scan_args(a + seq!["--strict"@] + b, i, root, home, strict) == scan_args(
            a + b,
            i,
            root,
            home,
            true,
        ),
    decreases a.len() - i,
{
    let with = a + seq!["--strict"@] + b;
    let without = a + b;
    lemma_flags_differ();
    if i == a.len() {
        assert(with[i] == "--strict"@);
        lemma_scan_shift(a, b, 0, root, home);
    } else {
        assert(with[i] == a[i]);
        assert(without[i] == a[i]);
        if a[i] == "--package-root"@ || a[i] == "--python-home"@ {
            assert(with[i + 1] == a[i + 1]);
            assert(without[i + 1] == a[i + 1]);
            lemma_scan_strict_from(a, b, i + 2, Some(a[i + 1]), home, strict);
            lemma_scan_strict_from(a, b, i + 2, root, Some(a[i + 1]), strict);
        } else if a[i] == "--strict"@ {
            lemma_scan_strict_from(a, b, i + 1, root, home, true);
        }
    }
}

/// `--strict` takes no value: put between whole flags of an argument list,
/// it leaves the directories read, or the refusal, as they are without it,
/// and turns strict mode on.
pub proof fn lemma_strict_takes_no_value(
    before: Seq<Seq<char>>,
    after: Seq<Seq<char>>,
)
    requires
        whole_flags(before, 0),
    ensures
        scan_args(before + seq!["--strict"@] + after, 0, None, None, false) == scan_args(
            before + after,
            0,
            None,
            None,
            true,
        ),
{
    lemma_scan_strict_from(before, after, 0, None, None, false);
}

/// Strict mode only decides the `strict` answer: the directories read, or
/// the refusal, do not depend on it.
pub proof fn lemma_strict_only_sets_strict(
    args: Seq<Seq<char>>,
    i: int,
    root: Option<Seq<char>>,
    home: Option<Seq<char>>,
)
    requires
        0 <= i,
    ensures
        scan_args(args, i, root, home, false) matches Ok((r, h, _)) ==> scan_args(
            args,
            i,
            root,
            home,
            true,
        ) == Ok::<(Option<Seq<char>>, Option<Seq<char>>, bool), Seq<char>>((r, h, true)),
        scan_args(args, i, root, home, false) is Err ==> scan_args(args, i, root, home, true)
            == scan_args(args, i, root, home, false),
    decreases args.len() + 1 - i,
{
    if i < args.len() {
        let value = if i + 1 < args.len() {
            Some(args[i + 1])
        } else {
            None
        };
        if args[i] == "--package-root"@ {
            lemma_strict_only_sets_strict(args, i + 2, value, home);
        } else if args[i] == "--python-home"@ {
            lemma_strict_only_sets_strict(args, i + 2, root, value);
        } else if args[i] == "--strict"@ {
            assert(scan_args(args, i, root, home, false) == scan_args(args, i + 1, root, home, true));
            assert(scan_args(args, i, root, home, true) == scan_args(args, i + 1, root, home, true));
            lemma_strict_only_sets_strict(args, i + 1, root, home);
        }
    }
}

/// What the checker makes of init's result code.
#[derive(PartialEq, Eq, Structural, Clone, Copy, Debug)]
pub enum InitVerdict {
    /// Clean init.
    Ready,
    /// The shim did not register; reported, not fatal.
    Degraded,
    /// The shim did not register under `--strict`; fatal.
    DegradedFatal,
    /// Init failed; fatal.
    Failed,
}

pub fn init_verdict(rc: i32, strict: bool) -> (r: InitVerdict)
    ensures
        rc == UNITY_DLP_OK ==> r == InitVerdict::Ready,
        rc == UNITY_DLP_OK_DEGRADED ==> r == (if strict {
            InitVerdict::DegradedFatal
        } else {
            InitVerdict::Degraded
        }),
        rc != UNITY_DLP_OK && rc != UNITY_DLP_OK_DEGRADED ==> r == InitVerdict::Failed,
{
    if rc == UNITY_DLP_OK {
        InitVerdict::Ready
    } else if rc == UNITY_DLP_OK_DEGRADED {
        if strict {
            InitVerdict::DegradedFatal
        } else {
            InitVerdict::Degraded
        }
    } else {
        InitVerdict::Failed
    }
}

/// How many bytes of a `cap`-byte buffer hold the error text after the
/// library's `last_error` returned `rc` with length `len`: none usable unless
/// it returned OK; otherwise the reported length, clamped to the buffer.
pub fn last_error_length(rc: i32, len: i32, cap: usize) -> (r: Option<usize>)
    ensures
        rc != UNITY_DLP_OK ==> r is None,
        rc == UNITY_DLP_OK ==> r == Some(
            if len <= 0 {
                0usize
            } else if len as int > cap {
                cap
            } else {
                len as usize
            },
        ),
{
    if rc != UNITY_DLP_OK {
        return None;
    }
    if len <= 0 {
        Some(0)
    } else if len as usize > cap {
        Some(cap)
    } else {
        Some(len as usize)
    }
}

} // verus!
