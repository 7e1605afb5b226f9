//! Option types shared with the command-line surface: verbosity, build
//! artifact selection, build mode, network mode, output type, optimization
//! passes, unstable flags, and hex-encoded data arguments.

use vstd::prelude::*;
use vstd::string::StrSliceExecFns;

use crate::parse::{hex_bytes, is_valid_hex};
use crate::strutil::str_eq;

verus! {

#[verifier::external_type_specification]
#[verifier::external_body]
pub struct ExFromHexError(hex::FromHexError);

/// Relies on `hex::decode`: decodes an even-length hexadecimal string into
/// its bytes, two digits per byte, and rejects an odd length or a
/// non-hexadecimal character.
#[verifier::external_body]
fn hex_decode(s: &str) -> (r: Result<Vec<u8>, hex::FromHexError>)
    ensures
        r matches Ok(b) ==> is_valid_hex(s@) && b@ == hex_bytes(s@),
        r is Err ==> !is_valid_hex(s@),
{
    hex::decode(s)
}

/// A byte buffer given on the command line as a hexadecimal string.
#[derive(Debug, Default, PartialEq, Eq)]
pub struct HexData(pub Vec<u8>);

impl HexData {
    /// Decodes a hexadecimal string; succeeds exactly on an even number
    /// of hexadecimal digits.
    pub fn from_str(input: &str) -> (r: Result<HexData, hex::FromHexError>)
        ensures
            r matches Ok(h) ==> is_valid_hex(input@) && h.0@ == hex_bytes(input@),
            r is Err ==> !is_valid_hex(input@),
    {
        match hex_decode(input) {
            Ok(v) => Ok(HexData(v)),
            Err(e) => Err(e),
        }
    }
}

/// The verbosity flags as given on the command line.
#[derive(Debug, Default)]
pub struct VerbosityFlags {
    pub quiet: bool,
    pub verbose: bool,
}

impl VerbosityFlags {
    pub fn new(quiet: bool, verbose: bool) -> (r: VerbosityFlags)
        ensures
            r.quiet == quiet,
            r.verbose == verbose,
    {
        VerbosityFlags { quiet, verbose }
    }
}

/// Whether operator-facing output is rendered. Results are computed
/// unconditionally either way; only rendering is suppressed.
#[derive(Clone, Copy, Debug)]
pub enum Verbosity {
    Default,
    Quiet,
    Verbose,
}

impl Default for Verbosity {
    fn default() -> (r: Self)
        ensures
            r == Verbosity::Default,
    {
        Verbosity::Default
    }
}

impl Verbosity {
    /// Whether output should be printed: everything but `Quiet`.
    pub fn is_verbose(&self) -> (r: bool)
        ensures
            r == !(self is Quiet),
    {
        match self {
            Verbosity::Quiet => false,
            Verbosity::Default | Verbosity::Verbose => true,
        }
    }

    /// Resolves the two command-line flags; passing both is an error.
    pub fn try_from(value: &VerbosityFlags) -> (r: Result<Verbosity, String>)
        ensures
            !value.quiet && !value.verbose ==> (r matches Ok(v) && v == Verbosity::Default),
            value.quiet && !value.verbose ==> (r matches Ok(v) && v == Verbosity::Quiet),
            !value.quiet && value.verbose ==> (r matches Ok(v) && v == Verbosity::Verbose),
            value.quiet && value.verbose ==> r is Err,
    {
        match (value.quiet, value.verbose) {
            (false, false) => Ok(Verbosity::Default),
            (true, false) => Ok(Verbosity::Quiet),
            (false, true) => Ok(Verbosity::Verbose),
            (true, true) => Err(String::from_str("Cannot pass both --quiet and --verbose flags")),
        }
    }
}

/// The characters of `s` with every quotation mark removed; an
/// optimization-pass value may come from a manifest profile quoted.
pub open spec fn unquoted(s: Seq<char>) -> Seq<char>
    decreases s.len(),
{
    if s.len() == 0 {
        Seq::empty()
    } else if s[0] == '"' {
        unquoted(s.subrange(1, s.len() as int))
    } else {
        seq![s[0]] + unquoted(s.subrange(1, s.len() as int))
    }
}

proof fn lemma_unquoted_push(s: Seq<char>, c: char)
    ensures
        unquoted(s.push(c)) == unquoted(s) + (if c == '"' {
            Seq::<char>::empty()
        } else {
            seq![c]
        }),
    decreases s.len(),
{
    let tailed = (if c == '"' {
        Seq::<char>::empty()
    } else {
        seq![c]
    });
    if s.len() == 0 {
        let p = s.push(c);
        assert(p[0] == c);
        assert(p.subrange(1, p.len() as int) =~= Seq::<char>::empty());
        assert(unquoted(Seq::<char>::empty()) == Seq::<char>::empty());
        if c == '"' {
            assert(unquoted(p) =~= unquoted(s) + tailed);
        } else {
            assert(unquoted(p) =~= unquoted(s) + tailed);
        }
    } else {
        let p = s.push(c);
        let t = s.subrange(1, s.len() as int);
        assert(p[0] == s[0]);
        assert(p.subrange(1, p.len() as int) =~= t.push(c));
        lemma_unquoted_push(t, c);
        if s[0] == '"' {
        } else {
            assert(seq![s[0]] + (unquoted(t) + tailed) =~= (seq![s[0]] + unquoted(t)) + tailed);
        }
    }
}

/// The number of optimization passes the final build step runs.
#[derive(Clone, Copy, Debug, PartialEq, Eq)]
pub enum OptimizationPasses {
    Zero,
    One,
    Two,
    Three,
    Four,
    S,
    Z,
}

/// What an optimization-pass value parses to: the quotation marks are
/// stripped, one character must remain, and letters match either case.
pub open spec fn optimization_passes_of(s: Seq<char>) -> Option<OptimizationPasses> {
    let t = unquoted(s);
    if t.len() != 1 {
        None
    } else if t[0] == '0' {
        Some(OptimizationPasses::Zero)
    } else if t[0] == '1' {
        Some(OptimizationPasses::One)
    } else if t[0] == '2' {
        Some(OptimizationPasses::Two)
    } else if t[0] == '3' {
        Some(OptimizationPasses::Three)
    } else if t[0] == '4' {
        Some(OptimizationPasses::Four)
    } else if t[0] == 's' || t[0] == 'S' {
        Some(OptimizationPasses::S)
    } else if t[0] == 'z' || t[0] == 'Z' {
        Some(OptimizationPasses::Z)
    } else {
        None
    }
}

impl Default for OptimizationPasses {
    fn default() -> (r: OptimizationPasses)
        ensures
            r == OptimizationPasses::Z,
    {
        OptimizationPasses::Z
    }
}

impl OptimizationPasses {
    /// The textual form handed to the optimizer.
    pub fn display(&self) -> (r: String)
        ensures
            r@ == match self {
                OptimizationPasses::Zero => "0"@,
                OptimizationPasses::One => "1"@,
                OptimizationPasses::Two => "2"@,
                OptimizationPasses::Three => "3"@,
                OptimizationPasses::Four => "4"@,
                OptimizationPasses::S => "s"@,
                OptimizationPasses::Z => "z"@,
            },
    {
        match self {
            OptimizationPasses::Zero => String::from_str("0"),
            OptimizationPasses::One => String::from_str("1"),
            OptimizationPasses::Two => String::from_str("2"),
            OptimizationPasses::Three => String::from_str("3"),
            OptimizationPasses::Four => String::from_str("4"),
            OptimizationPasses::S => String::from_str("s"),
            OptimizationPasses::Z => String::from_str("z"),
        }
    }

    /// Parses a value from the command line or a manifest profile, where
    /// it may be quoted.
    #[verifier::loop_isolation(false)]
    pub fn from_str(input: &str) -> (r: Result<OptimizationPasses, String>)
        ensures
            match optimization_passes_of(input@) {
                Some(p) => r matches Ok(q) && q == p,
                None => r is Err,
            },
    {
        let n = input.unicode_len();
        let mut kept: Option<char> = None;
        let mut count: usize = 0;
        let mut i: usize = 0;
        while i < n
            invariant
                i <= n,
                count <= i,
                count == unquoted(input@.subrange(0, i as int)).len(),
                count >= 1 ==> (kept matches Some(k) && k == unquoted(
                    input@.subrange(0, i as int),
                )[0]),
                count == 0 ==> kept is None,
            decreases n - i,
        {
            let c = input.get_char(i);
            proof {
                assert(input@.subrange(0, i + 1) =~= input@.subrange(0, i as int).push(
                    input@[i as int],
                ));
                lemma_unquoted_push(input@.subrange(0, i as int), input@[i as int]);
            }
            if c != '"' {
                if count == 0 {
                    kept = Some(c);
                }
                count = count + 1;
            }
            i = i + 1;
        }
        proof {
            assert(input@.subrange(0, n as int) =~= input@);
        }
        if count != 1 {
            return Err(String::from_str("unrecognized optimization passes value"));
        }
        let c = match kept {
            Some(c) => c,
            None => {
                return Err(String::from_str("unrecognized optimization passes value"));
            },
        };
        if c == '0' {
            Ok(OptimizationPasses::Zero)
        } else if c == '1' {
            Ok(OptimizationPasses::One)
        } else if c == '2' {
            Ok(OptimizationPasses::Two)
        } else if c == '3' {
            Ok(OptimizationPasses::Three)
        } else if c == '4' {
            Ok(OptimizationPasses::Four)
        } else if c == 's' || c == 'S' {
            Ok(OptimizationPasses::S)
        } else if c == 'z' || c == 'Z' {
            Ok(OptimizationPasses::Z)
        } else {
            Err(String::from_str("unrecognized optimization passes value"))
        }
    }
}

/// Which artifacts a build generates.
#[derive(Clone, Copy, Debug, PartialEq, Eq)]
pub enum BuildArtifacts {
    All,
    CodeOnly,
    CheckOnly,
}

impl BuildArtifacts {
    /// The number of steps the build runs for this artifact selection,
    /// shown as progress on the command line.
    pub fn steps(&self) -> (r: usize)
        ensures
            self is All ==> r == 5,
            self is CodeOnly ==> r == 3,
            self is CheckOnly ==> r == 2,
    {
        match self {
            BuildArtifacts::All => 5,
            BuildArtifacts::CodeOnly => 3,
            BuildArtifacts::CheckOnly => 2,
        }
    }

    /// Parses the command-line artifact selection.
    pub fn from_str(artifact: &str) -> (r: Result<BuildArtifacts, String>)
        ensures
            artifact@ == "all"@ ==> (r matches Ok(a) && a == BuildArtifacts::All),
            artifact@ == "code-only"@ ==> (r matches Ok(a) && a == BuildArtifacts::CodeOnly),
            artifact@ != "all"@ && artifact@ != "code-only"@ ==> r is Err,
    {
        proof {
            reveal_strlit("all");
            reveal_strlit("code-only");
            assert("all"@.len() == 3);
            assert("code-only"@.len() == 9);
        }
        if str_eq(artifact, "all") {
            Ok(BuildArtifacts::All)
        } else if str_eq(artifact, "code-only") {
            Ok(BuildArtifacts::CodeOnly)
        } else {
            Err(String::from_str("Could not parse build artifact"))
        }
    }
}

impl Default for BuildArtifacts {
    fn default() -> (r: Self)
        ensures
            r == BuildArtifacts::All,
    {
        BuildArtifacts::All
    }
}

/// The mode to build the contract in.
#[derive(Clone, Copy, Debug, PartialEq, Eq)]
pub enum BuildMode {
    Debug,
    Release,
}

impl Default for BuildMode {
    fn default() -> (r: BuildMode)
        ensures
            r == BuildMode::Debug,
    {
        BuildMode::Debug
    }
}

impl BuildMode {
    /// The textual form shown in build output.
    pub fn display(&self) -> (r: String)
        ensures
            self is Debug ==> r@ == "debug"@,
            self is Release ==> r@ == "release"@,
    {
        match self {
            BuildMode::Debug => String::from_str("debug"),
            BuildMode::Release => String::from_str("release"),
        }
    }
}

/// Whether a build may use the network or only cached dependencies.
#[derive(Clone, Copy, Debug, PartialEq, Eq)]
pub enum Network {
    Online,
    Offline,
}

impl Default for Network {
    fn default() -> (r: Network)
        ensures
            r == Network::Online,
    {
        Network::Online
    }
}

impl Network {
    /// The flag passed through to the build, empty when online.
    pub fn display(&self) -> (r: String)
        ensures
            self is Online ==> r@ == ""@,
            self is Offline ==> r@ == "--offline"@,
    {
        match self {
            Network::Online => String::from_str(""),
            Network::Offline => String::from_str("--offline"),
        }
    }
}

/// The format of the output shown at the end of a build.
#[derive(Clone, Copy, Debug, PartialEq, Eq)]
pub enum OutputType {
    HumanReadable,
    Json,
}

impl Default for OutputType {
    fn default() -> (r: Self)
        ensures
            r == OutputType::HumanReadable,
    {
        OutputType::HumanReadable
    }
}

/// Raw `-Z` values from the command line.
#[derive(Debug, Default)]
pub struct UnstableOptions {
    pub options: Vec<String>,
}

/// The recognised unstable flags.
#[derive(Debug, Default)]
pub struct UnstableFlags {
    pub original_manifest: bool,
}

/// The `-Z` values that are not recognised, in their given order.
pub open spec fn invalid_options(opts: Seq<Seq<char>>) -> Seq<Seq<char>>
    decreases opts.len(),
{
    if opts.len() == 0 {
        Seq::empty()
    } else if opts.last() == "original-manifest"@ {
        invalid_options(opts.drop_last())
    } else {
        invalid_options(opts.drop_last()) + seq![opts.last()]
    }
}

impl UnstableFlags {
    /// Resolves the raw `-Z` values; any unknown value is an error naming
    /// every offending value, and the only recognised value keeps the
    /// original manifest.
    #[verifier::loop_isolation(false)]
    pub fn try_from(value: &UnstableOptions) -> (r: Result<UnstableFlags, Vec<String>>)
        ensures
            (forall|i: int| 0 <= i < value.options@.len() ==> (#[trigger] value.options@[i])@
                == "original-manifest"@) <==> r is Ok,
            r matches Ok(f) ==> f.original_manifest == (value.options@.len() > 0),
            r matches Err(bad) ==> bad.deep_view() == invalid_options(value.options.deep_view()),
    {
        let ghost opts = value.options.deep_view();
        let mut bad: Vec<String> = Vec::new();
        let mut i: usize = 0;
        while i < value.options.len()
            invariant
                i <= value.options@.len(),
                bad.deep_view() == invalid_options(opts.subrange(0, i as int)),
                (bad@.len() == 0) <==> (forall|j: int| 0 <= j < i ==> (
                #[trigger] value.options@[j])@ == "original-manifest"@),
            decreases value.options@.len() - i,
        {
            proof {
                let now = opts.subrange(0, i + 1);
                assert(now.drop_last() =~= opts.subrange(0, i as int));
                assert(now.last() == value.options@[i as int]@);
            }
            if !str_eq(value.options[i].as_str(), "original-manifest") {
                let ghost bad0 = bad.deep_view();
                bad.push(value.options[i].clone());
                proof {
                    assert(bad.deep_view() =~= bad0.push(value.options@[i as int]@));
                    assert(bad.deep_view() =~= invalid_options(opts.subrange(0, i + 1)));
                }
            }
            i = i + 1;
        }
        proof {
            assert(opts.subrange(0, opts.len() as int) =~= opts);
        }
        if bad.len() > 0 {
            return Err(bad);
        }
        Ok(UnstableFlags { original_manifest: value.options.len() > 0 })
    }
}

} // verus!
