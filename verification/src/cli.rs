//! Command-line rules: the vintage option, the command forms, identifier
//! arguments and standard-input lines, and where a vintage's data lives.

use vstd::prelude::*;
use vstd::string::*;
use crate::text::{is_trim_of, is_white_space, trim_bounds, trim_white_space, NumberError, decimal, decimal_string, lemma_decimal_injective, parse_decimal, parse_unsigned};
use crate::header::data_revision;

verus! {

/// The vintage used when none is selected.
pub const DEFAULT_VINTAGE: u16 = 2020;

/// The first supported annual vintage.
pub const FIRST_VINTAGE: u16 = 2010;

/// The last supported annual vintage.
pub const LAST_VINTAGE: u16 = 2025;

/// The strings of a list of arguments.
pub open spec fn views(v: Seq<String>) -> Seq<Seq<char>> {
    v.map_values(|s: String| s@)
}

pub open spec fn vintage_flag() -> Seq<char> {
    "--vintage"@
}

/// Why the vintage option was refused.
#[derive(Debug, Clone, Copy, PartialEq, Eq)]
pub enum VintageError {
    /// The option appears twice, or has no value after it.
    NotExactlyOnce,
    /// The value is not an unsigned 16-bit decimal number.
    Number(NumberError),
    /// The value is outside the supported vintages.
    OutOfRange,
}

/// `p` is the first position of the vintage option in `s`.
pub open spec fn is_first_flag(s: Seq<Seq<char>>, p: int) -> bool {
    &&& 0 <= p < s.len()
    &&& s[p] == vintage_flag()
    &&& forall|k: int| 0 <= k < p ==> s[k] != vintage_flag()
}

/// `s` holds the vintage option somewhere.
pub open spec fn has_flag(s: Seq<Seq<char>>) -> bool {
    exists|k: int| 0 <= k < s.len() && s[k] == vintage_flag()
}

/// The option and its value at `p` removed from `s`.
pub open spec fn without_pair(s: Seq<Seq<char>>, p: int) -> Seq<Seq<char>> {
    s.take(p) + s.skip(p + 2)
}

/// The result and the remaining arguments when the first option is at `p`.
pub open spec fn vintage_outcome(s: Seq<Seq<char>>, p: int) -> (Result<u16, VintageError>, Seq<Seq<char>>) {
    if p + 1 >= s.len() {
        (Err(VintageError::NotExactlyOnce), s)
    } else {
        match parse_unsigned(s[p + 1], 65535) {
            Err(e) => (Err(VintageError::Number(e)), s),
            Ok(v) => if v < FIRST_VINTAGE || v > LAST_VINTAGE {
                (Err(VintageError::OutOfRange), s)
            } else if has_flag(without_pair(s, p)) {
                (Err(VintageError::NotExactlyOnce), without_pair(s, p))
            } else {
                (Ok(v as u16), without_pair(s, p))
            },
        }
    }
}

/// Takes `--vintage YEAR` out of the arguments: the default vintage when it
/// is absent, and an error unless it appears exactly once with a year from
/// the first to the last vintage.
pub open spec fn take_vintage_spec(s: Seq<Seq<char>>) -> (Result<u16, VintageError>, Seq<Seq<char>>) {
    if !has_flag(s) {
        (Ok(DEFAULT_VINTAGE), s)
    } else {
        vintage_outcome(s, choose|p: int| is_first_flag(s, p))
    }
}

proof fn lemma_first_flag_unique(s: Seq<Seq<char>>, p: int, q: int)
    requires
        is_first_flag(s, p),
        is_first_flag(s, q),
    ensures
        p == q,
{
}

/// Every year from 2010 through 2025 is selected by `--vintage YEAR`,
/// wherever the option stands among arguments that hold it once: the
/// result is that year and the arguments without the option and its value.
pub proof fn lemma_supported_year_selected(pre: Seq<Seq<char>>, y: u16, post: Seq<Seq<char>>)
    requires
        2010 <= y <= 2025,
        !has_flag(pre),
        !has_flag(post),
    ensures
        take_vintage_spec(pre + seq!["--vintage"@, decimal(y as nat)] + post) == (
        Ok::<u16, VintageError>(y), pre + post),
{
    let s = pre + seq!["--vintage"@, decimal(y as nat)] + post;
    let p = pre.len() as int;
    assert(s[p] == vintage_flag());
    assert forall|k: int| 0 <= k < p implies s[k] != vintage_flag() by {
        assert(s[k] == pre[k]);
    }
    assert(is_first_flag(s, p));
    assert(has_flag(s));
    let q = choose|q: int| is_first_flag(s, q);
    lemma_first_flag_unique(s, p, q);
    assert(s[p + 1] == decimal(y as nat));
    crate::text::lemma_decimal_roundtrip(y as nat, 65535);
    assert(without_pair(s, p) =~= pre + post);
    if has_flag(pre + post) {
        let k = choose|k: int| 0 <= k < (pre + post).len() && (pre + post)[k] == vintage_flag();
        if k < pre.len() {
            assert(pre[k] == vintage_flag());
        } else {
            assert(post[k - pre.len()] == vintage_flag());
        }
    }
}

/// Without the vintage option the default vintage, 2020, is selected and
/// the arguments are left as they are.
pub proof fn lemma_default_year_selected(s: Seq<Seq<char>>)
    requires
        !has_flag(s),
    ensures
        take_vintage_spec(s) == (Ok::<u16, VintageError>(2020), s),
{
}

/// A vintage that the option selects is always a supported year, from
/// 2010 through 2025.
pub proof fn lemma_selected_year_supported(s: Seq<Seq<char>>)
    requires
        take_vintage_spec(s).0 is Ok,
    ensures
        2010 <= take_vintage_spec(s).0->Ok_0 <= 2025,
{
}

/// Removes `--vintage YEAR` from `args` and returns the selected vintage.
#[verifier::loop_isolation(false)]
pub fn take_vintage(args: &mut Vec<String>) -> (r: Result<u16, VintageError>)
    ensures
        (r, views(final(args)@)) == take_vintage_spec(views(old(args)@)),
{
    let ghost s = views(args@);
    let flag = String::from_str("--vintage");
    let mut i: usize = 0;
    while i < args.len() && !(args[i] == flag)
        invariant
            i <= args@.len(),
            s == views(args@),
            flag@ == vintage_flag(),
            forall|k: int| 0 <= k < i ==> s[k] != vintage_flag(),
        decreases args.len() - i,
    {
        assert(s[i as int] == args@[i as int]@);
        i = i + 1;
    }
    if i == args.len() {
        assert(!has_flag(s));
        return Ok(DEFAULT_VINTAGE);
    }
    assert(s[i as int] == args@[i as int]@);
    assert(s[i as int] == vintage_flag());
    assert(is_first_flag(s, i as int));
    assert(has_flag(s));
    proof {
        let p = choose|p: int| is_first_flag(s, p);
        lemma_first_flag_unique(s, p, i as int);
    }
    let p = i;
    if p + 1 >= args.len() {
        return Err(VintageError::NotExactlyOnce);
    }
    let value = match parse_decimal(args[p + 1].as_str(), 65535) {
        Err(e) => return Err(VintageError::Number(e)),
        Ok(v) => v,
    };
    if value < FIRST_VINTAGE as u64 || value > LAST_VINTAGE as u64 {
        return Err(VintageError::OutOfRange);
    }
    args.remove(p);
    args.remove(p);
    let ghost t = without_pair(s, p as int);
    assert(views(args@) =~= t);
    let mut j: usize = p;
    while j < args.len()
        invariant
            p <= j <= args@.len(),
            t == views(args@),
            flag@ == vintage_flag(),
            forall|k: int| 0 <= k < j ==> t[k] != vintage_flag(),
        decreases args.len() - j,
    {
        assert(t[j as int] == args@[j as int]@);
        if args[j] == flag {
            assert(has_flag(t));
            return Err(VintageError::NotExactlyOnce);
        }
        j = j + 1;
    }
    Ok(value as u16)
}


/// What the command line asks for.
#[derive(Debug)]
pub enum Command {
    Help,
    Version,
    Lookup { ids: Vec<String>, vintage: u16 },
    DataInstall { vintage: u16 },
    DataPath { vintage: u16 },
}

/// Why the command line was refused.
#[derive(Debug, Clone, Copy, PartialEq, Eq)]
pub enum CommandError {
    Vintage(VintageError),
    DataUsage,
}

/// Some argument asks for help.
pub open spec fn asks_help(s: Seq<Seq<char>>) -> bool {
    exists|k: int| 0 <= k < s.len() && (s[k] == "--help"@ || s[k] == "-h"@)
}

/// The arguments are exactly a version request.
pub open spec fn asks_version(s: Seq<Seq<char>>) -> bool {
    s.len() == 1 && (s[0] == "--version"@ || s[0] == "-V"@)
}

/// The command selected by the arguments left after the vintage option.
pub open spec fn command_matches(c: Command, rest: Seq<Seq<char>>, v: u16, stdin_is_terminal: bool) -> bool {
    if rest.len() > 0 && rest[0] == "lookup"@ {
        c matches Command::Lookup { ids, vintage } && vintage == v && views(ids@) == rest.drop_first()
    } else if rest.len() == 0 && stdin_is_terminal {
        c matches Command::Help
    } else if rest.len() > 0 && rest[0] == "data"@ {
        false
    } else {
        c matches Command::Lookup { ids, vintage } && vintage == v && views(ids@) == rest
    }
}

/// The `data` subcommands: `install` or `path`, and nothing after them.
pub open spec fn data_command(rest: Seq<Seq<char>>, v: u16) -> Result<Command, CommandError> {
    if rest.len() == 2 && rest[1] == "install"@ {
        Ok(Command::DataInstall { vintage: v })
    } else if rest.len() == 2 && rest[1] == "path"@ {
        Ok(Command::DataPath { vintage: v })
    } else {
        Err(CommandError::DataUsage)
    }
}

fn is_help_arg(a: &String) -> (h: bool)
    ensures
        h == (a@ == "--help"@ || a@ == "-h"@),
{
    *a == String::from_str("--help") || *a == String::from_str("-h")
}

/// Reads the command line (without the program name). Help anywhere wins,
/// then a lone version request, then the vintage option; `lookup` takes
/// the identifiers after it, `data install` and `data path` take nothing
/// more, no arguments at a terminal asks for help, and any other arguments
/// are identifiers to look up.
#[verifier::loop_isolation(false)]
pub fn parse_command(args: Vec<String>, stdin_is_terminal: bool) -> (r: Result<Command, CommandError>)
    ensures
        asks_help(views(args@)) ==> r matches Ok(Command::Help),
        !asks_help(views(args@)) && asks_version(views(args@)) ==> r matches Ok(Command::Version),
        !asks_help(views(args@)) && !asks_version(views(args@)) ==> {
            let (tv, rest) = take_vintage_spec(views(args@));
            match tv {
                Err(e) => r == Err::<Command, CommandError>(CommandError::Vintage(e)),
                Ok(v) => if rest.len() > 0 && rest[0] == "data"@ {
                    match data_command(rest, v) {
                        Ok(Command::DataInstall { vintage }) => r matches Ok(Command::DataInstall { vintage: w }) && w == vintage,
                        Ok(Command::DataPath { vintage }) => r matches Ok(Command::DataPath { vintage: w }) && w == vintage,
                        Ok(_) => false,
                        Err(e) => r == Err::<Command, CommandError>(e),
                    }
                } else {
                    r matches Ok(c) && command_matches(c, rest, v, stdin_is_terminal)
                },
            }
        },
        r matches Ok(Command::Lookup { vintage, .. }) ==> take_vintage_spec(views(args@)).0 == Ok::<u16, VintageError>(vintage),
        r matches Ok(Command::DataInstall { vintage }) ==> take_vintage_spec(views(args@)).0 == Ok::<u16, VintageError>(vintage),
        r matches Ok(Command::DataPath { vintage }) ==> take_vintage_spec(views(args@)).0 == Ok::<u16, VintageError>(vintage),
        !asks_help(views(args@)) && !asks_version(views(args@)) && !stdin_is_terminal
            && take_vintage_spec(views(args@)).0 is Ok && take_vintage_spec(views(args@)).1.len() == 0
            ==> (r matches Ok(Command::Lookup { ids, vintage }) && ids@.len() == 0
            && Ok::<u16, VintageError>(vintage) == take_vintage_spec(views(args@)).0),
{
    let mut args = args;
    let ghost s = views(args@);
    let mut k: usize = 0;
    while k < args.len()
        invariant
            k <= args@.len(),
            s == views(args@),
            forall|j: int| 0 <= j < k ==> !(s[j] == "--help"@ || s[j] == "-h"@),
        decreases args.len() - k,
    {
        assert(s[k as int] == args@[k as int]@);
        if is_help_arg(&args[k]) {
            assert(asks_help(s));
            return Ok(Command::Help);
        }
        k = k + 1;
    }
    assert(!asks_help(s));
    if args.len() == 1 && (args[0] == String::from_str("--version") || args[0] == String::from_str("-V")) {
        assert(s[0] == args@[0]@);
        return Ok(Command::Version);
    }
    assert(args.len() == 1 ==> s[0] == args@[0]@);
    let vintage = match take_vintage(&mut args) {
        Err(e) => return Err(CommandError::Vintage(e)),
        Ok(v) => v,
    };
    let ghost rest = views(args@);
    if args.len() == 0 {
        if stdin_is_terminal {
            return Ok(Command::Help);
        }
        return Ok(Command::Lookup { ids: args, vintage });
    }
    assert(rest[0] == args@[0]@);
    proof {
        reveal_strlit("lookup");
        reveal_strlit("data");
    }
    if args[0] == String::from_str("lookup") {
        let ids = args.split_off(1);
        assert(views(ids@) =~= rest.drop_first());
        return Ok(Command::Lookup { ids, vintage });
    }
    if args[0] == String::from_str("data") {
        if args.len() == 2 {
            assert(rest[1] == args@[1]@);
            if args[1] == String::from_str("install") {
                return Ok(Command::DataInstall { vintage });
            }
            if args[1] == String::from_str("path") {
                return Ok(Command::DataPath { vintage });
            }
        }
        return Err(CommandError::DataUsage);
    }
    Ok(Command::Lookup { ids: args, vintage })
}

/// A lookup, with identifier arguments or with none (identifiers then come
/// from standard input), runs in the vintage that the option selected.
pub proof fn lemma_lookup_uses_selected_vintage(c: Command, rest: Seq<Seq<char>>, v: u16, stdin_is_terminal: bool)
    requires
        command_matches(c, rest, v, stdin_is_terminal),
        c is Lookup,
    ensures
        c matches Command::Lookup { vintage, .. } && vintage == v,
{
}

/// With no arguments left after the option and standard input not a
/// terminal, the command is a lookup of the identifiers read from standard
/// input, in the selected vintage.
pub proof fn lemma_piped_lookup_uses_selected_vintage(c: Command, rest: Seq<Seq<char>>, v: u16)
    requires
        command_matches(c, rest, v, false),
        rest.len() == 0,
    ensures
        c matches Command::Lookup { ids, vintage } && vintage == v && ids@.len() == 0,
{
}

/// An identifier argument that is not an unsigned 64-bit decimal number,
/// with its 1-based position.
#[derive(Debug, Clone)]
pub struct InvalidIdText {
    pub position: usize,
    pub value: String,
}

/// Parses identifier arguments as `str::parse::<u64>` does, stopping at the
/// first one that is not a number.
pub fn parse_ids(values: &Vec<String>) -> (r: Result<Vec<u64>, InvalidIdText>)
    ensures
        match r {
            Ok(ids) => ids@.len() == values@.len() && forall|i: int| 0 <= i < values@.len()
                ==> parse_unsigned(#[trigger] values@[i]@, u64::MAX as nat) == Ok::<nat, NumberError>(ids@[i] as nat),
            Err(e) => 1 <= e.position <= values@.len() && e.value@ == values@[e.position - 1]@
                && parse_unsigned(values@[e.position - 1]@, u64::MAX as nat) is Err
                && forall|i: int| 0 <= i < e.position - 1 ==> parse_unsigned(#[trigger] values@[i]@, u64::MAX as nat) is Ok,
        },
{
    let mut ids: Vec<u64> = Vec::new();
    let mut i: usize = 0;
    while i < values.len()
        invariant
            i <= values@.len(),
            ids@.len() == i,
            forall|j: int| 0 <= j < i ==> parse_unsigned(#[trigger] values@[j]@, u64::MAX as nat) == Ok::<nat, NumberError>(ids@[j] as nat),
        decreases values.len() - i,
    {
        match parse_decimal(values[i].as_str(), u64::MAX) {
            Ok(v) => ids.push(v),
            Err(_) => return Err(InvalidIdText { position: i + 1, value: values[i].clone() }),
        }
        i = i + 1;
    }
    Ok(ids)
}

/// One identifier read from line `line_index` (0-based) of standard input:
/// the line without surrounding white space, or the 1-based line number
/// when nothing is left.
pub fn stdin_id(line_index: usize, raw: &str) -> (r: Result<String, usize>)
    requires
        line_index < usize::MAX,
    ensures
        match r {
            Ok(v) => is_trim_of(v@, raw@) && v@.len() > 0,
            Err(n) => n == line_index + 1 && forall|i: int| 0 <= i < raw@.len() ==> #[trigger] is_white_space(raw@[i]),
        },
{
    let t = trim_white_space(raw);
    if t.is_empty() {
        proof {
            let (a, b) = choose|a: int, b: int| trim_bounds(raw@, a, b) && t@ == raw@.subrange(a, b);
            assert forall|i: int| 0 <= i < raw@.len() implies #[trigger] is_white_space(raw@[i]) by {
                if i < a {
                } else if i >= b {
                } else {
                    assert(raw@.subrange(a, b).len() > 0);
                }
            }
        }
        return Err(line_index + 1);
    }
    Ok(String::from_str(t))
}

/// The file name of a vintage's dataset: `tracts_YEAR.fgb`.
pub fn dataset_file_name(year: u16) -> (n: String)
    ensures
        n@ == "tracts_"@ + decimal(year as nat) + ".fgb"@,
{
    let mut n = String::from_str("tracts_");
    let d = decimal_string(year as u64);
    n.append(d.as_str());
    n.append(".fgb");
    n
}

/// The directory holding a vintage's installed data:
/// `tracts-YEAR-REVISION`.
pub fn vintage_directory_name(year: u16) -> (n: String)
    ensures
        n@ == "tracts-"@ + decimal(year as nat) + "-"@ + "r2"@,
{
    let mut n = String::from_str("tracts-");
    let d = decimal_string(year as u64);
    n.append(d.as_str());
    n.append("-");
    n.append(data_revision());
    n
}


/// Each vintage lives in a directory and file of its own: different years
/// never share a data directory name or a dataset file name.
pub proof fn lemma_vintage_locations_distinct(a: u16, b: u16)
    requires
        a != b,
    ensures
        "tracts-"@ + decimal(a as nat) + "-"@ + "r2"@ != "tracts-"@ + decimal(b as nat) + "-"@ + "r2"@,
        "tracts_"@ + decimal(a as nat) + ".fgb"@ != "tracts_"@ + decimal(b as nat) + ".fgb"@,
{
    lemma_decimal_injective(a as nat, b as nat);
    let da = decimal(a as nat);
    let db = decimal(b as nat);
    let p = "tracts-"@;
    let q = "tracts_"@;
    let r = "-"@ + "r2"@;
    let f = ".fgb"@;
    if p + da + "-"@ + "r2"@ == p + db + "-"@ + "r2"@ {
        assert(p + da + "-"@ + "r2"@ == p + (da + r));
        assert(p + db + "-"@ + "r2"@ == p + (db + r));
        assert((p + (da + r)).skip(p.len() as int) == da + r);
        assert((p + (db + r)).skip(p.len() as int) == db + r);
        assert((da + r).take(da.len() as int) == da);
        assert((db + r).take(db.len() as int) == db);
    }
    if q + da + f == q + db + f {
        assert((q + da + f).skip(q.len() as int) == da + f);
        assert((q + db + f).skip(q.len() as int) == db + f);
        assert((da + f).take(da.len() as int) == da);
        assert((db + f).take(db.len() as int) == db);
    }
}

} // verus!
