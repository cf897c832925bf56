//! The command line: an optional graph path, or named options for the
//! graph, a legacy import, and the self-checks that run instead of the
//! canvas.

use vstd::prelude::*;

use crate::domain::model::text_of;
use crate::text::{chars_of, joined_text, same_text};

verus! {

/// What the command line asks for. A missing `database` means the default
/// graph of the application data directory.
#[derive(Clone, Debug, PartialEq, Eq)]
pub struct StartupOptions {
    pub database: Option<String>,
    pub import_legacy: Option<String>,
    pub release_smoke: Option<String>,
    pub performance_source: Option<String>,
    pub capability_root: Option<String>,
    pub show_licenses: bool,
}

/// The options as text.
pub struct OptionsView {
    pub database: Option<Seq<char>>,
    pub import_legacy: Option<Seq<char>>,
    pub release_smoke: Option<Seq<char>>,
    pub performance_source: Option<Seq<char>>,
    pub capability_root: Option<Seq<char>>,
    pub show_licenses: bool,
}

impl View for StartupOptions {
    type V = OptionsView;

    open spec fn view(&self) -> OptionsView {
        OptionsView {
            database: text_of(self.database),
            import_legacy: text_of(self.import_legacy),
            release_smoke: text_of(self.release_smoke),
            performance_source: text_of(self.performance_source),
            capability_root: text_of(self.capability_root),
            show_licenses: self.show_licenses,
        }
    }
}

#[derive(Clone, Debug, PartialEq, Eq)]
pub enum StartupError {
    /// A named option is the last argument, with no path after it.
    MissingValue(String),
    /// An option is unknown, or named twice.
    UnknownOption(String),
    /// More than one self-check is asked for, or one together with a graph.
    ExclusiveChecks,
}

impl StartupError {
    pub fn message(&self) -> (text: String)
        ensures
            self matches StartupError::MissingValue(flag) ==> text@ == flag@ + " requires a path"@,
            self matches StartupError::UnknownOption(flag) ==> text@ == "unknown or repeated option "@ + flag@,
            self is ExclusiveChecks ==> text@ == "release, performance, and capability checks are exclusive"@,
    {
        match self {
            StartupError::MissingValue(flag) => joined_text(flag.as_str(), " requires a path"),
            StartupError::UnknownOption(flag) => joined_text("unknown or repeated option ", flag.as_str()),
            StartupError::ExclusiveChecks => "release, performance, and capability checks are exclusive".to_owned(),
        }
    }
}

/// How reading the arguments ends.
pub enum Parse {
    Options(OptionsView),
    MissingValue(Seq<char>),
    Unknown(Seq<char>),
    Exclusive,
}

pub open spec fn no_options() -> OptionsView {
    OptionsView {
        database: None,
        import_legacy: None,
        release_smoke: None,
        performance_source: None,
        capability_root: None,
        show_licenses: false,
    }
}

/// Reads the named options from `index` on, given those already read: each
/// may be named once, and each but `--licenses` takes the next argument as
/// its path.
pub open spec fn scan(args: Seq<Seq<char>>, index: nat, seen: OptionsView) -> Parse
    decreases args.len() - index,
{
    if index >= args.len() {
        Parse::Options(seen)
    } else {
        let flag = args[index as int];
        if flag == "--licenses"@ && !seen.show_licenses {
            scan(args, index + 1, OptionsView { show_licenses: true, ..seen })
        } else if index + 1 >= args.len() {
            Parse::MissingValue(flag)
        } else {
            let value = args[(index + 1) as int];
            if flag == "--database"@ && seen.database is None {
                scan(args, index + 2, OptionsView { database: Some(value), ..seen })
            } else if flag == "--import-legacy"@ && seen.import_legacy is None {
                scan(args, index + 2, OptionsView { import_legacy: Some(value), ..seen })
            } else if flag == "--release-self-check"@ && seen.release_smoke is None {
                scan(args, index + 2, OptionsView { release_smoke: Some(value), ..seen })
            } else if flag == "--performance-check"@ && seen.performance_source is None {
                scan(args, index + 2, OptionsView { performance_source: Some(value), ..seen })
            } else if flag == "--capability-check"@ && seen.capability_root is None {
                scan(args, index + 2, OptionsView { capability_root: Some(value), ..seen })
            } else {
                Parse::Unknown(flag)
            }
        }
    }
}

/// How many self-checks the options ask for.
pub open spec fn check_count(o: OptionsView) -> nat {
    (if o.release_smoke is Some {
        1nat
    } else {
        0nat
    }) + (if o.performance_source is Some {
        1nat
    } else {
        0nat
    }) + (if o.capability_root is Some {
        1nat
    } else {
        0nat
    }) + (if o.show_licenses {
        1nat
    } else {
        0nat
    })
}

/// A self-check runs alone: with no other self-check and no graph.
pub open spec fn checks_exclusive(o: OptionsView) -> bool {
    check_count(o) <= 1 && !(check_count(o) == 1 && (o.database is Some || o.import_legacy is Some))
}

/// What the arguments ask for: one argument that does not start with `-` is
/// the graph path; otherwise the arguments are named options.
pub open spec fn parse_arguments(args: Seq<Seq<char>>) -> Parse {
    if args.len() == 1 && !(args[0].len() > 0 && args[0][0] == '-') {
        Parse::Options(OptionsView { database: Some(args[0]), ..no_options() })
    } else {
        match scan(args, 0, no_options()) {
            Parse::Options(o) => if checks_exclusive(o) {
                Parse::Options(o)
            } else {
                Parse::Exclusive
            },
            other => other,
        }
    }
}

pub open spec fn arguments_text(arguments: Seq<String>) -> Seq<Seq<char>> {
    arguments.map_values(|a: String| a@)
}

fn starts_with_dash(a: &String) -> (r: bool)
    ensures
        r == (a@.len() > 0 && a@[0] == '-'),
{
    let chars = chars_of(a.as_str());
    chars.len() > 0 && chars[0] == '-'
}

/// Reads the command line.
pub fn startup_options(arguments: &Vec<String>) -> (result: Result<StartupOptions, StartupError>)
    ensures
        match (result, parse_arguments(arguments_text(arguments@))) {
            (Ok(options), Parse::Options(expected)) => options@ == expected,
            (Err(StartupError::MissingValue(flag)), Parse::MissingValue(expected)) => flag@ == expected,
            (Err(StartupError::UnknownOption(flag)), Parse::Unknown(expected)) => flag@ == expected,
            (Err(StartupError::ExclusiveChecks), Parse::Exclusive) => true,
            _ => false,
        },
{
    let ghost args = arguments_text(arguments@);
    let n = arguments.len();
    if n == 1 && !starts_with_dash(&arguments[0]) {
        return Ok(
            StartupOptions {
                database: Some(arguments[0].clone()),
                import_legacy: None,
                release_smoke: None,
                performance_source: None,
                capability_root: None,
                show_licenses: false,
            },
        );
    }
    let mut options = StartupOptions {
        database: None,
        import_legacy: None,
        release_smoke: None,
        performance_source: None,
        capability_root: None,
        show_licenses: false,
    };
    let mut index: usize = 0;
    while index < n
        invariant
            n == arguments@.len(),
            args == arguments_text(arguments@),
            index <= n,
            scan(args, 0, no_options()) == scan(args, index as nat, options@),
            n == 1 ==> args[0].len() > 0 && args[0][0] == '-',
        decreases n - index,
    {
        let flag = &arguments[index];
        assert(args[index as int] == flag@);
        if same_text(flag.as_str(), "--licenses") && !options.show_licenses {
            options.show_licenses = true;
            index = index + 1;
            continue;
        }
        if index + 1 >= n {
            return Err(StartupError::MissingValue(flag.clone()));
        }
        let value = arguments[index + 1].clone();
        assert(args[index + 1] == value@);
        if same_text(flag.as_str(), "--database") && options.database.is_none() {
            options.database = Some(value);
        } else if same_text(flag.as_str(), "--import-legacy") && options.import_legacy.is_none() {
            options.import_legacy = Some(value);
        } else if same_text(flag.as_str(), "--release-self-check") && options.release_smoke.is_none() {
            options.release_smoke = Some(value);
        } else if same_text(flag.as_str(), "--performance-check") && options.performance_source.is_none() {
            options.performance_source = Some(value);
        } else if same_text(flag.as_str(), "--capability-check") && options.capability_root.is_none() {
            options.capability_root = Some(value);
        } else {
            return Err(StartupError::UnknownOption(flag.clone()));
        }
        index = index + 2;
    }
    let checks: usize = (if options.release_smoke.is_some() {
        1usize
    } else {
        0
    }) + (if options.performance_source.is_some() {
        1usize
    } else {
        0
    }) + (if options.capability_root.is_some() {
        1usize
    } else {
        0
    }) + (if options.show_licenses {
        1usize
    } else {
        0
    });
    if checks > 1 || (checks == 1 && (options.database.is_some() || options.import_legacy.is_some())) {
        return Err(StartupError::ExclusiveChecks);
    }
    Ok(options)
}

} // verus!
