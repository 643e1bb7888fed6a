//! What a query prints: the choice that the flags make among the formatters.

use vstd::prelude::*;
use vstd::string::*;

use crate::args::Args;
use crate::crates::{shown, version_footer, version_header, version_rows, Crate};
use crate::document::{countable, parsed, reindent, reindented, Json};
use crate::errors::Error;
use crate::timestamp::Instant;

verus! {

/// A part of the report that a flag asks for.
#[derive(Debug, Clone, Copy, PartialEq, Eq, Structural)]
pub enum Flag {
    Repository,
    Documentation,
    Downloads,
    Homepage,
    /// The full record, where no single field is asked for.
    Default,
}

/// What to report of each package.
#[derive(Debug)]
pub struct Report {
    /// The parts to print, in the order in which they are printed.
    pub flags: Vec<Flag>,
    pub verbose: bool,
    /// Whether the registry's answer is reported as it came.
    pub json: bool,
    /// How many versions the history shows at most; zero for no history.
    pub versions: usize,
    pub keywords: bool,
}

/// The single fields that the flags ask for, in the order repository,
/// documentation, downloads, home page.
pub open spec fn fields(args: Args) -> Seq<Flag> {
    (if args.repository {
        seq![Flag::Repository]
    } else {
        Seq::empty()
    }) + (if args.documentation {
        seq![Flag::Documentation]
    } else {
        Seq::empty()
    }) + (if args.downloads {
        seq![Flag::Downloads]
    } else {
        Seq::empty()
    }) + (if args.homepage {
        seq![Flag::Homepage]
    } else {
        Seq::empty()
    })
}

/// The parts of the report: the single fields that were asked for, else the
/// full record.
pub open spec fn parts(args: Args) -> Seq<Flag> {
    if fields(args).len() == 0 {
        seq![Flag::Default]
    } else {
        fields(args)
    }
}

/// How many versions the history shows at most where it was asked for
/// `occurrences` times: none, the five newest, or all.
pub open spec fn history_depth(occurrences: u8) -> usize {
    if occurrences == 0 {
        0
    } else if occurrences == 1 {
        5
    } else {
        usize::MAX
    }
}

/// Whether the registry's answer is a document that can be read: a JSON
/// text, without more digits in a row than the reader can count.
pub open spec fn readable(body: &str) -> bool {
    countable(body.spec_bytes()) && parsed(body@) is Some
}

/// What one part of the report holds.
pub open spec fn part_text(package: Crate, flag: Flag, verbose: bool, now: Instant) -> Seq<char> {
    match flag {
        Flag::Repository => package.repository_text(verbose),
        Flag::Documentation => package.documentation_text(verbose),
        Flag::Downloads => package.downloads_text(verbose),
        Flag::Homepage => package.homepage_text(verbose),
        Flag::Default => package.record(verbose, now),
    }
}

/// The first `count` parts of a report, one behind the other.
pub open spec fn parts_text(
    package: Crate,
    flags: Seq<Flag>,
    count: int,
    verbose: bool,
    now: Instant,
) -> Seq<char>
    decreases count,
{
    if count <= 0 {
        Seq::empty()
    } else {
        parts_text(package, flags, count - 1, verbose, now) + part_text(
            package,
            flags[count - 1],
            verbose,
            now,
        )
    }
}

/// Writes the full record of a package as of `now`: in verbose mode in its
/// alternate form.
pub fn reportv_at(krate: &Crate, verbose: bool, now: &Instant) -> (out: String)
    ensures
        out@ == krate.record(verbose, *now),
{
    krate.render_at(verbose, now)
}

/// Writes the full record of a package as of the time that the clock shows.
pub fn reportv(krate: &Crate, verbose: bool) -> (out: String)
    ensures
        exists|now: Instant| out@ == #[trigger] krate.record(verbose, now),
{
    let now = Instant::now();
    reportv_at(krate, verbose, &now)
}

impl Report {
    /// The parts that the report of a package consists of.
    pub open spec fn crate_text(self, package: Crate, now: Instant) -> Seq<char> {
        parts_text(package, self.flags@, self.flags@.len() as int, self.verbose, now)
    }

    /// The version history of at most `limit` rows; nothing for no rows.
    pub open spec fn versions_text(self, package: Crate, limit: nat, now: Instant) -> Seq<char> {
        if limit > 0 {
            package.versions_text(limit, now)
        } else {
            Seq::empty()
        }
    }

    /// The keywords.
    pub open spec fn keywords_text(self, package: Crate) -> Seq<char> {
        package.keywords_text(self.verbose)
    }

    /// What is reported of a package: the version history where one was
    /// asked for, else the keywords where they were, else the parts.
    pub open spec fn answer(self, package: Crate, now: Instant) -> Seq<char> {
        if self.versions > 0 {
            self.versions_text(package, self.versions as nat, now)
        } else if self.keywords {
            self.keywords_text(package)
        } else {
            self.crate_text(package, now)
        }
    }

    /// What is reported of the registry's answer as it came: in verbose mode
    /// the document that it is, written anew and indented by two spaces; else
    /// nothing.
    pub open spec fn raw_text(self, body: Seq<char>) -> Seq<char> {
        if self.verbose {
            reindented(body, 2).unwrap()
        } else {
            Seq::empty()
        }
    }

    /// Whether `text` is what is reported of the registry's answer at `now`:
    /// the raw answer where that was asked for, else the answer for the
    /// package that the answer describes.
    pub open spec fn reports(self, body: Seq<char>, now: Instant, text: Seq<char>) -> bool {
        if self.json {
            text == self.raw_text(body)
        } else {
            exists|package: Crate|
                package.describes(parsed(body).unwrap()) && text == #[trigger] self.answer(
                    package,
                    now,
                )
        }
    }

    /// Turns the flags of a query into what to report.
    pub fn new(args: &Args) -> (report: Report)
        ensures
            report.flags@ == parts(*args),
            report.verbose == args.verbose,
            report.json == args.json,
            report.versions == history_depth(args.versions),
            report.keywords == args.keywords,
    {
        let mut flags: Vec<Flag> = Vec::new();
        if args.repository {
            flags.push(Flag::Repository);
        }
        if args.documentation {
            flags.push(Flag::Documentation);
        }
        if args.downloads {
            flags.push(Flag::Downloads);
        }
        if args.homepage {
            flags.push(Flag::Homepage);
        }
        assert(flags@ =~= fields(*args));
        if flags.len() == 0 {
            flags.push(Flag::Default);
        }
        assert(flags@ =~= parts(*args));
        let versions: usize = if args.versions == 0 {
            0
        } else if args.versions == 1 {
            5
        } else {
            usize::MAX
        };
        Report { flags, verbose: args.verbose, json: args.json, versions, keywords: args.keywords }
    }

    /// Reports on the registry's answer to a query, as of `now`.
    pub fn report_at(&self, body: &str, now: &Instant) -> (r: Result<String, Error>)
        ensures
            match r {
                Ok(text) => readable(body) && self.reports(body@, *now, text@),
                Err(e) => !readable(body) && e is Json,
            },
    {
        if self.json && self.verbose {
            return reindent(body, 2);
        }
        let doc = match Json::parse(body) {
            Ok(doc) => doc,
            Err(e) => {
                return Err(e);
            },
        };
        if self.json {
            return Ok(String::new());
        }
        let krate = Crate::new(&doc);
        let out = if self.versions > 0 {
            self.report_versions_at(&krate, self.versions, now)
        } else if self.keywords {
            self.report_keywords(&krate)
        } else {
            self.report_crate_at(&krate, now)
        };
        assert(out@ == self.answer(krate, *now));
        Ok(out)
    }

    /// Reports on the registry's answer to a query, as of the time that the
    /// clock shows.
    pub fn report(&self, body: &str) -> (r: Result<String, Error>)
        ensures
            match r {
                Ok(text) => readable(body) && exists|now: Instant| #[trigger]
                    self.reports(body@, now, text@),
                Err(e) => !readable(body) && e is Json,
            },
    {
        let now = Instant::now();
        self.report_at(body, &now)
    }

    /// Writes the parts of the report of a package as of `now`.
    pub fn report_crate_at(&self, krate: &Crate, now: &Instant) -> (out: String)
        ensures
            out@ == self.crate_text(*krate, *now),
    {
        let mut out = String::new();
        let mut i: usize = 0;
        while i < self.flags.len()
            invariant
                i <= self.flags.len(),
                out@ == parts_text(*krate, self.flags@, i as int, self.verbose, *now),
            decreases self.flags.len() - i,
        {
            let part = match self.flags[i] {
                Flag::Repository => krate.print_repository(self.verbose),
                Flag::Documentation => krate.print_documentation(self.verbose),
                Flag::Downloads => krate.print_downloads(self.verbose),
                Flag::Homepage => krate.print_homepage(self.verbose),
                Flag::Default => reportv_at(krate, self.verbose, now),
            };
            out.append(part.as_str());
            i += 1;
        }
        out
    }

    /// Writes the parts of the report of a package as of the time that the
    /// clock shows.
    pub fn report_crate(&self, krate: &Crate) -> (out: String)
        ensures
            exists|now: Instant| out@ == #[trigger] self.crate_text(*krate, now),
    {
        let now = Instant::now();
        self.report_crate_at(krate, &now)
    }

    /// Writes the version history of at most `limit` rows as of `now`.
    pub fn report_versions_at(&self, krate: &Crate, limit: usize, now: &Instant) -> (out: String)
        ensures
            out@ == self.versions_text(*krate, limit as nat, *now),
    {
        if limit > 0 {
            krate.print_last_versions_at(limit, self.verbose, now)
        } else {
            String::new()
        }
    }

    /// Writes the version history of at most `limit` rows as of the time that
    /// the clock shows.
    pub fn report_versions(&self, krate: &Crate, limit: usize) -> (out: String)
        ensures
            exists|now: Instant| out@ == #[trigger] self.versions_text(*krate, limit as nat, now),
    {
        let now = Instant::now();
        self.report_versions_at(krate, limit, &now)
    }

    /// Writes the keywords.
    pub fn report_keywords(&self, krate: &Crate) -> (out: String)
        requires
            self.verbose ==> krate.printable(),
        ensures
            out@ == self.keywords_text(*krate),
    {
        krate.print_keywords(self.verbose)
    }
}

/// The parts of a report are never none, and none comes twice: either they
/// are single fields, each once, or the full record alone.
pub proof fn lemma_parts_are_a_set(args: Args)
    ensures
        parts(args).len() >= 1,
        forall|i: int, j: int|
            0 <= i < j < parts(args).len() ==> parts(args)[i] != parts(args)[j],
        parts(args).contains(Flag::Default) <==> !args.repository && !args.documentation
            && !args.downloads && !args.homepage,
        parts(args).contains(Flag::Default) ==> parts(args) == seq![Flag::Default],
{
    let picked = fields(args);
    if picked.len() == 0 {
        assert(parts(args)[0] == Flag::Default);
    } else {
        assert(args.repository || args.documentation || args.downloads || args.homepage);
        assert(forall|i: int| 0 <= i < picked.len() ==> picked[i] != Flag::Default);
    }
}

/// The version history by how often it was asked for. Never: nothing is
/// written. Once: the head, the rows of the five newest versions, or of all
/// where there are no more, and the hint if and only if there are more than
/// five. Twice or more often: the head and the rows of all versions, without
/// a hint.
pub proof fn lemma_version_depth(args: Args, report: Report, package: Crate, now: Instant)
    requires
        report.versions == history_depth(args.versions),
    ensures
        args.versions == 0 ==> report.versions_text(package, report.versions as nat, now)
            == Seq::<char>::empty(),
        args.versions == 1 ==> shown(5, package.versions@.len()) <= 5 && report.versions_text(
            package,
            report.versions as nat,
            now,
        ) == version_header() + version_rows(
            package.versions@,
            shown(5, package.versions@.len()) as int,
            now,
        ) + (if package.versions@.len() > 5 {
            version_footer(package.versions@.len())
        } else {
            Seq::empty()
        }),
        args.versions >= 2 ==> report.versions_text(package, report.versions as nat, now)
            == version_header() + version_rows(
            package.versions@,
            package.versions@.len() as int,
            now,
        ),
{
    assert(package.versions@.len() == package.versions.len());
    if args.versions >= 2 {
        assert(report.versions_text(package, report.versions as nat, now) =~= version_header()
            + version_rows(package.versions@, package.versions@.len() as int, now));
    }
}

} // verus!
