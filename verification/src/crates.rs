//! The package as the registry describes it, and the formatters of its
//! fields.

use vstd::prelude::*;
use vstd::string::*;

use crate::document::{
    compact, count_of, element, field, indented_form, is_true, keys_except, keys_of, length_of,
    lemma_part_depth, member_texts, or_null, text_of, texts_of, Json, Tree,
};
use crate::text::{
    debug_list, debug_list_text, decimal, decimal_text, ends_with, indent_lines, indented, label,
    labelled, pad, padded, texts,
};
use crate::timestamp::{Instant, TimeStamp};

verus! {

/// One published version of a package.
#[derive(Debug)]
pub struct Version {
    /// The version number as the registry writes it.
    pub num: String,
    /// When the version was published.
    pub created_at: TimeStamp,
    /// How often the version was downloaded.
    pub downloads: u64,
    /// Whether its publisher withdrew the version.
    pub yanked: bool,
}

/// What marks a withdrawn version at the end of its row.
pub open spec fn yanked_mark() -> Seq<char> {
    "\t\t(yanked)"@
}

/// A row of the version table: three columns of sixteen characters, the mark
/// of a withdrawn version, and a line feed.
pub open spec fn version_row(
    num: Seq<char>,
    released: Seq<char>,
    downloads: u64,
    yanked: bool,
) -> Seq<char> {
    line_of(
        padded(num, 16) + padded(released, 16) + padded(decimal(downloads as nat), 16) + (
        if yanked {
            yanked_mark()
        } else {
            Seq::empty()
        }),
    )
}

/// The head of the version table: the names of the three columns, and an
/// empty line.
pub open spec fn version_header() -> Seq<char> {
    line_of(padded("VERSION"@, 16) + padded("RELEASED"@, 16) + padded("DOWNLOADS"@, 16)) + line_of(
        Seq::empty(),
    )
}

/// The hint below a table that leaves versions out: how many there are, and
/// the flag that shows them all.
pub open spec fn version_footer(total: nat) -> Seq<char> {
    "\n... use -VV to show all "@ + decimal(total) + " versions\n"@
}

impl Version {
    /// Whether this is the version that a place in a document describes,
    /// with nothing for what is missing there or of another kind.
    pub open spec fn describes(self, node: Tree) -> bool {
        &&& self.num@ == node.field("num"@).text()
        &&& self.created_at.instant() == TimeStamp::read_node(node.field("created_at"@))
        &&& self.created_at.placed()
        &&& self.downloads == node.field("downloads"@).count()
        &&& self.yanked == node.field("yanked"@).is_true()
    }

    /// The version's row in a table written at `now`.
    pub open spec fn row(self, now: Instant) -> Seq<char> {
        version_row(self.num@, self.created_at.relative_text(now), self.downloads, self.yanked)
    }

    /// Reads a version from its place in a document.
    pub fn from_json(node: Option<&Json>) -> (version: Version)
        ensures
            version.describes(or_null(node)),
    {
        Version {
            num: text_of(field(node, "num")),
            created_at: TimeStamp::from_json(field(node, "created_at")),
            downloads: count_of(field(node, "downloads")),
            yanked: is_true(field(node, "yanked")),
        }
    }
}

/// The first `count` rows of the table of `versions`.
pub open spec fn version_rows(versions: Seq<Version>, count: int, now: Instant) -> Seq<char>
    decreases count,
{
    if count <= 0 {
        Seq::empty()
    } else {
        version_rows(versions, count - 1, now) + versions[count - 1].row(now)
    }
}

/// How many rows a table of at most `limit` rows has for `total` versions.
pub open spec fn shown(limit: nat, total: nat) -> nat {
    if limit < total {
        limit
    } else {
        total
    }
}

/// The table of `versions`, newest first, cut after `limit` rows. Where rows
/// are left out a hint follows.
pub open spec fn version_table(versions: Seq<Version>, limit: nat, now: Instant) -> Seq<char> {
    version_header() + version_rows(versions, shown(limit, versions.len()) as int, now) + (
    if limit < versions.len() {
        version_footer(versions.len())
    } else {
        Seq::empty()
    })
}

/// Writes the table of `versions`, cut after `limit` rows, as of `now`.
pub fn print_versions(versions: &Vec<Version>, limit: usize, verbose: bool, now: &Instant) -> (out:
    String)
    ensures
        out@ == version_table(versions@, limit as nat, *now),
{
    let mut out = Crate::print_version_header(verbose);
    let total: usize = versions.len();
    let count: usize = if limit < total {
        limit
    } else {
        total
    };
    let mut i: usize = 0;
    while i < count
        invariant
            i <= count <= versions.len(),
            out@ == version_header() + version_rows(versions@, i as int, *now),
        decreases count - i,
    {
        let row = Crate::print_version(&versions[i], verbose, now);
        out.append(row.as_str());
        assert(out@ =~= version_header() + version_rows(versions@, i as int + 1, *now));
        i += 1;
    }
    if limit < total {
        let number = decimal_text(total as u64);
        out.append("\n... use -VV to show all ");
        out.append(number.as_str());
        out.append(" versions\n");
    }
    assert(out@ =~= version_table(versions@, limit as nat, *now));
    out
}

/// What the registry says of a package as a whole.
#[derive(Debug)]
pub struct Krate {
    pub name: String,
    /// The downloads of all versions together.
    pub downloads: u64,
    /// The newest version.
    pub max_version: String,
    pub description: String,
    /// Where the documentation is; where the registry names no place, the
    /// package's page on docs.rs.
    pub documentation: String,
    pub homepage: String,
    pub repository: String,
    /// The licence of the first version that the registry lists.
    pub license: String,
    pub keywords: Vec<String>,
    /// The features that the first listed version declares, without
    /// `default`.
    pub features: Vec<String>,
    /// The features that `default` switches on in the first listed version.
    pub default_features: Vec<String>,
    pub created_at: TimeStamp,
    pub updated_at: TimeStamp,
}

/// A package as the registry describes it.
#[derive(Debug)]
pub struct Crate {
    pub krate: Krate,
    /// The published versions, in the registry's order: newest first.
    pub versions: Vec<Version>,
    /// The keywords with all that the registry says of each: an array.
    pub keywords: Json,
}

/// Where the documentation of every package can be found.
pub open spec fn documentation_base() -> Seq<char> {
    "https://docs.rs/"@
}

/// The place of a package's documentation: the one that the registry names,
/// else the package's page under `documentation_base`.
pub open spec fn documentation_of(krate: Tree) -> Seq<char> {
    if krate.field("documentation"@).text().len() == 0 {
        documentation_base() + krate.field("name"@).text()
    } else {
        krate.field("documentation"@).text()
    }
}

/// A single field: in verbose mode behind its label, in a column of sixteen
/// characters; else bare.
pub open spec fn single(name: Seq<char>, value: Seq<char>, verbose: bool) -> Seq<char> {
    if verbose {
        labelled(name, 16, value)
    } else {
        value
    }
}

fn print_single(name: &str, value: &str, verbose: bool) -> (out: String)
    ensures
        out@ == single(name@, value@, verbose),
{
    if verbose {
        label(name, 16, value)
    } else {
        String::from_str(value)
    }
}

/// A text as a line: with a line feed behind it.
pub open spec fn line_of(text: Seq<char>) -> Seq<char> {
    text + seq!['\n']
}

fn line(out: &mut String, text: &str)
    ensures
        final(out)@ == old(out)@ + line_of(text@),
{
    proof {
        reveal_strlit("\n");
    }
    out.append(text);
    out.append("\n");
    assert(out@ =~= old(out)@ + line_of(text@));
}

impl Krate {
    /// Whether these are the facts that a document states of its package:
    /// under `crate` and in the first of `versions`, with nothing for what is
    /// missing there or of another kind.
    pub open spec fn describes(self, doc: Tree) -> bool {
        let krate = doc.field("crate"@);
        let first = doc.field("versions"@).element(0);
        &&& self.name@ == krate.field("name"@).text()
        &&& self.downloads == krate.field("downloads"@).count()
        &&& self.max_version@ == krate.field("max_version"@).text()
        &&& self.description@ == krate.field("description"@).text()
        &&& self.documentation@ == documentation_of(krate)
        &&& self.homepage@ == krate.field("homepage"@).text()
        &&& self.repository@ == krate.field("repository"@).text()
        &&& self.license@ == first.field("license"@).text()
        &&& texts(self.keywords@) == member_texts(krate.field("keywords"@))
        &&& texts(self.features@) == keys_except(first.field("features"@).entries(), "default"@)
        &&& texts(self.default_features@) == member_texts(
            first.field("features"@).field("default"@),
        )
        &&& self.created_at.instant() == TimeStamp::read_node(krate.field("created_at"@))
        &&& self.created_at.placed()
        &&& self.updated_at.instant() == TimeStamp::read_node(krate.field("updated_at"@))
        &&& self.updated_at.placed()
    }

    /// Reads the facts of a package from the registry's answer.
    pub fn new(json: &Json) -> (krate: Krate)
        ensures
            krate.describes(json@),
    {
        let doc = Some(json);
        let crate_jv = field(doc, "crate");
        let first = element(field(doc, "versions"), 0);
        let name = text_of(field(crate_jv, "name"));
        let given = text_of(field(crate_jv, "documentation"));
        let documentation = if given.as_str().unicode_len() == 0 {
            let mut place = String::from_str("https://docs.rs/");
            place.append(name.as_str());
            place
        } else {
            given
        };
        Krate {
            name,
            downloads: count_of(field(crate_jv, "downloads")),
            max_version: text_of(field(crate_jv, "max_version")),
            description: text_of(field(crate_jv, "description")),
            documentation,
            homepage: text_of(field(crate_jv, "homepage")),
            repository: text_of(field(crate_jv, "repository")),
            license: text_of(field(first, "license")),
            keywords: texts_of(field(crate_jv, "keywords")),
            features: keys_of(field(first, "features"), "default"),
            default_features: texts_of(field(field(first, "features"), "default")),
            created_at: TimeStamp::from_json(field(crate_jv, "created_at")),
            updated_at: TimeStamp::from_json(field(crate_jv, "updated_at")),
        }
    }

    /// What a full record says of the package by name: the name itself, and
    /// the package's page at the registry.
    pub open spec fn title(self) -> Seq<char> {
        self.name@ + " (https://crates.io/crates/"@ + self.name@ + ")"@
    }

    /// The lines that every full record starts with, one fact on each. The
    /// four facts that can be asked for one by one stand as they do then, in
    /// a column of sixteen characters; the labels of the others fill
    /// eighteen.
    pub open spec fn summary(self) -> Seq<char> {
        line_of(labelled("Crate:"@, 18, self.title())) + line_of(
            labelled("Version:"@, 18, self.max_version@),
        ) + line_of(labelled("Default features:"@, 18, debug_list(texts(self.default_features@))))
            + line_of(labelled("Features:"@, 18, debug_list(texts(self.features@)))) + line_of(
            labelled("Description:"@, 18, self.description@),
        ) + line_of(single("Downloads:"@, decimal(self.downloads as nat), true)) + line_of(
            single("Homepage:"@, self.homepage@, true),
        ) + line_of(single("Documentation:"@, self.documentation@, true)) + line_of(
            single("Repository:"@, self.repository@, true),
        ) + line_of(labelled("License:"@, 18, self.license@)) + line_of(
            labelled("Keywords:"@, 18, debug_list(texts(self.keywords@))),
        )
    }

    /// A date both ways: local time, and behind it in brackets how long ago
    /// that was at `now`.
    pub open spec fn date_line(name: Seq<char>, date: TimeStamp, now: Instant) -> Seq<char> {
        labelled(name, 18, date.absolute_text() + "  ("@ + date.relative_text(now) + ")"@)
    }

    /// The end of a verbose record: when the package was created and when it
    /// was last updated.
    pub open spec fn dates(self, now: Instant) -> Seq<char> {
        line_of(Self::date_line("Created at:"@, self.created_at, now)) + Self::date_line(
            "Updated at:"@,
            self.updated_at,
            now,
        )
    }

    /// Writes the lines that every full record starts with.
    pub fn print_summary(&self) -> (out: String)
        ensures
            out@ == self.summary(),
    {
        let mut out = String::new();
        let mut title = self.name.clone();
        title.append(" (https://crates.io/crates/");
        title.append(self.name.as_str());
        title.append(")");
        let text = label("Crate:", 18, title.as_str());
        line(&mut out, text.as_str());
        let text = label("Version:", 18, self.max_version.as_str());
        line(&mut out, text.as_str());
        let list = debug_list_text(&self.default_features);
        let text = label("Default features:", 18, list.as_str());
        line(&mut out, text.as_str());
        let list = debug_list_text(&self.features);
        let text = label("Features:", 18, list.as_str());
        line(&mut out, text.as_str());
        let text = label("Description:", 18, self.description.as_str());
        line(&mut out, text.as_str());
        let number = decimal_text(self.downloads);
        let text = print_single("Downloads:", number.as_str(), true);
        line(&mut out, text.as_str());
        let text = print_single("Homepage:", self.homepage.as_str(), true);
        line(&mut out, text.as_str());
        let text = print_single("Documentation:", self.documentation.as_str(), true);
        line(&mut out, text.as_str());
        let text = print_single("Repository:", self.repository.as_str(), true);
        line(&mut out, text.as_str());
        let text = label("License:", 18, self.license.as_str());
        line(&mut out, text.as_str());
        let list = debug_list_text(&self.keywords);
        let text = label("Keywords:", 18, list.as_str());
        line(&mut out, text.as_str());
        assert(out@ =~= self.summary());
        out
    }

    fn print_date(name: &str, date: &TimeStamp, now: &Instant) -> (out: String)
        ensures
            out@ == Self::date_line(name@, *date, *now),
    {
        let mut both = date.absolute();
        let relative = date.relative(now);
        both.append("  (");
        both.append(relative.as_str());
        both.append(")");
        label(name, 18, both.as_str())
    }

    /// Writes the end of a verbose record.
    pub fn print_dates(&self, now: &Instant) -> (out: String)
        ensures
            out@ == self.dates(*now),
    {
        let mut out = Self::print_date("Created at:", &self.created_at, now);
        let updated = Self::print_date("Updated at:", &self.updated_at, now);
        proof {
            reveal_strlit("\n");
        }
        out.append("\n");
        out.append(updated.as_str());
        assert(out@ =~= self.dates(*now));
        out
    }
}

impl Crate {
    /// Whether this is the package that a document describes: the facts
    /// under `crate`, a version for each member of `versions`, and the
    /// members of `keywords`, with nothing for what is missing or of another
    /// kind.
    pub open spec fn describes(self, doc: Tree) -> bool {
        &&& self.krate.describes(doc)
        &&& self.versions@.len() == doc.field("versions"@).members().len()
        &&& forall|i: int|
            0 <= i < self.versions@.len() ==> (#[trigger] self.versions@[i]).describes(
                doc.field("versions"@).members()[i],
            )
        &&& self.keywords@ == Tree::Array(doc.field("keywords"@).members())
    }

    /// Whether the keywords can be written over several lines: they are not
    /// too deep for an indentation of four spaces.
    pub open spec fn printable(self) -> bool {
        self.keywords@.fits(4)
    }

    /// Reads a package from the registry's answer. Nothing in the answer is
    /// an error: what is missing or of another kind reads as empty.
    pub fn new(json: &Json) -> (package: Crate)
        ensures
            package.describes(json@),
            package.keywords@.depth() <= json@.depth(),
    {
        let doc = Some(json);
        let listed = field(doc, "versions");
        let n: usize = length_of(listed);
        let mut versions: Vec<Version> = Vec::new();
        let mut i: usize = 0;
        while i < n
            invariant
                i <= n,
                n == or_null(listed).members().len(),
                versions@.len() == i,
                forall|j: int|
                    0 <= j < i ==> (#[trigger] versions@[j]).describes(
                        or_null(listed).members()[j],
                    ),
            decreases n - i,
        {
            let version = Version::from_json(element(listed, i));
            versions.push(version);
            i += 1;
        }
        let keywords = match field(doc, "keywords") {
            Some(found) => match found {
                Json::Array(_) => found.duplicate(),
                _ => Json::Array(Vec::new()),
            },
            None => Json::Array(Vec::new()),
        };
        assert(keywords@ == Tree::Array(json@.field("keywords"@).members()));
        proof {
            lemma_part_depth(json@, "keywords"@, 0);
            lemma_part_depth(json@.field("keywords"@), "keywords"@, 0);
        }
        Crate { krate: Krate::new(json), versions, keywords }
    }

    /// The repository, as a single field.
    pub open spec fn repository_text(self, verbose: bool) -> Seq<char> {
        single("Repository:"@, self.krate.repository@, verbose)
    }

    /// The place of the documentation, as a single field.
    pub open spec fn documentation_text(self, verbose: bool) -> Seq<char> {
        single("Documentation:"@, self.krate.documentation@, verbose)
    }

    /// The number of downloads, as a single field.
    pub open spec fn downloads_text(self, verbose: bool) -> Seq<char> {
        single("Downloads:"@, decimal(self.krate.downloads as nat), verbose)
    }

    /// The home page, as a single field.
    pub open spec fn homepage_text(self, verbose: bool) -> Seq<char> {
        single("Homepage:"@, self.krate.homepage@, verbose)
    }

    /// The keywords as JSON: in verbose mode over several lines, indented by
    /// four spaces, else on one line.
    pub open spec fn keywords_text(self, verbose: bool) -> Seq<char> {
        if verbose {
            indented_form(self.keywords@, 4)
        } else {
            compact(self.keywords@)
        }
    }

    /// The table of the newest `limit` versions as of `now`.
    pub open spec fn versions_text(self, limit: nat, now: Instant) -> Seq<char> {
        version_table(self.versions@, limit, now)
    }

    /// The end of a terse record: how long ago the package was updated, and
    /// the table of its five newest versions, indented.
    pub open spec fn history(self, now: Instant) -> Seq<char> {
        line_of(labelled("Last updated:"@, 18, self.krate.updated_at.relative_text(now)))
            + line_of(padded("Version history:"@, 18)) + line_of(
            indented(self.versions_text(5, now), 0),
        )
    }

    /// The full record: the summary, and then in the alternate form the two
    /// dates, else the history.
    pub open spec fn record(self, alternate: bool, now: Instant) -> Seq<char> {
        self.krate.summary() + (if alternate {
            self.krate.dates(now)
        } else {
            self.history(now)
        })
    }

    /// Writes the row of a version in a table written at `now`.
    pub fn print_version(version: &Version, _verbose: bool, now: &Instant) -> (out: String)
        ensures
            out@ == version.row(*now),
    {
        let released = version.created_at.relative(now);
        let downloads = decimal_text(version.downloads);
        let mut out = pad(version.num.as_str(), 16);
        let second = pad(released.as_str(), 16);
        let third = pad(downloads.as_str(), 16);
        out.append(second.as_str());
        out.append(third.as_str());
        proof {
            reveal_strlit("\n");
        }
        if version.yanked {
            out.append("\t\t(yanked)");
        }
        out.append("\n");
        assert(out@ =~= version.row(*now));
        out
    }

    /// Writes the head of the version table.
    pub fn print_version_header(_verbose: bool) -> (out: String)
        ensures
            out@ == version_header(),
    {
        let mut out = pad("VERSION", 16);
        let second = pad("RELEASED", 16);
        let third = pad("DOWNLOADS", 16);
        out.append(second.as_str());
        out.append(third.as_str());
        proof {
            reveal_strlit("\n");
        }
        out.append("\n");
        out.append("\n");
        assert(out@ =~= version_header());
        out
    }

    /// Writes the repository: in verbose mode behind its label, else bare.
    pub fn print_repository(&self, verbose: bool) -> (out: String)
        ensures
            out@ == self.repository_text(verbose),
    {
        print_single("Repository:", self.krate.repository.as_str(), verbose)
    }

    /// Writes the place of the documentation: in verbose mode behind its
    /// label, else bare.
    pub fn print_documentation(&self, verbose: bool) -> (out: String)
        ensures
            out@ == self.documentation_text(verbose),
    {
        print_single("Documentation:", self.krate.documentation.as_str(), verbose)
    }

    /// Writes the number of downloads: in verbose mode behind its label, else
    /// bare.
    pub fn print_downloads(&self, verbose: bool) -> (out: String)
        ensures
            out@ == self.downloads_text(verbose),
    {
        let number = decimal_text(self.krate.downloads);
        print_single("Downloads:", number.as_str(), verbose)
    }

    /// Writes the home page: in verbose mode behind its label, else bare.
    pub fn print_homepage(&self, verbose: bool) -> (out: String)
        ensures
            out@ == self.homepage_text(verbose),
    {
        print_single("Homepage:", self.krate.homepage.as_str(), verbose)
    }

    /// Writes the table of the newest `limit` versions as of `now`.
    pub fn print_last_versions_at(&self, limit: usize, verbose: bool, now: &Instant) -> (out:
        String)
        ensures
            out@ == self.versions_text(limit as nat, *now),
    {
        print_versions(&self.versions, limit, verbose, now)
    }

    /// Writes the table of the newest `limit` versions as of the time that
    /// the clock shows.
    pub fn print_last_versions(&self, limit: usize, verbose: bool) -> (out: String)
        ensures
            exists|now: Instant| out@ == #[trigger] self.versions_text(limit as nat, now),
    {
        let now = Instant::now();
        self.print_last_versions_at(limit, verbose, &now)
    }

    /// Writes the keywords as JSON: in verbose mode over several lines, else
    /// on one.
    pub fn print_keywords(&self, verbose: bool) -> (out: String)
        requires
            verbose ==> self.printable(),
        ensures
            out@ == self.keywords_text(verbose),
    {
        if verbose {
            self.keywords.pretty(4)
        } else {
            self.keywords.dump()
        }
    }

    /// Writes the full record as of `now`.
    pub fn render_at(&self, alternate: bool, now: &Instant) -> (out: String)
        ensures
            out@ == self.record(alternate, *now),
    {
        let mut out = self.krate.print_summary();
        if alternate {
            let dates = self.krate.print_dates(now);
            out.append(dates.as_str());
        } else {
            let updated = self.krate.updated_at.relative(now);
            let text = label("Last updated:", 18, updated.as_str());
            line(&mut out, text.as_str());
            let text = pad("Version history:", 18);
            line(&mut out, text.as_str());
            let table = self.print_last_versions_at(5, false, now);
            let history = indent_lines(table.as_str());
            line(&mut out, history.as_str());
            assert(out@ =~= self.record(alternate, *now));
        }
        out
    }

    /// Writes the full record as of the time that the clock shows.
    pub fn render(&self, alternate: bool) -> (out: String)
        ensures
            exists|now: Instant| out@ == #[trigger] self.record(alternate, now),
    {
        let now = Instant::now();
        self.render_at(alternate, &now)
    }
}

/// Where the registry names no place for the documentation, the package's
/// documentation is its page on docs.rs: the base and the package's name.
pub proof fn lemma_documentation_default(package: Crate, doc: Tree)
    requires
        package.describes(doc),
        doc.field("crate"@).field("documentation"@) is Null,
    ensures
        package.krate.documentation@ == documentation_base() + package.krate.name@,
        package.documentation_text(false) == documentation_base() + doc.field("crate"@).field(
            "name"@,
        ).text(),
{
}

/// The row of a version that is read from a document ends with the mark of a
/// withdrawn version if and only if the document holds `true` under
/// `yanked`: not where it holds `false`, something else, or nothing.
pub proof fn lemma_yanked_field(version: Version, node: Tree, now: Instant)
    requires
        version.describes(node),
    ensures
        ends_with(version.row(now), yanked_mark() + seq!['\n']) <==> node.field("yanked"@)
            == Tree::Boolean(true),
{
    lemma_yanked_mark(
        version.num@,
        version.created_at.relative_text(now),
        version.downloads,
        version.yanked,
    );
}

/// The last character of a number in decimal is a digit.
proof fn lemma_decimal_ends_in_digit(n: nat)
    ensures
        decimal(n).len() > 0,
        decimal(n).last() == crate::text::digit(n % 10),
    decreases n,
{
    if n >= 10 {
        lemma_decimal_ends_in_digit(n / 10);
    }
}

/// The row of a version ends with the mark of a withdrawn version, before
/// its line feed, if and only if the version is withdrawn.
pub proof fn lemma_yanked_mark(num: Seq<char>, released: Seq<char>, downloads: u64, yanked: bool)
    ensures
        ends_with(version_row(num, released, downloads, yanked), yanked_mark() + seq!['\n'])
            <==> yanked,
{
    reveal_strlit("\t\t(yanked)");
    let row = version_row(num, released, downloads, yanked);
    let tail = yanked_mark() + seq!['\n'];
    let count = padded(decimal(downloads as nat), 16);
    let front = padded(num, 16) + padded(released, 16) + count;
    lemma_decimal_ends_in_digit(downloads as nat);
    assert(tail.len() == 11 && tail[9] == ')');
    if yanked {
        assert(row =~= front + tail);
        assert(row.subrange(row.len() - tail.len(), row.len() as int) =~= tail);
    } else {
        assert(row =~= front + seq!['\n']);
        assert(count.last() != ')');
        if ends_with(row, tail) {
            assert(row.subrange(row.len() - 11, row.len() as int)[9] == count.last());
        }
    }
}

} // verus!
