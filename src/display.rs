//! What the search and info commands show of the index's packages.
use vstd::prelude::*;
use crate::text::{string_of, string_views};

verus! {

/// The parts joined, with `sep` between each two.
pub open spec fn joined(parts: Seq<Seq<char>>, sep: Seq<char>) -> Seq<char>
    decreases parts.len(),
{
    if parts.len() == 0 {
        Seq::empty()
    } else if parts.len() == 1 {
        parts[0]
    } else {
        joined(parts.drop_last(), sep) + sep + parts.last()
    }
}

/// Joins the parts, with `sep` between each two.
pub fn join(parts: &Vec<String>, sep: &str) -> (r: String)
    ensures
        r@ == joined(string_views(parts@), sep@),
{
    let ghost ps = string_views(parts@);
    let mut s = String::new();
    let mut i: usize = 0;
    while i < parts.len()
        invariant
            i <= parts.len(),
            ps == string_views(parts@),
            s@ == joined(ps.take(i as int), sep@),
        decreases parts.len() - i,
    {
        assert(ps.take(i + 1).drop_last() =~= ps.take(i as int));
        if i > 0 {
            s.append(sep);
        }
        s.append(parts[i].as_str());
        i = i + 1;
        assert(s@ =~= joined(ps.take(i as int), sep@));
    }
    assert(ps.take(i as int) =~= ps);
    s
}

/// The decimal digit of `d`.
pub open spec fn digit(d: nat) -> char {
    ('0' as u32 + d) as char
}

/// The decimal numeral of `n`, without leading zeros.
pub open spec fn decimal(n: nat) -> Seq<char>
    decreases n,
{
    if n < 10 {
        seq![digit(n)]
    } else {
        decimal(n / 10).push(digit(n % 10))
    }
}

fn push_decimal(n: u32, out: &mut Vec<char>)
    ensures
        final(out)@ == old(out)@ + decimal(n as nat),
    decreases n,
{
    if n >= 10 {
        push_decimal(n / 10, out);
    }
    let d: u32 = n % 10;
    let c = ('0' as u32 + d) as u8 as char;
    assert(c == digit(d as nat));
    out.push(c);
}

/// The decimal numeral of `n`.
pub fn decimal_text(n: u32) -> (r: String)
    ensures
        r@ == decimal(n as nat),
{
    let mut cs: Vec<char> = Vec::new();
    push_decimal(n, &mut cs);
    assert(cs@ =~= decimal(n as nat));
    string_of(&cs)
}

/// A package that a search found.
pub struct SearchHit {
    pub name: String,
    pub version: String,
    pub description: Option<String>,
}

/// The text of an optional string, or `dflt` where it is absent.
pub open spec fn or_else(o: Option<String>, dflt: Seq<char>) -> Seq<char> {
    match o {
        Some(s) => s@,
        None => dflt,
    }
}

/// The two lines that show a search hit: `<name> [<version>]`, then its
/// description, indented.
pub open spec fn hit_lines(h: SearchHit) -> Seq<Seq<char>> {
    seq![
        h.name@ + " ["@ + h.version@ + "]"@,
        "    "@ + or_else(h.description, ""@),
    ]
}

/// The lines of all hits, in order.
pub open spec fn hits_lines(hs: Seq<SearchHit>) -> Seq<Seq<char>>
    decreases hs.len(),
{
    if hs.len() == 0 {
        Seq::empty()
    } else {
        hits_lines(hs.drop_last()) + hit_lines(hs.last())
    }
}

fn text_or(o: &Option<String>, dflt: &str) -> (r: String)
    ensures
        r@ == or_else(*o, dflt@),
{
    match o {
        Some(s) => s.clone(),
        None => String::from_str(dflt),
    }
}

fn prefixed(label: &str, body: &str) -> (r: String)
    ensures
        r@ == label@ + body@,
{
    let mut s = String::from_str(label);
    s.append(body);
    s
}

/// The lines that show the hits of a search.
pub fn search_lines(hits: &Vec<SearchHit>) -> (r: Vec<String>)
    ensures
        string_views(r@) == hits_lines(hits@),
{
    let mut r: Vec<String> = Vec::new();
    let mut i: usize = 0;
    while i < hits.len()
        invariant
            i <= hits.len(),
            string_views(r@) == hits_lines(hits@.take(i as int)),
        decreases hits.len() - i,
    {
        assert(hits@.take(i + 1).drop_last() =~= hits@.take(i as int));
        let h = &hits[i];
        let mut first = h.name.clone();
        first.append(" [");
        first.append(h.version.as_str());
        first.append("]");
        let desc = text_or(&h.description, "");
        let second = prefixed("    ", desc.as_str());
        let ghost prev = string_views(r@);
        r.push(first);
        r.push(second);
        assert(string_views(r@) =~= prev + hit_lines(*h));
        i = i + 1;
    }
    assert(hits@.take(i as int) =~= hits@);
    r
}

/// What the info command shows of a package.
pub struct PackageInfo {
    pub name: String,
    pub version: String,
    pub package_base: String,
    pub url: Option<String>,
    pub license: Vec<String>,
    pub num_votes: u32,
    pub maintainer: Option<String>,
    /// Seconds since the Unix epoch.
    pub last_modified: i64,
    pub groups: Vec<String>,
    pub provides: Vec<String>,
    pub replaces: Vec<String>,
    pub conflicts: Vec<String>,
    pub depends: Vec<String>,
    pub opt_depends: Vec<String>,
    pub make_depends: Vec<String>,
    pub check_depends: Vec<String>,
}

/// A labelled line of space-separated items, shown only where there are items.
pub open spec fn list_line(label: Seq<char>, items: Seq<String>) -> Seq<Seq<char>> {
    if items.len() == 0 {
        Seq::empty()
    } else {
        seq![label + joined(string_views(items), " "@)]
    }
}

/// The lines that show a package, with `time` as its last update.
pub open spec fn info_text(p: PackageInfo, time: Seq<char>) -> Seq<Seq<char>> {
    seq![
        p.name@,
        "    version: "@ + p.version@,
        "    AUR url: https://aur.archlinux.org/packages/"@ + p.name@ + "/"@,
        "    git url: https://aur.archlinux.org/"@ + p.package_base@ + ".git"@,
        "    upstream url: "@ + or_else(p.url, "<none>"@),
        "    license: "@ + joined(string_views(p.license@), ", "@),
        "    votes: "@ + decimal(p.num_votes as nat),
        "    maintainer: "@ + or_else(p.maintainer, "<orphaned>"@),
        "    last update: "@ + time,
    ] + list_line("    group: "@, p.groups@) + list_line("    provides: "@, p.provides@)
        + list_line("    replaces: "@, p.replaces@) + list_line("    conflicts: "@, p.conflicts@)
        + seq!["    dependencies: "@ + joined(string_views(p.depends@), " "@)] + list_line(
        "    optional: "@,
        p.opt_depends@,
    ) + list_line("    build deps: "@, p.make_depends@) + list_line(
        "    check deps: "@,
        p.check_depends@,
    )
}

fn push_list_line(r: &mut Vec<String>, label: &str, items: &Vec<String>)
    ensures
        string_views(final(r)@) == string_views(old(r)@) + list_line(label@, items@),
{
    if items.len() > 0 {
        let j = join(items, " ");
        let line = prefixed(label, j.as_str());
        r.push(line);
        assert(string_views(final(r)@) =~= string_views(old(r)@) + list_line(label@, items@));
    } else {
        assert(string_views(final(r)@) =~= string_views(old(r)@) + list_line(label@, items@));
    }
}

/// The lines that show a package, with `time` as the text of its last update.
pub fn info_lines(p: &PackageInfo, time: &str) -> (r: Vec<String>)
    ensures
        string_views(r@) == info_text(*p, time@),
{
    let mut r: Vec<String> = Vec::new();
    r.push(p.name.clone());
    r.push(prefixed("    version: ", p.version.as_str()));
    let mut aur = String::from_str("    AUR url: https://aur.archlinux.org/packages/");
    aur.append(p.name.as_str());
    aur.append("/");
    r.push(aur);
    let mut git = String::from_str("    git url: https://aur.archlinux.org/");
    git.append(p.package_base.as_str());
    git.append(".git");
    r.push(git);
    let url = text_or(&p.url, "<none>");
    r.push(prefixed("    upstream url: ", url.as_str()));
    let lic = join(&p.license, ", ");
    r.push(prefixed("    license: ", lic.as_str()));
    let votes = decimal_text(p.num_votes);
    r.push(prefixed("    votes: ", votes.as_str()));
    let m = text_or(&p.maintainer, "<orphaned>");
    r.push(prefixed("    maintainer: ", m.as_str()));
    r.push(prefixed("    last update: ", time));
    let ghost head = string_views(r@);
    push_list_line(&mut r, "    group: ", &p.groups);
    push_list_line(&mut r, "    provides: ", &p.provides);
    push_list_line(&mut r, "    replaces: ", &p.replaces);
    push_list_line(&mut r, "    conflicts: ", &p.conflicts);
    let deps = join(&p.depends, " ");
    let ghost before_deps = string_views(r@);
    r.push(prefixed("    dependencies: ", deps.as_str()));
    assert(string_views(r@) =~= before_deps + seq!["    dependencies: "@ + joined(string_views(p.depends@), " "@)]);
    push_list_line(&mut r, "    optional: ", &p.opt_depends);
    push_list_line(&mut r, "    build deps: ", &p.make_depends);
    push_list_line(&mut r, "    check deps: ", &p.check_depends);
    assert(string_views(r@) =~= info_text(*p, time@));
    r
}

/// Relies on chrono's `Utc.timestamp_opt` and `DateTime::with_timezone(&Local)`:
/// the moment `secs` seconds after the Unix epoch, shown in the machine's time
/// zone, or `None` where chrono cannot represent that moment. What the text says
/// depends on the machine's zone, so nothing is stated of it.
#[verifier::external_body]
fn local_time(secs: i64) -> (r: Option<String>) {
    match chrono::TimeZone::timestamp_opt(&chrono::Utc, secs, 0) {
        chrono::LocalResult::Single(t) => Some(format!("{}", t.with_timezone(&chrono::Local))),
        _ => None,
    }
}

/// The lines that show a package, with its last update in local time; a moment
/// out of chrono's range is shown as `<out of range>`.
pub fn show_info(p: &PackageInfo) -> (r: Vec<String>)
    ensures
        exists|t: Seq<char>| string_views(r@) == info_text(*p, t),
{
    let time = match local_time(p.last_modified) {
        Some(t) => t,
        None => String::from_str("<out of range>"),
    };
    info_lines(p, time.as_str())
}

} // verus!
