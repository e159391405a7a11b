//! The local inventory: packages by name, read from the package manager's listing.
use vstd::prelude::*;
use vstd::utf8::{decode_utf8, valid_utf8};
use crate::text::{
    chars_of, deep_chars, split_lines, split_tokens, string_of, string_views, text_lines, tokens,
    utf8_text,
};

verus! {

/// A package name with a version.
pub struct Package {
    pub name: String,
    pub version: String,
}

impl View for Package {
    type V = (Seq<char>, Seq<char>);

    open spec fn view(&self) -> (Seq<char>, Seq<char>) {
        (self.name@, self.version@)
    }
}

/// The packages as (name, version) pairs.
pub open spec fn views(s: Seq<Package>) -> Seq<(Seq<char>, Seq<char>)> {
    s.map_values(|p: Package| p@)
}

/// The version that the last entry named `k` gives, if any does.
pub open spec fn latest(s: Seq<(Seq<char>, Seq<char>)>, k: Seq<char>) -> Option<Seq<char>>
    decreases s.len(),
{
    if s.len() == 0 {
        None
    } else if s.last().0 == k {
        Some(s.last().1)
    } else {
        latest(s.drop_last(), k)
    }
}

/// No two entries share a name.
pub open spec fn unique_names(s: Seq<(Seq<char>, Seq<char>)>) -> bool {
    forall|i: int, j: int| 0 <= i < j < s.len() ==> s[i].0 != s[j].0
}

/// In a sequence without repeated names, each entry is the latest of its name,
/// and a name that no entry has has none.
pub proof fn lemma_latest_unique(s: Seq<(Seq<char>, Seq<char>)>, k: Seq<char>)
    requires
        unique_names(s),
    ensures
        forall|i: int| 0 <= i < s.len() && s[i].0 == k ==> latest(s, k) == Some(s[i].1),
        (forall|i: int| 0 <= i < s.len() ==> s[i].0 != k) ==> latest(s, k) is None,
    decreases s.len(),
{
    if s.len() > 0 {
        let t = s.drop_last();
        assert(unique_names(t));
        lemma_latest_unique(t, k);
        assert forall|i: int| 0 <= i < s.len() && s[i].0 == k implies latest(s, k) == Some(
            s[i].1,
        ) by {
            if i < s.len() - 1 {
                assert(t[i] == s[i]);
            }
        }
        if forall|i: int| 0 <= i < s.len() ==> s[i].0 != k {
            assert(s[s.len() - 1].0 != k);
            assert forall|i: int| 0 <= i < t.len() implies t[i].0 != k by {
                assert(t[i] == s[i]);
            }
        }
    }
}

/// Replacing the one entry of a name changes what that name gives, and nothing else.
proof fn lemma_latest_update(
    s: Seq<(Seq<char>, Seq<char>)>,
    j: int,
    p: (Seq<char>, Seq<char>),
    k: Seq<char>,
)
    requires
        unique_names(s),
        0 <= j < s.len(),
        s[j].0 == p.0,
    ensures
        unique_names(s.update(j, p)),
        latest(s.update(j, p), k) == if k == p.0 {
            Some(p.1)
        } else {
            latest(s, k)
        },
    decreases s.len(),
{
    let u = s.update(j, p);
    assert(unique_names(u));
    lemma_latest_unique(u, k);
    lemma_latest_unique(s, k);
    assert(u[j] == p);
    if k != p.0 {
        if exists|i: int| 0 <= i < s.len() && s[i].0 == k {
            let i = choose|i: int| 0 <= i < s.len() && s[i].0 == k;
            assert(u[i] == s[i]);
        } else {
            assert forall|i: int| 0 <= i < u.len() implies u[i].0 != k by {
                if i != j {
                    assert(u[i] == s[i]);
                }
            }
        }
    }
}

/// The place of the entry named `name`, if there is one.
pub fn find_name(s: &Vec<Package>, name: &String) -> (r: Option<usize>)
    ensures
        r matches Some(j) ==> j < s.len() && s@[j as int]@.0 == name@,
        r is None ==> forall|m: int| 0 <= m < s.len() ==> s@[m]@.0 != name@,
{
    let mut j: usize = 0;
    while j < s.len()
        invariant
            j <= s.len(),
            forall|m: int| 0 <= m < j ==> s@[m]@.0 != name@,
        decreases s.len() - j,
    {
        if s[j].name == *name {
            return Some(j);
        }
        j = j + 1;
    }
    None
}

/// A copy of the package.
pub fn copy_package(p: &Package) -> (r: Package)
    ensures
        r@ == p@,
{
    Package { name: p.name.clone(), version: p.version.clone() }
}

/// Keys the packages by name: the result holds each name once, with the
/// version of the last package of that name.
pub fn make_map(input: Vec<Package>) -> (r: Vec<Package>)
    ensures
        unique_names(views(r@)),
        forall|k: Seq<char>| latest(views(r@), k) == latest(views(input@), k),
{
    let ghost orig = views(input@);
    let mut r: Vec<Package> = Vec::new();
    let mut i: usize = 0;
    while i < input.len()
        invariant
            i <= input.len(),
            orig == views(input@),
            unique_names(views(r@)),
            forall|k: Seq<char>| latest(views(r@), k) == latest(orig.take(i as int), k),
        decreases input.len() - i,
    {
        let p = copy_package(&input[i]);
        assert(orig.take(i + 1).drop_last() =~= orig.take(i as int));
        assert(orig.take(i + 1).last() == p@);
        let ghost old_r = views(r@);
        match find_name(&r, &p.name) {
            Some(j) => {
                proof {
                    assert forall|k: Seq<char>|
                        latest(old_r.update(j as int, p@), k) == latest(orig.take(i + 1), k) by {
                        lemma_latest_update(old_r, j as int, p@, k);
                    }
                    lemma_latest_update(old_r, j as int, p@, p@.0);
                }
                r.set(j, p);
                assert(views(r@) =~= old_r.update(j as int, p@));
            },
            None => {
                assert forall|m: int| 0 <= m < old_r.len() implies old_r[m].0 != p@.0 by {
                    assert(old_r[m] == r@[m]@);
                }
                r.push(p);
                assert(views(r@) =~= old_r.push(p@));
                assert(views(r@).drop_last() =~= old_r);
                assert forall|k: Seq<char>|
                    latest(views(r@), k) == latest(orig.take(i + 1), k) by {
                    assert(old_r.push(p@).drop_last() =~= old_r);
                    assert(old_r.push(p@).last() == p@);
                    assert(latest(old_r, k) == latest(orig.take(i as int), k));
                    assert(latest(views(r@), k) == latest(old_r.push(p@), k));
                }
            },
        }
        i = i + 1;
    }
    assert(orig.take(i as int) =~= orig);
    r
}

/// The package that a line names: one made of exactly two tokens, name and version.
pub open spec fn line_entry(l: Seq<char>) -> Option<(Seq<char>, Seq<char>)> {
    let t = tokens(l);
    if t.len() == 2 {
        Some((t[0], t[1]))
    } else {
        None
    }
}

/// The packages that the lines name, in order.
pub open spec fn entries(ls: Seq<Seq<char>>) -> Seq<(Seq<char>, Seq<char>)>
    decreases ls.len(),
{
    if ls.len() == 0 {
        Seq::empty()
    } else {
        match line_entry(ls.last()) {
            Some(p) => entries(ls.drop_last()).push(p),
            None => entries(ls.drop_last()),
        }
    }
}

/// The lines that name no package, in order.
pub open spec fn rejected(ls: Seq<Seq<char>>) -> Seq<Seq<char>>
    decreases ls.len(),
{
    if ls.len() == 0 {
        Seq::empty()
    } else {
        match line_entry(ls.last()) {
            Some(_) => rejected(ls.drop_last()),
            None => rejected(ls.drop_last()).push(ls.last()),
        }
    }
}

/// What a listing holds: the packages it names, and the lines skipped as malformed.
pub struct Inventory {
    pub packages: Vec<Package>,
    pub skipped: Vec<String>,
}

/// Why a run stops.
#[derive(PartialEq, Eq, Structural, Clone, Copy, Debug)]
pub enum Fatal {
    /// The package manager exited with a failure.
    ListingFailed,
    /// The package manager's output is not UTF-8 text.
    NotText,
    /// The package index answered with an error.
    LookupFailed,
}

/// The process exit status after a run that stopped on `f`, or ended well.
pub open spec fn exit_status(f: Option<Fatal>) -> int {
    if f is Some {
        1
    } else {
        0
    }
}

/// The process exit status: 1 after a fatal error, 0 otherwise.
pub fn exit_code(f: Option<Fatal>) -> (r: i32)
    ensures
        r == exit_status(f),
{
    match f {
        Some(_) => 1,
        None => 0,
    }
}

/// What the package manager's run gives: its packages and skipped lines, or why
/// the run stops.
pub open spec fn listing_outcome(success: bool, out: Seq<u8>) -> Result<
    (Seq<(Seq<char>, Seq<char>)>, Seq<Seq<char>>),
    Fatal,
> {
    if !success {
        Err(Fatal::ListingFailed)
    } else if !valid_utf8(out) {
        Err(Fatal::NotText)
    } else {
        let ls = text_lines(decode_utf8(out));
        Ok((entries(ls), rejected(ls)))
    }
}

/// Reads a listing of `name version` lines; other lines are skipped.
pub fn parse_inventory(text: &str) -> (r: Inventory)
    ensures
        views(r.packages@) == entries(text_lines(text@)),
        string_views(r.skipped@) == rejected(text_lines(text@)),
{
    let cs = chars_of(text);
    let lines = split_lines(&cs);
    let ghost ls = deep_chars(lines@);
    let mut packages: Vec<Package> = Vec::new();
    let mut skipped: Vec<String> = Vec::new();
    let mut i: usize = 0;
    while i < lines.len()
        invariant
            i <= lines.len(),
            ls == deep_chars(lines@),
            ls == text_lines(text@),
            views(packages@) == entries(ls.take(i as int)),
            string_views(skipped@) == rejected(ls.take(i as int)),
        decreases lines.len() - i,
    {
        assert(ls.take(i + 1).drop_last() =~= ls.take(i as int));
        assert(ls.take(i + 1).last() == lines@[i as int]@);
        let toks = split_tokens(&lines[i]);
        if toks.len() == 2 {
            let name = string_of(&toks[0]);
            let version = string_of(&toks[1]);
            let ghost prev = views(packages@);
            packages.push(Package { name, version });
            assert(views(packages@) =~= prev.push((name@, version@)));
        } else {
            let line = string_of(&lines[i]);
            let ghost prev = string_views(skipped@);
            skipped.push(line);
            assert(string_views(skipped@) =~= prev.push(line@));
        }
        i = i + 1;
    }
    assert(ls.take(i as int) =~= ls);
    Inventory { packages, skipped }
}

/// Reads the package manager's run: whether it exited well, and what it wrote.
pub fn read_inventory(success: bool, stdout: Vec<u8>) -> (r: Result<Inventory, Fatal>)
    ensures
        r matches Ok(inv) ==> listing_outcome(success, stdout@) == Ok::<_, Fatal>(
            (views(inv.packages@), string_views(inv.skipped@)),
        ),
        r matches Err(e) ==> listing_outcome(success, stdout@) == Err::<
            (Seq<(Seq<char>, Seq<char>)>, Seq<Seq<char>>),
            _,
        >(e),
{
    if !success {
        return Err(Fatal::ListingFailed);
    }
    match utf8_text(stdout) {
        Some(text) => Ok(parse_inventory(text.as_str())),
        None => Err(Fatal::NotText),
    }
}

/// A run whose package manager fails stops with `ListingFailed`, whatever it
/// wrote, so that no comparison is made and the process exits with status 1.
pub proof fn failed_listing_is_fatal(out: Seq<u8>)
    ensures
        listing_outcome(false, out) == Err::<
            (Seq<(Seq<char>, Seq<char>)>, Seq<Seq<char>>),
            _,
        >(Fatal::ListingFailed),
        exit_status(Some(Fatal::ListingFailed)) == 1,
{
}

/// A line of fewer than two tokens is skipped: it names no package, it is
/// recorded as skipped, and the lines after it are still read. A listing of
/// UTF-8 text from a successful run is always read whole.
pub proof fn malformed_line_is_skipped(before: Seq<Seq<char>>, l: Seq<char>, after: Seq<Seq<char>>)
    requires
        tokens(l).len() < 2,
    ensures
        entries(before.push(l) + after) == entries(before) + entries(after),
        rejected(before.push(l) + after) == rejected(before).push(l) + rejected(after),
    decreases after.len(),
{
    if after.len() == 0 {
        assert(before.push(l) + after =~= before.push(l));
        assert(before.push(l).drop_last() =~= before);
        assert(entries(after) =~= Seq::empty());
        assert(rejected(after) =~= Seq::empty());
        assert(entries(before) + entries(after) =~= entries(before));
        assert(rejected(before).push(l) + rejected(after) =~= rejected(before).push(l));
    } else {
        malformed_line_is_skipped(before, l, after.drop_last());
        assert((before.push(l) + after).drop_last() =~= before.push(l) + after.drop_last());
        assert((before.push(l) + after).last() == after.last());
        match line_entry(after.last()) {
            Some(p) => {
                assert(entries(before) + entries(after) =~= (entries(before) + entries(
                    after.drop_last(),
                )).push(p));
            },
            None => {
                assert(rejected(before).push(l) + rejected(after) =~= (rejected(before).push(l)
                    + rejected(after.drop_last())).push(after.last()));
            },
        }
    }
}

/// A successful run that wrote UTF-8 text is never fatal, whatever its lines hold.
pub proof fn text_listing_is_read(out: Seq<u8>)
    requires
        valid_utf8(out),
    ensures
        listing_outcome(true, out) is Ok,
{
}

} // verus!
